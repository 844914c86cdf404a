use zerolaunch::pipeline::optimizer_order;
use zerolaunch::candidates::ExecutionTarget;
use zerolaunch::pipeline::{bias_key, merged_keywords, optimizer_inputs};
use zerolaunch::pipeline::{deduplicate_keywords, select_engine};
use zerolaunch::pipeline::{find_configurable, ComponentSlot};

#[test]
fn test_build_search_pipeline_deterministic_selection() {
    let engines = vec![
        (20u32, "z-engine".to_string()),
        (20u32, "a-engine".to_string()),
        (10u32, "b-engine".to_string()),
    ];
    let k = select_engine(&engines).expect("存在启用的搜索引擎");
    assert_eq!(engines[k].1, "b-engine", "priority 最小者优先");

    let engines2 = vec![(5u32, "z-engine".to_string()), (5u32, "a-engine".to_string())];
    let k2 = select_engine(&engines2).expect("存在启用的搜索引擎");
    assert_eq!(engines2[k2].1, "a-engine", "同 priority 按 component_id 字典序");
}

#[test]
fn no_engine_when_none_is_enabled() {
    assert_eq!(select_engine(&[]), None);
    let reversed = vec![(5u32, "a-engine".to_string()), (5u32, "ab".to_string()), (5u32, "Z".to_string())];
    assert_eq!(reversed[select_engine(&reversed).unwrap()].1, "Z");
}

#[test]
fn keywords_keep_first_occurrence_order() {
    let out = deduplicate_keywords(vec![
        "b".to_string(),
        "a".to_string(),
        "b".to_string(),
        "c".to_string(),
        "a".to_string(),
    ]);
    assert_eq!(out, vec!["b".to_string(), "a".to_string(), "c".to_string()]);
    assert!(deduplicate_keywords(vec![]).is_empty());
}

#[test]
fn optimizers_run_by_priority_then_insertion_order() {
    assert_eq!(optimizer_order(&[30, 10, 20, 10]), vec![1, 3, 2, 0]);
    assert!(optimizer_order(&[]).is_empty());
}

#[test]
fn keywords_are_merged_and_bias_keys_lowercased() {
    let merged = merged_keywords(
        vec!["own".to_string(), "x".to_string()],
        vec!["x".to_string(), "名".to_string()],
        vec![vec!["inj".to_string()], vec!["own".to_string(), "z".to_string()]],
    );
    assert_eq!(merged, vec!["own", "x", "名", "inj", "z"]);
    assert_eq!(bias_key(&ExecutionTarget::Path("C:\\Program Files\\App.EXE".to_string())), "c:\\program files\\app.exe");
    assert_eq!(optimizer_inputs("Name", &["a".to_string(), "b".to_string()], true), vec!["a", "b"]);
    assert_eq!(optimizer_inputs("Name", &["a".to_string()], false), vec!["Name"]);
}

#[test]
fn configurable_components_are_found_sources_first() {
    let sources = vec!["apps".to_string(), "shared".to_string()];
    let optimizers = vec!["pinyin".to_string(), "shared".to_string()];
    let injectors = vec!["alias".to_string(), "pinyin".to_string()];
    assert_eq!(find_configurable(&sources, &optimizers, &injectors, "shared"), Some(ComponentSlot::Source(1)));
    assert_eq!(find_configurable(&sources, &optimizers, &injectors, "pinyin"), Some(ComponentSlot::Optimizer(0)));
    assert_eq!(find_configurable(&sources, &optimizers, &injectors, "alias"), Some(ComponentSlot::Injector(0)));
    assert_eq!(find_configurable(&sources, &optimizers, &injectors, "none"), None);
}
