use zerolaunch::candidates::{wake_actions, wake_target, ExecutionError, TargetType};
use zerolaunch::candidates::{
    CachedCandidateData, CandidateCacheSnapshot, ExecutionTarget, IconRequest, SearchCandidate,
};

fn sample_candidate(i: u64) -> SearchCandidate {
    SearchCandidate {
        id: i,
        name: format!("候选{}", i),
        icon: IconRequest::Path(format!("C:\\item{}.exe", i)),
        target: ExecutionTarget::Path(format!("C:\\item{}.exe", i)),
        keywords: vec!["kw".into()],
        bias_bits: 0.0f64.to_bits(),
        trigger_keywords: Vec::new(),
    }
}

fn target_text(t: &ExecutionTarget) -> (u8, String) {
    match t {
        ExecutionTarget::Path(s) => (0, s.clone()),
        ExecutionTarget::Url(s) => (1, s.clone()),
        ExecutionTarget::Plugin(s) => (2, s.clone()),
    }
}

#[test]
fn test_snapshot_roundtrip() {
    let mut cache = CachedCandidateData::new();
    for i in 1..=10u64 {
        cache.add_candidate(sample_candidate(i));
    }
    let mut restored = CachedCandidateData::from_data(cache.to_data());
    assert_eq!(restored.get_candidates().len(), 10);
    for i in 1..=10u64 {
        let c = restored.get_candidate(i).expect("id 保真");
        assert_eq!(c.name, format!("候选{}", i));
        assert_eq!(target_text(&c.target), (0, format!("C:\\item{}.exe", i)));
    }
    restored.add_candidate(sample_candidate(0));
    assert_eq!(restored.get_candidates().len(), 11);
    assert_eq!(restored.get_candidate(11).expect("next_id 保真").name, "候选0");
}

#[test]
fn duplicates_by_target_or_name_are_dropped() {
    let mut cache = CachedCandidateData::new();
    cache.add_candidate(sample_candidate(1));
    let mut same_target = sample_candidate(2);
    same_target.target = ExecutionTarget::Path("C:\\item1.exe".to_string());
    cache.add_candidate(same_target);
    let mut same_name = sample_candidate(3);
    same_name.name = "候选1".to_string();
    cache.add_candidate(same_name);
    let mut upper = sample_candidate(4);
    upper.name = "NOTEPAD".to_string();
    cache.add_candidate(upper);
    let mut lower = sample_candidate(5);
    lower.name = "notepad".to_string();
    cache.add_candidate(lower);
    assert_eq!(cache.get_candidates().len(), 2);
    assert_eq!(cache.get_candidate(2).unwrap().name, "NOTEPAD");
    assert!(cache.get_candidate(3).is_none());
    assert!(cache.get_candidate(0).is_none());
}

#[test]
fn plugin_candidates_dedup_by_target_only() {
    let mut cache = CachedCandidateData::new();
    cache.add_candidate(sample_candidate(1));
    let mut plugin = sample_candidate(9);
    plugin.name = "候选1".to_string();
    plugin.target = ExecutionTarget::Plugin("com.example.p".to_string());
    cache.add_plugin_candidate(plugin);
    let mut again = sample_candidate(10);
    again.target = ExecutionTarget::Plugin("com.example.p".to_string());
    cache.add_plugin_candidate(again);
    assert_eq!(cache.get_candidates().len(), 2);
    assert_eq!(cache.get_candidate(2).unwrap().id, 2);
}

#[test]
fn generation_and_merge() {
    let mut cache = CachedCandidateData::new();
    assert_eq!(cache.generation(), 0);
    cache.bump_generation();
    assert_eq!(cache.generation(), 1);
    let mut other = CachedCandidateData::new();
    other.add_candidate(sample_candidate(1));
    other.add_candidate(sample_candidate(2));
    cache.add_candidate(sample_candidate(2));
    cache.add_candidates(other);
    let names: Vec<String> = cache.get_candidates().iter().map(|c| c.name.clone()).collect();
    assert_eq!(names, vec!["候选2".to_string(), "候选1".to_string()]);
    assert_eq!(cache.get_candidate(2).unwrap().name, "候选1");
    cache.get_candidates_mut()[0].bias_bits = 1.5f64.to_bits();
    assert_eq!(f64::from_bits(cache.get_candidates()[0].bias_bits), 1.5);
}

#[test]
fn snapshots_are_checked_before_restore() {
    let bad_id = CandidateCacheSnapshot { candidates: vec![sample_candidate(5)], next_candidate_id: 2 };
    assert!(CachedCandidateData::try_from_data(bad_id).is_none());
    let bad_next = CandidateCacheSnapshot { candidates: vec![sample_candidate(1)], next_candidate_id: 5 };
    assert!(CachedCandidateData::try_from_data(bad_next).is_none());
    let mut twin = sample_candidate(2);
    twin.name = "候选1".to_string();
    let dup_name = CandidateCacheSnapshot { candidates: vec![sample_candidate(1), twin], next_candidate_id: 3 };
    assert!(CachedCandidateData::try_from_data(dup_name).is_none());
    let good = CandidateCacheSnapshot { candidates: vec![sample_candidate(1), sample_candidate(2)], next_candidate_id: 3 };
    let restored = CachedCandidateData::try_from_data(good).expect("valid snapshot");
    assert_eq!(restored.get_candidates().len(), 2);
    assert_eq!(restored.generation(), 0);
}

#[test]
fn plugin_wake_decisions() {
    let plugin = ExecutionTarget::Plugin("com.example.p".to_string());
    assert_eq!(wake_target(&plugin, "open").unwrap(), "com.example.p");
    match wake_target(&plugin, "delete") {
        Err(ExecutionError::UnsupportedAction(t, a)) => {
            assert_eq!(t, TargetType::Plugin);
            assert_eq!(a, "delete");
        }
        other => panic!("unexpected {other:?}"),
    }
    match wake_target(&ExecutionTarget::Path("C:\\a.exe".to_string()), "open") {
        Err(ExecutionError::Failed(m)) => assert_eq!(m, "Invalid target type for PluginWakeExecutor"),
        other => panic!("unexpected {other:?}"),
    }
    let actions = wake_actions();
    assert_eq!(actions.len(), 1);
    assert_eq!(actions[0].id, "open");
    assert_eq!(actions[0].label, "common.open");
    assert!(actions[0].is_default);
    assert_eq!(plugin.payload(), "com.example.p");
}

#[test]
fn collected_candidates_get_fresh_ids() {
    let mut second = sample_candidate(7);
    second.name = "候选5".to_string();
    let cache = CachedCandidateData::from_candidates(vec![sample_candidate(5), second, sample_candidate(9)]);
    let ids: Vec<u64> = cache.get_candidates().iter().map(|c| c.id).collect();
    assert_eq!(ids, vec![1, 2]);
    assert_eq!(cache.get_candidate(2).unwrap().name, "候选9");
}

#[test]
fn plugin_names_do_not_block_later_candidates() {
    let mut cache = CachedCandidateData::new();
    let mut plugin = sample_candidate(1);
    plugin.name = "Notes".to_string();
    plugin.target = ExecutionTarget::Plugin("com.example.notes".to_string());
    cache.add_plugin_candidate(plugin);
    let mut app = sample_candidate(2);
    app.name = "notes".to_string();
    cache.add_candidate(app);
    assert_eq!(cache.get_candidates().len(), 2);
    assert_eq!(cache.next_candidate_id(), 3);
    assert_eq!(cache.get_candidate(2).map(|c| c.name.clone()), Some("notes".to_string()));
    let mut again = sample_candidate(3);
    again.name = "NOTES".to_string();
    cache.add_candidate(again);
    assert_eq!(cache.get_candidates().len(), 2);
}
