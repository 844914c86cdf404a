use zerolaunch::model::config::{
    config_action,
    extract_model_info_u32, is_embedding_model_id, model_is_embedding, models_url, ollama_fetched_entry,
    openai_fetched_entries, OllamaShowInfo,
};
use zerolaunch::model::settings::{EmbeddingModelConfig, ModelEntryConfig};
use zerolaunch::model::types::ModelSimilarity;

#[test]
fn embedding_model_id_classification() {
    for embedding_id in [
        "text-embedding-3-small",
        "text-embedding-ada-002",
        "bge-m3",
        "m3e-large",
        "nomic-embed-text",
    ] {
        assert!(
            is_embedding_model_id(embedding_id),
            "{embedding_id} 应识别为 embedding"
        );
    }
    for chat_id in ["gpt-4o-mini", "deepseek-v4-flash", "qwen3:8b"] {
        assert!(
            !is_embedding_model_id(chat_id),
            "{chat_id} 不应识别为 embedding"
        );
    }
}

#[test]
fn embedding_id_rules_ignore_ascii_case() {
    assert!(is_embedding_model_id("ADA"));
    assert!(is_embedding_model_id("Ada-v2"));
    assert!(is_embedding_model_id("openai-ada"));
    assert!(is_embedding_model_id("jina-Reranker"));
    assert!(is_embedding_model_id("Retrieval-x"));
    assert!(!is_embedding_model_id("adam"));
    assert!(!is_embedding_model_id("canada"));
}

#[test]
fn fetched_ids_become_entries_in_order() {
    let ids = vec![
        "gpt-4o-mini".to_string(),
        String::new(),
        "text-embedding-3-small".to_string(),
    ];
    let entries = openai_fetched_entries(&ids);
    assert_eq!(entries.len(), 2);
    assert!(matches!(&entries[0], ModelEntryConfig::Chat { name, .. } if name == "gpt-4o-mini"));
    assert!(
        matches!(&entries[1], ModelEntryConfig::Embedding { name, config } if name == "text-embedding-3-small" && config.dimensions == 768)
    );
}

#[test]
fn models_url_drops_trailing_slashes() {
    assert_eq!(models_url("https://api.openai.com/v1"), "https://api.openai.com/v1/models");
    assert_eq!(models_url("http://x/v1//"), "http://x/v1/models");
    assert_eq!(models_url(""), "/models");
}

fn show(caps: &[&str], info: &[(&str, Option<u64>)]) -> OllamaShowInfo {
    OllamaShowInfo {
        capabilities: caps.iter().map(|c| c.to_string()).collect(),
        model_info: info.iter().map(|(k, v)| (k.to_string(), *v)).collect(),
    }
}

#[test]
fn model_info_fields_are_read_by_key_suffix() {
    let info = show(
        &["completion"],
        &[("general.architecture", None), ("qwen3.context_length", Some(40960)), ("x.context_length", Some(1))],
    );
    assert_eq!(extract_model_info_u32(&info.model_info, ".context_length"), Some(40960));
    assert_eq!(extract_model_info_u32(&info.model_info, ".embedding_length"), None);
    let too_big = show(&[], &[("a.context_length", Some(u64::from(u32::MAX) + 1)), ("b.context_length", Some(5))]);
    assert_eq!(extract_model_info_u32(&too_big.model_info, ".context_length"), None);
    assert!(!model_is_embedding(&info));
    assert!(model_is_embedding(&show(&["embedding"], &[])));
}

#[test]
fn ollama_entries_merge_service_metadata_with_configuration() {
    let configured = vec![ModelEntryConfig::Embedding {
        name: "bge-m3".to_string(),
        config: EmbeddingModelConfig {
            dimensions: 1024,
            context_length: 0,
            similarity: ModelSimilarity::DotProduct,
            capabilities: Vec::new(),
        },
    }];
    let info = show(&["embedding"], &[("bert.context_length", Some(8192))]);
    match ollama_fetched_entry("bge-m3", Some(&info), &configured) {
        ModelEntryConfig::Embedding { name, config } => {
            assert_eq!(name, "bge-m3");
            assert_eq!(config.context_length, 8192);
            assert_eq!(config.dimensions, 1024);
            assert_eq!(config.similarity, ModelSimilarity::DotProduct);
        }
        other => panic!("expected embedding entry, got {other:?}"),
    }
    let info2 = show(&["embedding"], &[("bert.embedding_length", Some(384))]);
    match ollama_fetched_entry("mini", Some(&info2), &configured) {
        ModelEntryConfig::Embedding { config, .. } => {
            assert_eq!(config.dimensions, 384);
            assert_eq!(config.context_length, 0);
            assert_eq!(config.similarity, ModelSimilarity::Cosine);
        }
        other => panic!("expected embedding entry, got {other:?}"),
    }
    match ollama_fetched_entry("bge-m3", None, &configured) {
        ModelEntryConfig::Embedding { config, .. } => assert_eq!(config.dimensions, 1024),
        other => panic!("expected embedding entry, got {other:?}"),
    }
    match ollama_fetched_entry("qwen3:8b", Some(&show(&["completion"], &[])), &configured) {
        ModelEntryConfig::Chat { name, config } => {
            assert_eq!(name, "qwen3:8b");
            assert_eq!(config.max_tokens, 2048);
        }
        other => panic!("expected chat entry, got {other:?}"),
    }
    assert!(matches!(ollama_fetched_entry("new", None, &[]), ModelEntryConfig::Chat { .. }));
}

#[test]
fn config_components_have_only_the_fetch_models_action() {
    assert_eq!(config_action("fetch_models"), Ok(()));
    assert_eq!(config_action("refresh"), Err("未知动作: refresh".to_string()));
    assert_eq!(config_action(""), Err("未知动作: ".to_string()));
}
