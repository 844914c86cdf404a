use zerolaunch::model::entries::{plan_embedding, resolve_chat_params, short_model, ReasoningEffort};
use zerolaunch::model::ollama::{build_chat_request, dynamic_num_ctx, entry_for};
use zerolaunch::model::openai::{
    cache_namespace, next_finish_reason, openai_models, stream_step, FinishReason, StreamEvent,
};
use zerolaunch::model::settings::{
    ChatModelConfig, EmbeddingModelConfig, ModelEntryConfig, ModelOllamaSettings, ModelOpenAiSettings,
};
use zerolaunch::model::types::{
    ChatCapability, EmbeddingCapability, ModelChatMessage, ModelChatRequest, ModelChatRole, ModelError, ModelKind,
    ModelSimilarity, ModelStreamChunk, SemanticTask,
};

fn chat_request(model_id: &str) -> ModelChatRequest {
    ModelChatRequest {
        model_id: model_id.to_string(),
        messages: vec![],
        temperature_bits: None,
        max_tokens: None,
        reasoning_effort: None,
    }
}

#[test]
fn entry_for_matches_short_model_name() {
    let settings = ModelOllamaSettings {
        base_url: "http://localhost:11434".to_string(),
        models: vec![ModelEntryConfig::chat("qwen3:8b")],
    };
    assert!(entry_for(&settings, "ollama/qwen3:8b").is_some());
    assert!(entry_for(&settings, "ollama/other").is_none());
}

#[test]
fn dynamic_num_ctx_uses_request_size_and_model_limit() {
    let request = ModelChatRequest {
        model_id: "ollama/test".to_string(),
        messages: vec![ModelChatMessage {
            role: ModelChatRole::User,
            content: "a".repeat(5000),
        }],
        temperature_bits: None,
        max_tokens: None,
        reasoning_effort: None,
    };
    let config = ChatModelConfig {
        context_length: 4096,
        ..Default::default()
    };
    assert_eq!(dynamic_num_ctx(&request, config.max_tokens, config.context_length), 4096);

    let short_request = ModelChatRequest {
        messages: vec![ModelChatMessage {
            role: ModelChatRole::User,
            content: "abc".to_string(),
        }],
        ..request
    };
    let uncapped_config = ChatModelConfig {
        context_length: 0,
        ..Default::default()
    };
    assert_eq!(
        dynamic_num_ctx(&short_request, uncapped_config.max_tokens, uncapped_config.context_length),
        2307
    );

    let explicit_request = ModelChatRequest {
        max_tokens: Some(8192),
        ..short_request
    };
    assert_eq!(dynamic_num_ctx(&explicit_request, 8192, 20000), 8451);
}

#[test]
fn chat_rejects_invalid_reasoning_effort() {
    let mut req = chat_request("openai/some-model");
    req.reasoning_effort = Some("extreme".to_string());
    let err = resolve_chat_params(&req, None).unwrap_err();
    assert!(matches!(err, ModelError::InvalidRequest(_)));
}

#[test]
fn list_models_partitions_by_entry_kind_and_skips_empty_name() {
    let mut settings = ModelOpenAiSettings::default();
    settings.models = vec![
        ModelEntryConfig::chat("gpt-4o-mini"),
        ModelEntryConfig::Embedding {
            name: "text-embedding-3-small".to_string(),
            config: EmbeddingModelConfig {
                dimensions: 1536,
                context_length: 8192,
                similarity: ModelSimilarity::DotProduct,
                capabilities: vec![EmbeddingCapability::OutputDimensions],
            },
        },
        ModelEntryConfig::Chat {
            name: String::new(),
            config: Default::default(),
        },
    ];
    let models = openai_models(&settings);
    assert_eq!(models.len(), 2);
    if let ModelKind::Embedding {
        context_window,
        dimensions,
        similarity,
        capabilities,
    } = &models[1].kind
    {
        assert_eq!(*context_window, Some(8192));
        assert_eq!(*dimensions, None);
        assert_eq!(*similarity, ModelSimilarity::DotProduct);
        assert_eq!(capabilities.len(), 1);
    } else {
        panic!("expected embedding model");
    }
    assert_eq!(models[0].model_id, "openai/gpt-4o-mini");
    assert!(matches!(models[0].kind, ModelKind::Chat { .. }));
    assert_eq!(models[1].model_id, "openai/text-embedding-3-small");
    assert!(matches!(models[1].kind, ModelKind::Embedding { .. }));
}

#[test]
fn reject_requests_for_unlisted_capabilities() {
    let chat_entry = ModelEntryConfig::Chat {
        name: "chat-model".to_string(),
        config: ChatModelConfig {
            capabilities: Vec::new(),
            ..Default::default()
        },
    };
    let mut req = chat_request("openai/chat-model");
    req.reasoning_effort = Some("low".to_string());
    let chat_err = resolve_chat_params(&req, Some(&chat_entry)).unwrap_err();
    assert!(matches!(chat_err, ModelError::InvalidRequest(_)));

    let embedding_entry = ModelEntryConfig::Embedding {
        name: "embedding-model".to_string(),
        config: EmbeddingModelConfig {
            capabilities: Vec::new(),
            ..Default::default()
        },
    };
    let embedding_err = plan_embedding(
        &[embedding_entry],
        "openai/embedding-model",
        &["text".to_string()],
        SemanticTask::RetrievalQuery,
        None,
        Some(128),
    )
    .unwrap_err();
    assert!(matches!(embedding_err, ModelError::InvalidRequest(_)));
}

#[test]
fn effective_chat_params_prefer_request_over_entry() {
    let entry = ModelEntryConfig::Chat {
        name: "m1".to_string(),
        config: ChatModelConfig {
            temperature_bits: 0.2f32.to_bits(),
            max_tokens: 64,
            top_p_bits: 0.5f32.to_bits(),
            ..Default::default()
        },
    };
    let mut req = chat_request("openai/m1");
    req.temperature_bits = Some(0.9f32.to_bits());
    let p = resolve_chat_params(&req, Some(&entry)).unwrap();
    assert_eq!(f32::from_bits(p.temperature_bits), 0.9);
    assert_eq!(p.max_tokens, 64);
    assert_eq!(f32::from_bits(p.top_p_bits), 0.5);
    assert_eq!(p.effort, ReasoningEffort::Disabled);
}

#[test]
fn chat_defaults_without_entry() {
    let p = resolve_chat_params(&chat_request("openai/x"), None).unwrap();
    assert_eq!(f32::from_bits(p.temperature_bits), 0.7);
    assert_eq!(p.max_tokens, 2048);
    assert_eq!(f32::from_bits(p.top_p_bits), 1.0);
    assert_eq!(p.context_length, 0);
    let entry = ModelEntryConfig::Chat {
        name: "x".to_string(),
        config: ChatModelConfig {
            capabilities: vec![ChatCapability::Reasoning],
            reasoning_effort: "high".to_string(),
            ..Default::default()
        },
    };
    assert_eq!(resolve_chat_params(&chat_request("openai/x"), Some(&entry)).unwrap().effort, ReasoningEffort::High);
}

#[test]
fn ollama_chat_request_carries_budget_and_window() {
    let mut req = chat_request("ollama/qwen3:8b");
    req.messages.push(ModelChatMessage { role: ModelChatRole::User, content: "abc".to_string() });
    let plan = build_chat_request(&req, None).unwrap();
    assert_eq!(plan.model, "qwen3:8b");
    assert_eq!(plan.num_ctx, 2307);
    assert_eq!(plan.num_predict, 2048);
    assert_eq!(plan.messages.len(), 1);
    assert_eq!(plan.think, ReasoningEffort::Disabled);
}

#[test]
fn short_model_drops_the_provider_prefix() {
    assert_eq!(short_model("ollama/qwen3:8b"), "qwen3:8b");
    assert_eq!(short_model("a/b/c"), "b/c");
    assert_eq!(short_model("plain"), "plain");
}

#[test]
fn finish_reason_keeps_the_latest_reported() {
    assert_eq!(next_finish_reason(Some(FinishReason::Stop), None), Some("stop".to_string()));
    assert_eq!(next_finish_reason(None, Some("length".to_string())), Some("length".to_string()));
    assert_eq!(cache_namespace("https://api.openai.com/v1"), "openai:https://api.openai.com/v1");
}

#[test]
fn stream_relay_keeps_the_last_finish_reason() {
    let s1 = stream_step(None, StreamEvent::Chunk { first_choice: Some((Some("Hel".to_string()), None)) });
    assert_eq!(s1.send, Some(ModelStreamChunk::Delta("Hel".to_string())));
    assert_eq!(s1.finish_reason, None);
    assert!(s1.outcome.is_none());
    let s2 = stream_step(s1.finish_reason, StreamEvent::Chunk { first_choice: Some((None, Some(FinishReason::Stop))) });
    assert_eq!(s2.send, None);
    assert_eq!(s2.finish_reason, Some("stop".to_string()));
    let s3 = stream_step(s2.finish_reason, StreamEvent::Chunk { first_choice: None });
    assert_eq!(s3.finish_reason, Some("stop".to_string()));
    let end = stream_step(s3.finish_reason, StreamEvent::Ended);
    assert_eq!(end.send, Some(ModelStreamChunk::Done { finish_reason: Some("stop".to_string()) }));
    assert_eq!(end.outcome, Some(Ok(())));
    let failed = stream_step(None, StreamEvent::Failed("reset".to_string()));
    assert_eq!(failed.send, Some(ModelStreamChunk::Error("reset".to_string())));
    assert_eq!(failed.outcome, Some(Err(ModelError::Transport("reset".to_string()))));
}
