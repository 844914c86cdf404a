use zerolaunch::model::manager::{
    chat_admission, embedding_admission, finish_embedding, is_builtin_provider_config, merge_provider_vectors,
    miss_request, route_provider_id, single_request, sort_lookups, stream_admission, ModelCatalog,
};
use zerolaunch::model::types::{
    ChatCapability, EmbeddingCapability, ModelEmbeddingRequest, ModelError, ModelInfo, ModelKind, ModelSimilarity,
    SemanticTask,
};

fn model(id: &str, kind: ModelKind) -> ModelInfo {
    ModelInfo {
        model_id: id.to_string(),
        name: id.to_string(),
        kind,
        provider: id.split('/').next().unwrap().to_string(),
    }
}

fn chat_kind(supports_stream: bool) -> ModelKind {
    ModelKind::Chat { context_window: None, max_output: None, supports_stream, capabilities: vec![] }
}

fn embedding_kind(dimensions: Option<u32>, capabilities: Vec<EmbeddingCapability>) -> ModelKind {
    ModelKind::Embedding { context_window: None, dimensions, similarity: ModelSimilarity::Cosine, capabilities }
}

fn embedding_request(input: &[&str]) -> ModelEmbeddingRequest {
    ModelEmbeddingRequest {
        model_id: "embedding-pro/m1".to_string(),
        input: input.iter().map(|s| s.to_string()).collect(),
        titles: None,
        task_type: Some("retrieval_document".to_string()),
        dimensions: None,
    }
}

#[test]
fn list_models_aggregates_all_providers() {
    let mut catalog = ModelCatalog::new();
    catalog.refresh(vec![
        Ok(vec![model(
            "chat-pro/m1",
            ModelKind::Chat {
                context_window: None,
                max_output: None,
                supports_stream: false,
                capabilities: vec![ChatCapability::Reasoning],
            },
        )]),
        Ok(vec![model("emb-pro/e1", embedding_kind(None, vec![EmbeddingCapability::OutputDimensions]))]),
        Err(ModelError::Transport("down".to_string())),
    ]);
    assert_eq!(catalog.list_models().len(), 2);
    assert!(catalog.model_info("emb-pro/e1").is_some());
    assert!(catalog.model_info("emb-pro/e2").is_none());
}

#[test]
fn chat_routes_to_correct_provider() {
    let mut catalog = ModelCatalog::new();
    catalog.refresh(vec![Ok(vec![model("chat-pro/m1", chat_kind(true))])]);
    assert_eq!(route_provider_id("chat-pro/m1"), Ok("chat-pro".to_string()));
    let info = catalog.model_info("chat-pro/m1");
    assert_eq!(chat_admission(info.as_ref(), "chat-pro/m1"), Ok(()));
    assert_eq!(stream_admission(info.as_ref(), "chat-pro/m1"), Ok(()));
}

#[test]
fn chat_rejects_embedding_model() {
    let mut catalog = ModelCatalog::new();
    catalog.refresh(vec![Ok(vec![model("embedding-pro/m1", embedding_kind(Some(3), vec![]))])]);
    let info = catalog.model_info("embedding-pro/m1");
    let err = chat_admission(info.as_ref(), "embedding-pro/m1").unwrap_err();
    assert!(matches!(err, ModelError::NotSupported));
}

#[test]
fn embedding_rejects_mismatched_vector_count() {
    let req = embedding_request(&["text"]);
    let info = model("embedding-pro/m1", embedding_kind(Some(2), vec![]));
    let (expected, task) = embedding_admission(&req, Some(&info)).unwrap();
    assert_eq!(expected, Some(2));
    assert_eq!(task, SemanticTask::RetrievalDocument);
    let assembly = sort_lookups(expected, vec![None]).unwrap();
    assert_eq!(assembly.misses, vec![0]);
    let err = merge_provider_vectors(assembly.ordered, &assembly.misses, expected, vec![vec![1, 0], vec![0, 1]])
        .unwrap_err();
    assert!(matches!(err, ModelError::Transport(_)));
}

#[test]
fn unknown_model_id_reports_model_not_found() {
    let catalog = ModelCatalog::new();
    let err = chat_admission(catalog.model_info("nope/m1").as_ref(), "nope/m1").unwrap_err();
    assert!(matches!(err, ModelError::ModelNotFound(_)));
}

#[test]
fn model_id_without_prefix_is_invalid() {
    assert_eq!(
        route_provider_id("noprefix"),
        Err(ModelError::InvalidRequest("模型 id 缺少提供方前缀: noprefix".to_string()))
    );
    assert!(is_builtin_provider_config("model-openai-config"));
    assert!(is_builtin_provider_config("model-ollama-config"));
    assert!(!is_builtin_provider_config("other"));
}

#[test]
fn stream_requires_streaming_chat_model() {
    let info = model("chat-pro/m1", chat_kind(false));
    assert_eq!(stream_admission(Some(&info), "chat-pro/m1"), Err(ModelError::NotSupported));
}

#[test]
fn embedding_admission_checks_titles_and_dimensions() {
    let info = model("embedding-pro/m1", embedding_kind(None, vec![]));
    let mut req = embedding_request(&["a", "b"]);
    req.titles = Some(vec!["t".to_string()]);
    assert_eq!(
        embedding_admission(&req, Some(&info)),
        Err(ModelError::InvalidRequest("titles 数量与 input 不一致".to_string()))
    );
    let mut req2 = embedding_request(&["a"]);
    req2.dimensions = Some(64);
    assert_eq!(
        embedding_admission(&req2, Some(&info)),
        Err(ModelError::InvalidRequest("模型未声明支持 outputDimensions 能力".to_string()))
    );
    let chat = model("embedding-pro/m1", chat_kind(true));
    assert_eq!(embedding_admission(&req2, Some(&chat)), Err(ModelError::NotSupported));
}

#[test]
fn embedding_admission_requires_a_known_task_type() {
    let info = model("embedding-pro/m1", embedding_kind(Some(4), vec![]));
    let mut req = embedding_request(&["a"]);
    req.task_type = None;
    let missing = "embedding 调用必须指明 task_type（retrieval_document / retrieval_query / semantic_similarity / classification / clustering / plain_text）";
    assert_eq!(embedding_admission(&req, Some(&info)), Err(ModelError::InvalidRequest(missing.to_string())));
    req.task_type = Some(String::new());
    assert_eq!(embedding_admission(&req, Some(&info)), Err(ModelError::InvalidRequest(missing.to_string())));
    req.task_type = Some("ranking".to_string());
    assert_eq!(
        embedding_admission(&req, Some(&info)),
        Err(ModelError::InvalidRequest("未知的 task_type: ranking".to_string()))
    );
    req.task_type = Some("retrieval_query".to_string());
    assert_eq!(embedding_admission(&req, Some(&info)), Ok((Some(4), SemanticTask::RetrievalQuery)));
    assert_eq!(
        embedding_admission(&req, None),
        Err(ModelError::ModelNotFound("embedding-pro/m1".to_string()))
    );
}

#[test]
fn cached_and_fresh_vectors_are_assembled_in_input_order() {
    let mut req = embedding_request(&["a", "b", "c"]);
    req.titles = Some(vec!["ta".to_string(), "tb".to_string(), "tc".to_string()]);
    let one = single_request(&req, 1);
    assert_eq!(one.input, vec!["b".to_string()]);
    assert_eq!(one.titles, Some(vec!["tb".to_string()]));

    let assembly = sort_lookups(Some(2), vec![None, Some(vec![5, 6]), None]).unwrap();
    assert_eq!(assembly.misses, vec![0, 2]);
    let sub = miss_request(&req, &assembly.misses);
    assert_eq!(sub.input, vec!["a".to_string(), "c".to_string()]);
    assert_eq!(sub.titles, Some(vec!["ta".to_string(), "tc".to_string()]));
    let ordered =
        merge_provider_vectors(assembly.ordered, &assembly.misses, Some(2), vec![vec![1, 2], vec![3, 4]]).unwrap();
    assert_eq!(ordered, vec![vec![1, 2], vec![5, 6], vec![3, 4]]);
    let resp = finish_embedding("embedding-pro/m1".to_string(), ordered).unwrap();
    assert_eq!(resp.dimensions, 2);
    assert_eq!(resp.vectors.len(), 3);

    assert_eq!(
        sort_lookups(Some(3), vec![Some(vec![1])]).err(),
        Some(ModelError::Transport("缓存向量维度与模型元数据不匹配".to_string()))
    );
    assert_eq!(
        merge_provider_vectors(vec![vec![]], &[0], Some(3), vec![vec![1, 2]]).err(),
        Some(ModelError::Transport("provider 向量维度与模型元数据不匹配".to_string()))
    );
    assert_eq!(
        merge_provider_vectors(vec![vec![], vec![]], &[0, 1], None, vec![vec![1, 2], vec![3]]).err(),
        Some(ModelError::Transport("provider 向量维度不一致".to_string()))
    );
    assert_eq!(
        finish_embedding("m".to_string(), vec![vec![1], vec![1, 2]]).err(),
        Some(ModelError::Transport("缓存向量维度不一致".to_string()))
    );
}
