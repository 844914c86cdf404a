use zerolaunch::model::compose::{
    compose_embedding_texts, render_template, replace_named, template_args_of, validate_task_type,
};
use zerolaunch::model::types::ModelError;
use zerolaunch::model::profiles::{profile_for, template_for};
use zerolaunch::model::types::{EmbeddingTemplateArgs, SemanticTask};

#[test]
fn plain_text_task_passes_through() {
    let out = compose_embedding_texts(
        &["聊天".to_string()],
        SemanticTask::PlainText,
        "ollama/qwen3-embedding:0.6b",
        None,
    )
    .unwrap();
    assert_eq!(out, vec!["聊天".to_string()]);
}

#[test]
fn unknown_model_all_tasks_pass_through() {
    for task in [SemanticTask::RetrievalQuery, SemanticTask::PlainText] {
        let out = compose_embedding_texts(&["聊天".to_string()], task, "ollama/unknown-model", None).unwrap();
        assert_eq!(out, vec!["聊天".to_string()]);
    }
}

#[test]
fn qwen3_retrieval_query_uses_instruct_template() {
    let out = compose_embedding_texts(
        &["聊天".to_string()],
        SemanticTask::RetrievalQuery,
        "ollama/qwen3-embedding:0.6b",
        None,
    )
    .unwrap();
    assert_eq!(
        out,
        vec!["Instruct: Given a web search query, retrieve relevant passages that answer the query\nQuery:聊天".to_string()]
    );
}

#[test]
fn qwen3_retrieval_document_passes_through() {
    let out = compose_embedding_texts(
        &["body".to_string()],
        SemanticTask::RetrievalDocument,
        "ollama/qwen3-embedding:0.6b",
        None,
    )
    .unwrap();
    assert_eq!(out, vec!["body".to_string()]);
}

#[test]
fn gemma_document_template_uses_official_title_none() {
    let out = compose_embedding_texts(
        &["body".to_string()],
        SemanticTask::RetrievalDocument,
        "ollama/gemma-embedding:300m",
        None,
    )
    .unwrap();
    assert_eq!(out, vec!["title: none | text: body".to_string()]);
}

#[test]
fn gemma_document_template_uses_provided_title() {
    let args = vec![EmbeddingTemplateArgs {
        title: Some("文档标题".to_string()),
    }];
    let out = compose_embedding_texts(
        &["body".to_string()],
        SemanticTask::RetrievalDocument,
        "ollama/gemma-embedding:300m",
        Some(&args),
    )
    .unwrap();
    assert_eq!(out, vec!["title: 文档标题 | text: body".to_string()]);
}

#[test]
fn template_other_placeholders_preserved_verbatim() {
    let out = compose_embedding_texts(
        &["text".to_string()],
        SemanticTask::RetrievalQuery,
        "ollama/qwen3-embedding:0.6b",
        None,
    )
    .unwrap();
    assert!(out[0].contains("Query:text"));
}

#[test]
fn profile_matches_qwen3_with_provider_prefix() {
    let p = profile_for("ollama/qwen3-embedding:0.6b").expect("qwen3 应有档案");
    assert_eq!(p.id_prefix, "qwen3-embedding");
}

#[test]
fn profile_matches_gemma() {
    let p = profile_for("ollama/gemma-embedding:300m").expect("gemma 应有档案");
    assert_eq!(p.id_prefix, "gemma-embedding");
}

#[test]
fn profile_unknown_returns_none() {
    assert!(profile_for("ollama/unknown-model").is_none());
    assert!(profile_for("openai/text-embedding-3-large").is_none());
}

#[test]
fn qwen3_retrieval_query_template_is_instruct() {
    let t = template_for(SemanticTask::RetrievalQuery, "ollama/qwen3-embedding:0.6b")
        .expect("qwen3 retrieval_query 应有模板");
    assert!(t.starts_with("Instruct: "));
    assert!(t.contains("{0}"));
}

#[test]
fn template_for_unknown_model_returns_none() {
    assert_eq!(template_for(SemanticTask::RetrievalQuery, "ollama/unknown-model"), None);
    assert_eq!(template_for(SemanticTask::PlainText, "openai/text-embedding-3-large"), None);
}

#[test]
fn named_placeholders_are_replaced_or_defaulted() {
    assert_eq!(replace_named("title: {title:none} | text: {0}", "title", Some("T")), "title: T | text: {0}");
    assert_eq!(replace_named("title: {title:none} | text: {0}", "title", None), "title: none | text: {0}");
    assert_eq!(replace_named("[{title}]", "title", None), "[]");
    assert_eq!(replace_named("{title:open", "title", Some("x")), "{title:open");
    assert_eq!(render_template("{1} {0} {x}", "body", None), "{1} body {x}");
}

#[test]
fn task_types_parse_by_their_serialized_names() {
    assert_eq!(validate_task_type(Some("plain_text")), Ok(SemanticTask::PlainText));
    assert_eq!(validate_task_type(Some("clustering")), Ok(SemanticTask::Clustering));
    assert_eq!(validate_task_type(Some("classification")), Ok(SemanticTask::Classification));
    assert_eq!(validate_task_type(Some("semantic_similarity")), Ok(SemanticTask::SemanticSimilarity));
    assert_eq!(
        validate_task_type(Some("Plain_Text")),
        Err(ModelError::InvalidRequest("未知的 task_type: Plain_Text".to_string()))
    );
    assert!(matches!(validate_task_type(None), Err(ModelError::InvalidRequest(_))));
}

#[test]
fn titles_become_one_template_argument_each() {
    assert_eq!(template_args_of(None), None);
    let titles = vec!["a".to_string(), "b".to_string()];
    let args = template_args_of(Some(&titles)).unwrap();
    assert_eq!(args.len(), 2);
    assert_eq!(args[1].title, Some("b".to_string()));
}
