use zerolaunch::model::schema::{
    model_entry_schema, ollama_setting_schema, openai_setting_schema, FieldDefault, FieldKind, SettingField,
};

fn field<'a>(fields: &'a [SettingField], key: &str) -> &'a SettingField {
    fields.iter().find(|f| f.key == key).expect("field")
}

fn option_values(f: &SettingField) -> Vec<&'static str> {
    f.options.iter().map(|o| o.value).collect()
}

#[test]
fn model_entry_schema_exposes_capability_groups() {
    let fields = model_entry_schema();
    let chat = field(&fields, "chat_capabilities");
    assert_eq!(chat.kind, FieldKind::MultiSelect);
    assert_eq!(option_values(chat), vec!["reasoning"]);
    assert_eq!(chat.default, Some(FieldDefault::Texts(vec!["reasoning"])));

    let embedding = field(&fields, "embedding_capabilities");
    assert_eq!(embedding.kind, FieldKind::MultiSelect);
    assert_eq!(option_values(embedding), vec!["outputDimensions"]);
    assert_eq!(embedding.default, Some(FieldDefault::Texts(vec!["outputDimensions"])));

    let context = field(&fields, "context_length");
    assert!(context.read_only);
}

#[test]
fn setting_schema_has_one_context_length_field() {
    let schema = ollama_setting_schema();
    let models = schema.iter().find(|s| s.field.key == "models").expect("models");
    assert_eq!(models.field.kind, FieldKind::Array);
    assert_eq!(models.object_items.iter().filter(|f| f.key == "context_length").count(), 1);
}

#[test]
fn model_entry_fields_are_ordered_and_shown_by_kind() {
    let fields = model_entry_schema();
    let keys: Vec<&str> = fields.iter().map(|f| f.key).collect();
    assert_eq!(
        keys,
        vec![
            "name",
            "kind",
            "temperature",
            "max_tokens",
            "top_p",
            "reasoning_effort",
            "chat_capabilities",
            "context_length",
            "dimensions",
            "similarity",
            "embedding_capabilities",
        ]
    );
    let temperature = field(&fields, "temperature");
    assert_eq!(temperature.default, Some(FieldDefault::NumberBits(0.7f64.to_bits())));
    assert_eq!(temperature.step_bits, Some(0.05f64.to_bits()));
    assert_eq!(temperature.max_bits, Some(2.0f64.to_bits()));
    assert_eq!(temperature.visible_when, Some(("kind", "chat")));
    assert_eq!(field(&fields, "dimensions").visible_when, Some(("kind", "embedding")));
    assert_eq!(field(&fields, "context_length").visible_when, None);
    assert_eq!(option_values(field(&fields, "similarity")), vec!["cosine", "dotProduct", "euclidean"]);
    assert_eq!(field(&fields, "kind").label.key, "fields.kind.label");
    assert_eq!(field(&fields, "kind").label.scope, "model-entry");
    assert!(fields.iter().all(|f| f.key != "task_templates"));
}

#[test]
fn openai_settings_have_connection_and_fetched_models() {
    let schema = openai_setting_schema();
    assert_eq!(schema.len(), 3);
    assert_eq!(schema[0].field.default, Some(FieldDefault::Text("https://api.openai.com/v1")));
    assert_eq!(schema[1].field.key, "api_key");
    assert_eq!(schema[1].field.default, Some(FieldDefault::Text("")));
    let models = &schema[2];
    assert!(models.master_detail);
    let action = models.data_action.expect("fetch action");
    assert_eq!(action.action, "fetch_models");
    assert_eq!(action.merge_key, Some("name"));
    assert_eq!(models.object_items.len(), 11);
    assert_eq!(ollama_setting_schema()[0].field.default, Some(FieldDefault::Text("http://localhost:11434")));
}
