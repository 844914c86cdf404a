//! The settings schemas of the model provider configurations: the fields of
//! a model entry, and the fields of each provider's settings page.
//!
//! Labels and descriptions are translation keys, given as the scope and the
//! key within it. Numeric bounds and defaults are `f64` values held as their
//! bit patterns (`f64::to_bits`).
use vstd::prelude::*;

verus! {

/// A translation key: its scope and the key within it.
#[derive(Debug, Clone, Copy, PartialEq, Eq)]
pub struct TextKey {
    pub scope: &'static str,
    pub key: &'static str,
}

impl View for TextKey {
    type V = (Seq<char>, Seq<char>);

    open spec fn view(&self) -> (Seq<char>, Seq<char>) {
        (self.scope@, self.key@)
    }
}

/// The widget of a field.
#[derive(Debug, Clone, Copy, PartialEq, Eq, Structural)]
pub enum FieldKind {
    Text,
    Select,
    Number,
    Integer,
    MultiSelect,
    Array,
}

/// One choice of a select: its value and its label.
#[derive(Debug, Clone, Copy, PartialEq, Eq)]
pub struct SelectOption {
    pub value: &'static str,
    pub label: TextKey,
}

impl View for SelectOption {
    type V = (Seq<char>, (Seq<char>, Seq<char>));

    open spec fn view(&self) -> (Seq<char>, (Seq<char>, Seq<char>)) {
        (self.value@, self.label@)
    }
}

/// The default value of a field.
#[derive(Debug, Clone, PartialEq, Eq)]
pub enum FieldDefault {
    Text(&'static str),
    /// A number (`f64` bits).
    NumberBits(u64),
    Integer(i64),
    /// A list of texts (an empty list for an empty array).
    Texts(Vec<&'static str>),
}

/// A default value as values.
pub enum DefaultView {
    Text(Seq<char>),
    NumberBits(u64),
    Integer(i64),
    Texts(Seq<Seq<char>>),
}

impl View for FieldDefault {
    type V = DefaultView;

    open spec fn view(&self) -> DefaultView {
        match self {
            FieldDefault::Text(t) => DefaultView::Text(t@),
            FieldDefault::NumberBits(b) => DefaultView::NumberBits(*b),
            FieldDefault::Integer(i) => DefaultView::Integer(*i),
            FieldDefault::Texts(v) => DefaultView::Texts(v@.map_values(|t: &'static str| t@)),
        }
    }
}

/// One field of a settings form.
#[derive(Debug, Clone)]
pub struct SettingField {
    pub key: &'static str,
    pub kind: FieldKind,
    pub label: TextKey,
    pub description: TextKey,
    pub options: Vec<SelectOption>,
    pub default: Option<FieldDefault>,
    /// Smallest value (`f64` bits).
    pub min_bits: Option<u64>,
    /// Largest value (`f64` bits).
    pub max_bits: Option<u64>,
    /// Step of the input (`f64` bits).
    pub step_bits: Option<u64>,
    /// Position in the form.
    pub order: u32,
    /// Shown only while another field of the same entry has a value.
    pub visible_when: Option<(&'static str, &'static str)>,
    /// Shown but not editable.
    pub read_only: bool,
    /// The group the field is shown in.
    pub group: Option<TextKey>,
}

/// A field as values.
pub struct FieldView {
    pub key: Seq<char>,
    pub kind: FieldKind,
    pub label: (Seq<char>, Seq<char>),
    pub description: (Seq<char>, Seq<char>),
    pub options: Seq<(Seq<char>, (Seq<char>, Seq<char>))>,
    pub default: Option<DefaultView>,
    pub min_bits: Option<u64>,
    pub max_bits: Option<u64>,
    pub step_bits: Option<u64>,
    pub order: u32,
    pub visible_when: Option<(Seq<char>, Seq<char>)>,
    pub read_only: bool,
    pub group: Option<(Seq<char>, Seq<char>)>,
}

impl View for SettingField {
    type V = FieldView;

    open spec fn view(&self) -> FieldView {
        FieldView {
            key: self.key@,
            kind: self.kind,
            label: self.label@,
            description: self.description@,
            options: self.options@.map_values(|o: SelectOption| o@),
            default: match self.default {
                Some(d) => Some(d@),
                None => None,
            },
            min_bits: self.min_bits,
            max_bits: self.max_bits,
            step_bits: self.step_bits,
            order: self.order,
            visible_when: match self.visible_when {
                Some((k, v)) => Some((k@, v@)),
                None => None,
            },
            read_only: self.read_only,
            group: match self.group {
                Some(g) => Some(g@),
                None => None,
            },
        }
    }
}

/// The fields of a form as values.
pub open spec fn fields_view(s: Seq<SettingField>) -> Seq<FieldView> {
    s.map_values(|f: SettingField| f@)
}

/// Fills an array from a fetch action of the component.
#[derive(Debug, Clone, Copy, PartialEq, Eq)]
pub struct DataActionBinding {
    /// The action to run.
    pub action: &'static str,
    /// The item field shown as each item's label.
    pub label_field: &'static str,
    /// The field of the action's answer that holds the items.
    pub value_field: &'static str,
    /// The item field by which fetched items are merged into the list.
    pub merge_key: Option<&'static str>,
}

impl View for DataActionBinding {
    type V = (Seq<char>, Seq<char>, Seq<char>, Option<Seq<char>>);

    open spec fn view(&self) -> (Seq<char>, Seq<char>, Seq<char>, Option<Seq<char>>) {
        (self.action@, self.label_field@, self.value_field@, match self.merge_key {
            Some(k) => Some(k@),
            None => None,
        })
    }
}

/// One setting of a component: a field, and for an array of objects the
/// fields of each item, its master-detail presentation and the action that
/// fills it.
#[derive(Debug, Clone)]
pub struct ComponentSetting {
    pub field: SettingField,
    pub object_items: Vec<SettingField>,
    pub master_detail: bool,
    pub data_action: Option<DataActionBinding>,
}

/// A component setting as values.
pub struct SettingView {
    pub field: FieldView,
    pub object_items: Seq<FieldView>,
    pub master_detail: bool,
    pub data_action: Option<(Seq<char>, Seq<char>, Seq<char>, Option<Seq<char>>)>,
}

impl View for ComponentSetting {
    type V = SettingView;

    open spec fn view(&self) -> SettingView {
        SettingView {
            field: self.field@,
            object_items: fields_view(self.object_items@),
            master_detail: self.master_detail,
            data_action: match self.data_action {
                Some(a) => Some(a@),
                None => None,
            },
        }
    }
}

/// The settings of a component as values.
pub open spec fn settings_view(s: Seq<ComponentSetting>) -> Seq<SettingView> {
    s.map_values(|c: ComponentSetting| c@)
}

// ---------------------------------------------------------------------------
// Building fields
// ---------------------------------------------------------------------------

/// A field with only its key, widget, texts and position.
pub open spec fn plain_field(key: Seq<char>, kind: FieldKind, scope: Seq<char>, label: Seq<char>, desc: Seq<char>, order: u32) -> FieldView {
    FieldView {
        key,
        kind,
        label: (scope, label),
        description: (scope, desc),
        options: Seq::empty(),
        default: None,
        min_bits: None,
        max_bits: None,
        step_bits: None,
        order,
        visible_when: None,
        read_only: false,
        group: None,
    }
}

fn plain(
    key: &'static str,
    kind: FieldKind,
    scope: &'static str,
    label: &'static str,
    desc: &'static str,
    order: u32,
) -> (r: SettingField)
    ensures
        r@ == plain_field(key@, kind, scope@, label@, desc@, order),
{
    let r = SettingField {
        key,
        kind,
        label: TextKey { scope, key: label },
        description: TextKey { scope, key: desc },
        options: Vec::new(),
        default: None,
        min_bits: None,
        max_bits: None,
        step_bits: None,
        order,
        visible_when: None,
        read_only: false,
        group: None,
    };
    assert(r@.options =~= Seq::<(Seq<char>, (Seq<char>, Seq<char>))>::empty());
    r
}

fn option(value: &'static str, scope: &'static str, label: &'static str) -> (r: SelectOption)
    ensures
        r@ == (value@, (scope@, label@)),
{
    SelectOption { value, label: TextKey { scope, key: label } }
}

// ---------------------------------------------------------------------------
// The model entry
// ---------------------------------------------------------------------------

/// Scope of the model entry's texts.
pub open spec fn entry_scope() -> Seq<char> {
    "model-entry"@
}

/// Shown for chat entries only.
pub open spec fn for_chat() -> Option<(Seq<char>, Seq<char>)> {
    Some(("kind"@, "chat"@))
}

/// Shown for embedding entries only.
pub open spec fn for_embedding() -> Option<(Seq<char>, Seq<char>)> {
    Some(("kind"@, "embedding"@))
}

/// The fields of a model entry, in order: its name and kind; for chat
/// entries temperature, token limit, top-p, reasoning effort and chat
/// capabilities; the context length, read only, for both kinds; for
/// embedding entries the dimensions, similarity and embedding capabilities.
pub open spec fn model_entry_fields() -> Seq<FieldView> {
    let s = entry_scope();
    seq![
        plain_field("name"@, FieldKind::Text, s, "fields.name.label"@, "fields.name.desc"@, 0),
        FieldView {
            options: seq![("chat"@, (s, "kinds.chat"@)), ("embedding"@, (s, "kinds.embedding"@))],
            default: Some(DefaultView::Text("chat"@)),
            ..plain_field("kind"@, FieldKind::Select, s, "fields.kind.label"@, "fields.kind.desc"@, 1)
        },
        FieldView {
            min_bits: Some(0x0u64),
            max_bits: Some(0x4000_0000_0000_0000u64),
            step_bits: Some(0x3fa9_9999_9999_999au64),
            default: Some(DefaultView::NumberBits(0x3fe6_6666_6666_6666u64)),
            visible_when: for_chat(),
            ..plain_field("temperature"@, FieldKind::Number, s, "fields.temperature.label"@, "fields.temperature.desc"@, 2)
        },
        FieldView {
            default: Some(DefaultView::Integer(2048)),
            min_bits: Some(0x3ff0_0000_0000_0000u64),
            visible_when: for_chat(),
            ..plain_field("max_tokens"@, FieldKind::Integer, s, "fields.max_tokens.label"@, "fields.max_tokens.desc"@, 3)
        },
        FieldView {
            min_bits: Some(0x0u64),
            max_bits: Some(0x3ff0_0000_0000_0000u64),
            step_bits: Some(0x3fa9_9999_9999_999au64),
            default: Some(DefaultView::NumberBits(0x3ff0_0000_0000_0000u64)),
            visible_when: for_chat(),
            ..plain_field("top_p"@, FieldKind::Number, s, "fields.top_p.label"@, "fields.top_p.desc"@, 4)
        },
        FieldView {
            options: seq![
                ("none"@, (s, "efforts.none"@)),
                ("low"@, (s, "efforts.low"@)),
                ("medium"@, (s, "efforts.medium"@)),
                ("high"@, (s, "efforts.high"@)),
            ],
            default: Some(DefaultView::Text("none"@)),
            visible_when: for_chat(),
            ..plain_field(
                "reasoning_effort"@,
                FieldKind::Select,
                s,
                "fields.reasoning_effort.label"@,
                "fields.reasoning_effort.desc"@,
                5,
            )
        },
        FieldView {
            options: seq![("reasoning"@, (s, "capabilities.reasoning"@))],
            default: Some(DefaultView::Texts(seq!["reasoning"@])),
            visible_when: for_chat(),
            ..plain_field(
                "chat_capabilities"@,
                FieldKind::MultiSelect,
                s,
                "fields.chat_capabilities.label"@,
                "fields.chat_capabilities.desc"@,
                6,
            )
        },
        FieldView {
            read_only: true,
            default: Some(DefaultView::Integer(0)),
            ..plain_field(
                "context_length"@,
                FieldKind::Integer,
                s,
                "fields.context_length.label"@,
                "fields.context_length.desc"@,
                8,
            )
        },
        FieldView {
            min_bits: Some(0x3ff0_0000_0000_0000u64),
            default: Some(DefaultView::Integer(768)),
            visible_when: for_embedding(),
            ..plain_field("dimensions"@, FieldKind::Integer, s, "fields.dimensions.label"@, "fields.dimensions.desc"@, 9)
        },
        FieldView {
            options: seq![
                ("cosine"@, (s, "similarities.cosine"@)),
                ("dotProduct"@, (s, "similarities.dot_product"@)),
                ("euclidean"@, (s, "similarities.euclidean"@)),
            ],
            default: Some(DefaultView::Text("cosine"@)),
            visible_when: for_embedding(),
            ..plain_field("similarity"@, FieldKind::Select, s, "fields.similarity.label"@, "fields.similarity.desc"@, 11)
        },
        FieldView {
            options: seq![("outputDimensions"@, (s, "capabilities.output_dimensions"@))],
            default: Some(DefaultView::Texts(seq!["outputDimensions"@])),
            visible_when: for_embedding(),
            ..plain_field(
                "embedding_capabilities"@,
                FieldKind::MultiSelect,
                s,
                "fields.embedding_capabilities.label"@,
                "fields.embedding_capabilities.desc"@,
                12,
            )
        },
    ]
}

const ENTRY: &'static str = "model-entry";

fn entry_name_field() -> (r: SettingField)
    ensures
        r@ == model_entry_fields()[0],
{
    plain("name", FieldKind::Text, ENTRY, "fields.name.label", "fields.name.desc", 0)
}

fn entry_kind_field() -> (r: SettingField)
    ensures
        r@ == model_entry_fields()[1],
{
    let mut f = plain("kind", FieldKind::Select, ENTRY, "fields.kind.label", "fields.kind.desc", 1);
    f.options = vec![option("chat", ENTRY, "kinds.chat"), option("embedding", ENTRY, "kinds.embedding")];
    f.default = Some(FieldDefault::Text("chat"));
    assert(f@.options =~= model_entry_fields()[1].options);
    f
}

fn entry_temperature_field() -> (r: SettingField)
    ensures
        r@ == model_entry_fields()[2],
{
    let mut f = plain(
        "temperature",
        FieldKind::Number,
        ENTRY,
        "fields.temperature.label",
        "fields.temperature.desc",
        2,
    );
    f.min_bits = Some(0x0u64);
    f.max_bits = Some(0x4000_0000_0000_0000u64);
    f.step_bits = Some(0x3fa9_9999_9999_999au64);
    f.default = Some(FieldDefault::NumberBits(0x3fe6_6666_6666_6666u64));
    f.visible_when = Some(("kind", "chat"));
    f
}

fn entry_max_tokens_field() -> (r: SettingField)
    ensures
        r@ == model_entry_fields()[3],
{
    let mut f = plain("max_tokens", FieldKind::Integer, ENTRY, "fields.max_tokens.label", "fields.max_tokens.desc", 3);
    f.default = Some(FieldDefault::Integer(2048));
    f.min_bits = Some(0x3ff0_0000_0000_0000u64);
    f.visible_when = Some(("kind", "chat"));
    f
}

fn entry_top_p_field() -> (r: SettingField)
    ensures
        r@ == model_entry_fields()[4],
{
    let mut f = plain("top_p", FieldKind::Number, ENTRY, "fields.top_p.label", "fields.top_p.desc", 4);
    f.min_bits = Some(0x0u64);
    f.max_bits = Some(0x3ff0_0000_0000_0000u64);
    f.step_bits = Some(0x3fa9_9999_9999_999au64);
    f.default = Some(FieldDefault::NumberBits(0x3ff0_0000_0000_0000u64));
    f.visible_when = Some(("kind", "chat"));
    f
}

fn entry_reasoning_effort_field() -> (r: SettingField)
    ensures
        r@ == model_entry_fields()[5],
{
    let mut f = plain(
        "reasoning_effort",
        FieldKind::Select,
        ENTRY,
        "fields.reasoning_effort.label",
        "fields.reasoning_effort.desc",
        5,
    );
    f.options = vec![
        option("none", ENTRY, "efforts.none"),
        option("low", ENTRY, "efforts.low"),
        option("medium", ENTRY, "efforts.medium"),
        option("high", ENTRY, "efforts.high"),
    ];
    f.default = Some(FieldDefault::Text("none"));
    f.visible_when = Some(("kind", "chat"));
    assert(f@.options =~= model_entry_fields()[5].options);
    f
}

fn entry_chat_capabilities_field() -> (r: SettingField)
    ensures
        r@ == model_entry_fields()[6],
{
    let mut f = plain(
        "chat_capabilities",
        FieldKind::MultiSelect,
        ENTRY,
        "fields.chat_capabilities.label",
        "fields.chat_capabilities.desc",
        6,
    );
    f.options = vec![option("reasoning", ENTRY, "capabilities.reasoning")];
    let mut d: Vec<&'static str> = Vec::new();
    d.push("reasoning");
    f.default = Some(FieldDefault::Texts(d));
    f.visible_when = Some(("kind", "chat"));
    assert(f@.options =~= model_entry_fields()[6].options);
    assert(d@.map_values(|t: &'static str| t@) =~= seq!["reasoning"@]);
    f
}

fn entry_context_length_field() -> (r: SettingField)
    ensures
        r@ == model_entry_fields()[7],
{
    let mut f = plain(
        "context_length",
        FieldKind::Integer,
        ENTRY,
        "fields.context_length.label",
        "fields.context_length.desc",
        8,
    );
    f.read_only = true;
    f.default = Some(FieldDefault::Integer(0));
    f
}

fn entry_dimensions_field() -> (r: SettingField)
    ensures
        r@ == model_entry_fields()[8],
{
    let mut f = plain("dimensions", FieldKind::Integer, ENTRY, "fields.dimensions.label", "fields.dimensions.desc", 9);
    f.min_bits = Some(0x3ff0_0000_0000_0000u64);
    f.default = Some(FieldDefault::Integer(768));
    f.visible_when = Some(("kind", "embedding"));
    f
}

fn entry_similarity_field() -> (r: SettingField)
    ensures
        r@ == model_entry_fields()[9],
{
    let mut f = plain("similarity", FieldKind::Select, ENTRY, "fields.similarity.label", "fields.similarity.desc", 11);
    f.options = vec![
        option("cosine", ENTRY, "similarities.cosine"),
        option("dotProduct", ENTRY, "similarities.dot_product"),
        option("euclidean", ENTRY, "similarities.euclidean"),
    ];
    f.default = Some(FieldDefault::Text("cosine"));
    f.visible_when = Some(("kind", "embedding"));
    assert(f@.options =~= model_entry_fields()[9].options);
    f
}

fn entry_embedding_capabilities_field() -> (r: SettingField)
    ensures
        r@ == model_entry_fields()[10],
{
    let mut f = plain(
        "embedding_capabilities",
        FieldKind::MultiSelect,
        ENTRY,
        "fields.embedding_capabilities.label",
        "fields.embedding_capabilities.desc",
        12,
    );
    f.options = vec![option("outputDimensions", ENTRY, "capabilities.output_dimensions")];
    let mut d: Vec<&'static str> = Vec::new();
    d.push("outputDimensions");
    f.default = Some(FieldDefault::Texts(d));
    f.visible_when = Some(("kind", "embedding"));
    assert(f@.options =~= model_entry_fields()[10].options);
    assert(d@.map_values(|t: &'static str| t@) =~= seq!["outputDimensions"@]);
    f
}

/// The fields of a model entry (chat and embedding fields are shown by the
/// entry's kind).
pub fn model_entry_schema() -> (r: Vec<SettingField>)
    ensures
        fields_view(r@) == model_entry_fields(),
{
    let mut fields: Vec<SettingField> = Vec::new();
    fields.push(entry_name_field());
    fields.push(entry_kind_field());
    fields.push(entry_temperature_field());
    fields.push(entry_max_tokens_field());
    fields.push(entry_top_p_field());
    fields.push(entry_reasoning_effort_field());
    fields.push(entry_chat_capabilities_field());
    fields.push(entry_context_length_field());
    fields.push(entry_dimensions_field());
    fields.push(entry_similarity_field());
    fields.push(entry_embedding_capabilities_field());
    assert(fields_view(fields@) =~= model_entry_fields());
    fields
}

// ---------------------------------------------------------------------------
// The provider settings pages
// ---------------------------------------------------------------------------

/// The model list is filled by `fetch_models`: items are labelled by their
/// `name`, taken from the answer's `models`, and merged by `name`.
pub open spec fn fetch_models_binding() -> (Seq<char>, Seq<char>, Seq<char>, Option<Seq<char>>) {
    ("fetch_models"@, "name"@, "models"@, Some("name"@))
}

/// A plain setting (no items, no action).
pub open spec fn simple_setting(field: FieldView) -> SettingView {
    SettingView { field, object_items: Seq::empty(), master_detail: false, data_action: None }
}

/// The address setting of a provider: a text with its default, in the
/// connection group.
pub open spec fn base_url_setting(scope: Seq<char>, default: Seq<char>) -> SettingView {
    simple_setting(
        FieldView {
            group: Some((scope, "groups.connection"@)),
            default: Some(DefaultView::Text(default)),
            ..plain_field("base_url"@, FieldKind::Text, scope, "fields.base_url.label"@, "fields.base_url.desc"@, 0)
        },
    )
}

/// The model list setting of a provider: an array of model entries, shown
/// master-detail, empty by default, filled by `fetch_models`.
pub open spec fn models_setting(scope: Seq<char>, order: u32) -> SettingView {
    SettingView {
        field: FieldView {
            group: Some((scope, "groups.models"@)),
            default: Some(DefaultView::Texts(Seq::empty())),
            ..plain_field("models"@, FieldKind::Array, scope, "fields.models.label"@, "fields.models.desc"@, order)
        },
        object_items: model_entry_fields(),
        master_detail: true,
        data_action: Some(fetch_models_binding()),
    }
}

/// The OpenAI-compatible provider's settings: address, API key (empty by
/// default, in the connection group) and models.
pub open spec fn openai_settings_fields() -> Seq<SettingView> {
    let s = "model-openai-config"@;
    seq![
        base_url_setting(s, "https://api.openai.com/v1"@),
        simple_setting(
            FieldView {
                group: Some((s, "groups.connection"@)),
                default: Some(DefaultView::Text(""@)),
                ..plain_field("api_key"@, FieldKind::Text, s, "fields.api_key.label"@, "fields.api_key.desc"@, 1)
            },
        ),
        models_setting(s, 2),
    ]
}

/// The Ollama provider's settings: address and models.
pub open spec fn ollama_settings_fields() -> Seq<SettingView> {
    let s = "model-ollama-config"@;
    seq![base_url_setting(s, "http://localhost:11434"@), models_setting(s, 1)]
}

fn simple(field: SettingField) -> (r: ComponentSetting)
    ensures
        r@ == simple_setting(field@),
{
    let r = ComponentSetting { field, object_items: Vec::new(), master_detail: false, data_action: None };
    assert(r@.object_items =~= Seq::<FieldView>::empty());
    r
}

fn base_url(scope: &'static str, default: &'static str) -> (r: ComponentSetting)
    ensures
        r@ == base_url_setting(scope@, default@),
{
    let mut f = plain("base_url", FieldKind::Text, scope, "fields.base_url.label", "fields.base_url.desc", 0);
    f.group = Some(TextKey { scope, key: "groups.connection" });
    f.default = Some(FieldDefault::Text(default));
    simple(f)
}

fn models(scope: &'static str, order: u32) -> (r: ComponentSetting)
    ensures
        r@ == models_setting(scope@, order),
{
    let mut f = plain("models", FieldKind::Array, scope, "fields.models.label", "fields.models.desc", order);
    f.group = Some(TextKey { scope, key: "groups.models" });
    let empty: Vec<&'static str> = Vec::new();
    f.default = Some(FieldDefault::Texts(empty));
    assert(empty@.map_values(|t: &'static str| t@) =~= Seq::<Seq<char>>::empty());
    ComponentSetting {
        field: f,
        object_items: model_entry_schema(),
        master_detail: true,
        data_action: Some(
            DataActionBinding {
                action: "fetch_models",
                label_field: "name",
                value_field: "models",
                merge_key: Some("name"),
            },
        ),
    }
}

/// The settings of the OpenAI-compatible provider.
pub fn openai_setting_schema() -> (r: Vec<ComponentSetting>)
    ensures
        settings_view(r@) == openai_settings_fields(),
{
    let scope = "model-openai-config";
    let mut key = plain("api_key", FieldKind::Text, scope, "fields.api_key.label", "fields.api_key.desc", 1);
    key.group = Some(TextKey { scope, key: "groups.connection" });
    key.default = Some(FieldDefault::Text(""));
    let r = vec![base_url(scope, "https://api.openai.com/v1"), simple(key), models(scope, 2)];
    assert(settings_view(r@) =~= openai_settings_fields());
    r
}

/// The settings of the Ollama provider.
pub fn ollama_setting_schema() -> (r: Vec<ComponentSetting>)
    ensures
        settings_view(r@) == ollama_settings_fields(),
{
    let scope = "model-ollama-config";
    let r = vec![base_url(scope, "http://localhost:11434"), models(scope, 1)];
    assert(settings_view(r@) =~= ollama_settings_fields());
    r
}

} // verus!
