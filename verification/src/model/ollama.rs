//! Rules of the Ollama provider: request planning and the model list built
//! from the local models and the configured entries.
use vstd::prelude::*;
use vstd::utf8::encode_utf8;
use crate::model::compose::{composed, compose_embedding_texts, require_embedding_capability, undeclared_message};
use crate::model::entries::{
    chat_params_ok, chat_refusal, chat_config_spec, eff_context_length, eff_max_tokens, eff_temperature,
    eff_top_p, eff_effort, effort_of, entry_for_models, entry_spec, opt_entry, resolve_chat_params,
    short_model, short_name, ReasoningEffort,
};
use crate::model::settings::{entry_name, ModelEntryConfig, ModelOllamaSettings};
use crate::model::types::{
    ChatCapability, EmbeddingCapability, EmbeddingTemplateArgs, InfoView, KindView, ModelChatMessage,
    ModelChatRequest, ModelEmbeddingRequest, ModelError, ModelInfo, ModelKind, SemanticTask,
};
use crate::seqs::{copy_vec, first_index, lemma_first_index};
use crate::text::{owned, push_str, str_eq};

verus! {

/// Provider id, the prefix of its model ids.
pub const PROVIDER_ID: &'static str = "ollama";

/// Finds the configured entry of a model.
pub fn entry_for<'a>(settings: &'a ModelOllamaSettings, model_id: &str) -> (r: Option<&'a ModelEntryConfig>)
    ensures
        match r {
            Some(e) => entry_spec(settings.models@, model_id@) == Some(*e),
            None => entry_spec(settings.models@, model_id@) is None,
        },
{
    entry_for_models(settings.models.as_slice(), model_id)
}

/// Total UTF-8 length of the message texts.
pub open spec fn content_bytes(msgs: Seq<ModelChatMessage>) -> nat
    decreases msgs.len(),
{
    if msgs.len() == 0 {
        0
    } else {
        content_bytes(msgs.drop_last()) + encode_utf8(msgs.last().content@).len()
    }
}

/// `x + y`, or `u64::MAX` when that is larger.
pub open spec fn sat_add(x: int, y: int) -> int {
    if x + y > u64::MAX {
        u64::MAX as int
    } else {
        x + y
    }
}

/// Context window of a request: message bytes plus the output budget plus a
/// margin of 256 (each sum saturating), at least 512, and at most the
/// declared context length when one is declared.
pub open spec fn num_ctx_spec(total: int, max_tokens: u32, context_length: u32) -> int {
    let requested = sat_add(sat_add(total, max_tokens as int), 256);
    let requested = if requested < 512 {
        512
    } else {
        requested
    };
    if context_length > 0 && (context_length as int) < requested {
        context_length as int
    } else {
        requested
    }
}

/// Context window for a request.
pub fn dynamic_num_ctx(req: &ModelChatRequest, max_tokens: u32, context_length: u32) -> (r: u64)
    requires
        content_bytes(req.messages@) <= usize::MAX,
    ensures
        r == num_ctx_spec(content_bytes(req.messages@) as int, max_tokens, context_length),
{
    let mut input_bytes: u64 = 0;
    let mut i: usize = 0;
    while i < req.messages.len()
        invariant
            i <= req.messages@.len(),
            content_bytes(req.messages@) <= usize::MAX,
            input_bytes == content_bytes(req.messages@.subrange(0, i as int)),
        decreases req.messages.len() - i,
    {
        proof {
            assert(req.messages@.subrange(0, i + 1).drop_last() == req.messages@.subrange(0, i as int));
            lemma_content_bytes_prefix(req.messages@, i + 1);
        }
        let n = req.messages[i].content.as_str().len();
        assert(n == encode_utf8(req.messages@[i as int].content@).len());
        input_bytes = input_bytes + n as u64;
        i += 1;
    }
    assert(req.messages@.subrange(0, req.messages@.len() as int) == req.messages@);
    let a = if input_bytes > u64::MAX - max_tokens as u64 {
        u64::MAX
    } else {
        input_bytes + max_tokens as u64
    };
    let b = if a > u64::MAX - 256 {
        u64::MAX
    } else {
        a + 256
    };
    let requested = if b < 512 {
        512
    } else {
        b
    };
    if context_length > 0 && (context_length as u64) < requested {
        context_length as u64
    } else {
        requested
    }
}

proof fn lemma_content_bytes_prefix(msgs: Seq<ModelChatMessage>, k: int)
    requires
        0 <= k <= msgs.len(),
    ensures
        content_bytes(msgs.subrange(0, k)) <= content_bytes(msgs),
    decreases msgs.len() - k,
{
    if k < msgs.len() {
        lemma_content_bytes_prefix(msgs, k + 1);
        assert(msgs.subrange(0, k + 1).drop_last() == msgs.subrange(0, k));
    } else {
        assert(msgs.subrange(0, k) == msgs);
    }
}

/// What is sent to Ollama for a chat request.
#[derive(Debug, Clone, PartialEq, Eq)]
pub struct OllamaChatPlan {
    /// Model name (model id without the provider prefix).
    pub model: String,
    /// Messages in order.
    pub messages: Vec<ModelChatMessage>,
    /// Temperature, as `f32` bits.
    pub temperature_bits: u32,
    /// Top-p, as `f32` bits.
    pub top_p_bits: u32,
    /// Context window.
    pub num_ctx: u64,
    /// Output budget.
    pub num_predict: i32,
    /// Thinking level (`Disabled` turns thinking off).
    pub think: ReasoningEffort,
}

/// The Ollama request for a chat request: refused as `chat_refusal` says;
/// otherwise the model name, the messages, the effective temperature and
/// top-p, the context window of `num_ctx_spec`, the output budget capped at
/// `i32::MAX`, and the thinking level.
pub open spec fn ollama_plan_ok(
    req: ModelChatRequest,
    entry: Option<ModelEntryConfig>,
    r: Result<OllamaChatPlan, ModelError>,
) -> bool {
    let c = chat_config_spec(entry);
    match chat_refusal(req, entry) {
        Some(m) => r matches Err(ModelError::InvalidRequest(x)) && x@ == m,
        None => r matches Ok(p) && {
            &&& p.model@ == short_name(req.model_id@)
            &&& p.messages@ == req.messages@
            &&& p.temperature_bits == eff_temperature(req, c)
            &&& p.top_p_bits == eff_top_p(c)
            &&& p.num_ctx == num_ctx_spec(content_bytes(req.messages@) as int, eff_max_tokens(req, c), eff_context_length(c))
            &&& p.num_predict as int == (if eff_max_tokens(req, c) > i32::MAX as u32 {
                i32::MAX as int
            } else {
                eff_max_tokens(req, c) as int
            })
            &&& p.think == effort_of(eff_effort(req, c))->Some_0
        },
    }
}

/// The output budget that a request names is the one sent to Ollama
/// (capped at `i32::MAX`), whatever entry is configured; without one the
/// chat entry's budget is sent, and without a chat entry 2048.
pub proof fn lemma_request_budget_is_sent(
    req: ModelChatRequest,
    entry: Option<ModelEntryConfig>,
    r: Result<OllamaChatPlan, ModelError>,
)
    requires
        ollama_plan_ok(req, entry, r),
        r is Ok,
    ensures
        req.max_tokens matches Some(t) ==> r->Ok_0.num_predict as int == if t > i32::MAX as u32 {
            i32::MAX as int
        } else {
            t as int
        },
        req.max_tokens is None ==> r->Ok_0.num_predict as int == match entry {
            Some(ModelEntryConfig::Chat { config, .. }) => if config.max_tokens > i32::MAX as u32 {
                i32::MAX as int
            } else {
                config.max_tokens as int
            },
            _ => 2048,
        },
{
}

fn copy_messages(m: &Vec<ModelChatMessage>) -> (r: Vec<ModelChatMessage>)
    ensures
        r@ == m@,
{
    let mut out: Vec<ModelChatMessage> = Vec::new();
    let mut i: usize = 0;
    while i < m.len()
        invariant
            i <= m@.len(),
            out@ == m@.subrange(0, i as int),
        decreases m.len() - i,
    {
        let x = ModelChatMessage { role: m[i].role, content: m[i].content.clone() };
        out.push(x);
        assert(m@.subrange(0, i + 1) == m@.subrange(0, i as int).push(m@[i as int]));
        i += 1;
    }
    assert(m@.subrange(0, m@.len() as int) == m@);
    out
}

/// Builds the Ollama request of a chat request.
pub fn build_chat_request(req: &ModelChatRequest, entry: Option<&ModelEntryConfig>) -> (r: Result<
    OllamaChatPlan,
    ModelError,
>)
    requires
        content_bytes(req.messages@) <= usize::MAX,
    ensures
        ollama_plan_ok(*req, opt_entry(entry), r),
        r matches Ok(p) ==> (req.max_tokens matches Some(t) ==> p.num_predict as int == if t > i32::MAX as u32 {
            i32::MAX as int
        } else {
            t as int
        }),
{
    let params = resolve_chat_params(req, entry)?;
    let num_ctx = dynamic_num_ctx(req, params.max_tokens, params.context_length);
    let num_predict: i32 = if params.max_tokens > 0x7fff_ffffu32 {
        0x7fff_ffffi32
    } else {
        params.max_tokens as i32
    };
    Ok(OllamaChatPlan {
        model: short_model(req.model_id.as_str()),
        messages: copy_messages(&req.messages),
        temperature_bits: params.temperature_bits,
        top_p_bits: params.top_p_bits,
        num_ctx,
        num_predict,
        think: params.effort,
    })
}

// ---------------------------------------------------------------------------
// Model list
// ---------------------------------------------------------------------------

/// A configured embedding entry with this (non-empty) name.
pub open spec fn embedding_named(name: Seq<char>) -> spec_fn(ModelEntryConfig) -> bool {
    |e: ModelEntryConfig| e is Embedding && entry_name(e).len() > 0 && entry_name(e) == name
}

/// A chat entry with this name.
pub open spec fn chat_named(name: Seq<char>) -> spec_fn(ModelEntryConfig) -> bool {
    |e: ModelEntryConfig| e is Chat && entry_name(e) == name
}

/// A local model is listed as chat when nothing is configured or a
/// configured chat entry (with a non-empty name) has its name.
pub open spec fn chat_listed(models: Seq<ModelEntryConfig>, name: Seq<char>) -> bool {
    models.len() == 0 || exists|i: int|
        0 <= i < models.len() && #[trigger] models[i] is Chat && entry_name(models[i]).len() > 0 && entry_name(
            models[i],
        ) == name
}

/// `Some(v)` when `v > 0`.
pub open spec fn positive(v: u32) -> Option<u32> {
    if v > 0 {
        Some(v)
    } else {
        None
    }
}

/// The list entry of a local model: as embedding when a configured embedding
/// entry has its name (context window and dimension only when a context
/// length is known); as chat, streaming, when it is listed as chat (context
/// window and abilities from the first chat entry of that name, else no
/// window and reasoning); not listed otherwise.
pub open spec fn ollama_entry_view(models: Seq<ModelEntryConfig>, name: Seq<char>) -> Option<InfoView> {
    match first_index(models, embedding_named(name), 0) {
        Some(i) => match models[i] {
            ModelEntryConfig::Embedding { config, .. } => Some(
                InfoView {
                    model_id: "ollama/"@ + name,
                    name: name,
                    kind: KindView::Embedding {
                        context_window: positive(config.context_length),
                        dimensions: if config.context_length > 0 {
                            Some(config.dimensions)
                        } else {
                            None
                        },
                        similarity: config.similarity,
                        capabilities: config.capabilities@,
                    },
                    provider: "ollama"@,
                },
            ),
            _ => None,
        },
        None => if chat_listed(models, name) {
            let (cw, caps) = match first_index(models, chat_named(name), 0) {
                Some(j) => match models[j] {
                    ModelEntryConfig::Chat { config, .. } => (positive(config.context_length), config.capabilities@),
                    _ => (None, seq![ChatCapability::Reasoning]),
                },
                None => (None, seq![ChatCapability::Reasoning]),
            };
            Some(
                InfoView {
                    model_id: "ollama/"@ + name,
                    name: name,
                    kind: KindView::Chat {
                        context_window: cw,
                        max_output: None,
                        supports_stream: true,
                        capabilities: caps,
                    },
                    provider: "ollama"@,
                },
            )
        } else {
            None
        },
    }
}

/// The model list for the local models `names`, in their order.
pub open spec fn ollama_list(models: Seq<ModelEntryConfig>, names: Seq<Seq<char>>) -> Seq<InfoView>
    decreases names.len(),
{
    if names.len() == 0 {
        Seq::empty()
    } else {
        ollama_list(models, names.drop_last()) + match ollama_entry_view(models, names.last()) {
            Some(v) => seq![v],
            None => Seq::empty(),
        }
    }
}

/// Views of model entries.
pub open spec fn views(s: Seq<ModelInfo>) -> Seq<InfoView> {
    s.map_values(|m: ModelInfo| m@)
}

/// Texts of strings.
pub open spec fn texts(s: Seq<String>) -> Seq<Seq<char>> {
    s.map_values(|x: String| x@)
}

fn model_id_for(name: &str) -> (r: String)
    ensures
        r@ == "ollama/"@ + name@,
{
    let mut out = String::new();
    push_str(&mut out, "ollama/");
    push_str(&mut out, name);
    out
}

fn find_embedding<'a>(models: &'a Vec<ModelEntryConfig>, name: &str) -> (r: Option<&'a ModelEntryConfig>)
    ensures
        match r {
            Some(e) => first_index(models@, embedding_named(name@), 0) matches Some(i) && *e == models@[i],
            None => first_index(models@, embedding_named(name@), 0) is None,
        },
{
    let ghost pred = embedding_named(name@);
    let mut i: usize = 0;
    while i < models.len()
        invariant
            i <= models@.len(),
            pred == embedding_named(name@),
            first_index(models@, pred, 0) == first_index(models@, pred, i as int),
        decreases models.len() - i,
    {
        let e = &models[i];
        let hit = match e {
            ModelEntryConfig::Embedding { name: n, .. } => !n.as_str().is_empty() && str_eq(n.as_str(), name),
            _ => false,
        };
        if hit {
            return Some(e);
        }
        i += 1;
    }
    None
}

fn find_chat<'a>(models: &'a Vec<ModelEntryConfig>, name: &str) -> (r: Option<&'a ModelEntryConfig>)
    ensures
        match r {
            Some(e) => first_index(models@, chat_named(name@), 0) matches Some(i) && *e == models@[i],
            None => first_index(models@, chat_named(name@), 0) is None,
        },
{
    let ghost pred = chat_named(name@);
    let mut i: usize = 0;
    while i < models.len()
        invariant
            i <= models@.len(),
            pred == chat_named(name@),
            first_index(models@, pred, 0) == first_index(models@, pred, i as int),
        decreases models.len() - i,
    {
        let e = &models[i];
        let hit = match e {
            ModelEntryConfig::Chat { name: n, .. } => str_eq(n.as_str(), name),
            _ => false,
        };
        if hit {
            return Some(e);
        }
        i += 1;
    }
    None
}

fn is_chat_listed(models: &Vec<ModelEntryConfig>, name: &str) -> (b: bool)
    ensures
        b == chat_listed(models@, name@),
{
    if models.len() == 0 {
        return true;
    }
    let mut i: usize = 0;
    while i < models.len()
        invariant
            i <= models@.len(),
            models@.len() > 0,
            forall|j: int|
                0 <= j < i ==> !(#[trigger] models@[j] is Chat && entry_name(models@[j]).len() > 0 && entry_name(
                    models@[j],
                ) == name@),
        decreases models.len() - i,
    {
        let hit = match &models[i] {
            ModelEntryConfig::Chat { name: n, .. } => !n.as_str().is_empty() && str_eq(n.as_str(), name),
            _ => false,
        };
        if hit {
            return true;
        }
        i += 1;
    }
    false
}

/// The list entry of one local model.
pub fn ollama_entry(settings: &ModelOllamaSettings, name: &str) -> (r: Option<ModelInfo>)
    ensures
        match r {
            Some(m) => ollama_entry_view(settings.models@, name@) == Some(m@),
            None => ollama_entry_view(settings.models@, name@) is None,
        },
{
    match find_embedding(&settings.models, name) {
        Some(ModelEntryConfig::Embedding { config, .. }) => {
            let cl = config.context_length;
            return Some(ModelInfo {
                model_id: model_id_for(name),
                name: owned(name),
                kind: ModelKind::Embedding {
                    context_window: if cl > 0 {
                        Some(cl)
                    } else {
                        None
                    },
                    dimensions: if cl > 0 {
                        Some(config.dimensions)
                    } else {
                        None
                    },
                    similarity: config.similarity,
                    capabilities: copy_vec(&config.capabilities),
                },
                provider: owned("ollama"),
            });
        },
        Some(_) => {
            return None;
        },
        None => {},
    }
    if !is_chat_listed(&settings.models, name) {
        return None;
    }
    let (cw, caps) = match find_chat(&settings.models, name) {
        Some(ModelEntryConfig::Chat { config, .. }) => (
            if config.context_length > 0 {
                Some(config.context_length)
            } else {
                None
            },
            copy_vec(&config.capabilities),
        ),
        _ => {
            let mut v = Vec::new();
            v.push(ChatCapability::Reasoning);
            (None, v)
        },
    };
    Some(ModelInfo {
        model_id: model_id_for(name),
        name: owned(name),
        kind: ModelKind::Chat { context_window: cw, max_output: None, supports_stream: true, capabilities: caps },
        provider: owned("ollama"),
    })
}

/// The model list: one entry per listed local model, in the order of `local_names`.
pub fn ollama_models(settings: &ModelOllamaSettings, local_names: &[String]) -> (r: Vec<ModelInfo>)
    ensures
        views(r@) == ollama_list(settings.models@, texts(local_names@)),
{
    let mut out: Vec<ModelInfo> = Vec::new();
    let mut i: usize = 0;
    while i < local_names.len()
        invariant
            i <= local_names@.len(),
            views(out@) == ollama_list(settings.models@, texts(local_names@.subrange(0, i as int))),
        decreases local_names.len() - i,
    {
        let ghost before = out@;
        let e = ollama_entry(settings, local_names[i].as_str());
        proof {
            let t = texts(local_names@.subrange(0, i + 1));
            assert(t.drop_last() == texts(local_names@.subrange(0, i as int)));
            assert(t.last() == local_names@[i as int]@);
        }
        match e {
            Some(m) => {
                out.push(m);
                assert(views(out@) == views(before) + seq![out@.last()@]);
            },
            None => {},
        }
        i += 1;
    }
    assert(local_names@.subrange(0, local_names@.len() as int) == local_names@);
    out
}

/// Cache namespace: provider id, address and the configured models (in
/// their JSON form), joined by `:`.
pub fn cache_namespace(base_url: &str, models_json: &str) -> (r: String)
    ensures
        r@ == "ollama"@ + ":"@ + base_url@ + ":"@ + models_json@,
{
    let mut out = String::new();
    push_str(&mut out, "ollama");
    push_str(&mut out, ":");
    push_str(&mut out, base_url);
    push_str(&mut out, ":");
    push_str(&mut out, models_json);
    out
}

} // verus!
