//! Rules shared by the built-in providers: model names, configured entries
//! and the effective chat parameters of a request.
use vstd::prelude::*;
use vstd::slice::{slice_subrange, slice_to_vec};
use crate::model::settings::{
    entry_name, ChatModelConfig, ModelEntryConfig, DEFAULT_TEMPERATURE_BITS, DEFAULT_TOP_P_BITS,
};
use crate::model::compose::{composed, compose_embedding_texts, require_embedding_capability, undeclared_message};
use crate::model::types::{
    ChatCapability, EmbeddingCapability, EmbeddingTemplateArgs, ModelChatRequest, ModelEmbeddingResponse, ModelError,
    SemanticTask,
};
use crate::seqs::{first_index, lemma_first_index};
use crate::text::{chars_of, find, find_chars, owned, push_str, str_eq, string_of};

verus! {

/// The model part of a global id: what follows its first `/` (all of it when there is none).
pub open spec fn short_name(model_id: Seq<char>) -> Seq<char> {
    match find(model_id, seq!['/']) {
        Some(p) => model_id.subrange(p + 1, model_id.len() as int),
        None => model_id,
    }
}

/// The model part of a global id.
pub fn short_model(model_id: &str) -> (r: String)
    ensures
        r@ == short_name(model_id@),
{
    let cs = chars_of(model_id);
    let mut slash: Vec<char> = Vec::new();
    slash.push('/');
    assert(slash@ == seq!['/']);
    let n = cs.len();
    match find_chars(cs.as_slice(), slash.as_slice()) {
        Some(p) => {
            assert(p + 1 <= n);
            string_of(slice_subrange(cs.as_slice(), p + 1, n))
        },
        None => string_of(cs.as_slice()),
    }
}

/// The entry has the given name.
pub open spec fn named(name: Seq<char>) -> spec_fn(ModelEntryConfig) -> bool {
    |e: ModelEntryConfig| entry_name(e) == name
}

/// The first configured entry whose name is the model part of `model_id`.
pub open spec fn entry_spec(models: Seq<ModelEntryConfig>, model_id: Seq<char>) -> Option<ModelEntryConfig> {
    match first_index(models, named(short_name(model_id)), 0) {
        Some(i) => Some(models[i]),
        None => None,
    }
}

/// Finds the configured entry of a model.
pub fn entry_for_models<'a>(models: &'a [ModelEntryConfig], model_id: &str) -> (r: Option<&'a ModelEntryConfig>)
    ensures
        match r {
            Some(e) => entry_spec(models@, model_id@) == Some(*e),
            None => entry_spec(models@, model_id@) is None,
        },
{
    let name = short_model(model_id);
    let ghost pred = named(short_name(model_id@));
    let mut i: usize = 0;
    while i < models.len()
        invariant
            i <= models@.len(),
            name@ == short_name(model_id@),
            pred == named(short_name(model_id@)),
            first_index(models@, pred, 0) == first_index(models@, pred, i as int),
        decreases models.len() - i,
    {
        if str_eq(models[i].name(), name.as_str()) {
            return Some(&models[i]);
        }
        i += 1;
    }
    None
}

/// The entry a reference points to.
pub open spec fn opt_entry(e: Option<&ModelEntryConfig>) -> Option<ModelEntryConfig> {
    match e {
        Some(x) => Some(*x),
        None => None,
    }
}

/// The chat settings of an entry, when it is a chat entry.
pub open spec fn chat_config_spec(entry: Option<ModelEntryConfig>) -> Option<ChatModelConfig> {
    match entry {
        Some(ModelEntryConfig::Chat { config, .. }) => Some(config),
        _ => None,
    }
}

/// The chat settings of an entry, when it is a chat entry.
pub fn chat_config(entry: Option<&ModelEntryConfig>) -> (r: Option<&ChatModelConfig>)
    ensures
        match r {
            Some(c) => chat_config_spec(opt_entry(entry)) == Some(*c),
            None => chat_config_spec(opt_entry(entry)) is None,
        },
{
    match entry {
        Some(ModelEntryConfig::Chat { config, .. }) => Some(config),
        _ => None,
    }
}

/// Reasoning effort of a chat request.
#[derive(Debug, Clone, Copy, PartialEq, Eq, Structural)]
pub enum ReasoningEffort {
    /// No reasoning (`none`).
    Disabled,
    /// Low.
    Low,
    /// Medium.
    Medium,
    /// High.
    High,
}

/// The effort a name stands for (`none`, `low`, `medium`, `high`).
pub open spec fn effort_of(name: Seq<char>) -> Option<ReasoningEffort> {
    if name == "none"@ {
        Some(ReasoningEffort::Disabled)
    } else if name == "low"@ {
        Some(ReasoningEffort::Low)
    } else if name == "medium"@ {
        Some(ReasoningEffort::Medium)
    } else if name == "high"@ {
        Some(ReasoningEffort::High)
    } else {
        None
    }
}

/// Parameters of a chat call after request overrides and model defaults.
#[derive(Debug, Clone, PartialEq, Eq)]
pub struct ChatParams {
    /// Temperature, as `f32` bits.
    pub temperature_bits: u32,
    /// Output budget.
    pub max_tokens: u32,
    /// Top-p, as `f32` bits.
    pub top_p_bits: u32,
    /// Reasoning effort.
    pub effort: ReasoningEffort,
    /// Declared context length of the model (0: unknown).
    pub context_length: u32,
}

/// Temperature: the request's, else the entry's, else 0.7.
pub open spec fn eff_temperature(req: ModelChatRequest, c: Option<ChatModelConfig>) -> u32 {
    match req.temperature_bits {
        Some(t) => t,
        None => match c {
            Some(c) => c.temperature_bits,
            None => DEFAULT_TEMPERATURE_BITS,
        },
    }
}

/// Output budget: the request's, else the entry's, else 2048.
pub open spec fn eff_max_tokens(req: ModelChatRequest, c: Option<ChatModelConfig>) -> u32 {
    match req.max_tokens {
        Some(t) => t,
        None => match c {
            Some(c) => c.max_tokens,
            None => 2048,
        },
    }
}

/// Top-p: the entry's, else 1.0.
pub open spec fn eff_top_p(c: Option<ChatModelConfig>) -> u32 {
    match c {
        Some(c) => c.top_p_bits,
        None => DEFAULT_TOP_P_BITS,
    }
}

/// Reasoning effort name: the request's, else the entry's, else `none`.
pub open spec fn eff_effort(req: ModelChatRequest, c: Option<ChatModelConfig>) -> Seq<char> {
    match req.reasoning_effort {
        Some(e) => e@,
        None => match c {
            Some(c) => c.reasoning_effort@,
            None => "none"@,
        },
    }
}

/// Context length: the entry's, else 0.
pub open spec fn eff_context_length(c: Option<ChatModelConfig>) -> u32 {
    match c {
        Some(c) => c.context_length,
        None => 0,
    }
}

/// Why a chat request is refused for a configured entry, if it is: a
/// reasoning effort other than `none` for a chat entry that does not declare
/// reasoning; after that, an unknown effort name.
pub open spec fn chat_refusal(req: ModelChatRequest, entry: Option<ModelEntryConfig>) -> Option<Seq<char>> {
    let c = chat_config_spec(entry);
    let e = eff_effort(req, c);
    if e != "none"@ && (c matches Some(cfg) && !cfg.capabilities@.contains(ChatCapability::Reasoning)) {
        Some("模型未声明支持 reasoning 能力"@)
    } else if effort_of(e) is None {
        Some("无效的 reasoning_effort: "@ + e)
    } else {
        None
    }
}

/// The parameters of a chat request for a configured entry: request values
/// first, then the entry's chat settings, then the defaults; refused as
/// `chat_refusal` says.
pub open spec fn chat_params_ok(
    req: ModelChatRequest,
    entry: Option<ModelEntryConfig>,
    r: Result<ChatParams, ModelError>,
) -> bool {
    let c = chat_config_spec(entry);
    match chat_refusal(req, entry) {
        Some(m) => r matches Err(ModelError::InvalidRequest(x)) && x@ == m,
        None => r == Ok::<ChatParams, ModelError>(
            ChatParams {
                temperature_bits: eff_temperature(req, c),
                max_tokens: eff_max_tokens(req, c),
                top_p_bits: eff_top_p(c),
                effort: effort_of(eff_effort(req, c))->Some_0,
                context_length: eff_context_length(c),
            },
        ),
    }
}

/// A value that the request gives wins over the entry's settings and the
/// defaults: an explicit output budget or temperature is used as it is,
/// whatever entry is configured; without one, the chat entry's setting is
/// used, and without a chat entry the default (2048 tokens, 0.7).
pub proof fn lemma_request_values_win(
    req: ModelChatRequest,
    entry: Option<ModelEntryConfig>,
    r: Result<ChatParams, ModelError>,
)
    requires
        chat_params_ok(req, entry, r),
        r is Ok,
    ensures
        req.max_tokens matches Some(t) ==> r->Ok_0.max_tokens == t,
        req.temperature_bits matches Some(t) ==> r->Ok_0.temperature_bits == t,
        req.max_tokens is None ==> r->Ok_0.max_tokens == match entry {
            Some(ModelEntryConfig::Chat { config, .. }) => config.max_tokens,
            _ => 2048,
        },
        req.temperature_bits is None ==> r->Ok_0.temperature_bits == match entry {
            Some(ModelEntryConfig::Chat { config, .. }) => config.temperature_bits,
            _ => DEFAULT_TEMPERATURE_BITS,
        },
        req.reasoning_effort matches Some(e) ==> effort_of(e@) == Some(r->Ok_0.effort),
{
}

fn has_reasoning(caps: &Vec<ChatCapability>) -> (b: bool)
    ensures
        b == caps@.contains(ChatCapability::Reasoning),
{
    let mut i: usize = 0;
    while i < caps.len()
        invariant
            i <= caps@.len(),
            forall|j: int| 0 <= j < i ==> caps@[j] != ChatCapability::Reasoning,
        decreases caps.len() - i,
    {
        if caps[i] == ChatCapability::Reasoning {
            return true;
        }
        i += 1;
    }
    false
}

fn parse_effort(name: &str) -> (r: Option<ReasoningEffort>)
    ensures
        r == effort_of(name@),
{
    if str_eq(name, "none") {
        Some(ReasoningEffort::Disabled)
    } else if str_eq(name, "low") {
        Some(ReasoningEffort::Low)
    } else if str_eq(name, "medium") {
        Some(ReasoningEffort::Medium)
    } else if str_eq(name, "high") {
        Some(ReasoningEffort::High)
    } else {
        None
    }
}

/// Resolves the parameters of a chat request against its configured entry.
pub fn resolve_chat_params(req: &ModelChatRequest, entry: Option<&ModelEntryConfig>) -> (r: Result<
    ChatParams,
    ModelError,
>)
    ensures
        chat_params_ok(*req, opt_entry(entry), r),
        r matches Ok(p) ==> (req.max_tokens matches Some(t) ==> p.max_tokens == t),
        r matches Ok(p) ==> (req.temperature_bits matches Some(t) ==> p.temperature_bits == t),
{
    let c = chat_config(entry);
    let temperature_bits = match req.temperature_bits {
        Some(t) => t,
        None => match c {
            Some(c) => c.temperature_bits,
            None => DEFAULT_TEMPERATURE_BITS,
        },
    };
    let max_tokens = match req.max_tokens {
        Some(t) => t,
        None => match c {
            Some(c) => c.max_tokens,
            None => 2048,
        },
    };
    let top_p_bits = match c {
        Some(c) => c.top_p_bits,
        None => DEFAULT_TOP_P_BITS,
    };
    let context_length = match c {
        Some(c) => c.context_length,
        None => 0,
    };
    let effort: &str = match &req.reasoning_effort {
        Some(e) => e.as_str(),
        None => match c {
            Some(c) => c.reasoning_effort.as_str(),
            None => "none",
        },
    };
    if !str_eq(effort, "none") {
        match c {
            Some(cfg) => {
                if !has_reasoning(&cfg.capabilities) {
                    return Err(ModelError::InvalidRequest(owned("模型未声明支持 reasoning 能力")));
                }
            },
            None => {},
        }
    }
    match parse_effort(effort) {
        Some(level) => Ok(ChatParams { temperature_bits, max_tokens, top_p_bits, effort: level, context_length }),
        None => {
            let mut m = String::new();
            push_str(&mut m, "无效的 reasoning_effort: ");
            push_str(&mut m, effort);
            Err(ModelError::InvalidRequest(m))
        },
    }
}

} // verus!

verus! {

/// What is sent to a provider for an embedding request.
#[derive(Debug, Clone, PartialEq, Eq)]
pub struct EmbeddingCall {
    /// Model name (model id without the provider prefix).
    pub model: String,
    /// Rendered input texts.
    pub texts: Vec<String>,
    /// Requested output dimension.
    pub dimensions: Option<u32>,
}

/// The embedding settings of an entry, when it is an embedding entry.
pub open spec fn embedding_config_spec(entry: Option<ModelEntryConfig>) -> Option<
    crate::model::settings::EmbeddingModelConfig,
> {
    match entry {
        Some(ModelEntryConfig::Embedding { config, .. }) => Some(config),
        _ => None,
    }
}

/// The provider call of an embedding request: refused when a dimension is
/// requested and the configured embedding entry of the model does not
/// declare output dimensions; otherwise the model name, the inputs rendered
/// with the model's template, and the requested dimension.
pub open spec fn embedding_call_ok(
    models: Seq<ModelEntryConfig>,
    model_id: Seq<char>,
    input: Seq<String>,
    task: SemanticTask,
    args: Option<Seq<EmbeddingTemplateArgs>>,
    dimensions: Option<u32>,
    r: Result<EmbeddingCall, ModelError>,
) -> bool {
    let cfg = embedding_config_spec(entry_spec(models, model_id));
    if dimensions is Some && (cfg matches Some(c) && !c.capabilities@.contains(EmbeddingCapability::OutputDimensions)) {
        r matches Err(ModelError::InvalidRequest(m)) && m@ == undeclared_message("outputDimensions"@)
    } else {
        r matches Ok(call) && {
            &&& call.model@ == short_name(model_id)
            &&& composed(input, task, model_id, args, call.texts@)
            &&& call.dimensions == dimensions
        }
    }
}

/// Plans the provider call of an embedding request.
pub fn plan_embedding(
    models: &[ModelEntryConfig],
    model_id: &str,
    input: &[String],
    task: SemanticTask,
    template_args: Option<&[EmbeddingTemplateArgs]>,
    dimensions: Option<u32>,
) -> (r: Result<EmbeddingCall, ModelError>)
    ensures
        embedding_call_ok(models@, model_id@, input@, task, match template_args {
            Some(a) => Some(a@),
            None => None,
        }, dimensions, r),
{
    let entry = entry_for_models(models, model_id);
    let texts = match compose_embedding_texts(input, task, model_id, template_args) {
        Ok(t) => t,
        Err(e) => return Err(e),
    };
    match dimensions {
        Some(_) => match entry {
            Some(ModelEntryConfig::Embedding { config, .. }) => {
                require_embedding_capability(
                    config.capabilities.as_slice(),
                    EmbeddingCapability::OutputDimensions,
                    "outputDimensions",
                )?;
            },
            _ => {},
        },
        None => {},
    }
    Ok(EmbeddingCall { model: short_model(model_id), texts, dimensions })
}

/// Length of the first vector (0 when there is none), truncated to `u32`.
pub open spec fn first_len(vectors: Seq<Vec<u32>>) -> u32 {
    if vectors.len() == 0 {
        0
    } else {
        vectors[0]@.len() as u32
    }
}

/// The response of a provider's embedding call: its vectors, and the length
/// of the first as the dimension.
pub fn embedding_response(model_id: String, vectors: Vec<Vec<u32>>) -> (r: ModelEmbeddingResponse)
    ensures
        r.model_id == model_id,
        r.vectors == vectors,
        r.dimensions == first_len(vectors@),
{
    let dimensions = if vectors.len() == 0 {
        0
    } else {
        vectors[0].len() as u32
    };
    ModelEmbeddingResponse { model_id, dimensions, vectors }
}

} // verus!
