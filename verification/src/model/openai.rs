//! Rules of the OpenAI-compatible provider: the model list built from the
//! configured entries, finish reasons and the cache namespace.
use vstd::prelude::*;
use crate::model::entries::{chat_config_spec, entry_for_models, entry_spec, opt_entry};
use crate::model::ollama::{positive, texts, views};
use crate::model::settings::{entry_name, ModelEntryConfig, ModelOpenAiSettings};
use crate::model::types::{
    ChatCapability, EmbeddingCapability, InfoView, KindView, ModelError, ModelInfo, ModelKind, ModelSimilarity,
    ModelStreamChunk,
};
use crate::seqs::copy_vec;
use crate::text::{owned, push_str};

verus! {

/// Provider id, the prefix of its model ids.
pub const PROVIDER_ID: &'static str = "openai";

/// Finds the configured entry of a model.
pub fn entry_for<'a>(settings: &'a ModelOpenAiSettings, model_id: &str) -> (r: Option<&'a ModelEntryConfig>)
    ensures
        match r {
            Some(e) => entry_spec(settings.models@, model_id@) == Some(*e),
            None => entry_spec(settings.models@, model_id@) is None,
        },
{
    entry_for_models(settings.models.as_slice(), model_id)
}

fn model_id_for(name: &str) -> (r: String)
    ensures
        r@ == "openai/"@ + name@,
{
    let mut out = String::new();
    push_str(&mut out, "openai/");
    push_str(&mut out, name);
    out
}

/// List entry of a configured chat model: streaming, no declared window or output limit.
pub open spec fn chat_info_view(name: Seq<char>, capabilities: Seq<ChatCapability>) -> InfoView {
    InfoView {
        model_id: "openai/"@ + name,
        name: name,
        kind: KindView::Chat { context_window: None, max_output: None, supports_stream: true, capabilities },
        provider: "openai"@,
    }
}

/// List entry of a configured chat model.
pub fn chat_model_info(name: String, capabilities: Vec<ChatCapability>) -> (r: ModelInfo)
    ensures
        r@ == chat_info_view(name@, capabilities@),
{
    ModelInfo {
        model_id: model_id_for(name.as_str()),
        name: name.clone(),
        kind: ModelKind::Chat { context_window: None, max_output: None, supports_stream: true, capabilities },
        provider: owned("openai"),
    }
}

/// List entry of a configured embedding model.
pub open spec fn embedding_info_view(
    name: Seq<char>,
    context_length: Option<u32>,
    dimensions: Option<u32>,
    similarity: ModelSimilarity,
    capabilities: Seq<EmbeddingCapability>,
) -> InfoView {
    InfoView {
        model_id: "openai/"@ + name,
        name: name,
        kind: KindView::Embedding { context_window: context_length, dimensions, similarity, capabilities },
        provider: "openai"@,
    }
}

/// List entry of a configured embedding model.
pub fn embedding_model_info(
    name: String,
    context_length: Option<u32>,
    dimensions: Option<u32>,
    similarity: ModelSimilarity,
    capabilities: Vec<EmbeddingCapability>,
) -> (r: ModelInfo)
    ensures
        r@ == embedding_info_view(name@, context_length, dimensions, similarity, capabilities@),
{
    ModelInfo {
        model_id: model_id_for(name.as_str()),
        name,
        kind: ModelKind::Embedding { context_window: context_length, dimensions, similarity, capabilities },
        provider: owned("openai"),
    }
}

/// The list entry of a configured model, `None` for an entry without a name:
/// chat entries with their abilities; embedding entries with their context
/// length (when known), similarity and abilities, but no dimension.
pub open spec fn openai_entry_view(e: ModelEntryConfig) -> Option<InfoView> {
    if entry_name(e).len() == 0 {
        None
    } else {
        match e {
            ModelEntryConfig::Chat { name, config } => Some(chat_info_view(name@, config.capabilities@)),
            ModelEntryConfig::Embedding { name, config } => Some(
                embedding_info_view(
                    name@,
                    positive(config.context_length),
                    None,
                    config.similarity,
                    config.capabilities@,
                ),
            ),
        }
    }
}

/// The model list of the configured entries, in their order.
pub open spec fn openai_list(models: Seq<ModelEntryConfig>) -> Seq<InfoView>
    decreases models.len(),
{
    if models.len() == 0 {
        Seq::empty()
    } else {
        openai_list(models.drop_last()) + match openai_entry_view(models.last()) {
            Some(v) => seq![v],
            None => Seq::empty(),
        }
    }
}

/// The model list of the configured entries.
pub fn openai_models(settings: &ModelOpenAiSettings) -> (r: Vec<ModelInfo>)
    ensures
        views(r@) == openai_list(settings.models@),
{
    let mut out: Vec<ModelInfo> = Vec::new();
    let mut i: usize = 0;
    let models = &settings.models;
    while i < models.len()
        invariant
            i <= models@.len(),
            models == &settings.models,
            views(out@) == openai_list(models@.subrange(0, i as int)),
        decreases models.len() - i,
    {
        let ghost before = out@;
        proof {
            assert(models@.subrange(0, i + 1).drop_last() == models@.subrange(0, i as int));
            assert(models@.subrange(0, i + 1).last() == models@[i as int]);
        }
        match &models[i] {
            ModelEntryConfig::Chat { name, config } => {
                if !name.as_str().is_empty() {
                    out.push(chat_model_info(name.clone(), copy_vec(&config.capabilities)));
                    assert(views(out@) == views(before) + seq![out@.last()@]);
                }
            },
            ModelEntryConfig::Embedding { name, config } => {
                if !name.as_str().is_empty() {
                    let cl = if config.context_length > 0 {
                        Some(config.context_length)
                    } else {
                        None
                    };
                    out.push(
                        embedding_model_info(name.clone(), cl, None, config.similarity, copy_vec(&config.capabilities)),
                    );
                    assert(views(out@) == views(before) + seq![out@.last()@]);
                }
            },
        }
        i += 1;
    }
    assert(models@.subrange(0, models@.len() as int) == models@);
    out
}

/// Why an OpenAI-compatible completion stopped.
#[derive(Debug, Clone, Copy, PartialEq, Eq, Structural)]
pub enum FinishReason {
    /// Natural stop.
    Stop,
    /// Output budget reached.
    Length,
    /// Tool calls requested.
    ToolCalls,
    /// Content filtered.
    ContentFilter,
    /// Function call requested.
    FunctionCall,
}

/// The name of a finish reason.
pub open spec fn finish_reason_text(r: FinishReason) -> Seq<char> {
    match r {
        FinishReason::Stop => "stop"@,
        FinishReason::Length => "length"@,
        FinishReason::ToolCalls => "tool_calls"@,
        FinishReason::ContentFilter => "content_filter"@,
        FinishReason::FunctionCall => "function_call"@,
    }
}

/// The name of a finish reason.
pub fn finish_reason_str(reason: FinishReason) -> (r: String)
    ensures
        r@ == finish_reason_text(reason),
{
    match reason {
        FinishReason::Stop => owned("stop"),
        FinishReason::Length => owned("length"),
        FinishReason::ToolCalls => owned("tool_calls"),
        FinishReason::ContentFilter => owned("content_filter"),
        FinishReason::FunctionCall => owned("function_call"),
    }
}

/// Finish reason of a stream after one more chunk: the chunk's, when it has one; the earlier one otherwise.
pub fn next_finish_reason(chunk: Option<FinishReason>, earlier: Option<String>) -> (r: Option<String>)
    ensures
        match chunk {
            Some(c) => r matches Some(s) && s@ == finish_reason_text(c),
            None => r == earlier,
        },
{
    match chunk {
        Some(c) => Some(finish_reason_str(c)),
        None => earlier,
    }
}

/// What the streaming loop received from the service.
#[derive(Debug)]
pub enum StreamEvent {
    /// A chunk; for its first choice (when it has one) the text it adds and
    /// the reason it gives for finishing.
    Chunk { first_choice: Option<(Option<String>, Option<FinishReason>)> },
    /// The stream failed with this error text.
    Failed(String),
    /// The stream ended.
    Ended,
}

/// What the loop does with an event: the finish reason carried on, the
/// chunk to pass to the caller, and the call's outcome when the stream is
/// over.
#[derive(Debug)]
pub struct StreamStep {
    pub finish_reason: Option<String>,
    pub send: Option<ModelStreamChunk>,
    pub outcome: Option<Result<(), ModelError>>,
}

/// One step of relaying a chat stream: a chunk's text is passed on and its
/// finish reason kept (an earlier one stays when it gives none); a failure
/// is passed on and ends the call as a transport error; the end passes on
/// `Done` with the last finish reason (which is then spent) and ends the
/// call successfully.
pub fn stream_step(finish_reason: Option<String>, event: StreamEvent) -> (r: StreamStep)
    ensures
        match event {
            StreamEvent::Chunk { first_choice: None } => {
                &&& r.finish_reason == finish_reason
                &&& r.send is None
                &&& r.outcome is None
            },
            StreamEvent::Chunk { first_choice: Some((delta, finish)) } => {
                &&& match finish {
                    Some(f) => r.finish_reason matches Some(x) && x@ == finish_reason_text(f),
                    None => r.finish_reason == finish_reason,
                }
                &&& match delta {
                    Some(d) => r.send matches Some(ModelStreamChunk::Delta(x)) && x@ == d@,
                    None => r.send is None,
                }
                &&& r.outcome is None
            },
            StreamEvent::Failed(e) => {
                &&& r.finish_reason == finish_reason
                &&& r.send matches Some(ModelStreamChunk::Error(x)) && x@ == e@
                &&& r.outcome matches Some(Err(ModelError::Transport(y))) && y@ == e@
            },
            StreamEvent::Ended => {
                &&& r.finish_reason is None
                &&& r.send == Some(ModelStreamChunk::Done { finish_reason })
                &&& r.outcome == Some(Ok::<(), ModelError>(()))
            },
        },
{
    match event {
        StreamEvent::Chunk { first_choice: None } => StreamStep { finish_reason, send: None, outcome: None },
        StreamEvent::Chunk { first_choice: Some((delta, finish)) } => {
            let send = match delta {
                Some(d) => Some(ModelStreamChunk::Delta(d)),
                None => None,
            };
            StreamStep { finish_reason: next_finish_reason(finish, finish_reason), send, outcome: None }
        },
        StreamEvent::Failed(e) => {
            let copy = e.clone();
            StreamStep {
                finish_reason,
                send: Some(ModelStreamChunk::Error(e)),
                outcome: Some(Err(ModelError::Transport(copy))),
            }
        },
        StreamEvent::Ended => StreamStep {
            finish_reason: None,
            send: Some(ModelStreamChunk::Done { finish_reason }),
            outcome: Some(Ok(())),
        },
    }
}

/// Cache namespace: provider id and address, joined by `:`.
pub fn cache_namespace(base_url: &str) -> (r: String)
    ensures
        r@ == "openai"@ + ":"@ + base_url@,
{
    let mut out = String::new();
    push_str(&mut out, "openai");
    push_str(&mut out, ":");
    push_str(&mut out, base_url);
    out
}

} // verus!
