//! Model service types: model metadata, request and response payloads and
//! the common error.
//!
//! Floating-point values (temperatures, vector components) are carried as
//! their IEEE-754 bit patterns (`f32::to_bits`); the library only moves and
//! compares them, it never computes with them.
use vstd::prelude::*;
use crate::text::push_str;

verus! {

/// Optional request-level ability of a chat model.
#[derive(Debug, Clone, Copy, PartialEq, Eq, Structural)]
pub enum ChatCapability {
    /// Accepts a reasoning effort (`none` / `low` / `medium` / `high`).
    Reasoning,
}

/// Optional request-level ability of an embedding model.
#[derive(Debug, Clone, Copy, PartialEq, Eq, Structural)]
pub enum EmbeddingCapability {
    /// Accepts titles paired with the inputs.
    Title,
    /// Accepts a task type.
    TaskType,
    /// Accepts a reduced output dimension.
    OutputDimensions,
}

/// Similarity measure recommended for an embedding model.
#[derive(Debug, Clone, Copy, PartialEq, Eq, Structural)]
pub enum ModelSimilarity {
    /// Cosine similarity (the default).
    Cosine,
    /// Dot product.
    DotProduct,
    /// Negative Euclidean distance.
    Euclidean,
}

impl Default for ModelSimilarity {
    fn default() -> (r: Self)
        ensures
            r == ModelSimilarity::Cosine,
    {
        ModelSimilarity::Cosine
    }
}

/// Kind of a model and the settings that belong to that kind.
#[derive(Debug, Clone, PartialEq, Eq)]
#[allow(inconsistent_fields)]
pub enum ModelKind {
    /// Text generation.
    Chat {
        /// Context window, when declared.
        context_window: Option<u32>,
        /// Largest output, when declared.
        max_output: Option<u32>,
        /// Streaming output is supported.
        supports_stream: bool,
        /// Declared request-level abilities.
        capabilities: Vec<ChatCapability>,
    },
    /// Text embedding.
    Embedding {
        /// Largest input context, when declared.
        context_window: Option<u32>,
        /// Vector dimension, when declared.
        dimensions: Option<u32>,
        /// Recommended similarity measure.
        similarity: ModelSimilarity,
        /// Declared request-level abilities.
        capabilities: Vec<EmbeddingCapability>,
    },
}

/// One entry of a provider's model list.
#[derive(Debug, Clone, PartialEq, Eq)]
pub struct ModelInfo {
    /// Global id `{provider}/{model}`.
    pub model_id: String,
    /// Display name.
    pub name: String,
    /// Kind and kind-specific settings.
    pub kind: ModelKind,
    /// Provider id (the prefix of `model_id`).
    pub provider: String,
}

/// What a model kind holds, with sequences for its lists.
pub enum KindView {
    /// Text generation.
    Chat {
        /// Context window, when declared.
        context_window: Option<u32>,
        /// Largest output, when declared.
        max_output: Option<u32>,
        /// Streaming output is supported.
        supports_stream: bool,
        /// Declared abilities.
        capabilities: Seq<ChatCapability>,
    },
    /// Text embedding.
    Embedding {
        /// Largest input context, when declared.
        context_window: Option<u32>,
        /// Vector dimension, when declared.
        dimensions: Option<u32>,
        /// Recommended similarity measure.
        similarity: ModelSimilarity,
        /// Declared abilities.
        capabilities: Seq<EmbeddingCapability>,
    },
}

/// What a model entry holds, with sequences for its texts and lists.
pub struct InfoView {
    /// Global id.
    pub model_id: Seq<char>,
    /// Display name.
    pub name: Seq<char>,
    /// Kind and kind-specific settings.
    pub kind: KindView,
    /// Provider id.
    pub provider: Seq<char>,
}

impl View for ModelKind {
    type V = KindView;

    open spec fn view(&self) -> KindView {
        match *self {
            ModelKind::Chat { context_window, max_output, supports_stream, capabilities } => KindView::Chat {
                context_window,
                max_output,
                supports_stream,
                capabilities: capabilities@,
            },
            ModelKind::Embedding { context_window, dimensions, similarity, capabilities } => KindView::Embedding {
                context_window,
                dimensions,
                similarity,
                capabilities: capabilities@,
            },
        }
    }
}

impl View for ModelInfo {
    type V = InfoView;

    open spec fn view(&self) -> InfoView {
        InfoView { model_id: self.model_id@, name: self.name@, kind: self.kind@, provider: self.provider@ }
    }
}

/// Common error of model calls.
#[derive(Debug, Clone, PartialEq, Eq)]
pub enum ModelError {
    /// The provider does not support the operation.
    NotSupported,
    /// No provider knows the model id.
    ModelNotFound(String),
    /// The provider cannot be reached or is not ready.
    ProviderUnavailable(String),
    /// The request is invalid.
    InvalidRequest(String),
    /// Network or transport failure.
    Transport(String),
}

/// The text of an error (what its `Display` shows).
pub open spec fn model_error_text(e: ModelError) -> Seq<char> {
    match e {
        ModelError::NotSupported => "模型提供方不支持该操作"@,
        ModelError::ModelNotFound(s) => "模型不存在: "@ + s@,
        ModelError::ProviderUnavailable(s) => "模型提供方不可用: "@ + s@,
        ModelError::InvalidRequest(s) => "请求参数非法: "@ + s@,
        ModelError::Transport(s) => "模型传输失败: "@ + s@,
    }
}

impl ModelError {
    /// The text of this error.
    pub fn message(&self) -> (r: String)
        ensures
            r@ == model_error_text(*self),
    {
        let mut out = String::new();
        match self {
            ModelError::NotSupported => push_str(&mut out, "模型提供方不支持该操作"),
            ModelError::ModelNotFound(s) => {
                push_str(&mut out, "模型不存在: ");
                push_str(&mut out, s.as_str());
            },
            ModelError::ProviderUnavailable(s) => {
                push_str(&mut out, "模型提供方不可用: ");
                push_str(&mut out, s.as_str());
            },
            ModelError::InvalidRequest(s) => {
                push_str(&mut out, "请求参数非法: ");
                push_str(&mut out, s.as_str());
            },
            ModelError::Transport(s) => {
                push_str(&mut out, "模型传输失败: ");
                push_str(&mut out, s.as_str());
            },
        }
        out
    }
}

/// Role of a chat message.
#[derive(Debug, Clone, Copy, PartialEq, Eq, Structural)]
pub enum ModelChatRole {
    /// System prompt.
    System,
    /// User message.
    User,
    /// Earlier assistant message.
    Assistant,
}

impl Default for ModelChatRole {
    /// A missing role is the user's.
    fn default() -> (r: Self)
        ensures
            r == ModelChatRole::User,
    {
        ModelChatRole::User
    }
}

/// A chat message.
#[derive(Debug, Clone, PartialEq, Eq)]
pub struct ModelChatMessage {
    /// Role.
    pub role: ModelChatRole,
    /// Text.
    pub content: String,
}

/// A chat request, routed by the prefix of `model_id`.
#[derive(Debug, Clone, PartialEq, Eq)]
pub struct ModelChatRequest {
    /// Global model id.
    pub model_id: String,
    /// Messages in order.
    pub messages: Vec<ModelChatMessage>,
    /// Temperature override, as `f32` bits.
    pub temperature_bits: Option<u32>,
    /// Output budget override.
    pub max_tokens: Option<u32>,
    /// Reasoning effort override.
    pub reasoning_effort: Option<String>,
}

/// Token usage.
#[derive(Debug, Clone, Copy, PartialEq, Eq, Structural, Default)]
pub struct ModelTokenUsage {
    /// Input tokens.
    pub input_tokens: u32,
    /// Output tokens.
    pub output_tokens: u32,
    /// Sum of both.
    pub total_tokens: u32,
}

/// A chat response.
#[derive(Debug, Clone, PartialEq, Eq)]
pub struct ModelChatResponse {
    /// Model that answered.
    pub model_id: String,
    /// Generated text.
    pub content: String,
    /// Why generation stopped.
    pub finish_reason: Option<String>,
    /// Token usage.
    pub usage: Option<ModelTokenUsage>,
}

/// A batch embedding request.
#[derive(Debug, Clone, PartialEq, Eq)]
pub struct ModelEmbeddingRequest {
    /// Embedding model id.
    pub model_id: String,
    /// Texts to embed.
    pub input: Vec<String>,
    /// Titles paired with the inputs.
    pub titles: Option<Vec<String>>,
    /// Task type.
    pub task_type: Option<String>,
    /// Reduced output dimension.
    pub dimensions: Option<u32>,
}

/// A batch embedding response: one vector per input, components as `f32` bits.
#[derive(Debug, Clone, PartialEq, Eq)]
pub struct ModelEmbeddingResponse {
    /// Model that answered.
    pub model_id: String,
    /// Dimension of every vector (0 when there is none).
    pub dimensions: u32,
    /// Vectors, in input order.
    pub vectors: Vec<Vec<u32>>,
}

/// A piece of streamed chat output.
#[derive(Debug, Clone, PartialEq, Eq)]
pub enum ModelStreamChunk {
    /// More text.
    Delta(String),
    /// End of the stream.
    Done {
        /// Why generation stopped.
        finish_reason: Option<String>,
    },
    /// The stream failed.
    Error(String),
}

/// Semantic task an embedding is made for.
#[derive(Debug, Clone, Copy, PartialEq, Eq, Structural)]
pub enum SemanticTask {
    /// A document to be retrieved.
    RetrievalDocument,
    /// A search query.
    RetrievalQuery,
    /// Similarity between sentences.
    SemanticSimilarity,
    /// Classification.
    Classification,
    /// Clustering.
    Clustering,
    /// Plain text without instruction.
    PlainText,
}

/// Values for the named placeholders of an embedding template.
#[derive(Debug, Clone, PartialEq, Eq)]
pub struct EmbeddingTemplateArgs {
    /// Document title.
    pub title: Option<String>,
}

} // verus!
