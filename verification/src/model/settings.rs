//! Connection settings of the built-in providers and their model entries.
//!
//! `f32` settings are held as their bit patterns (`f32::to_bits`).
use vstd::prelude::*;
use crate::model::types::{ChatCapability, EmbeddingCapability, ModelSimilarity};
use crate::text::owned;

verus! {

/// Bits of `0.7f32`, the default temperature.
pub const DEFAULT_TEMPERATURE_BITS: u32 = 0x3f33_3333u32;

/// Bits of `1.0f32`, the default top-p.
pub const DEFAULT_TOP_P_BITS: u32 = 0x3f80_0000u32;

/// Generation defaults and metadata of a chat model.
#[derive(Debug, Clone, PartialEq, Eq)]
pub struct ChatModelConfig {
    /// Sampling temperature, as `f32` bits.
    pub temperature_bits: u32,
    /// Output budget.
    pub max_tokens: u32,
    /// Nucleus sampling threshold, as `f32` bits.
    pub top_p_bits: u32,
    /// Reasoning effort.
    pub reasoning_effort: String,
    /// Declared context length (0: not fetched yet).
    pub context_length: u32,
    /// Declared abilities.
    pub capabilities: Vec<ChatCapability>,
}

/// The default chat configuration.
pub open spec fn is_default_chat_config(c: ChatModelConfig) -> bool {
    &&& c.temperature_bits == DEFAULT_TEMPERATURE_BITS
    &&& c.max_tokens == 2048
    &&& c.top_p_bits == DEFAULT_TOP_P_BITS
    &&& c.reasoning_effort@ == "none"@
    &&& c.context_length == 0
    &&& c.capabilities@ == seq![ChatCapability::Reasoning]
}

/// The two configurations hold the same values.
pub open spec fn same_chat_config(a: ChatModelConfig, b: ChatModelConfig) -> bool {
    &&& a.temperature_bits == b.temperature_bits
    &&& a.max_tokens == b.max_tokens
    &&& a.top_p_bits == b.top_p_bits
    &&& a.reasoning_effort@ == b.reasoning_effort@
    &&& a.context_length == b.context_length
    &&& a.capabilities@ == b.capabilities@
}

impl ChatModelConfig {
    /// A copy of this configuration.
    pub fn copy(&self) -> (r: Self)
        ensures
            same_chat_config(r, *self),
    {
        let mut caps: Vec<ChatCapability> = Vec::new();
        let mut i: usize = 0;
        while i < self.capabilities.len()
            invariant
                i <= self.capabilities@.len(),
                caps@ == self.capabilities@.subrange(0, i as int),
            decreases self.capabilities.len() - i,
        {
            caps.push(self.capabilities[i]);
            assert(self.capabilities@.subrange(0, i + 1) == self.capabilities@.subrange(0, i as int).push(
                self.capabilities@[i as int],
            ));
            i += 1;
        }
        assert(self.capabilities@.subrange(0, self.capabilities@.len() as int) == self.capabilities@);
        ChatModelConfig {
            temperature_bits: self.temperature_bits,
            max_tokens: self.max_tokens,
            top_p_bits: self.top_p_bits,
            reasoning_effort: self.reasoning_effort.clone(),
            context_length: self.context_length,
            capabilities: caps,
        }
    }
}

impl Default for ChatModelConfig {
    fn default() -> (r: Self)
        ensures
            is_default_chat_config(r),
    {
        ChatModelConfig {
            temperature_bits: DEFAULT_TEMPERATURE_BITS,
            max_tokens: default_chat_max_tokens(),
            top_p_bits: DEFAULT_TOP_P_BITS,
            reasoning_effort: default_reasoning_effort(),
            context_length: default_context_length(),
            capabilities: default_chat_capabilities(),
        }
    }
}

/// Default output budget of chat models.
pub fn default_chat_max_tokens() -> (r: u32)
    ensures
        r == 2048,
{
    2048
}

/// Default reasoning effort.
pub fn default_reasoning_effort() -> (r: String)
    ensures
        r@ == "none"@,
{
    owned("none")
}

/// Context length before the metadata was fetched.
pub fn default_context_length() -> (r: u32)
    ensures
        r == 0,
{
    0
}

/// Default abilities of a chat entry.
pub fn default_chat_capabilities() -> (r: Vec<ChatCapability>)
    ensures
        r@ == seq![ChatCapability::Reasoning],
{
    let mut v = Vec::new();
    v.push(ChatCapability::Reasoning);
    v
}

/// Output settings and metadata of an embedding model.
#[derive(Debug, Clone, PartialEq, Eq)]
pub struct EmbeddingModelConfig {
    /// Output dimension.
    pub dimensions: u32,
    /// Declared input context length (0: not fetched yet).
    pub context_length: u32,
    /// Recommended similarity measure.
    pub similarity: ModelSimilarity,
    /// Declared abilities.
    pub capabilities: Vec<EmbeddingCapability>,
}

/// The default embedding configuration.
pub open spec fn is_default_embedding_config(c: EmbeddingModelConfig) -> bool {
    &&& c.dimensions == 768
    &&& c.context_length == 0
    &&& c.similarity == ModelSimilarity::Cosine
    &&& c.capabilities@ == seq![EmbeddingCapability::OutputDimensions]
}

/// The two configurations hold the same values.
pub open spec fn same_embedding_config(a: EmbeddingModelConfig, b: EmbeddingModelConfig) -> bool {
    &&& a.dimensions == b.dimensions
    &&& a.context_length == b.context_length
    &&& a.similarity == b.similarity
    &&& a.capabilities@ == b.capabilities@
}

impl EmbeddingModelConfig {
    /// A copy of this configuration.
    pub fn copy(&self) -> (r: Self)
        ensures
            same_embedding_config(r, *self),
    {
        EmbeddingModelConfig {
            dimensions: self.dimensions,
            context_length: self.context_length,
            similarity: self.similarity,
            capabilities: vstd::slice::slice_to_vec(self.capabilities.as_slice()),
        }
    }
}

impl Default for EmbeddingModelConfig {
    fn default() -> (r: Self)
        ensures
            is_default_embedding_config(r),
    {
        EmbeddingModelConfig {
            dimensions: default_embedding_dimensions(),
            context_length: default_context_length(),
            similarity: ModelSimilarity::Cosine,
            capabilities: default_embedding_capabilities(),
        }
    }
}

/// Default embedding dimension.
pub fn default_embedding_dimensions() -> (r: u32)
    ensures
        r == 768,
{
    768
}

/// Default abilities of an embedding entry.
pub fn default_embedding_capabilities() -> (r: Vec<EmbeddingCapability>)
    ensures
        r@ == seq![EmbeddingCapability::OutputDimensions],
{
    let mut v = Vec::new();
    v.push(EmbeddingCapability::OutputDimensions);
    v
}

/// One configured model.
#[derive(Debug, Clone, PartialEq, Eq)]
#[allow(inconsistent_fields)]
pub enum ModelEntryConfig {
    /// A chat model.
    Chat {
        /// Provider-side model name (entries with an empty name are ignored).
        name: String,
        /// Chat settings.
        config: ChatModelConfig,
    },
    /// An embedding model.
    Embedding {
        /// Provider-side model name (entries with an empty name are ignored).
        name: String,
        /// Embedding settings.
        config: EmbeddingModelConfig,
    },
}

/// Provider-side name of an entry.
pub open spec fn entry_name(e: ModelEntryConfig) -> Seq<char> {
    match e {
        ModelEntryConfig::Chat { name, .. } => name@,
        ModelEntryConfig::Embedding { name, .. } => name@,
    }
}

impl ModelEntryConfig {
    /// A chat entry with default settings.
    pub fn chat(name: &str) -> (r: Self)
        ensures
            r matches ModelEntryConfig::Chat { name: n, config } && n@ == name@ && is_default_chat_config(config),
    {
        ModelEntryConfig::Chat { name: owned(name), config: ChatModelConfig::default() }
    }

    /// An embedding entry with default settings.
    pub fn embedding(name: &str) -> (r: Self)
        ensures
            r matches ModelEntryConfig::Embedding { name: n, config } && n@ == name@
                && is_default_embedding_config(config),
    {
        ModelEntryConfig::Embedding { name: owned(name), config: EmbeddingModelConfig::default() }
    }

    /// Provider-side name.
    pub fn name(&self) -> (r: &str)
        ensures
            r@ == entry_name(*self),
    {
        match self {
            ModelEntryConfig::Chat { name, .. } => name.as_str(),
            ModelEntryConfig::Embedding { name, .. } => name.as_str(),
        }
    }
}

/// Connection settings of an OpenAI-compatible service.
#[derive(Debug, Clone, PartialEq, Eq)]
pub struct ModelOpenAiSettings {
    /// API base address.
    pub base_url: String,
    /// API key (empty: none).
    pub api_key: String,
    /// Configured models.
    pub models: Vec<ModelEntryConfig>,
}

/// Default OpenAI API address.
pub fn default_openai_base_url() -> (r: String)
    ensures
        r@ == "https://api.openai.com/v1"@,
{
    owned("https://api.openai.com/v1")
}

impl Default for ModelOpenAiSettings {
    fn default() -> (r: Self)
        ensures
            r.base_url@ == "https://api.openai.com/v1"@,
            r.api_key@.len() == 0,
            r.models@.len() == 0,
    {
        ModelOpenAiSettings { base_url: default_openai_base_url(), api_key: String::new(), models: Vec::new() }
    }
}

/// Connection settings of an Ollama service.
#[derive(Debug, Clone, PartialEq, Eq)]
pub struct ModelOllamaSettings {
    /// Service address.
    pub base_url: String,
    /// Configured models (empty: every local model is listed as chat).
    pub models: Vec<ModelEntryConfig>,
}

/// Default Ollama address.
pub fn default_ollama_base_url() -> (r: String)
    ensures
        r@ == "http://localhost:11434"@,
{
    owned("http://localhost:11434")
}

impl Default for ModelOllamaSettings {
    fn default() -> (r: Self)
        ensures
            r.base_url@ == "http://localhost:11434"@,
            r.models@.len() == 0,
    {
        ModelOllamaSettings { base_url: default_ollama_base_url(), models: Vec::new() }
    }
}

} // verus!
