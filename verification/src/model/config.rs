//! The "fetch models" actions of the built-in provider configurations: what
//! entries a fetched model list becomes.
use vstd::prelude::*;
use crate::model::settings::{
    ChatModelConfig, EmbeddingModelConfig, ModelEntryConfig, entry_name, is_default_chat_config,
    is_default_embedding_config, same_chat_config, same_embedding_config,
};
use crate::text::{
    ascii_lower, chars_eq, chars_of, find, find_chars, lower_char, matches_at, occurs_at, push_range, starts_with,
    str_eq, string_of, owned, push_str,
};

verus! {

/// The one action of the model configuration components.
pub open spec fn fetch_models_action() -> Seq<char> {
    "fetch_models"@
}

/// The refusal of an action the components do not have.
pub open spec fn unknown_action_message(action: Seq<char>) -> Seq<char> {
    "未知动作: "@ + action
}

/// Checks an action asked of a model configuration component: only
/// `fetch_models` exists; any other action is refused with
/// `未知动作: <action>`.
pub fn config_action(action: &str) -> (r: Result<(), String>)
    ensures
        action@ == fetch_models_action() ==> r is Ok,
        action@ != fetch_models_action() ==> (r matches Err(m) && m@ == unknown_action_message(action@)),
{
    if str_eq(action, "fetch_models") {
        Ok(())
    } else {
        let mut m = owned("未知动作: ");
        push_str(&mut m, action);
        Err(m)
    }
}

/// ASCII lower case of a text.
pub open spec fn lower_ascii(s: Seq<char>) -> Seq<char> {
    s.map_values(|c: char| ascii_lower(c))
}

/// `p` occurs in `s`.
pub open spec fn contains_text(s: Seq<char>, p: Seq<char>) -> bool {
    find(s, p) is Some
}

/// `s` ends with `p`.
pub open spec fn ends_with(s: Seq<char>, p: Seq<char>) -> bool {
    occurs_at(s, p, s.len() - p.len())
}

/// A model id that names an embedding model by the usual conventions
/// (compared in ASCII lower case): it contains `embedding`, `text-embed`,
/// `-embed-`, `bge-`, `m3e`, `similarity`, `rerank` or `retrieval`, is `ada`,
/// starts with `ada-` or ends with `-ada`.
pub open spec fn embedding_like(id: Seq<char>) -> bool {
    let l = lower_ascii(id);
    contains_text(l, "embedding"@) || contains_text(l, "text-embed"@) || contains_text(l, "-embed-"@)
        || contains_text(l, "bge-"@) || contains_text(l, "m3e"@) || l == "ada"@ || starts_with(l, "ada-"@)
        || ends_with(l, "-ada"@) || contains_text(l, "similarity"@) || contains_text(l, "rerank"@)
        || contains_text(l, "retrieval"@)
}

fn has_text(l: &[char], p: &str) -> (b: bool)
    ensures
        b == contains_text(l@, p@),
{
    let pc = chars_of(p);
    find_chars(l, pc.as_slice()).is_some()
}

/// Whether a model id names an embedding model (the `/models` list of an
/// OpenAI-compatible service gives no kinds, so the id decides; a wrong
/// guess can be corrected in the entry).
pub fn is_embedding_model_id(id: &str) -> (b: bool)
    ensures
        b == embedding_like(id@),
{
    let cs = chars_of(id);
    let mut lowered: Vec<char> = Vec::new();
    let mut i: usize = 0;
    while i < cs.len()
        invariant
            i <= cs@.len(),
            lowered@ == lower_ascii(cs@.take(i as int)),
        decreases cs.len() - i,
    {
        lowered.push(lower_char(cs[i]));
        assert(lower_ascii(cs@.take(i + 1)) == lower_ascii(cs@.take(i as int)).push(ascii_lower(cs@[i as int])));
        i += 1;
    }
    assert(cs@.take(cs@.len() as int) == cs@);
    let l = lowered.as_slice();
    let ada = chars_of("ada");
    let ada_dash = chars_of("ada-");
    let dash_ada = chars_of("-ada");
    let ends_dash_ada = dash_ada.len() <= l.len() && matches_at(l, dash_ada.as_slice(), l.len() - dash_ada.len());
    proof {
        if dash_ada@.len() > l@.len() {
            assert(!occurs_at(l@, dash_ada@, l@.len() - dash_ada@.len()));
        }
    }
    has_text(l, "embedding") || has_text(l, "text-embed") || has_text(l, "-embed-") || has_text(l, "bge-")
        || has_text(l, "m3e") || chars_eq(l, ada.as_slice()) || matches_at(l, ada_dash.as_slice(), 0)
        || ends_dash_ada || has_text(l, "similarity") || has_text(l, "rerank") || has_text(l, "retrieval")
}

/// The entry a fetched model id becomes: an embedding entry when the id
/// looks like one, a chat entry otherwise (default settings either way).
pub open spec fn fetched_entry_ok(id: Seq<char>, e: ModelEntryConfig) -> bool {
    if embedding_like(id) {
        e matches ModelEntryConfig::Embedding { name, config } && name@ == id && is_default_embedding_config(config)
    } else {
        e matches ModelEntryConfig::Chat { name, config } && name@ == id && is_default_chat_config(config)
    }
}

/// The non-empty ids, in order.
pub open spec fn nonempty_ids(ids: Seq<Seq<char>>) -> Seq<Seq<char>>
    decreases ids.len(),
{
    if ids.len() == 0 {
        Seq::empty()
    } else if ids.last().len() == 0 {
        nonempty_ids(ids.drop_last())
    } else {
        nonempty_ids(ids.drop_last()).push(ids.last())
    }
}

/// The entries that the model list of an OpenAI-compatible service gives:
/// ids that are empty are skipped; each other id, in order, becomes a chat or
/// an embedding entry.
pub fn openai_fetched_entries(ids: &[String]) -> (r: Vec<ModelEntryConfig>)
    ensures
        r@.len() == nonempty_ids(ids@.map_values(|s: String| s@)).len(),
        forall|k: int|
            0 <= k < r@.len() ==> fetched_entry_ok(nonempty_ids(ids@.map_values(|s: String| s@))[k], #[trigger] r@[k]),
{
    let ghost all = ids@.map_values(|s: String| s@);
    let mut out: Vec<ModelEntryConfig> = Vec::new();
    let mut i: usize = 0;
    while i < ids.len()
        invariant
            i <= ids@.len(),
            all == ids@.map_values(|s: String| s@),
            out@.len() == nonempty_ids(all.take(i as int)).len(),
            forall|k: int| 0 <= k < out@.len() ==> fetched_entry_ok(nonempty_ids(all.take(i as int))[k], #[trigger] out@[k]),
        decreases ids.len() - i,
    {
        assert(all.take(i + 1).drop_last() == all.take(i as int));
        assert(all.take(i + 1).last() == ids@[i as int]@);
        let id = ids[i].as_str();
        if !id.is_empty() {
            let e = if is_embedding_model_id(id) {
                ModelEntryConfig::embedding(id)
            } else {
                ModelEntryConfig::chat(id)
            };
            out.push(e);
        }
        i += 1;
    }
    assert(all.take(ids@.len() as int) == all);
    out
}

/// The address of a service's model list: the base address without
/// trailing `/`, then `/models`.
pub open spec fn models_url_of(base_url: Seq<char>) -> Seq<char> {
    trim_end_slashes(base_url) + "/models"@
}

/// `s` without its trailing `/` characters (`trim_end_matches('/')`).
pub open spec fn trim_end_slashes(s: Seq<char>) -> Seq<char>
    decreases s.len(),
{
    if s.len() > 0 && s.last() == '/' {
        trim_end_slashes(s.drop_last())
    } else {
        s
    }
}

/// The address of a service's model list.
pub fn models_url(base_url: &str) -> (r: String)
    ensures
        r@ == models_url_of(base_url@),
{
    let cs = chars_of(base_url);
    let mut end = cs.len();
    assert(cs@.take(cs@.len() as int) == cs@);
    while end > 0 && cs[end - 1] == '/'
        invariant
            end <= cs@.len(),
            trim_end_slashes(cs@) == trim_end_slashes(cs@.take(end as int)),
        decreases end,
    {
        assert(cs@.take(end - 1) == cs@.take(end as int).drop_last());
        end -= 1;
    }
    assert(cs@.take(cs@.len() as int) == cs@);
    let mut out = String::new();
    push_range(&mut out, cs.as_slice(), 0, end);
    crate::text::push_str(&mut out, "/models");
    assert(cs@.subrange(0, end as int) == cs@.take(end as int));
    out
}

/// What `/api/show` tells of an Ollama model: its capabilities, and the
/// numeric metadata (each key with its value when that is a non-negative
/// integer), in the order the service gave them.
#[derive(Debug)]
pub struct OllamaShowInfo {
    pub capabilities: Vec<String>,
    pub model_info: Vec<(String, Option<u64>)>,
}

/// The model declares the `embedding` capability.
pub open spec fn declares_embedding(caps: Seq<String>) -> bool {
    exists|i: int| 0 <= i < caps.len() && #[trigger] caps[i]@ == "embedding"@
}

/// Whether an Ollama model is an embedding model.
pub fn model_is_embedding(info: &OllamaShowInfo) -> (b: bool)
    ensures
        b == declares_embedding(info.capabilities@),
{
    let mut i: usize = 0;
    while i < info.capabilities.len()
        invariant
            i <= info.capabilities@.len(),
            forall|j: int| 0 <= j < i ==> (#[trigger] info.capabilities@[j])@ != "embedding"@,
        decreases info.capabilities.len() - i,
    {
        if str_eq(info.capabilities[i].as_str(), "embedding") {
            return true;
        }
        i += 1;
    }
    false
}

/// The value of the first metadata key ending with `suffix`, when it is an
/// integer that fits in `u32` (a first matching key with another value gives
/// nothing).
pub open spec fn info_u32(info: Seq<(String, Option<u64>)>, suffix: Seq<char>) -> Option<u32>
    decreases info.len(),
{
    if info.len() == 0 {
        None
    } else if ends_with(info[0].0@, suffix) {
        match info[0].1 {
            Some(v) => if v <= u32::MAX {
                Some(v as u32)
            } else {
                None
            },
            None => None,
        }
    } else {
        info_u32(info.skip(1), suffix)
    }
}

/// Reads a `u32` metadata field by the end of its key.
pub fn extract_model_info_u32(model_info: &[(String, Option<u64>)], suffix: &str) -> (r: Option<u32>)
    ensures
        r == info_u32(model_info@, suffix@),
{
    let sc = chars_of(suffix);
    let mut i: usize = 0;
    assert(model_info@.skip(0) == model_info@);
    while i < model_info.len()
        invariant
            i <= model_info@.len(),
            sc@ == suffix@,
            info_u32(model_info@, suffix@) == info_u32(model_info@.skip(i as int), suffix@),
        decreases model_info.len() - i,
    {
        let kc = chars_of(model_info[i].0.as_str());
        let hit = sc.len() <= kc.len() && matches_at(kc.as_slice(), sc.as_slice(), kc.len() - sc.len());
        proof {
            if sc@.len() > kc@.len() {
                assert(!occurs_at(kc@, sc@, kc@.len() - sc@.len()));
            }
            assert(model_info@.skip(i as int)[0] == model_info@[i as int]);
            assert(model_info@.skip(i as int).skip(1) == model_info@.skip(i + 1));
        }
        if hit {
            return match model_info[i].1 {
                Some(v) => if v <= 0xffff_ffffu64 {
                    Some(v as u32)
                } else {
                    None
                },
                None => None,
            };
        }
        i += 1;
    }
    None
}

/// The configured entry of the same name, if any (the first one).
pub open spec fn configured_named(configured: Seq<ModelEntryConfig>, name: Seq<char>) -> Option<ModelEntryConfig>
    decreases configured.len(),
{
    if configured.len() == 0 {
        None
    } else if entry_name(configured[0]) == name {
        Some(configured[0])
    } else {
        configured_named(configured.skip(1), name)
    }
}

/// The entry a local Ollama model becomes.
///
/// Its kind comes from `/api/show` when that answered (keeping the settings
/// of a configured entry of that name and kind), else from the configured
/// entry, else chat. When `/api/show` answered, its context length (0 when
/// missing) and, for embedding models, its embedding length (when given)
/// replace the configured ones.
pub open spec fn ollama_entry_ok(
    name: Seq<char>,
    info: Option<(bool, Option<u32>, Option<u32>)>,
    configured: Option<ModelEntryConfig>,
    e: ModelEntryConfig,
) -> bool {
    match info {
        None => match configured {
            Some(c) => entry_name(e) == entry_name(c) && match (c, e) {
                (ModelEntryConfig::Chat { config: a, .. }, ModelEntryConfig::Chat { config: b, .. }) => same_chat_config(a, b),
                (ModelEntryConfig::Embedding { config: a, .. }, ModelEntryConfig::Embedding { config: b, .. }) => same_embedding_config(a, b),
                _ => false,
            },
            None => e matches ModelEntryConfig::Chat { name: n, config } && n@ == name && is_default_chat_config(config),
        },
        Some((is_embedding, context, embedding_length)) => {
            let ctx = match context {
                Some(c) => c,
                None => 0u32,
            };
            if is_embedding {
                e matches ModelEntryConfig::Embedding { name: n, config } && n@ == name && config.context_length == ctx
                    && {
                    let base = match configured {
                        Some(ModelEntryConfig::Embedding { config: c, .. }) => Some(c),
                        _ => None,
                    };
                    &&& config.dimensions == match embedding_length {
                        Some(d) => d,
                        None => match base {
                            Some(c) => c.dimensions,
                            None => 768u32,
                        },
                    }
                    &&& match base {
                        Some(c) => config.similarity == c.similarity && config.capabilities@ == c.capabilities@,
                        None => {
                            let d = config;
                            is_default_embedding_config(EmbeddingModelConfig { context_length: 0, dimensions: 768, ..d })
                        },
                    }
                }
            } else {
                e matches ModelEntryConfig::Chat { name: n, config } && n@ == name && config.context_length == ctx && match configured {
                    Some(ModelEntryConfig::Chat { config: c, .. }) => same_chat_config(ChatModelConfig { context_length: c.context_length, ..config }, c),
                    _ => is_default_chat_config(ChatModelConfig { context_length: 0, ..config }),
                }
            }
        },
    }
}

/// What `/api/show` answered, as the entry rules read it: embedding or not,
/// the context length and the embedding length.
pub open spec fn show_summary(info: OllamaShowInfo) -> (bool, Option<u32>, Option<u32>) {
    (
        declares_embedding(info.capabilities@),
        info_u32(info.model_info@, ".context_length"@),
        info_u32(info.model_info@, ".embedding_length"@),
    )
}

/// A copy of a configured entry.
fn copy_entry(e: &ModelEntryConfig) -> (r: ModelEntryConfig)
    ensures
        entry_name(r) == entry_name(*e),
        match (*e, r) {
            (ModelEntryConfig::Chat { config: a, .. }, ModelEntryConfig::Chat { config: b, .. }) => same_chat_config(a, b),
            (ModelEntryConfig::Embedding { config: a, .. }, ModelEntryConfig::Embedding { config: b, .. }) => same_embedding_config(a, b),
            _ => false,
        },
{
    match e {
        ModelEntryConfig::Chat { name, config } => ModelEntryConfig::Chat { name: name.clone(), config: config.copy() },
        ModelEntryConfig::Embedding { name, config } => ModelEntryConfig::Embedding {
            name: name.clone(),
            config: config.copy(),
        },
    }
}

/// The first configured entry with the given name.
fn find_configured<'a>(configured: &'a [ModelEntryConfig], name: &str) -> (r: Option<&'a ModelEntryConfig>)
    ensures
        match r {
            Some(e) => configured_named(configured@, name@) == Some(*e),
            None => configured_named(configured@, name@) is None,
        },
{
    let mut i: usize = 0;
    assert(configured@.skip(0) == configured@);
    while i < configured.len()
        invariant
            i <= configured@.len(),
            configured_named(configured@, name@) == configured_named(configured@.skip(i as int), name@),
        decreases configured.len() - i,
    {
        assert(configured@.skip(i as int)[0] == configured@[i as int]);
        assert(configured@.skip(i as int).skip(1) == configured@.skip(i + 1));
        if str_eq(configured[i].name(), name) {
            return Some(&configured[i]);
        }
        i += 1;
    }
    None
}

/// The entry that a local Ollama model becomes, from what `/api/show`
/// answered (if it did) and the configured entries.
pub fn ollama_fetched_entry(name: &str, info: Option<&OllamaShowInfo>, configured: &[ModelEntryConfig]) -> (r:
    ModelEntryConfig)
    ensures
        ollama_entry_ok(
            name@,
            match info {
                Some(i) => Some(show_summary(*i)),
                None => None,
            },
            configured_named(configured@, name@),
            r,
        ),
{
    let found = find_configured(configured, name);
    match info {
        None => match found {
            Some(e) => copy_entry(e),
            None => ModelEntryConfig::chat(name),
        },
        Some(i) => {
            let is_embedding = model_is_embedding(i);
            let ctx: u32 = match extract_model_info_u32(i.model_info.as_slice(), ".context_length") {
                Some(c) => c,
                None => 0,
            };
            if is_embedding {
                let mut config = match found {
                    Some(ModelEntryConfig::Embedding { config, .. }) => config.copy(),
                    _ => EmbeddingModelConfig::default(),
                };
                config.context_length = ctx;
                match extract_model_info_u32(i.model_info.as_slice(), ".embedding_length") {
                    Some(d) => {
                        config.dimensions = d;
                    },
                    None => {},
                }
                ModelEntryConfig::Embedding { name: crate::text::owned(name), config }
            } else {
                let mut config = match found {
                    Some(ModelEntryConfig::Chat { config, .. }) => config.copy(),
                    _ => ChatModelConfig::default(),
                };
                config.context_length = ctx;
                ModelEntryConfig::Chat { name: crate::text::owned(name), config }
            }
        },
    }
}

} // verus!
