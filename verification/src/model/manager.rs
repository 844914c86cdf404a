//! Rules of the host model service: the aggregated model catalog, routing by
//! model id prefix, admission of chat and embedding requests, and the
//! assembly of embedding responses from cached and freshly computed vectors.
//!
//! The calls themselves (providers, embedding cache) are made by the host;
//! this module decides what is sent and what is answered.
use vstd::prelude::*;
use vstd::slice::slice_subrange;
use crate::model::compose::{task_of, validate_task_type};
use crate::model::types::{
    SemanticTask, EmbeddingCapability, InfoView, KindView, ModelEmbeddingRequest, ModelEmbeddingResponse, ModelError, ModelInfo,
    ModelKind,
};
use crate::model::ollama::views;
use crate::seqs::{copy_vec, first_index, last_index, lemma_last_index};
use crate::text::{chars_of, find, find_chars, owned, push_str, str_eq, string_of};

verus! {

/// Id of the configuration component of the OpenAI-compatible provider.
pub const MODEL_OPENAI_CONFIG_ID: &'static str = "model-openai-config";

/// Id of the configuration component of the Ollama provider.
pub const MODEL_OLLAMA_CONFIG_ID: &'static str = "model-ollama-config";

/// The provider part of a model id: what comes before its first `/`.
pub open spec fn provider_of(model_id: Seq<char>) -> Option<Seq<char>> {
    match find(model_id, seq!['/']) {
        Some(p) => Some(model_id.subrange(0, p)),
        None => None,
    }
}

/// The provider a model id routes to: `InvalidRequest` when the id has no `/`.
/// (A provider id that no provider has is answered `ModelNotFound` by the host.)
pub fn route_provider_id(model_id: &str) -> (r: Result<String, ModelError>)
    ensures
        match provider_of(model_id@) {
            Some(p) => r matches Ok(s) && s@ == p,
            None => r matches Err(ModelError::InvalidRequest(m)) && m@ == "模型 id 缺少提供方前缀: "@ + model_id@,
        },
{
    let cs = chars_of(model_id);
    let mut slash: Vec<char> = Vec::new();
    slash.push('/');
    assert(slash@ == seq!['/']);
    match find_chars(cs.as_slice(), slash.as_slice()) {
        Some(p) => Ok(string_of(slice_subrange(cs.as_slice(), 0, p))),
        None => {
            let mut m = String::new();
            push_str(&mut m, "模型 id 缺少提供方前缀: ");
            push_str(&mut m, model_id);
            Err(ModelError::InvalidRequest(m))
        },
    }
}

/// Whether a configuration change concerns a built-in provider.
pub fn is_builtin_provider_config(component_id: &str) -> (b: bool)
    ensures
        b == (component_id@ == MODEL_OPENAI_CONFIG_ID@ || component_id@ == MODEL_OLLAMA_CONFIG_ID@),
{
    str_eq(component_id, MODEL_OPENAI_CONFIG_ID) || str_eq(component_id, MODEL_OLLAMA_CONFIG_ID)
}

/// A copy of a model entry.
pub fn copy_info(m: &ModelInfo) -> (r: ModelInfo)
    ensures
        r@ == m@,
{
    let kind = match &m.kind {
        ModelKind::Chat { context_window, max_output, supports_stream, capabilities } => ModelKind::Chat {
            context_window: *context_window,
            max_output: *max_output,
            supports_stream: *supports_stream,
            capabilities: copy_vec(capabilities),
        },
        ModelKind::Embedding { context_window, dimensions, similarity, capabilities } => ModelKind::Embedding {
            context_window: *context_window,
            dimensions: *dimensions,
            similarity: *similarity,
            capabilities: copy_vec(capabilities),
        },
    };
    ModelInfo { model_id: m.model_id.clone(), name: m.name.clone(), kind, provider: m.provider.clone() }
}

/// Copies a list of model entries.
pub fn copy_infos(s: &[ModelInfo]) -> (r: Vec<ModelInfo>)
    ensures
        views(r@) == views(s@),
{
    let mut out: Vec<ModelInfo> = Vec::new();
    let mut i: usize = 0;
    while i < s.len()
        invariant
            i <= s@.len(),
            views(out@) == views(s@.subrange(0, i as int)),
        decreases s.len() - i,
    {
        let ghost before = out@;
        out.push(copy_info(&s[i]));
        assert(views(out@) == views(before) + seq![s@[i as int]@]);
        assert(views(s@.subrange(0, i + 1)) == views(s@.subrange(0, i as int)) + seq![s@[i as int]@]);
        i += 1;
    }
    assert(s@.subrange(0, s@.len() as int) == s@);
    out
}

/// The concatenation of the lists that providers returned, skipping those that failed.
pub open spec fn aggregated(lists: Seq<Result<Vec<ModelInfo>, ModelError>>) -> Seq<InfoView>
    decreases lists.len(),
{
    if lists.len() == 0 {
        Seq::empty()
    } else {
        aggregated(lists.drop_last()) + match lists.last() {
            Ok(l) => views(l@),
            Err(_) => Seq::empty(),
        }
    }
}

/// The aggregated model list of all providers.
#[derive(Debug)]
pub struct ModelCatalog {
    /// Models, provider by provider.
    pub models: Vec<ModelInfo>,
}

/// The entry has the given model id.
pub open spec fn has_id(id: Seq<char>) -> spec_fn(ModelInfo) -> bool {
    |m: ModelInfo| m.model_id@ == id
}

/// The first entry with the given model id.
pub open spec fn info_spec(models: Seq<ModelInfo>, id: Seq<char>) -> Option<InfoView> {
    match first_index(models, has_id(id), 0) {
        Some(i) => Some(models[i]@),
        None => None,
    }
}

impl ModelCatalog {
    /// An empty catalog.
    pub fn new() -> (r: Self)
        ensures
            r.models@.len() == 0,
    {
        ModelCatalog { models: Vec::new() }
    }

    /// Replaces the catalog by the lists the providers returned, in order;
    /// a provider that failed contributes nothing.
    pub fn refresh(&mut self, lists: Vec<Result<Vec<ModelInfo>, ModelError>>)
        ensures
            views(final(self).models@) == aggregated(lists@),
    {
        let mut all: Vec<ModelInfo> = Vec::new();
        let mut i: usize = 0;
        while i < lists.len()
            invariant
                i <= lists@.len(),
                views(all@) == aggregated(lists@.subrange(0, i as int)),
            decreases lists.len() - i,
        {
            let ghost before = all@;
            assert(lists@.subrange(0, i + 1).drop_last() == lists@.subrange(0, i as int));
            match &lists[i] {
                Ok(l) => {
                    let mut k: usize = 0;
                    while k < l.len()
                        invariant
                            k <= l@.len(),
                            views(all@) == views(before) + views(l@.subrange(0, k as int)),
                        decreases l.len() - k,
                    {
                        let ghost b2 = all@;
                        all.push(copy_info(&l[k]));
                        assert(views(all@) == views(b2) + seq![l@[k as int]@]);
                        assert(views(l@.subrange(0, k + 1)) == views(l@.subrange(0, k as int)) + seq![l@[k as int]@]);
                        k += 1;
                    }
                    assert(l@.subrange(0, l@.len() as int) == l@);
                },
                Err(_) => {},
            }
            i += 1;
        }
        assert(lists@.subrange(0, lists@.len() as int) == lists@);
        self.models = all;
    }

    /// All models.
    pub fn list_models(&self) -> (r: Vec<ModelInfo>)
        ensures
            views(r@) == views(self.models@),
    {
        copy_infos(self.models.as_slice())
    }

    /// The first model with the given id.
    pub fn model_info(&self, model_id: &str) -> (r: Option<ModelInfo>)
        ensures
            match r {
                Some(m) => info_spec(self.models@, model_id@) == Some(m@),
                None => info_spec(self.models@, model_id@) is None,
            },
    {
        let ghost pred = has_id(model_id@);
        let mut i: usize = 0;
        while i < self.models.len()
            invariant
                i <= self.models@.len(),
                pred == has_id(model_id@),
                first_index(self.models@, pred, 0) == first_index(self.models@, pred, i as int),
            decreases self.models.len() - i,
        {
            if str_eq(self.models[i].model_id.as_str(), model_id) {
                return Some(copy_info(&self.models[i]));
            }
            i += 1;
        }
        None
    }
}

/// A chat request goes to its provider only for a known chat model:
/// `NotSupported` for an embedding model, `ModelNotFound` for an unknown id.
pub open spec fn chat_admitted(info: Option<InfoView>, model_id: Seq<char>, r: Result<(), ModelError>) -> bool {
    match info {
        Some(v) => match v.kind {
            KindView::Chat { .. } => r is Ok,
            KindView::Embedding { .. } => r == Err::<(), ModelError>(ModelError::NotSupported),
        },
        None => r matches Err(ModelError::ModelNotFound(m)) && m@ == model_id,
    }
}

/// Admission of a chat request.
pub fn chat_admission(info: Option<&ModelInfo>, model_id: &str) -> (r: Result<(), ModelError>)
    ensures
        chat_admitted(match info {
            Some(m) => Some(m@),
            None => None,
        }, model_id@, r),
{
    match info {
        Some(m) => match &m.kind {
            ModelKind::Chat { .. } => Ok(()),
            ModelKind::Embedding { .. } => Err(ModelError::NotSupported),
        },
        None => Err(ModelError::ModelNotFound(owned(model_id))),
    }
}

/// A streamed chat request goes to its provider only for a known chat model
/// that streams: `NotSupported` otherwise, `ModelNotFound` for an unknown id.
pub open spec fn stream_admitted(info: Option<InfoView>, model_id: Seq<char>, r: Result<(), ModelError>) -> bool {
    match info {
        Some(v) => match v.kind {
            KindView::Chat { supports_stream, .. } => if supports_stream {
                r is Ok
            } else {
                r == Err::<(), ModelError>(ModelError::NotSupported)
            },
            KindView::Embedding { .. } => r == Err::<(), ModelError>(ModelError::NotSupported),
        },
        None => r matches Err(ModelError::ModelNotFound(m)) && m@ == model_id,
    }
}

/// Admission of a streamed chat request.
pub fn stream_admission(info: Option<&ModelInfo>, model_id: &str) -> (r: Result<(), ModelError>)
    ensures
        stream_admitted(match info {
            Some(m) => Some(m@),
            None => None,
        }, model_id@, r),
{
    match info {
        Some(m) => match &m.kind {
            ModelKind::Chat { supports_stream, .. } => if *supports_stream {
                Ok(())
            } else {
                Err(ModelError::NotSupported)
            },
            ModelKind::Embedding { .. } => Err(ModelError::NotSupported),
        },
        None => Err(ModelError::ModelNotFound(owned(model_id))),
    }
}

/// An embedding request is admitted for a known embedding model when its
/// titles (if any) pair up with its inputs, it names a task, and a requested
/// dimension is a declared ability; the answer is the dimension the model
/// declares and the task.
pub open spec fn embedding_admitted(
    req: ModelEmbeddingRequest,
    info: Option<InfoView>,
    r: Result<(Option<u32>, SemanticTask), ModelError>,
) -> bool {
    match info {
        None => (r matches Err(ModelError::ModelNotFound(m)) && m@ == req.model_id@),
        Some(v) => match v.kind {
            KindView::Chat { .. } => r == Err::<(Option<u32>, SemanticTask), ModelError>(ModelError::NotSupported),
            KindView::Embedding { dimensions, capabilities, .. } => {
                if req.titles matches Some(t) && t@.len() != req.input@.len() {
                    (r matches Err(ModelError::InvalidRequest(m)) && m@ == "titles 数量与 input 不一致"@)
                } else {
                    match task_of(match req.task_type {
                        Some(t) => Some(t@),
                        None => None,
                    }) {
                        Err(m) => (r matches Err(ModelError::InvalidRequest(x)) && x@ == m),
                        Ok(task) => if req.dimensions is Some && !capabilities.contains(EmbeddingCapability::OutputDimensions) {
                            (r matches Err(ModelError::InvalidRequest(m)) && m@ == "模型未声明支持 outputDimensions 能力"@)
                        } else {
                            r == Ok::<(Option<u32>, SemanticTask), ModelError>((dimensions, task))
                        },
                    }
                }
            },
        },
    }
}

/// Admission of an embedding request.
pub fn embedding_admission(req: &ModelEmbeddingRequest, info: Option<&ModelInfo>) -> (r: Result<
    (Option<u32>, SemanticTask),
    ModelError,
>)
    ensures
        embedding_admitted(*req, match info {
            Some(m) => Some(m@),
            None => None,
        }, r),
{
    let m = match info {
        None => return Err(ModelError::ModelNotFound(req.model_id.clone())),
        Some(m) => m,
    };
    match &m.kind {
        ModelKind::Chat { .. } => Err(ModelError::NotSupported),
        ModelKind::Embedding { dimensions, capabilities, .. } => {
            match &req.titles {
                Some(t) => {
                    if t.len() != req.input.len() {
                        return Err(ModelError::InvalidRequest(owned("titles 数量与 input 不一致")));
                    }
                },
                None => {},
            }
            let task = validate_task_type(match &req.task_type {
                Some(t) => Some(t.as_str()),
                None => None,
            })?;
            if req.dimensions.is_some() {
                let mut i: usize = 0;
                let mut found = false;
                while i < capabilities.len()
                    invariant
                        i <= capabilities@.len(),
                        found == exists|j: int| 0 <= j < i && capabilities@[j] == EmbeddingCapability::OutputDimensions,
                    decreases capabilities.len() - i,
                {
                    if capabilities[i] == EmbeddingCapability::OutputDimensions {
                        found = true;
                    }
                    i += 1;
                }
                if !found {
                    return Err(ModelError::InvalidRequest(owned("模型未声明支持 outputDimensions 能力")));
                }
            }
            Ok((*dimensions, task))
        },
    }
}

/// The request for one input, used to compute its cache key: the model,
/// that input alone, its title (when titles are given), the task type and
/// the dimension.
pub open spec fn single_request_ok(req: ModelEmbeddingRequest, idx: int, r: ModelEmbeddingRequest) -> bool {
    &&& r.model_id@ == req.model_id@
    &&& r.input@.len() == 1
    &&& r.input@[0]@ == req.input@[idx]@
    &&& match req.titles {
        Some(t) => if 0 <= idx < t@.len() {
            r.titles matches Some(rt) && rt@.len() == 1 && rt@[0]@ == t@[idx]@
        } else {
            r.titles is None
        },
        None => r.titles is None,
    }
    &&& match req.task_type {
        Some(t) => r.task_type matches Some(rt) && rt@ == t@,
        None => r.task_type is None,
    }
    &&& r.dimensions == req.dimensions
}

/// The request for input `idx`, for its cache key.
pub fn single_request(req: &ModelEmbeddingRequest, idx: usize) -> (r: ModelEmbeddingRequest)
    requires
        idx < req.input@.len(),
    ensures
        single_request_ok(*req, idx as int, r),
{
    let mut input: Vec<String> = Vec::new();
    input.push(req.input[idx].clone());
    let titles = match &req.titles {
        Some(t) => if idx < t.len() {
            let mut v: Vec<String> = Vec::new();
            v.push(t[idx].clone());
            Some(v)
        } else {
            None
        },
        None => None,
    };
    let task_type = match &req.task_type {
        Some(t) => Some(t.clone()),
        None => None,
    };
    ModelEmbeddingRequest { model_id: req.model_id.clone(), input, titles, task_type, dimensions: req.dimensions }
}

/// Views of vectors.
pub open spec fn vviews(s: Seq<Vec<u32>>) -> Seq<Seq<u32>> {
    s.map_values(|v: Vec<u32>| v@)
}

/// A cached vector fits the model when the model declares no dimension or
/// the vector has that many components.
pub open spec fn fits(expected: Option<u32>, len: nat) -> bool {
    match expected {
        Some(d) => len as u32 == d,
        None => true,
    }
}

/// The error for a cached vector whose dimension differs from the model's.
pub open spec fn cached_mismatch_message() -> Seq<char> {
    "缓存向量维度与模型元数据不匹配"@
}

/// Checks one cached vector against the declared dimension.
pub fn check_cached(expected: Option<u32>, v: &Vec<u32>) -> (r: Result<(), ModelError>)
    ensures
        fits(expected, v@.len()) ==> r is Ok,
        !fits(expected, v@.len()) ==> (r matches Err(ModelError::Transport(m)) && m@ == cached_mismatch_message()),
{
    match expected {
        Some(d) => {
            if v.len() as u32 != d {
                return Err(ModelError::Transport(owned("缓存向量维度与模型元数据不匹配")));
            }
            Ok(())
        },
        None => Ok(()),
    }
}

/// Positions of the inputs that the cache missed, in order.
pub open spec fn miss_positions(lookups: Seq<Option<Vec<u32>>>) -> Seq<usize>
    decreases lookups.len(),
{
    if lookups.len() == 0 {
        Seq::empty()
    } else if lookups.last() is None {
        miss_positions(lookups.drop_last()).push((lookups.len() - 1) as usize)
    } else {
        miss_positions(lookups.drop_last())
    }
}

/// How many inputs before `i` the cache missed: the place of input `i`
/// among the misses.
pub open spec fn miss_rank(lookups: Seq<Option<Vec<u32>>>, i: int) -> int {
    miss_positions(lookups.take(i)).len() as int
}

/// The misses are positions of missed inputs, in increasing order, and each
/// missed input stands at its rank.
proof fn lemma_miss_positions(l: Seq<Option<Vec<u32>>>)
    requires
        l.len() <= usize::MAX,
    ensures
        forall|k: int| 0 <= k < miss_positions(l).len() ==> (#[trigger] miss_positions(l)[k]) < l.len() && l[
            miss_positions(l)[k] as int
        ] is None,
        forall|k1: int, k2: int|
            0 <= k1 < k2 < miss_positions(l).len() ==> (#[trigger] miss_positions(l)[k1]) < (#[trigger] miss_positions(
                l,
            )[k2]),
        forall|i: int|
            0 <= i < l.len() && (#[trigger] l[i]) is None ==> miss_rank(l, i) < miss_positions(l).len()
                && miss_positions(l)[miss_rank(l, i)] == i,
    decreases l.len(),
{
    if l.len() > 0 {
        let p = l.drop_last();
        lemma_miss_positions(p);
        let mp = miss_positions(p);
        let ml = miss_positions(l);
        assert forall|i: int| 0 <= i < p.len() implies #[trigger] l.take(i) == p.take(i) by {}
        assert(l.take(p.len() as int) == p);
        assert forall|k: int| 0 <= k < ml.len() implies (#[trigger] ml[k]) < l.len() && l[ml[k] as int] is None by {
            if k < mp.len() {
                assert(ml[k] == mp[k]);
                assert(l[mp[k] as int] == p[mp[k] as int]);
            }
        }
        assert forall|k1: int, k2: int| 0 <= k1 < k2 < ml.len() implies (#[trigger] ml[k1]) < (#[trigger] ml[k2]) by {
            if k2 < mp.len() {
                assert(ml[k1] == mp[k1] && ml[k2] == mp[k2]);
            } else {
                assert(ml[k1] == mp[k1]);
            }
        }
        assert forall|i: int| 0 <= i < l.len() && (#[trigger] l[i]) is None implies miss_rank(l, i) < ml.len()
            && ml[miss_rank(l, i)] == i by {
            if i < p.len() {
                assert(l.take(i) == p.take(i));
                assert(p[i] == l[i]);
            }
        }
    }
}

/// When the cache has every input, nothing is missed: no request goes to the
/// provider, and each input gets its cached vector.
pub proof fn lemma_all_hits_need_no_provider(lookups: Seq<Option<Vec<u32>>>)
    requires
        forall|i: int| 0 <= i < lookups.len() ==> (#[trigger] lookups[i]) is Some,
    ensures
        miss_positions(lookups).len() == 0,
    decreases lookups.len(),
{
    if lookups.len() > 0 {
        let p = lookups.drop_last();
        assert forall|i: int| 0 <= i < p.len() implies (#[trigger] p[i]) is Some by {
            assert(p[i] == lookups[i]);
        }
        lemma_all_hits_need_no_provider(p);
        assert(lookups.last() == lookups[lookups.len() - 1]);
    }
}

/// Each input gets its vector: the cached one when the cache had it, else
/// the provider's vector at the input's rank among the misses (the
/// provider answers the misses in their order).
pub proof fn lemma_each_input_gets_its_vector(
    lookups: Seq<Option<Vec<u32>>>,
    ordered: Seq<Vec<u32>>,
    vectors: Seq<Vec<u32>>,
    out: Seq<Vec<u32>>,
)
    requires
        lookups.len() <= usize::MAX,
        ordered.len() == lookups.len(),
        forall|i: int|
            0 <= i < lookups.len() ==> (#[trigger] ordered[i])@ == match lookups[i] {
                Some(v) => v@,
                None => Seq::<u32>::empty(),
            },
        vectors.len() == miss_positions(lookups).len(),
        out.len() == ordered.len(),
        forall|i: int|
            0 <= i < ordered.len() ==> (#[trigger] out[i])@ == match last_index(miss_positions(lookups), at_pos(i)) {
                Some(k) => vectors[k]@,
                None => ordered[i]@,
            },
    ensures
        forall|i: int|
            0 <= i < lookups.len() ==> (#[trigger] out[i])@ == match lookups[i] {
                Some(v) => v@,
                None => vectors[miss_rank(lookups, i)]@,
            },
{
    let m = miss_positions(lookups);
    lemma_miss_positions(lookups);
    assert forall|i: int| 0 <= i < lookups.len() implies (#[trigger] out[i])@ == match lookups[i] {
        Some(v) => v@,
        None => vectors[miss_rank(lookups, i)]@,
    } by {
        lemma_last_index(m, at_pos(i));
        assert(out[i]@ == match last_index(m, at_pos(i)) {
            Some(k) => vectors[k]@,
            None => ordered[i]@,
        });
        match lookups[i] {
            Some(v) => {
                if let Some(k) = last_index(m, at_pos(i)) {
                    assert(at_pos(i)(m[k]));
                    assert(lookups[m[k] as int] is None);
                }
            },
            None => {
                let r = miss_rank(lookups, i);
                assert(m[r] == i);
                assert(at_pos(i)(m[r]));
                if let Some(k) = last_index(m, at_pos(i)) {
                    assert(at_pos(i)(m[k]));
                    if k < r {
                        assert(m[k] < m[r]);
                    } else if k > r {
                        assert(m[r] < m[k]);
                    }
                } else {
                    assert(!at_pos(i)(m[r]));
                }
            },
        }
    }
}

/// The first cached vector does not fit (an error is due).
pub open spec fn some_cached_misfit(expected: Option<u32>, lookups: Seq<Option<Vec<u32>>>) -> bool {
    exists|i: int| #![trigger lookups[i]] 0 <= i < lookups.len() && (lookups[i] matches Some(v) && !fits(expected, v@.len()))
}

/// Vectors placed so far and the positions still to fill.
#[derive(Debug)]
pub struct EmbeddingAssembly {
    /// One slot per input: the cached vector, or empty for a miss.
    pub ordered: Vec<Vec<u32>>,
    /// Positions the cache missed, in order.
    pub misses: Vec<usize>,
}

/// Places the cache lookups (one per input, in order): an error at the first
/// cached vector that does not fit the declared dimension; otherwise cached
/// vectors in their slots, misses recorded.
pub fn sort_lookups(expected: Option<u32>, lookups: Vec<Option<Vec<u32>>>) -> (r: Result<
    EmbeddingAssembly,
    ModelError,
>)
    ensures
        some_cached_misfit(expected, lookups@) ==> (r matches Err(ModelError::Transport(m)) && m@
            == cached_mismatch_message()),
        !some_cached_misfit(expected, lookups@) ==> (r matches Ok(a) && {
            &&& a.ordered@.len() == lookups@.len()
            &&& a.misses@ == miss_positions(lookups@)
            &&& forall|i: int|
                0 <= i < lookups@.len() ==> (#[trigger] a.ordered@[i])@ == match lookups@[i] {
                    Some(v) => v@,
                    None => Seq::<u32>::empty(),
                }
        }),
{
    let ghost l0 = lookups@;
    let n = lookups.len();
    let mut ordered: Vec<Vec<u32>> = Vec::new();
    let mut misses: Vec<usize> = Vec::new();
    let mut rest = lookups;
    let mut taken: Vec<Option<Vec<u32>>> = Vec::new();
    // walk in order: reverse once so that pop yields the first lookup
    let mut rev: Vec<Option<Vec<u32>>> = Vec::new();
    while rest.len() > 0
        invariant
            rev@.len() + rest@.len() == n,
            n == l0.len(),
            l0 == lookups@,
            forall|j: int| 0 <= j < rest@.len() ==> rest@[j] == l0[j],
            forall|j: int| 0 <= j < rev@.len() ==> rev@[j] == l0[n - 1 - j],
        decreases rest.len(),
    {
        let e = rest.pop().unwrap();
        rev.push(e);
    }
    let mut i: usize = 0;
    while rev.len() > 0
        invariant
            i + rev@.len() == n,
            n == l0.len(),
            l0 == lookups@,
            forall|j: int| 0 <= j < rev@.len() ==> rev@[j] == l0[n - 1 - j],
            ordered@.len() == i,
            misses@ == miss_positions(l0.subrange(0, i as int)),
            forall|j: int| 0 <= j < i ==> !(#[trigger] l0[j] matches Some(v) && !fits(expected, v@.len())),
            forall|j: int|
                0 <= j < i ==> (#[trigger] ordered@[j])@ == match l0[j] {
                    Some(v) => v@,
                    None => Seq::<u32>::empty(),
                },
        decreases rev.len(),
    {
        let e = rev.pop().unwrap();
        assert(e == l0[i as int]);
        assert(l0.subrange(0, i + 1).drop_last() == l0.subrange(0, i as int));
        assert(l0.subrange(0, i + 1).last() == l0[i as int]);
        match e {
            Some(v) => {
                match check_cached(expected, &v) {
                    Ok(()) => {},
                    Err(err) => {
                        assert(l0[i as int] matches Some(w) && !fits(expected, w@.len()));
                        assert(some_cached_misfit(expected, l0));
                        return Err(err);
                    },
                }
                ordered.push(v);
            },
            None => {
                misses.push(i);
                ordered.push(Vec::new());
            },
        }
        i += 1;
    }
    assert(l0.subrange(0, n as int) == l0);
    Ok(EmbeddingAssembly { ordered, misses })
}

/// The provider request for the missed inputs: their texts in order and,
/// when the request has titles, their titles (empty where none is at hand).
pub open spec fn miss_request_ok(req: ModelEmbeddingRequest, misses: Seq<usize>, r: ModelEmbeddingRequest) -> bool {
    &&& r.model_id@ == req.model_id@
    &&& r.input@.len() == misses.len()
    &&& forall|k: int| 0 <= k < misses.len() ==> (#[trigger] r.input@[k])@ == req.input@[misses[k] as int]@
    &&& match req.titles {
        Some(t) => r.titles matches Some(rt) && rt@.len() == misses.len() && forall|k: int|
            0 <= k < misses.len() ==> (#[trigger] rt@[k])@ == if (misses[k] as int) < t@.len() {
                t@[misses[k] as int]@
            } else {
                Seq::<char>::empty()
            },
        None => r.titles is None,
    }
    &&& match req.task_type {
        Some(t) => r.task_type matches Some(rt) && rt@ == t@,
        None => r.task_type is None,
    }
    &&& r.dimensions == req.dimensions
}

/// Builds the provider request for the missed inputs.
pub fn miss_request(req: &ModelEmbeddingRequest, misses: &[usize]) -> (r: ModelEmbeddingRequest)
    requires
        forall|k: int| 0 <= k < misses@.len() ==> (#[trigger] misses@[k]) < req.input@.len(),
    ensures
        miss_request_ok(*req, misses@, r),
{
    let mut input: Vec<String> = Vec::new();
    let mut k: usize = 0;
    while k < misses.len()
        invariant
            k <= misses@.len(),
            input@.len() == k,
            forall|q: int| 0 <= q < misses@.len() ==> (#[trigger] misses@[q]) < req.input@.len(),
            forall|q: int| 0 <= q < k ==> (#[trigger] input@[q])@ == req.input@[misses@[q] as int]@,
        decreases misses.len() - k,
    {
        input.push(req.input[misses[k]].clone());
        k += 1;
    }
    let titles = match &req.titles {
        Some(t) => {
            let mut out: Vec<String> = Vec::new();
            let mut k: usize = 0;
            while k < misses.len()
                invariant
                    k <= misses@.len(),
                    out@.len() == k,
                    forall|q: int|
                        0 <= q < k ==> (#[trigger] out@[q])@ == if (misses@[q] as int) < t@.len() {
                            t@[misses@[q] as int]@
                        } else {
                            Seq::<char>::empty()
                        },
                decreases misses.len() - k,
            {
                if misses[k] < t.len() {
                    out.push(t[misses[k]].clone());
                } else {
                    out.push(String::new());
                }
                k += 1;
            }
            Some(out)
        },
        None => None,
    };
    let task_type = match &req.task_type {
        Some(t) => Some(t.clone()),
        None => None,
    };
    ModelEmbeddingRequest { model_id: req.model_id.clone(), input, titles, task_type, dimensions: req.dimensions }
}

/// Length of the first vector, 0 when there is none.
pub open spec fn first_vec_len(s: Seq<Vec<u32>>) -> nat {
    if s.len() == 0 {
        0
    } else {
        s[0]@.len()
    }
}

/// Every vector has `d` components.
pub open spec fn all_len(s: Seq<Vec<u32>>, d: nat) -> bool {
    forall|i: int| 0 <= i < s.len() ==> (#[trigger] s[i])@.len() == d
}

/// The element is the given position.
pub open spec fn at_pos(i: int) -> spec_fn(usize) -> bool {
    |p: usize| p as int == i
}

/// The slots after the provider's vectors for the misses were placed: an
/// error when the provider returned a different number of vectors, when the
/// first one's length (as `u32`) differs from the declared dimension, or
/// when their lengths differ; otherwise each miss slot holds its vector (the
/// last one given for it).
pub open spec fn merged_ok(
    ordered: Seq<Vec<u32>>,
    misses: Seq<usize>,
    expected: Option<u32>,
    vectors: Seq<Vec<u32>>,
    r: Result<Vec<Vec<u32>>, ModelError>,
) -> bool {
    if vectors.len() != misses.len() {
        r matches Err(ModelError::Transport(m)) && m@ == "provider 向量数量不匹配"@
    } else if expected matches Some(d) && (first_vec_len(vectors) as u32) != d {
        r matches Err(ModelError::Transport(m)) && m@ == "provider 向量维度与模型元数据不匹配"@
    } else if !all_len(vectors, first_vec_len(vectors)) {
        r matches Err(ModelError::Transport(m)) && m@ == "provider 向量维度不一致"@
    } else {
        r matches Ok(out) && out@.len() == ordered.len() && forall|i: int|
            0 <= i < ordered.len() ==> (#[trigger] out@[i])@ == match last_index(misses, at_pos(i)) {
                Some(k) => vectors[k]@,
                None => ordered[i]@,
            }
    }
}

/// Places the provider's vectors in the slots of the misses.
pub fn merge_provider_vectors(
    ordered: Vec<Vec<u32>>,
    misses: &[usize],
    expected: Option<u32>,
    vectors: Vec<Vec<u32>>,
) -> (r: Result<Vec<Vec<u32>>, ModelError>)
    requires
        forall|k: int| 0 <= k < misses@.len() ==> (#[trigger] misses@[k]) < ordered@.len(),
    ensures
        merged_ok(ordered@, misses@, expected, vectors@, r),
{
    if vectors.len() != misses.len() {
        return Err(ModelError::Transport(owned("provider 向量数量不匹配")));
    }
    let actual: usize = if vectors.len() == 0 {
        0
    } else {
        vectors[0].len()
    };
    match expected {
        Some(d) => {
            if actual as u32 != d {
                return Err(ModelError::Transport(owned("provider 向量维度与模型元数据不匹配")));
            }
            assert(first_vec_len(vectors@) as u32 == d);
        },
        None => {},
    }
    let mut j: usize = 0;
    while j < vectors.len()
        invariant
            j <= vectors@.len(),
            actual == first_vec_len(vectors@),
            vectors@.len() == misses@.len(),
            expected matches Some(d) ==> first_vec_len(vectors@) as u32 == d,
            forall|q: int| 0 <= q < j ==> (#[trigger] vectors@[q])@.len() == actual,
        decreases vectors.len() - j,
    {
        if vectors[j].len() != actual {
            assert(vectors@[j as int]@.len() != first_vec_len(vectors@));
            return Err(ModelError::Transport(owned("provider 向量维度不一致")));
        }
        j += 1;
    }
    let ghost o0 = ordered@;
    let mut out = ordered;
    let mut k: usize = 0;
    while k < misses.len()
        invariant
            k <= misses@.len(),
            vectors@.len() == misses@.len(),
            out@.len() == o0.len(),
            forall|q: int| 0 <= q < misses@.len() ==> (#[trigger] misses@[q]) < o0.len(),
            forall|i: int|
                0 <= i < o0.len() ==> (#[trigger] out@[i])@ == match last_index(misses@.subrange(0, k as int), at_pos(i)) {
                    Some(q) => vectors@[q]@,
                    None => o0[i]@,
                },
        decreases misses.len() - k,
    {
        let pos = misses[k];
        let v = copy_vec(&vectors[k]);
        out.set(pos, v);
        proof {
            let p1 = misses@.subrange(0, k + 1);
            assert(p1.drop_last() == misses@.subrange(0, k as int));
            assert(p1.last() == misses@[k as int]);
            assert forall|i: int| 0 <= i < o0.len() implies (#[trigger] out@[i])@ == match last_index(p1, at_pos(i)) {
                Some(q) => vectors@[q]@,
                None => o0[i]@,
            } by {
                if i == pos as int {
                    assert(at_pos(i)(p1.last()));
                } else {
                    assert(!at_pos(i)(p1.last()));
                }
            }
        }
        k += 1;
    }
    assert(misses@.subrange(0, misses@.len() as int) == misses@);
    Ok(out)
}

/// The response of an embedding request: an error when the slots differ in
/// length; otherwise the slots and the length of the first as the dimension.
pub open spec fn finished_ok(model_id: Seq<char>, ordered: Seq<Vec<u32>>, r: Result<ModelEmbeddingResponse, ModelError>) -> bool {
    if !all_len(ordered, first_vec_len(ordered)) {
        r matches Err(ModelError::Transport(m)) && m@ == "缓存向量维度不一致"@
    } else {
        r matches Ok(resp) && {
            &&& resp.model_id@ == model_id
            &&& resp.dimensions == first_vec_len(ordered) as u32
            &&& vviews(resp.vectors@) == vviews(ordered)
        }
    }
}

/// Builds the response of an embedding request from its filled slots.
pub fn finish_embedding(model_id: String, ordered: Vec<Vec<u32>>) -> (r: Result<ModelEmbeddingResponse, ModelError>)
    ensures
        finished_ok(model_id@, ordered@, r),
{
    let d: usize = if ordered.len() == 0 {
        0
    } else {
        ordered[0].len()
    };
    let mut j: usize = 0;
    while j < ordered.len()
        invariant
            j <= ordered@.len(),
            d == first_vec_len(ordered@),
            forall|q: int| 0 <= q < j ==> (#[trigger] ordered@[q])@.len() == d,
        decreases ordered.len() - j,
    {
        if ordered[j].len() != d {
            return Err(ModelError::Transport(owned("缓存向量维度不一致")));
        }
        j += 1;
    }
    Ok(ModelEmbeddingResponse { model_id, dimensions: d as u32, vectors: ordered })
}

} // verus!
