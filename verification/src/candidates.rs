//! The host's cache of search candidates.
//!
//! Candidates get ids 1, 2, 3, ... in the order they are added, and are
//! never removed; a candidate whose execution target is already cached, or
//! (for data-source candidates) whose display name is, ignoring case, is
//! dropped. A snapshot carries the candidates and the next id across RPC.
use vstd::prelude::*;
use crate::text::str_eq;

verus! {

/// Where an icon comes from.
#[derive(Debug)]
pub enum IconRequest {
    /// The icon of a file.
    Path(String),
    /// The icon of a web page.
    Url(String),
}

/// What running a candidate does.
#[derive(Debug)]
pub enum ExecutionTarget {
    /// Opens a file or program.
    Path(String),
    /// Opens a web address.
    Url(String),
    /// Wakes a plugin (by its id).
    Plugin(String),
}

impl ExecutionTarget {
    /// The text the target carries (path, address or plugin id).
    pub fn payload(&self) -> (r: &str)
        ensures
            r@ == target_key(*self).1,
    {
        match self {
            ExecutionTarget::Path(s) => s.as_str(),
            ExecutionTarget::Url(s) => s.as_str(),
            ExecutionTarget::Plugin(s) => s.as_str(),
        }
    }
}

/// Kinds of execution targets.
#[derive(Debug, Clone, Copy, PartialEq, Eq, Structural)]
pub enum TargetType {
    Path,
    Url,
    Plugin,
}

/// Why running a candidate failed.
#[derive(Debug)]
pub enum ExecutionError {
    /// The action failed.
    Failed(String),
    /// The executor does not offer this action for the kind of target.
    UnsupportedAction(TargetType, String),
}

/// An action offered on a result.
#[derive(Debug)]
pub struct ResultAction {
    pub id: String,
    pub label: String,
    pub icon: IconRequest,
    pub is_default: bool,
    pub shortcut_key: String,
}

/// The actions of the plugin wake executor: `open` (default, no shortcut).
pub fn wake_actions() -> (r: Vec<ResultAction>)
    ensures
        r@.len() == 1,
        r@[0].id@ == "open"@,
        r@[0].label@ == "common.open"@,
        icon_key(r@[0].icon) == (0int, Seq::<char>::empty()),
        r@[0].is_default,
        r@[0].shortcut_key@.len() == 0,
{
    let mut v: Vec<ResultAction> = Vec::new();
    v.push(ResultAction {
        id: crate::text::owned("open"),
        label: crate::text::owned("common.open"),
        icon: IconRequest::Path(String::new()),
        is_default: true,
        shortcut_key: String::new(),
    });
    v
}

/// The plugin a confirmation wakes: the target must be a plugin and the
/// action `open`; otherwise the refusal (whether the action is the reason,
/// and the text).
pub open spec fn wake_target_of(target: ExecutionTarget, action_id: Seq<char>) -> Result<Seq<char>, (bool, Seq<char>)> {
    match target {
        ExecutionTarget::Plugin(id) => if action_id == "open"@ {
            Ok(id@)
        } else {
            Err((true, action_id))
        },
        _ => Err((false, "Invalid target type for PluginWakeExecutor"@)),
    }
}

/// Decides a plugin wake: the plugin id to wake, `Failed` for a target that
/// is not a plugin, `UnsupportedAction` for an action other than `open`.
pub fn wake_target(target: &ExecutionTarget, action_id: &str) -> (r: Result<String, ExecutionError>)
    ensures
        match wake_target_of(*target, action_id@) {
            Ok(id) => (r matches Ok(s) && s@ == id),
            Err((false, m)) => (r matches Err(ExecutionError::Failed(x)) && x@ == m),
            Err((true, a)) => (r matches Err(ExecutionError::UnsupportedAction(t, x)) && t == TargetType::Plugin && x@ == a),
        },
{
    match target {
        ExecutionTarget::Plugin(id) => {
            if str_eq(action_id, "open") {
                Ok(id.clone())
            } else {
                Err(ExecutionError::UnsupportedAction(TargetType::Plugin, crate::text::owned(action_id)))
            }
        },
        _ => Err(ExecutionError::Failed(crate::text::owned("Invalid target type for PluginWakeExecutor"))),
    }
}

/// An execution target, compared by variant and text.
pub open spec fn target_key(t: ExecutionTarget) -> (int, Seq<char>) {
    match t {
        ExecutionTarget::Path(s) => (0, s@),
        ExecutionTarget::Url(s) => (1, s@),
        ExecutionTarget::Plugin(s) => (2, s@),
    }
}

/// An icon request, compared by variant and text.
pub open spec fn icon_key(i: IconRequest) -> (int, Seq<char>) {
    match i {
        IconRequest::Path(s) => (0, s@),
        IconRequest::Url(s) => (1, s@),
    }
}

/// Whether two targets are the same.
pub fn same_target(a: &ExecutionTarget, b: &ExecutionTarget) -> (r: bool)
    ensures
        r == (target_key(*a) == target_key(*b)),
{
    match (a, b) {
        (ExecutionTarget::Path(x), ExecutionTarget::Path(y)) => str_eq(x.as_str(), y.as_str()),
        (ExecutionTarget::Url(x), ExecutionTarget::Url(y)) => str_eq(x.as_str(), y.as_str()),
        (ExecutionTarget::Plugin(x), ExecutionTarget::Plugin(y)) => str_eq(x.as_str(), y.as_str()),
        _ => false,
    }
}

fn copy_target(t: &ExecutionTarget) -> (r: ExecutionTarget)
    ensures
        target_key(r) == target_key(*t),
{
    match t {
        ExecutionTarget::Path(s) => ExecutionTarget::Path(s.clone()),
        ExecutionTarget::Url(s) => ExecutionTarget::Url(s.clone()),
        ExecutionTarget::Plugin(s) => ExecutionTarget::Plugin(s.clone()),
    }
}

fn copy_icon(i: &IconRequest) -> (r: IconRequest)
    ensures
        icon_key(r) == icon_key(*i),
{
    match i {
        IconRequest::Path(s) => IconRequest::Path(s.clone()),
        IconRequest::Url(s) => IconRequest::Url(s.clone()),
    }
}

/// A search candidate.
#[derive(Debug)]
pub struct SearchCandidate {
    /// Id in the cache (assigned when added).
    pub id: u64,
    /// Display name.
    pub name: String,
    /// Its icon.
    pub icon: IconRequest,
    /// What running it does.
    pub target: ExecutionTarget,
    /// Words it is found by.
    pub keywords: Vec<String>,
    /// Score bias, as the bits of an `f64` (`f64::to_bits`).
    pub bias_bits: u64,
    /// Words that trigger it directly.
    pub trigger_keywords: Vec<String>,
}

/// The texts of a list of strings.
pub open spec fn texts_of(v: Seq<String>) -> Seq<Seq<char>> {
    v.map_values(|s: String| s@)
}

/// Two candidates hold the same values.
pub open spec fn same_candidate(a: SearchCandidate, b: SearchCandidate) -> bool {
    &&& a.id == b.id
    &&& a.name@ == b.name@
    &&& icon_key(a.icon) == icon_key(b.icon)
    &&& target_key(a.target) == target_key(b.target)
    &&& texts_of(a.keywords@) == texts_of(b.keywords@)
    &&& a.bias_bits == b.bias_bits
    &&& texts_of(a.trigger_keywords@) == texts_of(b.trigger_keywords@)
}

/// Two lists hold the same candidates, in the same order.
pub open spec fn same_candidates(a: Seq<SearchCandidate>, b: Seq<SearchCandidate>) -> bool {
    a.len() == b.len() && forall|i: int| 0 <= i < a.len() ==> same_candidate(#[trigger] a[i], b[i])
}

fn copy_strings(v: &Vec<String>) -> (r: Vec<String>)
    ensures
        texts_of(r@) == texts_of(v@),
{
    let mut out: Vec<String> = Vec::new();
    let mut i: usize = 0;
    while i < v.len()
        invariant
            i <= v@.len(),
            out@.len() == i,
            forall|j: int| 0 <= j < i ==> (#[trigger] out@[j])@ == v@[j]@,
        decreases v.len() - i,
    {
        out.push(v[i].clone());
        i += 1;
    }
    assert(texts_of(out@) == texts_of(v@));
    out
}

/// The values a candidate holds.
pub struct CandidateView {
    pub id: u64,
    pub name: Seq<char>,
    pub icon: (int, Seq<char>),
    pub target: (int, Seq<char>),
    pub keywords: Seq<Seq<char>>,
    pub bias_bits: u64,
    pub trigger_keywords: Seq<Seq<char>>,
}

/// The values of a candidate.
pub open spec fn view_of(c: SearchCandidate) -> CandidateView {
    CandidateView {
        id: c.id,
        name: c.name@,
        icon: icon_key(c.icon),
        target: target_key(c.target),
        keywords: texts_of(c.keywords@),
        bias_bits: c.bias_bits,
        trigger_keywords: texts_of(c.trigger_keywords@),
    }
}

/// The values of a list of candidates.
pub open spec fn views_of(c: Seq<SearchCandidate>) -> Seq<CandidateView> {
    c.map_values(|x: SearchCandidate| view_of(x))
}

/// A copy of a candidate.
pub fn copy_candidate(c: &SearchCandidate) -> (r: SearchCandidate)
    ensures
        same_candidate(r, *c),
{
    SearchCandidate {
        id: c.id,
        name: c.name.clone(),
        icon: copy_icon(&c.icon),
        target: copy_target(&c.target),
        keywords: copy_strings(&c.keywords),
        bias_bits: c.bias_bits,
        trigger_keywords: copy_strings(&c.trigger_keywords),
    }
}

/// What `str::to_lowercase` gives for a text (full Unicode lower case).
pub uninterp spec fn lowercase(s: Seq<char>) -> Seq<char>;

/// The Unicode lower case of a text (`str::to_lowercase`).
#[verifier::external_body]
fn to_lowercase(s: &str) -> (r: String)
    ensures
        r@ == lowercase(s@),
{
    s.to_lowercase()
}

/// A concurrent hash map (`dashmap::DashMap`).
#[verifier::external_type_specification]
#[verifier::external_body]
#[verifier::reject_recursive_types(K)]
#[verifier::reject_recursive_types(V)]
#[verifier::reject_recursive_types(S)]
pub struct ExDashMap<K, V, S>(dashmap::DashMap<K, V, S>);

/// The positions of the candidates, by id.
pub uninterp spec fn index_entries(m: dashmap::DashMap<u64, usize>) -> Map<u64, usize>;

/// An empty map (`DashMap::new`).
#[verifier::external_body]
fn index_new() -> (r: dashmap::DashMap<u64, usize>)
    ensures
        index_entries(r).dom() == Set::<u64>::empty(),
{
    dashmap::DashMap::new()
}

/// Maps an id to a position (`DashMap::insert`, which replaces an earlier
/// position of the id).
#[verifier::external_body]
fn index_insert(m: &mut dashmap::DashMap<u64, usize>, id: u64, pos: usize)
    ensures
        index_entries(*final(m)) == index_entries(*old(m)).insert(id, pos),
{
    m.insert(id, pos);
}

/// The position of an id, if mapped (`DashMap::entry`: occupied or vacant).
#[verifier::external_body]
fn index_lookup(m: &dashmap::DashMap<u64, usize>, id: u64) -> (r: Option<usize>)
    ensures
        match r {
            Some(p) => index_entries(*m).contains_key(id) && index_entries(*m)[id] == p,
            None => !index_entries(*m).contains_key(id),
        },
{
    match m.entry(id) {
        dashmap::Entry::Occupied(e) => Some(*e.get()),
        dashmap::Entry::Vacant(_) => None,
    }
}

/// The cache's contents as they cross RPC: the candidates (ids matching
/// their positions) and the next id to assign.
#[derive(Debug)]
pub struct CandidateCacheSnapshot {
    pub candidates: Vec<SearchCandidate>,
    pub next_candidate_id: u64,
}

/// What a snapshot must hold to be restored: ids that follow positions, the
/// next id after the last one, no target twice and no display name twice
/// (ignoring case).
pub open spec fn snapshot_ok(data: CandidateCacheSnapshot) -> bool {
    let c = data.candidates@;
    &&& ids_follow_positions(c)
    &&& data.next_candidate_id == c.len() + 1
    &&& distinct_targets(c)
    &&& distinct_names(c)
}

/// The display names of a list of candidates, in lower case.
pub open spec fn lowercase_names(c: Seq<SearchCandidate>) -> Set<Seq<char>> {
    Set::new(|n: Seq<char>| exists|j: int| 0 <= j < c.len() && lowercase((#[trigger] c[j]).name@) == n)
}

/// The cache as values: candidates, next id, cached targets and names.
pub struct CacheModel {
    pub items: Seq<CandidateView>,
    pub next: int,
    pub targets: Set<(int, Seq<char>)>,
    pub names: Set<Seq<char>>,
}

/// Adding a data-source candidate to the cache: dropped when its target or
/// its lower-case name is cached, else appended with the next id.
pub open spec fn model_add(m: CacheModel, v: CandidateView) -> CacheModel {
    if m.targets.contains(v.target) || m.names.contains(lowercase(v.name)) {
        m
    } else {
        CacheModel {
            items: m.items.push(CandidateView { id: m.next as u64, ..v }),
            next: m.next + 1,
            targets: m.targets.insert(v.target),
            names: m.names.insert(lowercase(v.name)),
        }
    }
}

/// Adding candidates one after the other.
pub open spec fn model_add_all(m: CacheModel, vs: Seq<CandidateView>) -> CacheModel
    decreases vs.len(),
{
    if vs.len() == 0 {
        m
    } else {
        model_add(model_add_all(m, vs.drop_last()), vs.last())
    }
}

/// The cached candidates with their indexes.
pub struct CachedCandidateData {
    /// The candidates, in the order they were added.
    candidates: Vec<SearchCandidate>,
    /// Position of each candidate, by id.
    index: dashmap::DashMap<u64, usize>,
    /// Targets already cached.
    cached_targets: Vec<ExecutionTarget>,
    /// Display names already cached, in lower case.
    cached_display_names: Vec<String>,
    /// The id the next candidate gets.
    next_candidate_id: u64,
    /// Bumped at each full rebuild, so that a confirmation made against an
    /// older cache is refused.
    generation: u64,
    /// Positions of the candidates that were deduplicated by name.
    named: Ghost<Set<int>>,
}

/// The lower-case names of the candidates at the given positions.
pub open spec fn named_names(items: Seq<SearchCandidate>, named: Set<int>) -> Set<Seq<char>> {
    Set::new(
        |x: Seq<char>|
            exists|i: int| #![trigger named.contains(i)] named.contains(i) && 0 <= i < items.len() && lowercase(items[i].name@) == x,
    )
}

/// The recorded names are exactly those of the candidates added by name, and
/// no two of those share a name, ignoring case.
pub open spec fn names_follow_items(items: Seq<SearchCandidate>, named: Set<int>, names: Set<Seq<char>>) -> bool {
    &&& forall|i: int| #[trigger] named.contains(i) ==> 0 <= i < items.len()
    &&& names == named_names(items, named)
    &&& forall|i: int, j: int|
        #[trigger] named.contains(i) && #[trigger] named.contains(j) && i != j ==> lowercase(items[i].name@)
            != lowercase(items[j].name@)
}

/// The target keys of a list of targets.
pub open spec fn target_keys(v: Seq<ExecutionTarget>) -> Set<(int, Seq<char>)> {
    Set::new(|k: (int, Seq<char>)| exists|j: int| 0 <= j < v.len() && target_key(#[trigger] v[j]) == k)
}

/// The targets of a list of candidates.
pub open spec fn candidate_targets(v: Seq<SearchCandidate>) -> Set<(int, Seq<char>)> {
    Set::new(|k: (int, Seq<char>)| exists|j: int| 0 <= j < v.len() && target_key((#[trigger] v[j]).target) == k)
}

/// The texts of a list of names.
pub open spec fn name_set(v: Seq<String>) -> Set<Seq<char>> {
    Set::new(|n: Seq<char>| exists|j: int| 0 <= j < v.len() && (#[trigger] v[j])@ == n)
}

/// No two candidates have the same target.
pub open spec fn distinct_targets(c: Seq<SearchCandidate>) -> bool {
    forall|i: int, j: int| 0 <= i < j < c.len() ==> target_key((#[trigger] c[i]).target) != target_key((#[trigger] c[j]).target)
}

/// No two candidates have the same display name, ignoring case.
pub open spec fn distinct_names(c: Seq<SearchCandidate>) -> bool {
    forall|i: int, j: int| 0 <= i < j < c.len() ==> lowercase((#[trigger] c[i]).name@) != lowercase((#[trigger] c[j]).name@)
}

/// Each candidate's id is its position plus one.
pub open spec fn ids_follow_positions(v: Seq<SearchCandidate>) -> bool {
    forall|i: int| 0 <= i < v.len() ==> (#[trigger] v[i]).id == i + 1
}

impl CachedCandidateData {
    /// The cached candidates.
    pub closed spec fn items(&self) -> Seq<SearchCandidate> {
        self.candidates@
    }

    /// The id the next candidate gets.
    pub closed spec fn next_id(&self) -> u64 {
        self.next_candidate_id
    }

    /// The cache generation.
    pub closed spec fn gen(&self) -> u64 {
        self.generation
    }

    /// Positions by id.
    pub closed spec fn index_map(&self) -> Map<u64, usize> {
        index_entries(self.index)
    }

    /// The cached targets.
    pub closed spec fn targets(&self) -> Set<(int, Seq<char>)> {
        target_keys(self.cached_targets@)
    }

    /// The cached display names (lower case).
    pub closed spec fn names(&self) -> Set<Seq<char>> {
        name_set(self.cached_display_names@)
    }

    /// The cache as values.
    pub open spec fn model(&self) -> CacheModel {
        CacheModel { items: views_of(self.items()), next: self.next_id() as int, targets: self.targets(), names: self.names() }
    }

    /// Positions of the candidates that were added by name (through
    /// `add_candidate` or a restored snapshot), as opposed to plugin
    /// candidates.
    pub closed spec fn named(&self) -> Set<int> {
        self.named@
    }

    /// Ids follow positions, the next id follows the last one, the index maps
    /// each id to its position, the cached targets are the candidates', and
    /// the recorded names are those of the candidates added by name.
    pub closed spec fn wf(&self) -> bool {
        &&& self.wf_core()
        &&& names_follow_items(self.candidates@, self.named@, self.names())
    }

    /// Everything of `wf` but the names.
    closed spec fn wf_core(&self) -> bool {
        &&& ids_follow_positions(self.candidates@)
        &&& self.next_candidate_id == self.candidates@.len() + 1
        &&& forall|k: u64| #[trigger] index_entries(self.index).contains_key(k) <==> 1 <= k <= self.candidates@.len()
        &&& forall|k: u64| #[trigger] index_entries(self.index).contains_key(k) ==> index_entries(self.index)[k] == k - 1
        &&& self.targets() == candidate_targets(self.candidates@)
        &&& distinct_targets(self.candidates@)
    }

    /// An empty cache: next id 1, generation 0.
    pub fn new() -> (r: Self)
        ensures
            r.wf(),
            r.items().len() == 0,
            r.next_id() == 1,
            r.gen() == 0,
            r.names() == Set::<Seq<char>>::empty(),
            r.named() == Set::<int>::empty(),
    {
        let r = CachedCandidateData {
            candidates: Vec::new(),
            index: index_new(),
            cached_targets: Vec::new(),
            cached_display_names: Vec::new(),
            next_candidate_id: 1,
            generation: 0,
            named: Ghost(Set::empty()),
        };
        assert(r.targets() == candidate_targets(r.candidates@));
        assert(r.names() == Set::<Seq<char>>::empty());
        assert(named_names(r.candidates@, r.named@) =~= Set::<Seq<char>>::empty());
        assert forall|k: u64| #[trigger] index_entries(r.index).contains_key(k) <==> 1 <= k <= r.candidates@.len() by {
            assert(!index_entries(r.index).dom().contains(k));
        }
        r
    }

    /// The id the next candidate gets.
    pub fn next_candidate_id(&self) -> (r: u64)
        ensures
            r == self.next_id(),
    {
        self.next_candidate_id
    }

    /// The cache generation (sent back with confirmations).
    pub fn generation(&self) -> (r: u64)
        ensures
            r == self.gen(),
    {
        self.generation
    }

    /// Starts a new generation after a full rebuild.
    pub fn bump_generation(&mut self)
        requires
            old(self).gen() < u64::MAX,
        ensures
            final(self).gen() == old(self).gen() + 1,
            final(self).items() == old(self).items(),
            final(self).next_id() == old(self).next_id(),
            final(self).targets() == old(self).targets(),
            final(self).names() == old(self).names(),
            final(self).named() == old(self).named(),
            old(self).wf() ==> final(self).wf(),
    {
        self.generation = self.generation + 1;
    }

    /// The candidates.
    pub fn get_candidates(&self) -> (r: &Vec<SearchCandidate>)
        ensures
            r@ == self.items(),
    {
        &self.candidates
    }

    /// The candidates, for changes in place (ids and targets are the
    /// caller's to keep).
    pub fn get_candidates_mut(&mut self) -> (r: &mut Vec<SearchCandidate>)
        ensures
            r@ == old(self).items(),
            final(self).items() == final(r)@,
            final(self).next_id() == old(self).next_id(),
            final(self).gen() == old(self).gen(),
            final(self).targets() == old(self).targets(),
            final(self).names() == old(self).names(),
            final(self).index_map() == old(self).index_map(),
            final(self).named() == old(self).named(),
    {
        &mut self.candidates
    }

    /// Whether a candidate with this target is cached.
    fn has_target(&self, target: &ExecutionTarget) -> (b: bool)
        ensures
            b == self.targets().contains(target_key(*target)),
    {
        let mut i: usize = 0;
        while i < self.cached_targets.len()
            invariant
                i <= self.cached_targets@.len(),
                forall|j: int| 0 <= j < i ==> target_key(#[trigger] self.cached_targets@[j]) != target_key(*target),
            decreases self.cached_targets.len() - i,
        {
            if same_target(&self.cached_targets[i], target) {
                assert(target_keys(self.cached_targets@).contains(target_key(*target)));
                return true;
            }
            i += 1;
        }
        false
    }

    /// Whether a candidate with this display name, ignoring case, is cached.
    fn has_display_name(&self, display_name: &str) -> (b: bool)
        ensures
            b == self.names().contains(lowercase(display_name@)),
    {
        let lower = to_lowercase(display_name);
        let mut i: usize = 0;
        while i < self.cached_display_names.len()
            invariant
                i <= self.cached_display_names@.len(),
                lower@ == lowercase(display_name@),
                forall|j: int| 0 <= j < i ==> (#[trigger] self.cached_display_names@[j])@ != lower@,
            decreases self.cached_display_names.len() - i,
        {
            if str_eq(self.cached_display_names[i].as_str(), lower.as_str()) {
                assert(name_set(self.cached_display_names@).contains(lower@));
                return true;
            }
            i += 1;
        }
        false
    }

    /// Appends a candidate with the next id (the target is new).
    fn push_new(&mut self, candidate: SearchCandidate)
        requires
            old(self).wf_core(),
            old(self).next_id() < u64::MAX,
            !old(self).targets().contains(target_key(candidate.target)),
        ensures
            final(self).wf_core(),
            final(self).named() == old(self).named(),
            final(self).items() == old(self).items().push(
                (SearchCandidate { id: old(self).next_id(), ..candidate }),
            ),
            final(self).next_id() == old(self).next_id() + 1,
            final(self).targets() == old(self).targets().insert(target_key(candidate.target)),
            final(self).names() == old(self).names(),
            final(self).gen() == old(self).gen(),
    {
        let ghost old_targets = self.cached_targets@;
        let ghost old_items = self.candidates@;
        let mut candidate = candidate;
        let id = self.next_candidate_id;
        candidate.id = id;
        self.cached_targets.push(copy_target(&candidate.target));
        self.candidates.push(candidate);
        let pos = self.candidates.len() - 1;
        index_insert(&mut self.index, id, pos);
        self.next_candidate_id = id + 1;
        proof {
            let t = target_key(self.candidates@.last().target);
            assert(target_keys(self.cached_targets@) =~= target_keys(old_targets).insert(t)) by {
                assert forall|k: (int, Seq<char>)| #[trigger] target_keys(self.cached_targets@).contains(k)
                    <==> target_keys(old_targets).insert(t).contains(k) by {
                    if target_keys(old_targets).contains(k) && k != t {
                        let j = choose|j: int| 0 <= j < old_targets.len() && target_key(#[trigger] old_targets[j]) == k;
                        assert(self.cached_targets@[j] == old_targets[j]);
                    }
                    if k == t {
                        assert(target_key(self.cached_targets@[old_targets.len() as int]) == t);
                    }
                }
            }
            assert(candidate_targets(self.candidates@) =~= candidate_targets(old_items).insert(t)) by {
                assert forall|k: (int, Seq<char>)| #[trigger] candidate_targets(self.candidates@).contains(k)
                    <==> candidate_targets(old_items).insert(t).contains(k) by {
                    if candidate_targets(old_items).contains(k) && k != t {
                        let j = choose|j: int| 0 <= j < old_items.len() && target_key((#[trigger] old_items[j]).target) == k;
                        assert(self.candidates@[j] == old_items[j]);
                    }
                    if k == t {
                        assert(target_key(self.candidates@[old_items.len() as int].target) == t);
                    }
                }
            }
            assert(self.candidates@ =~= old_items.push((SearchCandidate { id: old(self).next_id(), ..candidate })));
            assert forall|i: int, j: int| 0 <= i < j < self.candidates@.len() implies target_key(
                (#[trigger] self.candidates@[i]).target,
            ) != target_key((#[trigger] self.candidates@[j]).target) by {
                if j == old_items.len() {
                    assert(self.candidates@[i] == old_items[i]);
                    assert(candidate_targets(old_items).contains(target_key(old_items[i].target)));
                } else {
                    assert(self.candidates@[i] == old_items[i]);
                    assert(self.candidates@[j] == old_items[j]);
                }
            }
            assert forall|k: u64| #[trigger] index_entries(self.index).contains_key(k) <==> 1 <= k <= self.candidates@.len() by {}
        }
    }

    /// Adds a data-source candidate: dropped when its target, or its display
    /// name ignoring case, is already cached; otherwise it gets the next id.
    pub fn add_candidate(&mut self, candidate: SearchCandidate)
        requires
            old(self).wf(),
            old(self).next_id() < u64::MAX,
        ensures
            final(self).wf(),
            final(self).gen() == old(self).gen(),
            old(self).targets().contains(target_key(candidate.target)) || old(self).names().contains(
                lowercase(candidate.name@),
            ) ==> {
                &&& final(self).items() == old(self).items()
                &&& final(self).next_id() == old(self).next_id()
                &&& final(self).targets() == old(self).targets()
                &&& final(self).names() == old(self).names()
            },
            !(old(self).targets().contains(target_key(candidate.target)) || old(self).names().contains(
                lowercase(candidate.name@),
            )) ==> {
                &&& final(self).items() == old(self).items().push(
                    (SearchCandidate { id: old(self).next_id(), ..candidate }),
                )
                &&& final(self).next_id() == old(self).next_id() + 1
                &&& final(self).targets() == old(self).targets().insert(target_key(candidate.target))
                &&& final(self).names() == old(self).names().insert(lowercase(candidate.name@))
                &&& final(self).named() == old(self).named().insert(old(self).items().len() as int)
            },
            old(self).targets().contains(target_key(candidate.target)) || old(self).names().contains(
                lowercase(candidate.name@),
            ) ==> final(self).named() == old(self).named(),
    {
        if self.has_target(&candidate.target) || self.has_display_name(candidate.name.as_str()) {
            return;
        }
        let ghost o = self.candidates@;
        let ghost named0 = self.named@;
        let ghost names0 = self.names();
        let ghost n = lowercase(candidate.name@);
        let lower = to_lowercase(candidate.name.as_str());
        let ghost old_names = self.cached_display_names@;
        self.cached_display_names.push(lower);
        proof {
            let n = lowercase(candidate.name@);
            assert(name_set(self.cached_display_names@) =~= name_set(old_names).insert(n)) by {
                assert forall|x: Seq<char>| #[trigger] name_set(self.cached_display_names@).contains(x)
                    <==> name_set(old_names).insert(n).contains(x) by {
                    if name_set(old_names).contains(x) && x != n {
                        let j = choose|j: int| 0 <= j < old_names.len() && (#[trigger] old_names[j])@ == x;
                        assert(self.cached_display_names@[j] == old_names[j]);
                    }
                    if x == n {
                        assert(self.cached_display_names@[old_names.len() as int]@ == n);
                    }
                }
            }
        }
        self.push_new(candidate);
        self.named = Ghost(named0.insert(o.len() as int));
        proof {
            let items = self.candidates@;
            let named = self.named@;
            assert forall|i: int| #[trigger] named0.contains(i) implies items[i] == o[i] by {}
            assert(items[o.len() as int].name@ == candidate.name@);
            assert(named_names(items, named) =~= names0.insert(n)) by {
                assert forall|x: Seq<char>| #[trigger] named_names(items, named).contains(x)
                    <==> names0.insert(n).contains(x) by {
                    if named_names(items, named).contains(x) {
                        let i = choose|i: int| #![trigger named.contains(i)] named.contains(i) && 0 <= i < items.len()
                            && lowercase(items[i].name@) == x;
                        if i != o.len() {
                            assert(named0.contains(i));
                            assert(named_names(o, named0).contains(x));
                        }
                    }
                    if names0.contains(x) {
                        assert(named_names(o, named0).contains(x));
                        let i = choose|i: int| #![trigger named0.contains(i)] named0.contains(i) && 0 <= i < o.len()
                            && lowercase(o[i].name@) == x;
                        assert(named.contains(i));
                    }
                    if x == n {
                        assert(named.contains(o.len() as int));
                    }
                }
            }
            assert forall|i: int, j: int|
                #[trigger] named.contains(i) && #[trigger] named.contains(j) && i != j implies lowercase(items[i].name@)
                != lowercase(items[j].name@) by {
                if i == o.len() {
                    assert(named0.contains(j));
                    assert(named_names(o, named0).contains(lowercase(o[j].name@)));
                } else if j == o.len() {
                    assert(named0.contains(i));
                    assert(named_names(o, named0).contains(lowercase(o[i].name@)));
                } else {
                    assert(named0.contains(i) && named0.contains(j));
                }
            }
        }
    }

    /// Adds a plugin candidate (a plugin's wake entry): dropped only when its
    /// target is already cached; a plugin may share its display name with a
    /// data-source candidate, and its name is not recorded.
    pub fn add_plugin_candidate(&mut self, candidate: SearchCandidate)
        requires
            old(self).wf(),
            old(self).next_id() < u64::MAX,
        ensures
            final(self).wf(),
            final(self).gen() == old(self).gen(),
            final(self).names() == old(self).names(),
            final(self).named() == old(self).named(),
            old(self).targets().contains(target_key(candidate.target)) ==> {
                &&& final(self).items() == old(self).items()
                &&& final(self).next_id() == old(self).next_id()
                &&& final(self).targets() == old(self).targets()
            },
            !old(self).targets().contains(target_key(candidate.target)) ==> {
                &&& final(self).items() == old(self).items().push(
                    (SearchCandidate { id: old(self).next_id(), ..candidate }),
                )
                &&& final(self).next_id() == old(self).next_id() + 1
                &&& final(self).targets() == old(self).targets().insert(target_key(candidate.target))
            },
    {
        if self.has_target(&candidate.target) {
            return;
        }
        let ghost o = self.candidates@;
        self.push_new(candidate);
        proof {
            let items = self.candidates@;
            let named = self.named@;
            assert forall|i: int| #[trigger] named.contains(i) implies items[i] == o[i] by {}
            assert(named_names(items, named) =~= named_names(o, named)) by {
                assert forall|x: Seq<char>| #[trigger] named_names(items, named).contains(x)
                    <==> named_names(o, named).contains(x) by {
                    if named_names(items, named).contains(x) {
                        let i = choose|i: int| #![trigger named.contains(i)] named.contains(i) && 0 <= i < items.len()
                            && lowercase(items[i].name@) == x;
                        assert(items[i] == o[i]);
                    }
                    if named_names(o, named).contains(x) {
                        let i = choose|i: int| #![trigger named.contains(i)] named.contains(i) && 0 <= i < o.len()
                            && lowercase(o[i].name@) == x;
                        assert(items[i] == o[i]);
                    }
                }
            }
        }
    }

    /// The snapshot of the cache: its candidates and next id.
    pub fn to_data(&self) -> (r: CandidateCacheSnapshot)
        ensures
            same_candidates(r.candidates@, self.items()),
            r.next_candidate_id == self.next_id(),
    {
        let mut out: Vec<SearchCandidate> = Vec::new();
        let mut i: usize = 0;
        while i < self.candidates.len()
            invariant
                i <= self.candidates@.len(),
                out@.len() == i,
                forall|j: int| 0 <= j < i ==> same_candidate(#[trigger] out@[j], self.candidates@[j]),
            decreases self.candidates.len() - i,
        {
            out.push(copy_candidate(&self.candidates[i]));
            i += 1;
        }
        CandidateCacheSnapshot { candidates: out, next_candidate_id: self.next_candidate_id }
    }

    /// Restores a cache from a snapshot (ids and order kept; generation 0).
    pub fn from_data(data: CandidateCacheSnapshot) -> (r: Self)
        requires
            snapshot_ok(data),
        ensures
            r.wf(),
            r.items() == data.candidates@,
            r.next_id() == data.next_candidate_id,
            r.gen() == 0,
            r.names() == lowercase_names(data.candidates@),
            r.named() == Set::new(|i: int| 0 <= i < data.candidates@.len()),
    {
        let ghost c = data.candidates@;
        let mut index = index_new();
        let mut targets: Vec<ExecutionTarget> = Vec::new();
        let mut names: Vec<String> = Vec::new();
        let mut pos: usize = 0;
        while pos < data.candidates.len()
            invariant
                pos <= c.len(),
                c == data.candidates@,
                snapshot_ok(data),
                forall|k: u64| #[trigger] index_entries(index).contains_key(k) <==> 1 <= k <= pos,
                forall|k: u64| #[trigger] index_entries(index).contains_key(k) ==> index_entries(index)[k] == k - 1,
                targets@.len() == pos,
                names@.len() == pos,
                target_keys(targets@) == candidate_targets(c.take(pos as int)),
                name_set(names@) == lowercase_names(c.take(pos as int)),
            decreases data.candidates.len() - pos,
        {
            let cand = &data.candidates[pos];
            assert(cand.id == pos + 1);
            index_insert(&mut index, cand.id, pos);
            let ghost t0 = targets@;
            let ghost n0 = names@;
            targets.push(copy_target(&cand.target));
            names.push(to_lowercase(cand.name.as_str()));
            proof {
                let tk = target_key(c[pos as int].target);
                let nk = lowercase(c[pos as int].name@);
                assert(c.take(pos + 1) == c.take(pos as int).push(c[pos as int]));
                assert(target_keys(targets@) =~= candidate_targets(c.take(pos + 1))) by {
                    assert forall|k: (int, Seq<char>)| #[trigger] target_keys(targets@).contains(k) <==> candidate_targets(
                        c.take(pos + 1),
                    ).contains(k) by {
                        if target_keys(targets@).contains(k) {
                            let j = choose|j: int| 0 <= j < targets@.len() && target_key(#[trigger] targets@[j]) == k;
                            if j < pos {
                                assert(targets@[j] == t0[j]);
                                assert(target_keys(t0).contains(k));
                                let q = choose|q: int| 0 <= q < pos && target_key((#[trigger] c.take(pos as int)[q]).target) == k;
                                assert(c.take(pos + 1)[q] == c.take(pos as int)[q]);
                            } else {
                                assert(c.take(pos + 1)[pos as int] == c[pos as int]);
                            }
                        }
                        if candidate_targets(c.take(pos + 1)).contains(k) {
                            let q = choose|q: int| 0 <= q < pos + 1 && target_key((#[trigger] c.take(pos + 1)[q]).target) == k;
                            if q < pos {
                                assert(c.take(pos as int)[q] == c.take(pos + 1)[q]);
                                assert(candidate_targets(c.take(pos as int)).contains(k));
                                assert(target_keys(t0).contains(k));
                                let j = choose|j: int| 0 <= j < t0.len() && target_key(#[trigger] t0[j]) == k;
                                assert(targets@[j] == t0[j]);
                            } else {
                                assert(target_key(targets@[pos as int]) == k);
                            }
                        }
                    }
                }
                assert(name_set(names@) =~= lowercase_names(c.take(pos + 1))) by {
                    assert forall|x: Seq<char>| #[trigger] name_set(names@).contains(x) <==> lowercase_names(
                        c.take(pos + 1),
                    ).contains(x) by {
                        if name_set(names@).contains(x) {
                            let j = choose|j: int| 0 <= j < names@.len() && (#[trigger] names@[j])@ == x;
                            if j < pos {
                                assert(names@[j] == n0[j]);
                                assert(name_set(n0).contains(x));
                                let q = choose|q: int| 0 <= q < pos && lowercase((#[trigger] c.take(pos as int)[q]).name@) == x;
                                assert(c.take(pos + 1)[q] == c.take(pos as int)[q]);
                            } else {
                                assert(c.take(pos + 1)[pos as int] == c[pos as int]);
                            }
                        }
                        if lowercase_names(c.take(pos + 1)).contains(x) {
                            let q = choose|q: int| 0 <= q < pos + 1 && lowercase((#[trigger] c.take(pos + 1)[q]).name@) == x;
                            if q < pos {
                                assert(c.take(pos as int)[q] == c.take(pos + 1)[q]);
                                assert(lowercase_names(c.take(pos as int)).contains(x));
                                assert(name_set(n0).contains(x));
                                let j = choose|j: int| 0 <= j < n0.len() && (#[trigger] n0[j])@ == x;
                                assert(names@[j] == n0[j]);
                            } else {
                                assert(names@[pos as int]@ == x);
                            }
                        }
                    }
                }
            }
            pos += 1;
        }
        assert(c.take(c.len() as int) == c);
        let r = CachedCandidateData {
            candidates: data.candidates,
            index,
            cached_targets: targets,
            cached_display_names: names,
            next_candidate_id: data.next_candidate_id,
            generation: 0,
            named: Ghost(Set::new(|i: int| 0 <= i < c.len())),
        };
        proof {
            let all = Set::new(|i: int| 0 <= i < c.len());
            assert(c.take(c.len() as int) == c);
            assert(named_names(c, all) =~= lowercase_names(c)) by {
                assert forall|x: Seq<char>| #[trigger] named_names(c, all).contains(x) <==> lowercase_names(c).contains(x) by {
                    if lowercase_names(c).contains(x) {
                        let j = choose|j: int| 0 <= j < c.len() && lowercase((#[trigger] c[j]).name@) == x;
                        assert(all.contains(j));
                    }
                }
            }
            assert forall|i: int, j: int| #[trigger] all.contains(i) && #[trigger] all.contains(j) && i != j implies lowercase(
                c[i].name@,
            ) != lowercase(c[j].name@) by {
                if i < j {
                    assert(lowercase(c[i].name@) != lowercase(c[j].name@));
                } else {
                    assert(lowercase(c[j].name@) != lowercase(c[i].name@));
                }
            }
        }
        r
    }

    /// Adds the candidates of another cache, one after the other, as
    /// `add_candidate` does.
    pub fn add_candidates(&mut self, candidates: CachedCandidateData)
        requires
            old(self).wf(),
            old(self).next_id() + candidates.items().len() < u64::MAX,
        ensures
            final(self).wf(),
            final(self).gen() == old(self).gen(),
            final(self).model() == model_add_all(old(self).model(), views_of(candidates.items())),
    {
        let ghost vs = views_of(candidates.items());
        let ghost m0 = self.model();
        let other = candidates.get_candidates();
        let mut i: usize = 0;
        while i < other.len()
            invariant
                i <= other@.len(),
                other@ == candidates.items(),
                vs == views_of(candidates.items()),
                self.wf(),
                self.gen() == old(self).gen(),
                self.next_id() <= old(self).next_id() + i,
                old(self).next_id() + other@.len() < u64::MAX,
                self.model() == model_add_all(m0, vs.take(i as int)),
            decreases other.len() - i,
        {
            let ghost before = self.model();
            let c = copy_candidate(&other[i]);
            assert(view_of(c) == vs[i as int]);
            let ghost cv = c;
            self.add_candidate(c);
            proof {
                assert(vs.take(i + 1).drop_last() == vs.take(i as int));
                assert(vs.take(i + 1).last() == vs[i as int]);
                let added = model_add(before, view_of(cv));
                if !(before.targets.contains(view_of(cv).target) || before.names.contains(lowercase(view_of(cv).name))) {
                    assert(view_of((SearchCandidate { id: before.next as u64, ..cv })) == (CandidateView {
                        id: before.next as u64,
                        ..view_of(cv)
                    }));
                    assert(self.model().items == added.items);
                }
                assert(self.model() == added);
            }
            i += 1;
        }
        assert(vs.take(vs.len() as int) == vs);
    }

    /// Restores a cache from a snapshot when the snapshot holds what a
    /// restore needs (see `snapshot_ok`); `None` otherwise.
    pub fn try_from_data(data: CandidateCacheSnapshot) -> (r: Option<Self>)
        ensures
            snapshot_ok(data) ==> (r matches Some(c) && c.wf() && c.items() == data.candidates@ && c.next_id()
                == data.next_candidate_id && c.gen() == 0 && c.names() == lowercase_names(data.candidates@)),
            !snapshot_ok(data) ==> r is None,
    {
        let c = &data.candidates;
        let n = c.len();
        if data.next_candidate_id as u128 != n as u128 + 1 {
            assert(!snapshot_ok(data));
            return None;
        }
        let mut lowers: Vec<String> = Vec::new();
        let mut i: usize = 0;
        while i < n
            invariant
                i <= n,
                n == c@.len(),
                c@ == data.candidates@,
                lowers@.len() == i,
                forall|q: int| 0 <= q < i ==> (#[trigger] lowers@[q])@ == lowercase(c@[q].name@),
                forall|q: int| 0 <= q < i ==> (#[trigger] c@[q]).id == q + 1,
            decreases n - i,
        {
            if c[i].id as u128 != i as u128 + 1 {
                assert(c@[i as int].id != i + 1);
                assert(!ids_follow_positions(c@));
                assert(!snapshot_ok(data));
                return None;
            }
            lowers.push(to_lowercase(c[i].name.as_str()));
            i += 1;
        }
        let mut j: usize = 0;
        while j < n
            invariant
                j <= n,
                n == c@.len(),
                c@ == data.candidates@,
                lowers@.len() == n,
                forall|q: int| 0 <= q < n ==> (#[trigger] lowers@[q])@ == lowercase(c@[q].name@),
                forall|a: int, b: int| 0 <= a < b < n && a < j ==> target_key((#[trigger] c@[a]).target) != target_key(
                    (#[trigger] c@[b]).target,
                ) && lowercase(c@[a].name@) != lowercase(c@[b].name@),
            decreases n - j,
        {
            let mut k: usize = j + 1;
            while k < n
                invariant
                    j < n,
                    j + 1 <= k <= n,
                    n == c@.len(),
                    c@ == data.candidates@,
                    lowers@.len() == n,
                    forall|q: int| 0 <= q < n ==> (#[trigger] lowers@[q])@ == lowercase(c@[q].name@),
                    forall|b: int| j < b < k ==> target_key((#[trigger] c@[b]).target) != target_key(c@[j as int].target)
                        && lowercase(c@[b].name@) != lowercase(c@[j as int].name@),
                decreases n - k,
            {
                if same_target(&c[j].target, &c[k].target) || str_eq(lowers[j].as_str(), lowers[k].as_str()) {
                    assert(!distinct_targets(c@) || !distinct_names(c@)) by {
                        if target_key(c@[j as int].target) == target_key(c@[k as int].target) {
                            assert(!distinct_targets(c@));
                        } else {
                            assert(lowers@[j as int]@ == lowers@[k as int]@);
                            assert(!distinct_names(c@));
                        }
                    }
                    assert(!snapshot_ok(data));
                    return None;
                }
                k += 1;
            }
            j += 1;
        }
        Some(Self::from_data(data))
    }

    /// A cache built from processed candidates, added one after the other
    /// (repeats dropped, ids assigned in order).
    pub fn from_candidates(candidates: Vec<SearchCandidate>) -> (r: Self)
        requires
            candidates@.len() + 1 < u64::MAX,
        ensures
            r.wf(),
            r.gen() == 0,
            r.model() == model_add_all(
                CacheModel { items: Seq::empty(), next: 1, targets: Set::empty(), names: Set::empty() },
                views_of(candidates@),
            ),
    {
        let mut cache = Self::new();
        let ghost m0 = cache.model();
        assert(views_of(cache.items()) == Seq::<CandidateView>::empty());
        assert(candidate_targets(cache.items()) =~= Set::<(int, Seq<char>)>::empty());
        assert(cache.targets() == Set::<(int, Seq<char>)>::empty());
        assert(m0 == CacheModel { items: Seq::empty(), next: 1, targets: Set::empty(), names: Set::empty() });
        let ghost vs = views_of(candidates@);
        let mut rest = candidates;
        let mut rev: Vec<SearchCandidate> = Vec::new();
        let ghost all = rest@;
        while rest.len() > 0
            invariant
                rev@.len() + rest@.len() == all.len(),
                forall|j: int| 0 <= j < rest@.len() ==> rest@[j] == all[j],
                forall|j: int| 0 <= j < rev@.len() ==> rev@[j] == all[all.len() - 1 - j],
            decreases rest.len(),
        {
            let c = rest.pop().unwrap();
            rev.push(c);
        }
        let n = rev.len();
        let mut i: usize = 0;
        while rev.len() > 0
            invariant
                i + rev@.len() == n,
                n == all.len(),
                all.len() + 1 < u64::MAX,
                vs == views_of(all),
                forall|j: int| 0 <= j < rev@.len() ==> rev@[j] == all[n - 1 - j],
                cache.wf(),
                cache.gen() == 0,
                cache.next_id() <= 1 + i,
                cache.model() == model_add_all(m0, vs.take(i as int)),
            decreases rev.len(),
        {
            let c = rev.pop().unwrap();
            assert(c == all[i as int]);
            let ghost before = cache.model();
            let ghost cv = c;
            cache.add_candidate(c);
            proof {
                assert(vs.take(i + 1).drop_last() == vs.take(i as int));
                assert(vs.take(i + 1).last() == view_of(cv));
                if !(before.targets.contains(view_of(cv).target) || before.names.contains(lowercase(view_of(cv).name))) {
                    assert(view_of((SearchCandidate { id: before.next as u64, ..cv })) == (CandidateView {
                        id: before.next as u64,
                        ..view_of(cv)
                    }));
                    assert(cache.model().items == model_add(before, view_of(cv)).items);
                }
                assert(cache.model() == model_add(before, view_of(cv)));
            }
            i += 1;
        }
        assert(vs.take(n as int) == vs);
        cache
    }

    /// The candidate with the given id, if there is one.
    pub fn get_candidate(&self, id: u64) -> (r: Option<&SearchCandidate>)
        requires
            self.wf(),
        ensures
            1 <= id <= self.items().len() ==> r == Some(&self.items()[id - 1]),
            !(1 <= id <= self.items().len()) ==> r is None,
    {
        match index_lookup(&self.index, id) {
            Some(pos) => Some(&self.candidates[pos]),
            None => None,
        }
    }
}

/// What a well-formed cache holds: each candidate's id is its position plus
/// one, the next id follows the last one, no two candidates share a target
/// (the cached targets being exactly the candidates'), the recorded names
/// are those of the candidates added by name, no two of which share a name
/// ignoring case, and every recorded name is a cached candidate's.
pub proof fn lemma_wf_shape(c: CachedCandidateData)
    requires
        c.wf(),
    ensures
        ids_follow_positions(c.items()),
        c.next_id() == c.items().len() + 1,
        c.targets() == candidate_targets(c.items()),
        distinct_targets(c.items()),
        names_follow_items(c.items(), c.named(), c.names()),
        c.names().subset_of(lowercase_names(c.items())),
{
    assert forall|x: Seq<char>| #[trigger] c.names().contains(x) implies lowercase_names(c.items()).contains(x) by {
        let i = choose|i: int| #![trigger c.named().contains(i)] c.named().contains(i) && 0 <= i < c.items().len()
            && lowercase(c.items()[i].name@) == x;
        assert(lowercase(c.items()[i].name@) == x);
    }
}

/// A snapshot restores the cache it was taken from: for a cache whose
/// candidates have distinct display names (ignoring case), its snapshot can
/// be restored, and holds the same candidates, in the same order with the
/// same ids, and the same next id.
pub proof fn lemma_snapshot_roundtrip(c: CachedCandidateData, snap: CandidateCacheSnapshot)
    requires
        c.wf(),
        distinct_names(c.items()),
        same_candidates(snap.candidates@, c.items()),
        snap.next_candidate_id == c.next_id(),
    ensures
        snapshot_ok(snap),
{
    let s = snap.candidates@;
    let t = c.items();
    assert forall|i: int| 0 <= i < s.len() implies (#[trigger] s[i]).id == i + 1 by {
        assert(same_candidate(s[i], t[i]));
    }
    assert forall|i: int, j: int| 0 <= i < j < s.len() implies target_key((#[trigger] s[i]).target) != target_key(
        (#[trigger] s[j]).target,
    ) by {
        assert(same_candidate(s[i], t[i]));
        assert(same_candidate(s[j], t[j]));
    }
    assert forall|i: int, j: int| 0 <= i < j < s.len() implies lowercase((#[trigger] s[i]).name@) != lowercase(
        (#[trigger] s[j]).name@,
    ) by {
        assert(same_candidate(s[i], t[i]));
        assert(same_candidate(s[j], t[j]));
    }
}

} // verus!
