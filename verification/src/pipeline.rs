//! Decisions of the search framework: keyword lists and the choice of the
//! search engine.
use vstd::prelude::*;
use crate::text::{chars_of, lower_char, str_eq};
use crate::model::config::lower_ascii;
use crate::candidates::{ExecutionTarget, target_key};
use crate::seqs::first_index;

verus! {

/// The keywords in order, each kept at its first occurrence only.
pub open spec fn dedup_texts(s: Seq<Seq<char>>) -> Seq<Seq<char>>
    decreases s.len(),
{
    if s.len() == 0 {
        Seq::empty()
    } else {
        let rest = dedup_texts(s.drop_last());
        if rest.contains(s.last()) {
            rest
        } else {
            rest.push(s.last())
        }
    }
}

/// Removes repeated keywords, keeping the first occurrence of each, in order.
pub fn deduplicate_keywords(keywords: Vec<String>) -> (r: Vec<String>)
    ensures
        r@.map_values(|s: String| s@) == dedup_texts(keywords@.map_values(|s: String| s@)),
{
    let ghost all = keywords@.map_values(|s: String| s@);
    let mut out: Vec<String> = Vec::new();
    let mut i: usize = 0;
    while i < keywords.len()
        invariant
            i <= keywords@.len(),
            all == keywords@.map_values(|s: String| s@),
            out@.map_values(|s: String| s@) == dedup_texts(all.take(i as int)),
        decreases keywords.len() - i,
    {
        let k = &keywords[i];
        let ghost seen = out@.map_values(|s: String| s@);
        assert(all.take(i + 1).drop_last() == all.take(i as int));
        assert(all.take(i + 1).last() == k@);
        let mut found = false;
        let mut j: usize = 0;
        while j < out.len()
            invariant
                j <= out@.len(),
                seen == out@.map_values(|s: String| s@),
                found == exists|q: int| 0 <= q < j && seen[q] == k@,
            decreases out.len() - j,
        {
            assert(seen[j as int] == out@[j as int]@);
            if str_eq(out[j].as_str(), k.as_str()) {
                found = true;
            }
            j += 1;
        }
        if !found {
            out.push(k.clone());
            assert(out@.map_values(|s: String| s@) == seen.push(k@));
        } else {
            assert(seen.contains(k@));
        }
        i += 1;
    }
    assert(all.take(all.len() as int) == all);
    out
}

/// `a` comes before `b` in the order of `str` comparison (by code points).
pub open spec fn text_lt(a: Seq<char>, b: Seq<char>) -> bool
    decreases a.len(),
{
    if b.len() == 0 {
        false
    } else if a.len() == 0 {
        true
    } else if a[0] != b[0] {
        a[0] < b[0]
    } else {
        text_lt(a.drop_first(), b.drop_first())
    }
}

/// An engine's sort key comes first: smaller priority, then smaller id.
pub open spec fn engine_before(p: u32, id: Seq<char>, q: u32, other: Seq<char>) -> bool {
    p < q || (p == q && text_lt(id, other))
}

fn text_less(a: &[char], b: &[char]) -> (r: bool)
    ensures
        r == text_lt(a@, b@),
{
    let mut i: usize = 0;
    assert(a@.skip(0) == a@);
    assert(b@.skip(0) == b@);
    while i < a.len() && i < b.len() && a[i] == b[i]
        invariant
            i <= a@.len(),
            i <= b@.len(),
            text_lt(a@, b@) == text_lt(a@.skip(i as int), b@.skip(i as int)),
        decreases a.len() - i,
    {
        assert(a@.skip(i as int).drop_first() == a@.skip(i + 1));
        assert(b@.skip(i as int).drop_first() == b@.skip(i + 1));
        i += 1;
    }
    if i == b.len() {
        assert(b@.skip(i as int).len() == 0);
        false
    } else if i == a.len() {
        assert(a@.skip(i as int).len() == 0);
        true
    } else {
        assert(a@.skip(i as int)[0] == a@[i as int]);
        assert(b@.skip(i as int)[0] == b@[i as int]);
        a[i] < b[i]
    }
}

/// Picks the search engine among the enabled ones (given as priority and
/// component id): the smallest priority, ties broken by the smaller id, so
/// that the choice does not depend on the order the engines are listed in.
pub fn select_engine(engines: &[(u32, String)]) -> (r: Option<usize>)
    ensures
        engines@.len() == 0 <==> r is None,
        r matches Some(k) ==> k < engines@.len() && forall|j: int|
            0 <= j < engines@.len() && j != k ==> !engine_before(
                (#[trigger] engines@[j]).0,
                engines@[j].1@,
                engines@[k as int].0,
                engines@[k as int].1@,
            ),
{
    if engines.len() == 0 {
        return None;
    }
    let mut best: usize = 0;
    let mut best_id = chars_of(engines[0].1.as_str());
    let mut i: usize = 1;
    while i < engines.len()
        invariant
            1 <= i <= engines@.len(),
            best < i,
            best_id@ == engines@[best as int].1@,
            forall|j: int| 0 <= j < i && j != best ==> !engine_before(
                (#[trigger] engines@[j]).0,
                engines@[j].1@,
                engines@[best as int].0,
                engines@[best as int].1@,
            ),
        decreases engines.len() - i,
    {
        let id = chars_of(engines[i].1.as_str());
        let p = engines[i].0;
        let bp = engines[best].0;
        if p < bp || (p == bp && text_less(id.as_slice(), best_id.as_slice())) {
            proof {
                assert forall|j: int| 0 <= j < i + 1 && j != i implies !engine_before(
                    (#[trigger] engines@[j]).0,
                    engines@[j].1@,
                    engines@[i as int].0,
                    engines@[i as int].1@,
                ) by {
                    if j != best {
                        lemma_text_lt_trans_or(engines@[j].1@, engines@[best as int].1@, engines@[i as int].1@);
                    }
                    lemma_text_lt_asym(engines@[best as int].1@, engines@[i as int].1@);
                }
            }
            best = i;
            best_id = id;
        } else {
            proof {
                lemma_text_lt_total(engines@[i as int].1@, engines@[best as int].1@);
            }
        }
        i += 1;
    }
    Some(best)
}

proof fn lemma_text_lt_asym(a: Seq<char>, b: Seq<char>)
    ensures
        !(text_lt(a, b) && text_lt(b, a)),
    decreases a.len(),
{
    if a.len() > 0 && b.len() > 0 && a[0] == b[0] {
        lemma_text_lt_asym(a.drop_first(), b.drop_first());
    }
}

proof fn lemma_text_lt_total(a: Seq<char>, b: Seq<char>)
    ensures
        !text_lt(a, b) ==> (text_lt(b, a) || a == b),
    decreases a.len(),
{
    if a.len() > 0 && b.len() > 0 && a[0] == b[0] {
        lemma_text_lt_total(a.drop_first(), b.drop_first());
        if a.drop_first() == b.drop_first() {
            assert(a == seq![a[0]] + a.drop_first());
            assert(b == seq![b[0]] + b.drop_first());
        }
    } else if a.len() > 0 && b.len() > 0 {

    }
}

/// `a` not before `b` and `c` before `b` give `a` not before `c`.
proof fn lemma_text_lt_trans_or(a: Seq<char>, b: Seq<char>, c: Seq<char>)
    ensures
        !text_lt(a, b) && text_lt(c, b) ==> !text_lt(a, c),
    decreases a.len(),
{
    if a.len() > 0 && b.len() > 0 && c.len() > 0 && a[0] == b[0] && b[0] == c[0] {
        lemma_text_lt_trans_or(a.drop_first(), b.drop_first(), c.drop_first());
    }
}

/// The engine choice does not depend on the order: among engines with
/// distinct ids, two engines that no other engine comes before are the same.
pub proof fn lemma_engine_choice_is_unique(engines: Seq<(u32, Seq<char>)>, k1: int, k2: int)
    requires
        0 <= k1 < engines.len(),
        0 <= k2 < engines.len(),
        forall|i: int, j: int| 0 <= i < j < engines.len() ==> (#[trigger] engines[i]).1 != (#[trigger] engines[j]).1,
        forall|j: int| 0 <= j < engines.len() && j != k1 ==> !engine_before(
            (#[trigger] engines[j]).0,
            engines[j].1,
            engines[k1].0,
            engines[k1].1,
        ),
        forall|j: int| 0 <= j < engines.len() && j != k2 ==> !engine_before(
            (#[trigger] engines[j]).0,
            engines[j].1,
            engines[k2].0,
            engines[k2].1,
        ),
    ensures
        k1 == k2,
{
    if k1 != k2 {
        let a = engines[k1];
        let b = engines[k2];
        assert(!engine_before(b.0, b.1, a.0, a.1));
        assert(!engine_before(a.0, a.1, b.0, b.1));
        lemma_text_lt_total(a.1, b.1);
        if k1 < k2 {
            assert(a.1 != b.1);
        } else {
            assert(engines[k2].1 != engines[k1].1);
        }
    }
}

/// `a` sorts before `b`: smaller priority, ties by position.
pub open spec fn sorts_before(p: Seq<u32>, a: usize, b: usize) -> bool {
    p[a as int] < p[b as int] || (p[a as int] == p[b as int] && a < b)
}

/// The order in which keyword optimizers run: by ascending priority, those
/// of equal priority in the order they were added (a stable sort).
pub fn optimizer_order(priorities: &[u32]) -> (r: Vec<usize>)
    ensures
        r@.len() == priorities@.len(),
        forall|i: int| 0 <= i < r@.len() ==> (#[trigger] r@[i]) < priorities@.len(),
        forall|i: int, j: int| 0 <= i < j < r@.len() ==> sorts_before(priorities@, #[trigger] r@[i], #[trigger] r@[j]),
{
    let n = priorities.len();
    let mut r: Vec<usize> = Vec::new();
    let mut k: usize = 0;
    while k < n
        invariant
            k <= n,
            n == priorities@.len(),
            r@.len() == k,
            forall|i: int| 0 <= i < r@.len() ==> (#[trigger] r@[i]) < k,
            forall|i: int, j: int| 0 <= i < j < r@.len() ==> sorts_before(priorities@, #[trigger] r@[i], #[trigger] r@[j]),
        decreases n - k,
    {
        let pk = priorities[k];
        let mut pos: usize = 0;
        while pos < r.len() && !(pk < priorities[r[pos]])
            invariant
                pos <= r@.len(),
                r@.len() == k,
                k < n,
                n == priorities@.len(),
                pk == priorities@[k as int],
                forall|i: int| 0 <= i < r@.len() ==> (#[trigger] r@[i]) < k,
                forall|i: int| 0 <= i < pos ==> !(pk < priorities@[(#[trigger] r@[i]) as int]),
            decreases r.len() - pos,
        {
            pos += 1;
        }
        let ghost before = r@;
        r.insert(pos, k);
        proof {
            assert forall|i: int, j: int| 0 <= i < j < r@.len() implies sorts_before(
                priorities@,
                #[trigger] r@[i],
                #[trigger] r@[j],
            ) by {
                if j < pos {
                    assert(r@[i] == before[i] && r@[j] == before[j]);
                } else if j == pos {
                    assert(r@[i] == before[i]);
                    assert(!(pk < priorities@[before[i] as int]));
                } else if i == pos {
                    assert(r@[j] == before[j - 1]);
                    assert(pk < priorities@[before[pos as int] as int]);
                    if j - 1 > pos {
                        assert(sorts_before(priorities@, before[pos as int], before[j - 1]));
                    }
                } else if i < pos {
                    assert(r@[i] == before[i] && r@[j] == before[j - 1]);
                } else {
                    assert(r@[i] == before[i - 1] && r@[j] == before[j - 1]);
                }
            }
        }
        k += 1;
    }
    r
}

/// What an optimizer is given: every keyword gathered so far when it uses
/// context, else the name alone.
pub fn optimizer_inputs(name: &str, accumulated: &[String], uses_context: bool) -> (r: Vec<String>)
    ensures
        uses_context ==> r@.map_values(|s: String| s@) == accumulated@.map_values(|s: String| s@),
        !uses_context ==> r@.map_values(|s: String| s@) == seq![name@],
{
    if uses_context {
        let mut out: Vec<String> = Vec::new();
        let mut i: usize = 0;
        while i < accumulated.len()
            invariant
                i <= accumulated@.len(),
                out@.len() == i,
                forall|j: int| 0 <= j < i ==> (#[trigger] out@[j])@ == accumulated@[j]@,
            decreases accumulated.len() - i,
        {
            out.push(accumulated[i].clone());
            i += 1;
        }
        assert(out@.map_values(|s: String| s@) == accumulated@.map_values(|s: String| s@));
        out
    } else {
        let mut out: Vec<String> = Vec::new();
        out.push(crate::text::owned(name));
        out
    }
}

/// All keyword lists, one after the other.
pub open spec fn flattened(lists: Seq<Seq<Seq<char>>>) -> Seq<Seq<char>>
    decreases lists.len(),
{
    if lists.len() == 0 {
        Seq::empty()
    } else {
        flattened(lists.drop_last()) + lists.last()
    }
}

/// The texts of keyword lists.
pub open spec fn list_texts(lists: Seq<Vec<String>>) -> Seq<Seq<Seq<char>>> {
    lists.map_values(|l: Vec<String>| l@.map_values(|s: String| s@))
}

/// A candidate's keywords after the pipeline: its own, then those derived
/// from its name, then each injector's, repeats removed (first kept).
pub fn merged_keywords(own: Vec<String>, derived: Vec<String>, injected: Vec<Vec<String>>) -> (r: Vec<String>)
    ensures
        r@.map_values(|s: String| s@) == dedup_texts(
            own@.map_values(|s: String| s@) + derived@.map_values(|s: String| s@) + flattened(list_texts(injected@)),
        ),
{
    let ghost o = own@.map_values(|s: String| s@);
    let ghost d = derived@.map_values(|s: String| s@);
    let mut all = own;
    let mut more = derived;
    all.append(&mut more);
    assert(all@.map_values(|s: String| s@) == o + d);
    let mut k: usize = 0;
    while k < injected.len()
        invariant
            k <= injected@.len(),
            all@.map_values(|s: String| s@) == o + d + flattened(list_texts(injected@.take(k as int))),
        decreases injected.len() - k,
    {
        let ghost before = all@;
        let list = &injected[k];
        let mut j: usize = 0;
        while j < list.len()
            invariant
                j <= list@.len(),
                all@.map_values(|s: String| s@) == before.map_values(|s: String| s@) + list@.take(j as int).map_values(|s: String| s@),
            decreases list.len() - j,
        {
            let ghost b2 = all@;
            all.push(list[j].clone());
            assert(all@.map_values(|s: String| s@) == b2.map_values(|s: String| s@).push(list@[j as int]@));
            assert(list@.take(j + 1).map_values(|s: String| s@) == list@.take(j as int).map_values(|s: String| s@).push(list@[j as int]@));
            j += 1;
        }
        assert(list@.take(list@.len() as int) == list@);
        assert(list_texts(injected@.take(k + 1)).drop_last() == list_texts(injected@.take(k as int)));
        assert(list_texts(injected@.take(k + 1)).last() == list@.map_values(|s: String| s@));
        k += 1;
    }
    assert(injected@.take(injected@.len() as int) == injected@);
    deduplicate_keywords(all)
}

/// The key of a candidate's fixed bias rule: its target's text in ASCII
/// lower case.
pub fn bias_key(target: &ExecutionTarget) -> (r: String)
    ensures
        r@ == lower_ascii(target_key(*target).1),
{
    let cs = chars_of(target.payload());
    let mut out = String::new();
    let mut i: usize = 0;
    while i < cs.len()
        invariant
            i <= cs@.len(),
            out@ == lower_ascii(cs@.take(i as int)),
        decreases cs.len() - i,
    {
        crate::text::push_char(&mut out, lower_char(cs[i]));
        assert(lower_ascii(cs@.take(i + 1)) == lower_ascii(cs@.take(i as int)).push(crate::text::ascii_lower(cs@[i as int])));
        i += 1;
    }
    assert(cs@.take(cs@.len() as int) == cs@);
    out
}

/// Where a component of a candidate pipeline stands: among its data sources,
/// its keyword optimizers or its keyword injectors, at a position.
#[derive(Debug, Clone, Copy, PartialEq, Eq, Structural)]
pub enum ComponentSlot {
    Source(usize),
    Optimizer(usize),
    Injector(usize),
}

/// Holds for the given id.
pub open spec fn id_is(id: Seq<char>) -> spec_fn(Seq<char>) -> bool {
    |x: Seq<char>| x == id
}

/// The texts of a list of ids.
pub open spec fn id_texts(ids: Seq<String>) -> Seq<Seq<char>> {
    ids.map_values(|s: String| s@)
}

/// The first component with the id: data sources are searched first, then
/// keyword optimizers, then keyword injectors.
pub open spec fn component_slot(
    sources: Seq<Seq<char>>,
    optimizers: Seq<Seq<char>>,
    injectors: Seq<Seq<char>>,
    id: Seq<char>,
) -> Option<ComponentSlot> {
    match first_index(sources, id_is(id), 0) {
        Some(i) => Some(ComponentSlot::Source(i as usize)),
        None => match first_index(optimizers, id_is(id), 0) {
            Some(i) => Some(ComponentSlot::Optimizer(i as usize)),
            None => match first_index(injectors, id_is(id), 0) {
                Some(i) => Some(ComponentSlot::Injector(i as usize)),
                None => None,
            },
        },
    }
}

/// Position of the first id equal to `id`.
fn find_id(ids: &[String], id: &str) -> (r: Option<usize>)
    ensures
        match first_index(id_texts(ids@), id_is(id@), 0) {
            Some(i) => r == Some(i as usize),
            None => r is None,
        },
{
    let ghost s = id_texts(ids@);
    let ghost pred = id_is(id@);
    let mut i: usize = 0;
    while i < ids.len()
        invariant
            i <= ids@.len(),
            s == id_texts(ids@),
            pred == id_is(id@),
            first_index(s, pred, 0) == first_index(s, pred, i as int),
        decreases ids.len() - i,
    {
        if str_eq(ids[i].as_str(), id) {
            assert(s[i as int] == ids@[i as int]@);
            return Some(i);
        }
        assert(s[i as int] == ids@[i as int]@);
        i += 1;
    }
    None
}

/// Finds a configurable component of a candidate pipeline by its id, given
/// the ids of its data sources, keyword optimizers and keyword injectors.
pub fn find_configurable(sources: &[String], optimizers: &[String], injectors: &[String], component_id: &str) -> (r:
    Option<ComponentSlot>)
    ensures
        r == component_slot(id_texts(sources@), id_texts(optimizers@), id_texts(injectors@), component_id@),
{
    match find_id(sources, component_id) {
        Some(i) => Some(ComponentSlot::Source(i)),
        None => match find_id(optimizers, component_id) {
            Some(i) => Some(ComponentSlot::Optimizer(i)),
            None => match find_id(injectors, component_id) {
                Some(i) => Some(ComponentSlot::Injector(i)),
                None => None,
            },
        },
    }
}

} // verus!
