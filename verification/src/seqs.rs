//! Searching sequences.
use vstd::prelude::*;

verus! {

/// Position of the first element at or after `from` that satisfies `pred`.
pub open spec fn first_index<T>(s: Seq<T>, pred: spec_fn(T) -> bool, from: int) -> Option<int>
    decreases s.len() - from,
{
    if from < 0 || from >= s.len() {
        None
    } else if pred(s[from]) {
        Some(from)
    } else {
        first_index(s, pred, from + 1)
    }
}

/// A found position satisfies the predicate and no earlier one does.
pub proof fn lemma_first_index<T>(s: Seq<T>, pred: spec_fn(T) -> bool, from: int)
    requires
        0 <= from,
    ensures
        first_index(s, pred, from) matches Some(i) ==> from <= i < s.len() && pred(s[i]) && forall|j: int|
            from <= j < i ==> !pred(#[trigger] s[j]),
        first_index(s, pred, from) is None ==> forall|j: int| from <= j < s.len() ==> !pred(#[trigger] s[j]),
    decreases s.len() - from,
{
    if from < s.len() && !pred(s[from]) {
        lemma_first_index(s, pred, from + 1);
    }
}

/// Position of the last element that satisfies `pred`.
pub open spec fn last_index<T>(s: Seq<T>, pred: spec_fn(T) -> bool) -> Option<int>
    decreases s.len(),
{
    if s.len() == 0 {
        None
    } else if pred(s.last()) {
        Some(s.len() - 1)
    } else {
        last_index(s.drop_last(), pred)
    }
}

/// A found position satisfies the predicate; when none is found, no element does.
pub proof fn lemma_last_index<T>(s: Seq<T>, pred: spec_fn(T) -> bool)
    ensures
        last_index(s, pred) matches Some(k) ==> 0 <= k < s.len() && pred(s[k]),
        last_index(s, pred) is None ==> forall|j: int| 0 <= j < s.len() ==> !pred(#[trigger] s[j]),
    decreases s.len(),
{
    if s.len() > 0 && !pred(s.last()) {
        lemma_last_index(s.drop_last(), pred);
        if last_index(s, pred) is None {
            assert forall|j: int| 0 <= j < s.len() implies !pred(#[trigger] s[j]) by {
                if j < s.len() - 1 {
                    assert(s.drop_last()[j] == s[j]);
                }
            }
        }
    }
}

/// Copies a vector of plain values.
pub fn copy_vec<T: Copy>(v: &Vec<T>) -> (r: Vec<T>)
    ensures
        r@ == v@,
{
    vstd::slice::slice_to_vec(v.as_slice())
}

} // verus!
