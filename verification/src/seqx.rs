//! Small spec-level helpers over sequences: counting the elements that
//! satisfy a predicate, and finding the first one that does.
//!
//! The manager's state machine is full of linear scans; these definitions
//! and lemmas let each scan's loop invariant speak about the prefix
//! already visited.

use vstd::prelude::*;

verus! {

/// How many elements of `s` satisfy `p`.
pub open spec fn seq_count<T>(s: Seq<T>, p: spec_fn(T) -> bool) -> nat
    decreases s.len(),
{
    if s.len() == 0 {
        0
    } else {
        seq_count(s.drop_last(), p) + if p(s.last()) {
            1nat
        } else {
            0nat
        }
    }
}

/// The index of the first element of `s` satisfying `p`, if any.
pub open spec fn seq_first_where<T>(s: Seq<T>, p: spec_fn(T) -> bool) -> Option<int>
    decreases s.len(),
{
    if s.len() == 0 {
        None
    } else if p(s[0]) {
        Some(0)
    } else {
        match seq_first_where(s.subrange(1, s.len() as int), p) {
            None => None,
            Some(j) => Some(j + 1),
        }
    }
}

/// Counting over one more element of a prefix.
pub proof fn lemma_count_take_step<T>(s: Seq<T>, p: spec_fn(T) -> bool, i: int)
    requires
        0 <= i < s.len(),
    ensures
        seq_count(s.take(i + 1), p) == seq_count(s.take(i), p) + if p(s[i]) {
            1nat
        } else {
            0nat
        },
{
    assert(s.take(i + 1).drop_last() =~= s.take(i));
    assert(s.take(i + 1).last() == s[i]);
}

/// The whole sequence is its own full prefix.
pub proof fn lemma_count_take_all<T>(s: Seq<T>, p: spec_fn(T) -> bool)
    ensures
        seq_count(s.take(s.len() as int), p) == seq_count(s, p),
{
    assert(s.take(s.len() as int) =~= s);
}

/// How replacing one element changes the count: the old element's
/// contribution goes, the new one's comes.
pub proof fn lemma_count_update<T>(s: Seq<T>, p: spec_fn(T) -> bool, j: int, e: T)
    requires
        0 <= j < s.len(),
    ensures
        seq_count(s.update(j, e), p) + (if p(s[j]) {
            1nat
        } else {
            0nat
        }) == seq_count(s, p) + (if p(e) {
            1nat
        } else {
            0nat
        }),
    decreases s.len(),
{
    let su = s.update(j, e);
    if j == s.len() - 1 {
        assert(su.drop_last() =~= s.drop_last());
        assert(su.last() == e);
    } else {
        assert(su.drop_last() =~= s.drop_last().update(j, e));
        assert(su.last() == s.last());
        lemma_count_update(s.drop_last(), p, j, e);
    }
}

/// If nothing before `i` satisfies `p` and `s[i]` does, then `i` is the
/// first index satisfying `p`.
pub proof fn lemma_first_where_is<T>(s: Seq<T>, p: spec_fn(T) -> bool, i: int)
    requires
        0 <= i < s.len(),
        forall|j: int| 0 <= j < i ==> !p(s[j]),
        p(s[i]),
    ensures
        seq_first_where(s, p) == Some(i),
    decreases s.len(),
{
    if i == 0 {
    } else {
        let t = s.subrange(1, s.len() as int);
        assert(forall|j: int| 0 <= j < i - 1 ==> s[j + 1] == t[j] && !p(#[trigger] t[j]));
        assert(t[i - 1] == s[i]);
        lemma_first_where_is(t, p, i - 1);
    }
}

/// If nothing satisfies `p`, there is no first index.
pub proof fn lemma_first_where_none<T>(s: Seq<T>, p: spec_fn(T) -> bool)
    requires
        forall|j: int| 0 <= j < s.len() ==> !p(s[j]),
    ensures
        seq_first_where(s, p) is None,
    decreases s.len(),
{
    if s.len() > 0 {
        let t = s.subrange(1, s.len() as int);
        assert(forall|j: int| 0 <= j < t.len() ==> s[j + 1] == t[j] && !p(#[trigger] t[j]));
        lemma_first_where_none(t, p);
    }
}

/// What being the first index satisfying `p` means.
pub proof fn lemma_first_where_sound<T>(s: Seq<T>, p: spec_fn(T) -> bool)
    ensures
        match seq_first_where(s, p) {
            Some(i) => 0 <= i < s.len() && p(s[i]) && forall|j: int| 0 <= j < i ==> !p(s[j]),
            None => forall|j: int| 0 <= j < s.len() ==> !p(s[j]),
        },
    decreases s.len(),
{
    if s.len() > 0 {
        let t = s.subrange(1, s.len() as int);
        lemma_first_where_sound(t, p);
        assert(forall|j: int| 1 <= j < s.len() ==> #[trigger] s[j] == t[j - 1]);
    }
}

/// Appending an element leaves an existing first match in place; it can
/// only supply a match where there was none.
pub proof fn lemma_first_where_push<T>(s: Seq<T>, p: spec_fn(T) -> bool, e: T)
    ensures
        seq_first_where(s.push(e), p) == (match seq_first_where(s, p) {
            Some(i) => Some(i),
            None => if p(e) {
                Some(s.len() as int)
            } else {
                None
            },
        }),
    decreases s.len(),
{
    reveal_with_fuel(seq_first_where, 2);
    let q = s.push(e);
    assert(q.len() == s.len() + 1);
    if s.len() == 0 {
        assert(q[0] == e);
        assert(q.subrange(1, 1) =~= Seq::<T>::empty());
        assert(seq_first_where(q, p) == (if p(e) {
            Some(0int)
        } else {
            None
        }));
    } else {
        let t = s.subrange(1, s.len() as int);
        assert(q[0] == s[0]);
        assert(q.subrange(1, q.len() as int) =~= t.push(e));
        lemma_first_where_push(t, p, e);
        if p(s[0]) {
        } else {
            assert(seq_first_where(q, p) == (match seq_first_where(t.push(e), p) {
                None => None,
                Some(j) => Some(j + 1),
            }));
        }
    }
}

/// Every element of a filtered sequence is an element of the sequence it
/// was filtered from.
pub proof fn lemma_filter_members<T>(s: Seq<T>, p: spec_fn(T) -> bool)
    ensures
        forall|i: int|
            0 <= i < s.filter(p).len() ==> exists|j: int|
                0 <= j < s.len() && #[trigger] s.filter(p)[i] == s[j],
    decreases s.len(),
{
    reveal(Seq::filter);
    if s.len() > 0 {
        let t = s.drop_last();
        lemma_filter_members(t, p);
        assert forall|i: int|
            0 <= i < s.filter(p).len() implies exists|j: int|
            0 <= j < s.len() && #[trigger] s.filter(p)[i] == s[j] by {
            if p(s.last()) && i == s.filter(p).len() - 1 {
                assert(s.filter(p)[i] == s[s.len() - 1]);
            } else {
                assert(s.filter(p)[i] == t.filter(p)[i]);
                let j = choose|j: int| 0 <= j < t.len() && t.filter(p)[i] == t[j];
                assert(s.filter(p)[i] == s[j]);
            }
        }
    }
}

/// The smallest element reached by folding `min` over the options in play.
pub open spec fn opt_min(a: Option<u64>, b: Option<u64>) -> Option<u64> {
    match (a, b) {
        (None, x) => x,
        (x, None) => x,
        (Some(x), Some(y)) => if x <= y {
            Some(x)
        } else {
            Some(y)
        },
    }
}

/// Fold two optional deadlines into the earlier one.
pub fn opt_min_exec(a: Option<u64>, b: Option<u64>) -> (r: Option<u64>)
    ensures
        r == opt_min(a, b),
{
    match (a, b) {
        (None, x) => x,
        (x, None) => x,
        (Some(x), Some(y)) => if x <= y {
            Some(x)
        } else {
            Some(y)
        },
    }
}

} // verus!
