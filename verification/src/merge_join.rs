//! Joining two keyed lists, one of which is (normally) a subset of the
//! other.
//!
//! `merge_join_subset_by` pairs each element of `bigger` with the element
//! of `smaller` carrying the same key.  It yields exactly the keys present
//! in both lists, each at most once, in `bigger`'s order, with both
//! carried values.  (The behaviour when `smaller` repeats a key is
//! unspecified; the contract speaks of inputs whose `smaller` keys are
//! distinct.)

use vstd::prelude::*;
use crate::seqx::{lemma_first_where_sound, seq_first_where};

verus! {

/// Whether the entry carries key `k`.
pub open spec fn keyed_matches<V>(e: (u64, V), k: u64) -> bool {
    e.0 == k
}

/// The position of the first entry with key `k`, if any.
pub open spec fn key_first<V>(s: Seq<(u64, V)>, k: u64) -> Option<int> {
    seq_first_where(s, |e: (u64, V)| keyed_matches(e, k))
}

/// Whether every key appears at most once.
pub open spec fn keys_distinct<V>(s: Seq<(u64, V)>) -> bool {
    forall|a: int, b: int| 0 <= a < b < s.len() ==> (#[trigger] s[a]).0 != (#[trigger] s[b]).0
}

/// Join `bigger` and `smaller` by key.
///
/// For inputs whose `smaller` keys are distinct, the result holds exactly
/// the keys present in both lists, each once, in `bigger`'s order
/// (witnessed by a strictly increasing map into `bigger`), pairing each
/// key with its value from `bigger` and its value from `smaller`.
#[verifier::rlimit(100)]
pub fn merge_join_subset_by<BV: Copy, SV: Copy>(
    bigger: &Vec<(u64, BV)>,
    smaller: &Vec<(u64, SV)>,
) -> (r: Vec<(u64, BV, SV)>)
    ensures
        keys_distinct(smaller@) ==> {
            &&& forall|i: int|
                0 <= i < r@.len() ==> {
                    let t = #[trigger] r@[i];
                    &&& key_first(smaller@, t.0) matches Some(j) && smaller@[j].1 == t.2
                    &&& exists|bi: int|
                        0 <= bi < bigger@.len() && (#[trigger] bigger@[bi]) == (t.0, t.1)
                }
            &&& forall|a: int, b: int|
                0 <= a < b < r@.len() ==> (#[trigger] r@[a]).0 != (#[trigger] r@[b]).0
            &&& forall|bi: int|
                0 <= bi < bigger@.len() && key_first(smaller@, (#[trigger] bigger@[bi]).0)
                    is Some ==> exists|i: int| 0 <= i < r@.len() && (#[trigger] r@[i]).0
                    == bigger@[bi].0
            &&& exists|bidx: Seq<int>|
                #![auto]
                {
                    &&& bidx.len() == r@.len()
                    &&& forall|i: int|
                        0 <= i < bidx.len() ==> 0 <= #[trigger] bidx[i] < bigger@.len()
                            && bigger@[bidx[i]] == (r@[i].0, r@[i].1)
                    &&& forall|a: int, b: int| 0 <= a < b < bidx.len() ==> bidx[a] < bidx[b]
                }
        },
{
    let nb = bigger.len();
    let ns = smaller.len();
    let mut consumed: Vec<bool> = Vec::new();
    let mut q: usize = 0;
    while q < ns
        invariant
            q <= ns,
            consumed@.len() == q,
            forall|x: int| 0 <= x < q ==> !(#[trigger] consumed@[x]),
        decreases ns - q,
    {
        consumed.push(false);
        q += 1;
    }
    let mut out: Vec<(u64, BV, SV)> = Vec::new();
    let ghost mut bidx: Seq<int> = Seq::empty();
    let mut i: usize = 0;
    while i < nb
        invariant
            i <= nb,
            nb == bigger@.len(),
            ns == smaller@.len(),
            consumed@.len() == ns,
            bidx.len() == out@.len(),
            keys_distinct(smaller@) ==> forall|j: int|
                0 <= j < ns ==> ((#[trigger] consumed@[j]) <==> exists|i2: int|
                    0 <= i2 < out@.len() && (#[trigger] out@[i2]).0 == smaller@[j].0),
            keys_distinct(smaller@) ==> forall|i2: int|
                0 <= i2 < out@.len() ==> {
                    let t = #[trigger] out@[i2];
                    &&& key_first(smaller@, t.0) matches Some(j) && smaller@[j].1 == t.2
                    &&& exists|bi: int|
                        0 <= bi < bigger@.len() && (#[trigger] bigger@[bi]) == (t.0, t.1)
                },
            keys_distinct(smaller@) ==> forall|a: int, b: int|
                0 <= a < b < out@.len() ==> (#[trigger] out@[a]).0 != (#[trigger] out@[b]).0,
            keys_distinct(smaller@) ==> forall|bi: int|
                0 <= bi < i && key_first(smaller@, (#[trigger] bigger@[bi]).0) is Some ==> exists|
                    i2: int,
                | 0 <= i2 < out@.len() && (#[trigger] out@[i2]).0 == bigger@[bi].0,
            keys_distinct(smaller@) ==> forall|i2: int|
                0 <= i2 < bidx.len() ==> 0 <= #[trigger] bidx[i2] < i && bigger@[bidx[i2]] == (
                out@[i2].0, out@[i2].1),
            keys_distinct(smaller@) ==> forall|a: int, b: int|
                0 <= a < b < bidx.len() ==> bidx[a] < bidx[b],
        decreases nb - i,
    {
        let ghost out_in = out@;
        let (k, bv) = bigger[i];
        let ghost p = |e: (u64, SV)| keyed_matches(e, k);
        let mut j: usize = 0;
        let mut found: Option<usize> = None;
        while j < ns
            invariant
                j <= ns,
                ns == smaller@.len(),
                consumed@.len() == ns,
                p == (|e: (u64, SV)| keyed_matches(e, k)),
                found is None ==> forall|x: int|
                    0 <= x < j ==> !(p(#[trigger] smaller@[x]) && !consumed@[x]),
                found matches Some(f) ==> {
                    &&& f < ns
                    &&& p(smaller@[f as int])
                    &&& !consumed@[f as int]
                    &&& forall|x: int|
                        0 <= x < f ==> !(p(#[trigger] smaller@[x]) && !consumed@[x])
                },
            decreases ns - j,
        {
            if found.is_none() && smaller[j].0 == k && !consumed[j] {
                found = Some(j);
            }
            j += 1;
        }
        match found {
            Some(f) => {
                let sv = smaller[f].1;
                proof {
                    if keys_distinct(smaller@) {
                        lemma_first_where_sound(smaller@, p);
                        // With distinct keys, the first unconsumed match is
                        // the first match.
                        match seq_first_where(smaller@, p) {
                            Some(j0) => {
                                if j0 < f as int {
                                    assert(smaller@[j0].0 == k && smaller@[f as int].0 == k);
                                    assert(false);
                                }
                                assert(j0 == f as int);
                            },
                            None => {
                                assert(p(smaller@[f as int]));
                                assert(false);
                            },
                        }
                        // The key is not yet in the output: its smaller
                        // entry was unconsumed.
                        assert(forall|i2: int|
                            0 <= i2 < out@.len() ==> (#[trigger] out@[i2]).0 != k);
                    }
                }
                let ghost out0 = out@;
                let ghost consumed0 = consumed@;
                out.push((k, bv, sv));
                consumed.set(f, true);
                proof {
                    bidx = bidx.push(i as int);
                    if keys_distinct(smaller@) {
                        assert(bigger@[i as int] == (k, bv));
                        assert(out@[out@.len() - 1] == (k, bv, sv));
                        assert(out@[out@.len() - 1].0 == bigger@[i as int].0);
                        assert(key_first(smaller@, k) == Some(f as int));
                        assert forall|j2: int| 0 <= j2 < ns implies ((#[trigger] consumed@[j2])
                            <==> exists|i2: int|
                            0 <= i2 < out@.len() && (#[trigger] out@[i2]).0 == smaller@[j2].0) by {
                            if j2 == f as int {
                                assert(out@[out@.len() - 1].0 == smaller@[j2].0);
                            } else {
                                assert(consumed@[j2] == consumed0[j2]);
                                if consumed0[j2] {
                                    let i2 = choose|i2: int|
                                        0 <= i2 < out0.len() && (#[trigger] out0[i2]).0
                                            == smaller@[j2].0;
                                    assert(out@[i2].0 == smaller@[j2].0);
                                } else {
                                    if exists|i2: int|
                                        0 <= i2 < out@.len() && (#[trigger] out@[i2]).0
                                            == smaller@[j2].0 {
                                        let i2 = choose|i2: int|
                                            0 <= i2 < out@.len() && (#[trigger] out@[i2]).0
                                                == smaller@[j2].0;
                                        if i2 < out0.len() {
                                            assert(out0[i2].0 == smaller@[j2].0);
                                            assert(false);
                                        } else {
                                            assert(smaller@[j2].0 == k);
                                            assert(smaller@[f as int].0 == k);
                                            assert(false);
                                        }
                                    }
                                }
                            }
                        }
                    }
                }
            },
            None => {
                proof {
                    if keys_distinct(smaller@) {
                        // Either the key is absent from `smaller`, or its
                        // entry was already consumed, so the key is
                        // already in the output.
                        if key_first(smaller@, k) is Some {
                            lemma_first_where_sound(smaller@, p);
                            let j0 = key_first(smaller@, k)->Some_0;
                            assert(p(smaller@[j0]) && !(p(smaller@[j0]) && !consumed@[j0]));
                            assert(consumed@[j0]);
                            assert(smaller@[j0].0 == bigger@[i as int].0);
                            assert(exists|i2: int|
                                0 <= i2 < out@.len() && (#[trigger] out@[i2]).0 == smaller@[j0].0);
                        }
                    }
                }
            },
        }
        proof {
            if keys_distinct(smaller@) {
                assert forall|bi: int|
                    0 <= bi < i + 1 && key_first(smaller@, (#[trigger] bigger@[bi]).0)
                        is Some implies exists|i2: int|
                    0 <= i2 < out@.len() && (#[trigger] out@[i2]).0 == bigger@[bi].0 by {
                    if bi < i {
                        let w = choose|i2: int|
                            0 <= i2 < out_in.len() && (#[trigger] out_in[i2]).0 == bigger@[bi].0;
                        assert(out@[w].0 == bigger@[bi].0);
                    }
                }
            }
        }
        i += 1;
    }
    out
}

} // verus!
