//! Canonical ordering of object keys.
//!
//! Every acquisition path in the system sorts its key set into one canonical
//! order before taking any lock. Two transactions that need the same keys
//! therefore always contend in the same order, which rules out circular
//! waits by construction.

use vstd::prelude::*;

verus! {

/// A sequence is strictly increasing: sorted, with no duplicates.
pub open spec fn sorted_strict(s: Seq<u64>) -> bool {
    forall|i: int, j: int| 0 <= i < j < s.len() ==> s[i] < s[j]
}

/// Insert `k` into a strictly sorted vector, keeping it strictly sorted;
/// inserting a key that is already present changes nothing.
pub fn insert_sorted(out: &mut Vec<u64>, k: u64)
    requires
        sorted_strict(old(out)@),
    ensures
        sorted_strict(final(out)@),
        forall|x: u64| final(out)@.contains(x) <==> (old(out)@.contains(x) || x == k),
{
    let mut j: usize = 0;
    while j < out.len() && out[j] < k
        invariant
            j <= out.len(),
            sorted_strict(out@),
            out@ == old(out)@,
            forall|i: int| 0 <= i < j ==> out@[i] < k,
        decreases out.len() - j,
    {
        j += 1;
    }
    if j < out.len() && out[j] == k {
        proof {
            assert(old(out)@.contains(k));
        }
        return ;
    }
    out.insert(j, k);
    proof {
        assert forall|i: int, i2: int| 0 <= i < i2 < out@.len() implies out@[i] < out@[i2] by {
            if i2 < j {
                assert(out@[i] == old(out)@[i]);
            } else if i2 == j {
                assert(out@[i] == old(out)@[i] && out@[i2] == k);
            } else {
                assert(out@[i2] == old(out)@[i2 - 1]);
                if i == j {
                    // everything at or after position j in the old vector is > k
                    assert(old(out)@[i2 - 1] >= k);
                    assert(old(out)@[i2 - 1] != k) by {
                        if old(out)@[i2 - 1] == k {
                            assert(old(out)@.contains(k));
                        }
                    }
                } else if i < j {
                    assert(out@[i] == old(out)@[i]);
                } else {
                    assert(out@[i] == old(out)@[i - 1]);
                }
            }
        }
        assert forall|x: u64| final(out)@.contains(x) implies (old(out)@.contains(x) || x == k) by {
            let idx = choose|idx: int| 0 <= idx < final(out)@.len() && final(out)@[idx] == x;
            if idx < j {
                assert(old(out)@[idx] == x);
            } else if idx > j {
                assert(old(out)@[idx - 1] == x);
            }
        }
        assert forall|x: u64| (old(out)@.contains(x) || x == k) implies final(out)@.contains(x) by {
            if x == k {
                assert(final(out)@[j as int] == k);
            } else {
                let idx = choose|idx: int| 0 <= idx < old(out)@.len() && old(out)@[idx] == x;
                if idx < j {
                    assert(final(out)@[idx] == x);
                } else {
                    assert(final(out)@[idx + 1] == x);
                }
            }
        }
    }
}

/// Sort a set of requested keys into the canonical acquisition order,
/// dropping duplicates. The result is the one strictly increasing sequence
/// that holds exactly the requested keys; it depends on the set of keys
/// alone, never on arrival order. This is the deadlock-avoidance mechanism.
pub fn canonicalize(keys: &Vec<u64>) -> (r: Vec<u64>)
    ensures
        sorted_strict(r@),
        forall|x: u64| r@.contains(x) <==> keys@.contains(x),
{
    let mut out: Vec<u64> = Vec::new();
    let mut i: usize = 0;
    while i < keys.len()
        invariant
            i <= keys.len(),
            sorted_strict(out@),
            forall|x: u64| out@.contains(x) <==> keys@.subrange(0, i as int).contains(x),
        decreases keys.len() - i,
    {
        let ghost pre = out@;
        let ghost ip1: int = i + 1;
        insert_sorted(&mut out, keys[i]);
        proof {
            assert forall|x: u64| out@.contains(x) implies keys@.subrange(0, ip1).contains(x) by {
                if pre.contains(x) {
                    let idx = choose|idx: int|
                        0 <= idx < keys@.subrange(0, i as int).len() && keys@.subrange(
                            0,
                            i as int,
                        )[idx] == x;
                    assert(keys@.subrange(0, ip1)[idx] == x);
                } else {
                    assert(keys@.subrange(0, ip1)[i as int] == x);
                }
            }
            assert forall|x: u64| keys@.subrange(0, ip1).contains(x) implies out@.contains(x) by {
                let idx = choose|idx: int|
                    0 <= idx < keys@.subrange(0, ip1).len() && keys@.subrange(0, ip1)[idx] == x;
                if idx < i {
                    assert(keys@.subrange(0, i as int)[idx] == x);
                }
            }
        }
        i += 1;
    }
    proof {
        assert(keys@.subrange(0, keys@.len() as int) =~= keys@);
    }
    out
}

/// There is only one canonical form for a given key set: two strictly
/// increasing sequences that hold the same keys are the same sequence.
/// Hence every acquisition path, whatever order its caller listed the keys
/// in, walks the keys in one agreed order.
pub proof fn lemma_canonical_unique(a: Seq<u64>, b: Seq<u64>)
    requires
        sorted_strict(a),
        sorted_strict(b),
        forall|x: u64| a.contains(x) <==> b.contains(x),
    ensures
        a == b,
    decreases a.len(),
{
    if a.len() == 0 {
        if b.len() > 0 {
            assert(b.contains(b[0]));
        }
        assert(a =~= b);
    } else {
        assert(a.contains(a[0]));
        assert(b.contains(a[0]));
        assert(b.len() > 0) by {
            if b.len() == 0 {
                let w = choose|w: int| 0 <= w < b.len() && b[w] == a[0];
            }
        }
        assert(b.contains(b[0]));
        assert(a.contains(b[0]));
        let ia = choose|ia: int| 0 <= ia < b.len() && b[ia] == a[0];
        let ib = choose|ib: int| 0 <= ib < a.len() && a[ib] == b[0];
        assert(b[0] <= a[0]) by {
            if ia > 0 {
                assert(b[0] < b[ia]);
            }
        }
        assert(a[0] <= b[0]) by {
            if ib > 0 {
                assert(a[0] < a[ib]);
            }
        }
        let at = a.drop_first();
        let bt = b.drop_first();
        assert forall|x: u64| at.contains(x) implies bt.contains(x) by {
            lemma_tail_membership(a, x);
            assert(b.contains(x) && x > b[0]);
            lemma_tail_membership_rev(b, x);
        }
        assert forall|x: u64| bt.contains(x) implies at.contains(x) by {
            lemma_tail_membership(b, x);
            assert(a.contains(x) && x > a[0]);
            lemma_tail_membership_rev(a, x);
        }
        lemma_canonical_unique(at, bt);
        assert forall|i: int| 0 <= i < a.len() implies a[i] == b[i] by {
            if i > 0 {
                assert(at[i - 1] == bt[i - 1]);
            }
        }
        assert(a =~= b);
    }
}

/// In a strictly increasing sequence, everything after the head is a member
/// of the whole sequence and exceeds the head.
proof fn lemma_tail_membership(s: Seq<u64>, x: u64)
    requires
        sorted_strict(s),
        s.len() > 0,
        s.drop_first().contains(x),
    ensures
        s.contains(x),
        x > s[0],
{
    let idx = choose|idx: int| 0 <= idx < s.drop_first().len() && s.drop_first()[idx] == x;
    assert(s[idx + 1] == x);
}

/// In a strictly increasing sequence, every member larger than the head
/// sits in the tail.
proof fn lemma_tail_membership_rev(s: Seq<u64>, x: u64)
    requires
        sorted_strict(s),
        s.len() > 0,
        s.contains(x),
        x > s[0],
    ensures
        s.drop_first().contains(x),
{
    let idx = choose|idx: int| 0 <= idx < s.len() && s[idx] == x;
    assert(idx > 0);
    assert(s.drop_first()[idx - 1] == x);
}

} // verus!
