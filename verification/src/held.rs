//! The held-key set, kept as a rank-sorted duplicate-free sequence.
//!
//! The set of currently held keys is stored in a `Vec<Key>` whose
//! elements are in strictly increasing rank order, which both makes
//! membership unique and fixes the deterministic order in which the
//! held keys are displayed.

use vstd::prelude::*;

use crate::keys::Key;
use crate::keys::lemma_rank_injective;

verus! {

/// The ranks of the elements are strictly increasing: sorted in display
/// order and free of duplicates.
pub open spec fn sorted_strict(s: Seq<Key>) -> bool {
    forall|i: int, j: int|
        0 <= i < j < s.len() ==> #[trigger] s[i].rank_spec() < #[trigger] s[j].rank_spec()
}

/// `s` with `k` inserted at its rank position; `s` unchanged when `k` is
/// already present.
pub open spec fn insert_sorted(s: Seq<Key>, k: Key) -> Seq<Key>
    decreases s.len(),
{
    if s.len() == 0 {
        seq![k]
    } else if k.rank_spec() < s[0].rank_spec() {
        seq![k] + s
    } else if k == s[0] {
        s
    } else {
        seq![s[0]] + insert_sorted(s.drop_first(), k)
    }
}

/// `s` with the first occurrence of `k` removed; `s` unchanged when `k`
/// is absent.
pub open spec fn remove_key(s: Seq<Key>, k: Key) -> Seq<Key>
    decreases s.len(),
{
    if s.len() == 0 {
        Seq::empty()
    } else if s[0] == k {
        s.drop_first()
    } else {
        seq![s[0]] + remove_key(s.drop_first(), k)
    }
}

/// Inserting `k` keeps the sequence sorted, makes `k` a member, and
/// leaves membership of every other key unchanged.
pub proof fn lemma_insert_sorted_props(s: Seq<Key>, k: Key)
    requires
        sorted_strict(s),
    ensures
        sorted_strict(insert_sorted(s, k)),
        insert_sorted(s, k).contains(k),
        forall|x: Key| x != k ==> (insert_sorted(s, k).contains(x) <==> s.contains(x)),
    decreases s.len(),
{
    let r = insert_sorted(s, k);
    if s.len() == 0 {
        assert(r.contains(k)) by {
            assert(r[0] == k);
        }
        assert forall|x: Key| x != k implies (r.contains(x) <==> s.contains(x)) by {
            if r.contains(x) {
                let i = choose|i: int| 0 <= i < r.len() && r[i] == x;
                assert(r[0] == k);
            }
        }
    } else if k.rank_spec() < s[0].rank_spec() {
        assert(r.contains(k)) by {
            assert(r[0] == k);
        }
        assert forall|x: Key| x != k implies (r.contains(x) <==> s.contains(x)) by {
            if r.contains(x) {
                let i = choose|i: int| 0 <= i < r.len() && r[i] == x;
                assert(i >= 1);
                assert(s[i - 1] == x);
                assert(s.contains(x));
            }
            if s.contains(x) {
                let i = choose|i: int| 0 <= i < s.len() && s[i] == x;
                assert(r[i + 1] == x);
                assert(r.contains(x));
            }
        }
        assert forall|i: int, j: int| 0 <= i < j < r.len() implies #[trigger] r[i].rank_spec()
            < #[trigger] r[j].rank_spec() by {
            if i == 0 {
                assert(r[0] == k);
                assert(r[j] == s[j - 1]);
                if j - 1 > 0 {
                    assert(s[0].rank_spec() < s[j - 1].rank_spec());
                }
            } else {
                assert(r[i] == s[i - 1]);
                assert(r[j] == s[j - 1]);
            }
        }
    } else if k == s[0] {
        assert(r.contains(k)) by {
            assert(r[0] == k);
        }
    } else {
        if k.rank_spec() == s[0].rank_spec() {
            lemma_rank_injective(k, s[0]);
            assert(false);
        }
        let tail = s.drop_first();
        assert(sorted_strict(tail)) by {
            assert forall|i: int, j: int| 0 <= i < j < tail.len() implies #[trigger] tail[i].rank_spec()
                < #[trigger] tail[j].rank_spec() by {
                assert(tail[i] == s[i + 1]);
                assert(tail[j] == s[j + 1]);
            }
        }
        lemma_insert_sorted_props(tail, k);
        let inner = insert_sorted(tail, k);
        assert(r == seq![s[0]] + inner);
        assert(r.contains(k)) by {
            let i = choose|i: int| 0 <= i < inner.len() && inner[i] == k;
            assert(r[i + 1] == k);
        }
        assert forall|x: Key| x != k implies (r.contains(x) <==> s.contains(x)) by {
            if r.contains(x) {
                let i = choose|i: int| 0 <= i < r.len() && r[i] == x;
                if i == 0 {
                    assert(s[0] == x);
                    assert(s.contains(x));
                } else {
                    assert(inner[i - 1] == x);
                    assert(inner.contains(x));
                    assert(tail.contains(x));
                    let j = choose|j: int| 0 <= j < tail.len() && tail[j] == x;
                    assert(s[j + 1] == x);
                    assert(s.contains(x));
                }
            }
            if s.contains(x) {
                let i = choose|i: int| 0 <= i < s.len() && s[i] == x;
                if i == 0 {
                    assert(r[0] == x);
                    assert(r.contains(x));
                } else {
                    assert(tail[i - 1] == x);
                    assert(tail.contains(x));
                    assert(inner.contains(x));
                    let j = choose|j: int| 0 <= j < inner.len() && inner[j] == x;
                    assert(r[j + 1] == x);
                    assert(r.contains(x));
                }
            }
        }
        assert forall|i: int, j: int| 0 <= i < j < r.len() implies #[trigger] r[i].rank_spec()
            < #[trigger] r[j].rank_spec() by {
            if i == 0 {
                assert(r[0] == s[0]);
                let x = inner[j - 1];
                assert(inner.contains(x)) by {
                    assert(inner[j - 1] == x);
                }
                if x == k {
                    assert(s[0].rank_spec() < k.rank_spec());
                } else {
                    assert(tail.contains(x));
                    let m = choose|m: int| 0 <= m < tail.len() && tail[m] == x;
                    assert(s[m + 1] == x);
                    assert(s[0].rank_spec() < s[m + 1].rank_spec());
                }
            } else {
                assert(r[i] == inner[i - 1]);
                assert(r[j] == inner[j - 1]);
            }
        }
    }
}

/// Removing `k` keeps the sequence sorted, makes `k` a non-member, and
/// leaves membership of every other key unchanged.
pub proof fn lemma_remove_key_props(s: Seq<Key>, k: Key)
    requires
        sorted_strict(s),
    ensures
        sorted_strict(remove_key(s, k)),
        !remove_key(s, k).contains(k),
        forall|x: Key| x != k ==> (remove_key(s, k).contains(x) <==> s.contains(x)),
    decreases s.len(),
{
    let r = remove_key(s, k);
    if s.len() == 0 {
        assert(!r.contains(k)) by {
            if r.contains(k) {
                let i = choose|i: int| 0 <= i < r.len() && r[i] == k;
            }
        }
    } else if s[0] == k {
        let tail = s.drop_first();
        assert(sorted_strict(tail)) by {
            assert forall|i: int, j: int| 0 <= i < j < tail.len() implies #[trigger] tail[i].rank_spec()
                < #[trigger] tail[j].rank_spec() by {
                assert(tail[i] == s[i + 1]);
                assert(tail[j] == s[j + 1]);
            }
        }
        assert(!r.contains(k)) by {
            if r.contains(k) {
                let i = choose|i: int| 0 <= i < tail.len() && tail[i] == k;
                assert(tail[i] == s[i + 1]);
                assert(s[0].rank_spec() < s[i + 1].rank_spec());
            }
        }
        assert forall|x: Key| x != k implies (r.contains(x) <==> s.contains(x)) by {
            if r.contains(x) {
                let i = choose|i: int| 0 <= i < tail.len() && tail[i] == x;
                assert(s[i + 1] == x);
                assert(s.contains(x));
            }
            if s.contains(x) {
                let i = choose|i: int| 0 <= i < s.len() && s[i] == x;
                assert(i >= 1);
                assert(tail[i - 1] == x);
                assert(r.contains(x));
            }
        }
    } else {
        let tail = s.drop_first();
        assert(sorted_strict(tail)) by {
            assert forall|i: int, j: int| 0 <= i < j < tail.len() implies #[trigger] tail[i].rank_spec()
                < #[trigger] tail[j].rank_spec() by {
                assert(tail[i] == s[i + 1]);
                assert(tail[j] == s[j + 1]);
            }
        }
        lemma_remove_key_props(tail, k);
        let inner = remove_key(tail, k);
        assert(r == seq![s[0]] + inner);
        assert(!r.contains(k)) by {
            if r.contains(k) {
                let i = choose|i: int| 0 <= i < r.len() && r[i] == k;
                if i == 0 {
                    assert(s[0] == k);
                } else {
                    assert(inner[i - 1] == k);
                    assert(inner.contains(k));
                }
            }
        }
        assert forall|x: Key| x != k implies (r.contains(x) <==> s.contains(x)) by {
            if r.contains(x) {
                let i = choose|i: int| 0 <= i < r.len() && r[i] == x;
                if i == 0 {
                    assert(s[0] == x);
                    assert(s.contains(x));
                } else {
                    assert(inner[i - 1] == x);
                    assert(inner.contains(x));
                    assert(tail.contains(x));
                    let j = choose|j: int| 0 <= j < tail.len() && tail[j] == x;
                    assert(s[j + 1] == x);
                    assert(s.contains(x));
                }
            }
            if s.contains(x) {
                let i = choose|i: int| 0 <= i < s.len() && s[i] == x;
                if i == 0 {
                    assert(r[0] == x);
                    assert(r.contains(x));
                } else {
                    assert(tail[i - 1] == x);
                    assert(tail.contains(x));
                    assert(inner.contains(x));
                    let j = choose|j: int| 0 <= j < inner.len() && inner[j] == x;
                    assert(r[j + 1] == x);
                    assert(r.contains(x));
                }
            }
        }
        assert forall|i: int, j: int| 0 <= i < j < r.len() implies #[trigger] r[i].rank_spec()
            < #[trigger] r[j].rank_spec() by {
            if i == 0 {
                assert(r[0] == s[0]);
                let x = inner[j - 1];
                assert(inner.contains(x)) by {
                    assert(inner[j - 1] == x);
                }
                assert(x != k);
                assert(tail.contains(x));
                let m = choose|m: int| 0 <= m < tail.len() && tail[m] == x;
                assert(s[m + 1] == x);
                assert(s[0].rank_spec() < s[m + 1].rank_spec());
            } else {
                assert(r[i] == inner[i - 1]);
                assert(r[j] == inner[j - 1]);
            }
        }
    }
}

/// Insert `k` into the rank-sorted vector `held`, keeping it sorted; a
/// key already present is left in place.
#[verifier::loop_isolation(false)]
pub fn insert_held(held: &mut Vec<Key>, k: Key)
    requires
        sorted_strict(old(held)@),
    ensures
        final(held)@ == insert_sorted(old(held)@, k),
        sorted_strict(final(held)@),
{
    proof {
        lemma_insert_sorted_props(old(held)@, k);
    }
    let ghost s0 = old(held)@;
    proof {
        assert(s0.skip(0) =~= s0);
        assert(s0.take(0) + insert_sorted(s0.skip(0), k) =~= insert_sorted(s0, k));
    }
    let kr = k.rank();
    let mut i: usize = 0;
    while i < held.len() && held[i].rank() < kr
        invariant
            held@ == s0,
            0 <= i <= s0.len(),
            insert_sorted(s0, k) == s0.take(i as int) + insert_sorted(s0.skip(i as int), k),
        decreases s0.len() - i,
    {
        proof {
            assert(s0.skip(i as int)[0] == s0[i as int]);
            if k == s0[i as int] {
                assert(k.rank_spec() == s0[i as int].rank_spec());
                assert(false);
            }
            assert(insert_sorted(s0.skip(i as int), k) == seq![s0[i as int]] + insert_sorted(
                s0.skip(i as int).drop_first(),
                k,
            ));
            assert(s0.skip(i as int).drop_first() =~= s0.skip(i as int + 1));
            assert(s0.take(i as int) + seq![s0[i as int]] =~= s0.take(i as int + 1));
            assert(s0.take(i as int + 1) + insert_sorted(s0.skip(i as int + 1), k)
                =~= insert_sorted(s0, k));
        }
        i = i + 1;
    }
    if i == held.len() {
        held.push(k);
        proof {
            assert(s0.skip(i as int) =~= Seq::<Key>::empty());
            assert(insert_sorted(s0.skip(i as int), k) == seq![k]);
            assert(held@ =~= s0.take(i as int) + seq![k]);
        }
    } else if held[i] == k {
        proof {
            assert(s0.skip(i as int)[0] == s0[i as int]);
            assert(insert_sorted(s0.skip(i as int), k) == s0.skip(i as int));
            assert(held@ =~= s0.take(i as int) + s0.skip(i as int));
        }
    } else {
        proof {
            assert(s0.skip(i as int)[0] == s0[i as int]);
            if k.rank_spec() == s0[i as int].rank_spec() {
                lemma_rank_injective(k, s0[i as int]);
                assert(false);
            }
            assert(insert_sorted(s0.skip(i as int), k) == seq![k] + s0.skip(i as int));
        }
        held.insert(i, k);
        proof {
            assert(held@ =~= s0.take(i as int) + (seq![k] + s0.skip(i as int)));
        }
    }
}

/// Remove `k` from the rank-sorted vector `held`; a key not present
/// leaves the vector unchanged.
#[verifier::loop_isolation(false)]
pub fn remove_held(held: &mut Vec<Key>, k: Key)
    requires
        sorted_strict(old(held)@),
    ensures
        final(held)@ == remove_key(old(held)@, k),
        sorted_strict(final(held)@),
{
    proof {
        lemma_remove_key_props(old(held)@, k);
    }
    let ghost s0 = old(held)@;
    proof {
        assert(s0.skip(0) =~= s0);
        assert(s0.take(0) + remove_key(s0.skip(0), k) =~= remove_key(s0, k));
    }
    let mut i: usize = 0;
    while i < held.len()
        invariant
            held@ == s0,
            0 <= i <= s0.len(),
            remove_key(s0, k) == s0.take(i as int) + remove_key(s0.skip(i as int), k),
        decreases s0.len() - i,
    {
        if held[i] == k {
            proof {
                assert(s0.skip(i as int)[0] == s0[i as int]);
                assert(remove_key(s0.skip(i as int), k) == s0.skip(i as int).drop_first());
                assert(s0.skip(i as int).drop_first() =~= s0.skip(i as int + 1));
            }
            held.remove(i);
            proof {
                assert(held@ =~= s0.take(i as int) + s0.skip(i as int + 1));
            }
            return ;
        }
        proof {
            assert(s0.skip(i as int)[0] == s0[i as int]);
            assert(remove_key(s0.skip(i as int), k) == seq![s0[i as int]] + remove_key(
                s0.skip(i as int).drop_first(),
                k,
            ));
            assert(s0.skip(i as int).drop_first() =~= s0.skip(i as int + 1));
            assert(s0.take(i as int) + seq![s0[i as int]] =~= s0.take(i as int + 1));
            assert(s0.take(i as int + 1) + remove_key(s0.skip(i as int + 1), k)
                =~= remove_key(s0, k));
        }
        i = i + 1;
    }
    proof {
        assert(s0.skip(i as int) =~= Seq::<Key>::empty());
        assert(held@ =~= s0.take(i as int) + remove_key(s0.skip(i as int), k));
    }
}

} // verus!
