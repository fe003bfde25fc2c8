//! What holds of display order: it keeps every entry, stands in order,
//! keeps the entries of each driver as they came, and is the only
//! arrangement that does.

use crate::puller::RaceResultView;
use crate::roster::{
    all_ranked, arranged, canonical_order, distinct_drivers, has_ordinal, ordered, ordinal_of,
    picked, picked_upto, ranked_upto, strictly_ordered, with_ordinal, LAST_ORDINAL,
};
use vstd::prelude::*;

verus! {

/// Adding an entry at the end adds it at the end of its driver's entries
/// and leaves those of every other driver alone.
pub proof fn lemma_with_ordinal_push(s: Seq<RaceResultView>, x: RaceResultView, k: nat)
    ensures
        with_ordinal(s.push(x), k) == if ordinal_of(x) == Some(k) {
            with_ordinal(s, k).push(x)
        } else {
            with_ordinal(s, k)
        },
{
    s.lemma_filter_push(x, has_ordinal(k));
}

/// A driver without an entry has no entries.
pub proof fn lemma_with_ordinal_none(s: Seq<RaceResultView>, k: nat)
    requires
        forall|i: int| 0 <= i < s.len() ==> #[trigger] ordinal_of(s[i]) != Some(k),
    ensures
        with_ordinal(s, k) == Seq::<RaceResultView>::empty(),
    decreases s.len(),
{
    if s.len() == 0 {
        reveal(Seq::filter);
    } else {
        let t = s.drop_last();
        assert forall|i: int| 0 <= i < t.len() implies #[trigger] ordinal_of(t[i]) != Some(k) by {
            assert(t[i] == s[i]);
        }
        lemma_with_ordinal_none(t, k);
        lemma_with_ordinal_push(t, s.last(), k);
        assert(t.push(s.last()) =~= s);
    }
}

/// Every entry among those of driver `k` is an entry of `s` and belongs to
/// driver `k`.
pub proof fn lemma_with_ordinal_members(s: Seq<RaceResultView>, k: nat)
    ensures
        forall|i: int|
            0 <= i < with_ordinal(s, k).len() ==> ordinal_of(#[trigger] with_ordinal(s, k)[i])
                == Some(k) && s.contains(with_ordinal(s, k)[i]),
    decreases s.len(),
{
    if s.len() == 0 {
        reveal(Seq::filter);
    } else {
        let t = s.drop_last();
        lemma_with_ordinal_members(t, k);
        lemma_with_ordinal_push(t, s.last(), k);
        assert(t.push(s.last()) =~= s);
        assert forall|i: int| 0 <= i < with_ordinal(s, k).len() implies ordinal_of(
            #[trigger] with_ordinal(s, k)[i],
        ) == Some(k) && s.contains(with_ordinal(s, k)[i]) by {
            let e = with_ordinal(s, k)[i];
            if i < with_ordinal(t, k).len() {
                assert(e == with_ordinal(t, k)[i]);
                assert(t.contains(e));
                let j = choose|j: int| 0 <= j < t.len() && t[j] == e;
                assert(s[j] == e);
            } else {
                assert(e == s.last());
                assert(s[s.len() - 1] == e);
            }
        }
    }
}

/// Entries that all belong to driver `k` are that driver's entries.
pub proof fn lemma_with_ordinal_all(s: Seq<RaceResultView>, k: nat)
    requires
        forall|i: int| 0 <= i < s.len() ==> #[trigger] ordinal_of(s[i]) == Some(k),
    ensures
        with_ordinal(s, k) == s,
    decreases s.len(),
{
    if s.len() == 0 {
        reveal(Seq::filter);
        assert(with_ordinal(s, k) =~= s);
    } else {
        let t = s.drop_last();
        assert forall|i: int| 0 <= i < t.len() implies #[trigger] ordinal_of(t[i]) == Some(k) by {
            assert(t[i] == s[i]);
        }
        lemma_with_ordinal_all(t, k);
        lemma_with_ordinal_push(t, s.last(), k);
        assert(t.push(s.last()) =~= s);
        assert(ordinal_of(s[s.len() - 1]) == Some(k));
    }
}

/// Of no entries, no driver has any.
pub proof fn lemma_ranked_upto_empty(k: nat)
    ensures
        ranked_upto(Seq::<RaceResultView>::empty(), k) == Seq::<RaceResultView>::empty(),
    decreases k,
{
    if k > 0 {
        lemma_ranked_upto_empty((k - 1) as nat);
        lemma_with_ordinal_none(Seq::<RaceResultView>::empty(), k);
        assert(ranked_upto(Seq::<RaceResultView>::empty(), k) =~= Seq::<RaceResultView>::empty());
    }
}

/// An entry of a driver beyond `k`, or of no driver, changes nothing among
/// the entries of the drivers up to `k`.
pub proof fn lemma_ranked_upto_push_other(s: Seq<RaceResultView>, x: RaceResultView, k: nat)
    requires
        forall|j: nat| 1 <= j <= k ==> ordinal_of(x) != Some(j),
    ensures
        ranked_upto(s.push(x), k) == ranked_upto(s, k),
    decreases k,
{
    if k > 0 {
        lemma_ranked_upto_push_other(s, x, (k - 1) as nat);
        lemma_with_ordinal_push(s, x, k);
    }
}

/// One more entry of a driver up to `k` is one more entry among those of
/// the drivers up to `k`, and the rest stays.
pub proof fn lemma_ranked_upto_push_count(s: Seq<RaceResultView>, x: RaceResultView, k: nat)
    requires
        ordinal_of(x) is Some,
        1 <= ordinal_of(x)->0 <= k,
    ensures
        ranked_upto(s.push(x), k).len() == ranked_upto(s, k).len() + 1,
        ranked_upto(s.push(x), k).to_multiset() == ranked_upto(s, k).to_multiset().insert(x),
    decreases k,
{
    broadcast use vstd::seq_lib::lemma_multiset_commutative, vstd::seq_lib::to_multiset_build;

    let m = ordinal_of(x)->0;
    let low = (k - 1) as nat;
    lemma_with_ordinal_push(s, x, k);
    if m == k {
        lemma_ranked_upto_push_other(s, x, low);
        assert(ranked_upto(s.push(x), k) =~= ranked_upto(s, k).push(x));
    } else {
        lemma_ranked_upto_push_count(s, x, low);
        assert(ranked_upto(s.push(x), k).to_multiset() =~= ranked_upto(s, k).to_multiset().insert(
            x,
        ));
    }
}

/// Putting entries in display order keeps every one of them, each as often
/// as it was there.
pub proof fn lemma_canonical_order_permutes(s: Seq<RaceResultView>)
    requires
        all_ranked(s),
    ensures
        canonical_order(s).len() == s.len(),
        canonical_order(s).to_multiset() == s.to_multiset(),
    decreases s.len(),
{
    broadcast use vstd::seq_lib::to_multiset_build;

    if s.len() == 0 {
        lemma_ranked_upto_empty(LAST_ORDINAL as nat);
        assert(s =~= Seq::<RaceResultView>::empty());
    } else {
        let t = s.drop_last();
        let x = s.last();
        assert(t.push(x) =~= s);
        assert forall|i: int| 0 <= i < t.len() implies (#[trigger] ordinal_of(t[i])) is Some by {
            assert(t[i] == s[i]);
        }
        lemma_canonical_order_permutes(t);
        assert(ordinal_of(s[s.len() - 1]) is Some);
        lemma_ranked_upto_push_count(t, x, LAST_ORDINAL as nat);
    }
}

/// Display order holds exactly the entries that it was made of.
pub proof fn lemma_canonical_order_members(s: Seq<RaceResultView>)
    requires
        all_ranked(s),
    ensures
        forall|e: RaceResultView| s.contains(e) <==> canonical_order(s).contains(e),
{
    lemma_canonical_order_permutes(s);
    s.to_multiset_ensures();
    canonical_order(s).to_multiset_ensures();
    assert forall|e: RaceResultView| s.contains(e) <==> canonical_order(s).contains(e) by {
        assert(s.contains(e) <==> s.to_multiset().count(e) > 0);
        assert(canonical_order(s).contains(e) <==> canonical_order(s).to_multiset().count(e) > 0);
    }
}

/// The entries of the drivers up to `k` are entries of `s`, belong to those
/// drivers, and stand in display order.
pub proof fn lemma_ranked_upto_ordered(s: Seq<RaceResultView>, k: nat)
    ensures
        forall|i: int|
            0 <= i < ranked_upto(s, k).len() ==> {
                let e = #[trigger] ranked_upto(s, k)[i];
                &&& ordinal_of(e) is Some
                &&& 1 <= ordinal_of(e)->0 <= k
                &&& s.contains(e)
            },
        ordered(ranked_upto(s, k)),
    decreases k,
{
    if k > 0 {
        let low = ranked_upto(s, (k - 1) as nat);
        let top = with_ordinal(s, k);
        let all = ranked_upto(s, k);
        lemma_ranked_upto_ordered(s, (k - 1) as nat);
        lemma_with_ordinal_members(s, k);
        assert forall|i: int| 0 <= i < all.len() implies {
            let e = #[trigger] all[i];
            &&& ordinal_of(e) is Some
            &&& 1 <= ordinal_of(e)->0 <= k
            &&& s.contains(e)
        } by {
            if i < low.len() {
                assert(all[i] == low[i]);
            } else {
                assert(all[i] == top[i - low.len()]);
            }
        }
        assert forall|i: int, j: int| 0 <= i < j < all.len() implies (#[trigger] ordinal_of(
            all[i],
        ))->0 <= (#[trigger] ordinal_of(all[j]))->0 by {
            if j < low.len() {
                assert(all[i] == low[i]);
                assert(all[j] == low[j]);
            } else {
                assert(all[j] == top[j - low.len()]);
                if i < low.len() {
                    assert(all[i] == low[i]);
                } else {
                    assert(all[i] == top[i - low.len()]);
                }
            }
        }
    }
}

/// Where no driver has two entries, each driver has at most one.
pub proof fn lemma_with_ordinal_single(s: Seq<RaceResultView>, k: nat)
    requires
        distinct_drivers(s),
    ensures
        with_ordinal(s, k).len() <= 1,
    decreases s.len(),
{
    if s.len() == 0 {
        reveal(Seq::filter);
    } else {
        let t = s.drop_last();
        let x = s.last();
        assert(t.push(x) =~= s);
        lemma_with_ordinal_push(t, x, k);
        if ordinal_of(x) == Some(k) {
            assert forall|i: int| 0 <= i < t.len() implies #[trigger] ordinal_of(t[i]) != Some(
                k,
            ) by {
                assert(t[i] == s[i]);
                assert(ordinal_of(s[i]) != ordinal_of(s[s.len() - 1]));
            }
            lemma_with_ordinal_none(t, k);
        } else {
            assert forall|i: int, j: int| 0 <= i < j < t.len() implies #[trigger] ordinal_of(t[i])
                != #[trigger] ordinal_of(t[j]) by {
                assert(t[i] == s[i]);
                assert(t[j] == s[j]);
            }
            lemma_with_ordinal_single(t, k);
        }
    }
}

/// Where no driver has two entries, the entries of the drivers up to `k`
/// stand in display order with no driver twice.
pub proof fn lemma_ranked_upto_strict(s: Seq<RaceResultView>, k: nat)
    requires
        distinct_drivers(s),
    ensures
        strictly_ordered(ranked_upto(s, k)),
    decreases k,
{
    if k > 0 {
        let low = ranked_upto(s, (k - 1) as nat);
        let top = with_ordinal(s, k);
        let all = ranked_upto(s, k);
        lemma_ranked_upto_strict(s, (k - 1) as nat);
        lemma_ranked_upto_ordered(s, (k - 1) as nat);
        lemma_with_ordinal_members(s, k);
        lemma_with_ordinal_single(s, k);
        assert forall|i: int, j: int| 0 <= i < j < all.len() implies (#[trigger] ordinal_of(
            all[i],
        ))->0 < (#[trigger] ordinal_of(all[j]))->0 by {
            if j < low.len() {
                assert(all[i] == low[i]);
                assert(all[j] == low[j]);
            } else {
                assert(all[j] == top[j - low.len()]);
                assert(all[i] == low[i]);
            }
        }
    }
}

/// Beyond the last driver who has an entry, nothing is added.
pub proof fn lemma_ranked_upto_stops(s: Seq<RaceResultView>, m: nat, k: nat)
    requires
        m <= k,
        forall|i: int| 0 <= i < s.len() ==> (#[trigger] ordinal_of(s[i]))->0 <= m,
    ensures
        ranked_upto(s, k) == ranked_upto(s, m),
    decreases k,
{
    if k > m {
        lemma_ranked_upto_stops(s, m, (k - 1) as nat);
        lemma_with_ordinal_none(s, k);
        assert(ranked_upto(s, k) =~= ranked_upto(s, m));
    }
}

/// A display ordinal lies between 1 and the last.
pub proof fn lemma_ordinal_range(e: RaceResultView)
    ensures
        ordinal_of(e) is Some ==> 1 <= ordinal_of(e)->0 <= LAST_ORDINAL,
{
}

/// Entries that stand in display order already are in display order: to
/// order them again changes nothing.
pub proof fn lemma_ordered_is_canonical(s: Seq<RaceResultView>)
    requires
        all_ranked(s),
        ordered(s),
    ensures
        canonical_order(s) == s,
    decreases s.len(),
{
    let last = LAST_ORDINAL as nat;
    if s.len() == 0 {
        lemma_ranked_upto_empty(last);
        assert(s =~= Seq::<RaceResultView>::empty());
    } else {
        let t = s.drop_last();
        let x = s.last();
        assert(t.push(x) =~= s);
        assert(ordinal_of(s[s.len() - 1]) is Some);
        let m = ordinal_of(x)->0;
        lemma_ordinal_range(x);
        assert(all_ranked(t) && ordered(t)) by {
            assert forall|i: int| 0 <= i < t.len() implies (#[trigger] ordinal_of(t[i])) is Some by {
                assert(t[i] == s[i]);
            }
            assert forall|i: int, j: int| 0 <= i < j < t.len() implies (#[trigger] ordinal_of(
                t[i],
            ))->0 <= (#[trigger] ordinal_of(t[j]))->0 by {
                assert(t[i] == s[i]);
                assert(t[j] == s[j]);
            }
        }
        lemma_ordered_is_canonical(t);
        assert(ranked_upto(t, last) == t);
        // No driver beyond x's has an entry, before or after.
        assert(ranked_upto(s, last) == ranked_upto(s, m) && ranked_upto(t, last) == ranked_upto(
            t,
            m,
        )) by {
            assert forall|i: int| 0 <= i < s.len() implies ordinal_of(s[i])->0 <= m by {
                if i < s.len() - 1 {
                    assert(ordinal_of(s[i])->0 <= ordinal_of(s[s.len() - 1])->0);
                }
            }
            assert forall|i: int| 0 <= i < t.len() implies ordinal_of(t[i])->0 <= m by {
                assert(t[i] == s[i]);
            }
            lemma_ranked_upto_stops(s, m, last);
            lemma_ranked_upto_stops(t, m, last);
        }
        // Up to the driver before x's the new entry changes nothing, and
        // among the entries of x's driver it comes last.
        assert(ranked_upto(s, m) == ranked_upto(t, m).push(x)) by {
            lemma_ranked_upto_push_other(t, x, (m - 1) as nat);
            lemma_with_ordinal_push(t, x, m);
            assert(ranked_upto(s, m) =~= ranked_upto(t, m).push(x));
        }
    }
}

/// Among the entries of the drivers up to `j`, those of driver `k` are the
/// ones that `s` has of them, in the same order.
pub proof fn lemma_ranked_upto_stable(s: Seq<RaceResultView>, j: nat, k: nat)
    ensures
        with_ordinal(ranked_upto(s, j), k) == if 1 <= k <= j {
            with_ordinal(s, k)
        } else {
            Seq::<RaceResultView>::empty()
        },
    decreases j,
{
    if j == 0 {
        lemma_with_ordinal_none(ranked_upto(s, j), k);
    } else {
        let low = ranked_upto(s, (j - 1) as nat);
        let top = with_ordinal(s, j);
        lemma_ranked_upto_stable(s, (j - 1) as nat, k);
        lemma_with_ordinal_members(s, j);
        if k == j {
            lemma_with_ordinal_all(top, k);
        } else {
            lemma_with_ordinal_none(top, k);
        }
        Seq::filter_distributes_over_add(low, top, has_ordinal(k));
        assert(with_ordinal(low + top, k) =~= with_ordinal(low, k) + with_ordinal(top, k));
    }
}

/// Display order keeps the entries of each driver in the order in which
/// they came.
pub proof fn lemma_canonical_order_stable(s: Seq<RaceResultView>, k: nat)
    requires
        1 <= k <= LAST_ORDINAL,
    ensures
        with_ordinal(canonical_order(s), k) == with_ordinal(s, k),
{
    lemma_ranked_upto_stable(s, LAST_ORDINAL as nat, k);
}

proof fn lemma_ranked_upto_same(s: Seq<RaceResultView>, t: Seq<RaceResultView>, j: nat)
    requires
        j <= LAST_ORDINAL,
        forall|k: nat| 1 <= k <= LAST_ORDINAL ==> with_ordinal(t, k) == with_ordinal(s, k),
    ensures
        ranked_upto(t, j) == ranked_upto(s, j),
    decreases j,
{
    if j > 0 {
        lemma_ranked_upto_same(s, t, (j - 1) as nat);
    }
}

/// Display order is the only arrangement of the entries that stands in
/// display order and keeps the entries of each driver in the order in which
/// they came.
pub proof fn lemma_canonical_order_unique(s: Seq<RaceResultView>, t: Seq<RaceResultView>)
    requires
        all_ranked(t),
        ordered(t),
        forall|k: nat| 1 <= k <= LAST_ORDINAL ==> with_ordinal(t, k) == with_ordinal(s, k),
    ensures
        t == canonical_order(s),
{
    lemma_ordered_is_canonical(t);
    lemma_ranked_upto_same(s, t, LAST_ORDINAL as nat);
}

proof fn lemma_picked_is_with_ordinal(s: Seq<RaceResultView>, keys: Seq<u32>, k: nat)
    requires
        keys.len() == s.len(),
        forall|i: int| 0 <= i < s.len() ==> ordinal_of(#[trigger] s[i]) == Some(keys[i] as nat),
    ensures
        picked(s, keys, k) == with_ordinal(s, k),
    decreases s.len(),
{
    if s.len() == 0 {
        reveal(Seq::filter);
    } else {
        let t = s.drop_last();
        let tk = keys.drop_last();
        assert forall|i: int| 0 <= i < t.len() implies ordinal_of(#[trigger] t[i]) == Some(
            tk[i] as nat,
        ) by {
            assert(t[i] == s[i]);
        }
        lemma_picked_is_with_ordinal(t, tk, k);
        lemma_with_ordinal_push(t, s.last(), k);
        assert(t.push(s.last()) =~= s);
        assert(ordinal_of(s[s.len() - 1]) == Some(keys[s.len() - 1] as nat));
    }
}

proof fn lemma_picked_upto_is_ranked(s: Seq<RaceResultView>, keys: Seq<u32>, k: nat)
    requires
        keys.len() == s.len(),
        forall|i: int| 0 <= i < s.len() ==> ordinal_of(#[trigger] s[i]) == Some(keys[i] as nat),
    ensures
        picked_upto(s, keys, k) == ranked_upto(s, k),
    decreases k,
{
    if k > 0 {
        lemma_picked_upto_is_ranked(s, keys, (k - 1) as nat);
        lemma_picked_is_with_ordinal(s, keys, k);
    }
}

/// Where the key of each entry is the display ordinal of its driver, to
/// arrange the entries by key is to put them in display order.
pub proof fn lemma_arranged_is_canonical(s: Seq<RaceResultView>, keys: Seq<u32>)
    requires
        keys.len() == s.len(),
        forall|i: int| 0 <= i < s.len() ==> ordinal_of(#[trigger] s[i]) == Some(keys[i] as nat),
    ensures
        arranged(s, keys) == canonical_order(s),
{
    lemma_picked_upto_is_ranked(s, keys, LAST_ORDINAL as nat);
}

} // verus!
