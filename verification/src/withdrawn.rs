//! What holds of filling in the withdrawn, and of resolving as a whole:
//! nothing is lost, the result stands in display order, and to resolve it
//! again changes nothing.

use crate::display_order::{
    lemma_canonical_order_members, lemma_canonical_order_permutes, lemma_ordered_is_canonical,
    lemma_ranked_upto_ordered, lemma_ranked_upto_strict,
};
use crate::puller::RaceResultView;
use crate::roster::{
    all_ranked, backfilled, distinct_drivers, is_present, ordered, ordinal_of, ordinal_of_name,
    resolved, strictly_ordered, LAST_ORDINAL,
};
use crate::text::{deunicode_of, lookup_key};
use vstd::prelude::*;

verus! {

/// Filling in the withdrawn only adds entries at the end: the entries that
/// were there stay where they were.
pub proof fn lemma_backfilled_extends(s: Seq<RaceResultView>, withdrawn: Seq<Seq<char>>)
    ensures
        backfilled(s, withdrawn).len() >= s.len(),
        backfilled(s, withdrawn).take(s.len() as int) == s,
    decreases withdrawn.len(),
{
    if withdrawn.len() == 0 {
        assert(s.take(s.len() as int) =~= s);
    } else {
        let sofar = backfilled(s, withdrawn.drop_last());
        lemma_backfilled_extends(s, withdrawn.drop_last());
        assert(sofar.push(RaceResultView::retired(withdrawn.last())).take(s.len() as int)
            =~= sofar.take(s.len() as int));
    }
}

/// Every entry that was filled in is the retired entry of one of the
/// withdrawn.
pub proof fn lemma_backfilled_entries(s: Seq<RaceResultView>, withdrawn: Seq<Seq<char>>, i: int)
    requires
        s.len() <= i < backfilled(s, withdrawn).len(),
    ensures
        exists|j: int|
            0 <= j < withdrawn.len() && backfilled(s, withdrawn)[i] == RaceResultView::retired(
                #[trigger] withdrawn[j],
            ),
    decreases withdrawn.len(),
{
    if withdrawn.len() > 0 {
        let rest = withdrawn.drop_last();
        let sofar = backfilled(s, rest);
        if i < sofar.len() {
            lemma_backfilled_entries(s, rest, i);
            let j = choose|j: int|
                0 <= j < rest.len() && sofar[i] == RaceResultView::retired(#[trigger] rest[j]);
            assert(rest[j] == withdrawn[j]);
        } else {
            assert(backfilled(s, withdrawn)[i] == RaceResultView::retired(
                withdrawn[withdrawn.len() - 1],
            ));
        }
    }
}

/// An entry that is there is still there after more entries were added.
proof fn lemma_present_stays(s: Seq<RaceResultView>, x: RaceResultView, driver: Seq<char>)
    requires
        is_present(s, driver),
    ensures
        is_present(s.push(x), driver),
{
    let i = choose|i: int|
        0 <= i < s.len() && lookup_key((#[trigger] s[i]).driver.name()) == lookup_key(
            deunicode_of(driver),
        );
    assert(s.push(x)[i] == s[i]);
}

/// After the withdrawn were filled in, each of them has an entry.
pub proof fn lemma_backfilled_holds_all(
    s: Seq<RaceResultView>,
    withdrawn: Seq<Seq<char>>,
    j: int,
)
    requires
        0 <= j < withdrawn.len(),
    ensures
        is_present(backfilled(s, withdrawn), withdrawn[j]),
    decreases withdrawn.len(),
{
    let sofar = backfilled(s, withdrawn.drop_last());
    let x = RaceResultView::retired(withdrawn.last());
    if j == withdrawn.len() - 1 {
        if !is_present(sofar, withdrawn.last()) {
            assert(sofar.push(x)[sofar.len() as int] == x);
        }
    } else {
        lemma_backfilled_holds_all(s, withdrawn.drop_last(), j);
        assert(withdrawn.drop_last()[j] == withdrawn[j]);
        if !is_present(sofar, withdrawn.last()) {
            lemma_present_stays(sofar, x, withdrawn[j]);
        }
    }
}

/// Where each of the withdrawn has an entry already, nothing is filled in.
pub proof fn lemma_backfilled_adds_nothing(s: Seq<RaceResultView>, withdrawn: Seq<Seq<char>>)
    requires
        forall|j: int| 0 <= j < withdrawn.len() ==> is_present(s, #[trigger] withdrawn[j]),
    ensures
        backfilled(s, withdrawn) == s,
    decreases withdrawn.len(),
{
    if withdrawn.len() > 0 {
        let rest = withdrawn.drop_last();
        assert forall|j: int| 0 <= j < rest.len() implies is_present(s, #[trigger] rest[j]) by {
            assert(rest[j] == withdrawn[j]);
        }
        lemma_backfilled_adds_nothing(s, rest);
        assert(is_present(s, withdrawn[withdrawn.len() - 1]));
    }
}

/// Two display names with the same place in display order are looked up
/// under one key.
pub proof fn lemma_ordinal_names(a: Seq<char>, b: Seq<char>)
    requires
        ordinal_of_name(a) is Some,
        ordinal_of_name(a) == ordinal_of_name(b),
    ensures
        lookup_key(a) == lookup_key(b),
{
}

/// Filling in the withdrawn gives no driver a second entry.
pub proof fn lemma_backfilled_distinct(s: Seq<RaceResultView>, withdrawn: Seq<Seq<char>>)
    requires
        distinct_drivers(s),
        all_ranked(backfilled(s, withdrawn)),
    ensures
        distinct_drivers(backfilled(s, withdrawn)),
    decreases withdrawn.len(),
{
    if withdrawn.len() > 0 {
        let sofar = backfilled(s, withdrawn.drop_last());
        let x = RaceResultView::retired(withdrawn.last());
        let all = backfilled(s, withdrawn);
        if is_present(sofar, withdrawn.last()) {
            lemma_backfilled_distinct(s, withdrawn.drop_last());
        } else {
            assert forall|i: int| 0 <= i < sofar.len() implies (#[trigger] ordinal_of(
                sofar[i],
            )) is Some by {
                assert(all[i] == sofar[i]);
            }
            lemma_backfilled_distinct(s, withdrawn.drop_last());
            assert forall|i: int, j: int| 0 <= i < j < all.len() implies #[trigger] ordinal_of(
                all[i],
            ) != #[trigger] ordinal_of(all[j]) by {
                assert(all[i] == sofar[i]);
                if j < sofar.len() {
                    assert(all[j] == sofar[j]);
                } else {
                    assert(all[j] == x);
                    assert(ordinal_of(all[i]) is Some);
                    if ordinal_of(all[i]) == ordinal_of(x) {
                        lemma_ordinal_names(sofar[i].driver.name(), x.driver.name());
                        assert(lookup_key(sofar[i].driver.name()) == lookup_key(
                            deunicode_of(withdrawn.last()),
                        ));
                    }
                }
            }
        }
    }
}

/// Where each of the withdrawn has a place in display order, to fill them
/// in brings in no driver without one.
pub proof fn lemma_backfilled_ranked(s: Seq<RaceResultView>, withdrawn: Seq<Seq<char>>)
    requires
        forall|j: int|
            0 <= j < withdrawn.len() ==> ordinal_of_name(deunicode_of(#[trigger] withdrawn[j]))
                is Some,
    ensures
        all_ranked(backfilled(s, withdrawn)) == all_ranked(s),
{
    let filled = backfilled(s, withdrawn);
    lemma_backfilled_extends(s, withdrawn);
    if all_ranked(s) {
        assert forall|i: int| 0 <= i < filled.len() implies (#[trigger] ordinal_of(
            filled[i],
        )) is Some by {
            if i < s.len() {
                assert(filled.take(s.len() as int)[i] == s[i]);
            } else {
                lemma_backfilled_entries(s, withdrawn, i);
            }
        }
    }
    if all_ranked(filled) {
        assert forall|i: int| 0 <= i < s.len() implies (#[trigger] ordinal_of(s[i])) is Some by {
            assert(filled.take(s.len() as int)[i] == filled[i]);
        }
    }
}

/// What the resolver gives holds every entry that it was given, as often as
/// it was given, and stands in display order. Where no driver had two
/// entries, no driver has two afterwards.
pub proof fn lemma_resolved_keeps_and_orders(s: Seq<RaceResultView>, withdrawn: Seq<Seq<char>>)
    requires
        all_ranked(backfilled(s, withdrawn)),
    ensures
        resolved(s, withdrawn).len() >= s.len(),
        s.to_multiset().subset_of(resolved(s, withdrawn).to_multiset()),
        all_ranked(resolved(s, withdrawn)),
        ordered(resolved(s, withdrawn)),
        distinct_drivers(s) ==> strictly_ordered(resolved(s, withdrawn)),
{
    let filled = backfilled(s, withdrawn);
    lemma_backfilled_extends(s, withdrawn);
    lemma_canonical_order_permutes(filled);
    lemma_ranked_upto_ordered(filled, LAST_ORDINAL as nat);
    assert(s.to_multiset().subset_of(filled.to_multiset())) by {
        let rest = filled.skip(s.len() as int);
        assert(filled =~= s + rest);
        vstd::seq_lib::lemma_multiset_commutative(s, rest);
    }
    if distinct_drivers(s) {
        lemma_backfilled_distinct(s, withdrawn);
        lemma_ranked_upto_strict(filled, LAST_ORDINAL as nat);
    }
}

/// In what the resolver gives, each of the withdrawn has an entry.
pub proof fn lemma_resolved_holds_withdrawn(
    s: Seq<RaceResultView>,
    withdrawn: Seq<Seq<char>>,
    j: int,
)
    requires
        all_ranked(backfilled(s, withdrawn)),
        0 <= j < withdrawn.len(),
    ensures
        is_present(resolved(s, withdrawn), withdrawn[j]),
{
    let filled = backfilled(s, withdrawn);
    let out = resolved(s, withdrawn);
    lemma_backfilled_holds_all(s, withdrawn, j);
    let i = choose|i: int|
        0 <= i < filled.len() && lookup_key((#[trigger] filled[i]).driver.name()) == lookup_key(
            deunicode_of(withdrawn[j]),
        );
    lemma_canonical_order_members(filled);
    assert(filled.contains(filled[i]));
    let k = choose|k: int| 0 <= k < out.len() && out[k] == filled[i];
    assert(lookup_key(out[k].driver.name()) == lookup_key(deunicode_of(withdrawn[j])));
}

/// To resolve what was resolved changes nothing.
pub proof fn lemma_resolved_idempotent(s: Seq<RaceResultView>, withdrawn: Seq<Seq<char>>)
    requires
        all_ranked(backfilled(s, withdrawn)),
    ensures
        backfilled(resolved(s, withdrawn), withdrawn) == resolved(s, withdrawn),
        resolved(resolved(s, withdrawn), withdrawn) == resolved(s, withdrawn),
{
    let out = resolved(s, withdrawn);
    assert forall|j: int| 0 <= j < withdrawn.len() implies is_present(
        out,
        #[trigger] withdrawn[j],
    ) by {
        lemma_resolved_holds_withdrawn(s, withdrawn, j);
    }
    lemma_backfilled_adds_nothing(out, withdrawn);
    lemma_resolved_keeps_and_orders(s, withdrawn);
    lemma_ordered_is_canonical(out);
}

} // verus!
