//! What holds across the operations of the index.
use crate::fstcalls::{lists_entries, map_of_bytes};
use crate::keyorder::{
    all_before, lemma_increasing_pairs_unique, lemma_increasing_prefix, lemma_pairs_map,
    pair_keys, pairs_to_map, strictly_increasing,
};
use crate::fstcalls::lists_keys;
use crate::map::FstMap;
use crate::set::FstSet;
use vstd::prelude::*;

verus! {

/// Feeding a builder pairs in strictly increasing key order: each insertion
/// comes after every key recorded before it (so each is accepted), and the
/// result maps every inserted key to its own value and holds no other key.
pub proof fn law_sorted_build_lookup(pairs: Seq<(Seq<u8>, u64)>)
    requires
        strictly_increasing(pair_keys(pairs)),
    ensures
        forall|i: int|
            0 <= i < pairs.len() ==> all_before(
                #[trigger] pairs_to_map(pairs.take(i)).dom(),
                pairs[i].0,
            ),
        forall|i: int|
            0 <= i < pairs.len() ==> pairs_to_map(pairs.take(i + 1)) == #[trigger] pairs_to_map(
                pairs.take(i),
            ).insert(pairs[i].0, pairs[i].1),
        forall|i: int|
            0 <= i < pairs.len() ==> pairs_to_map(pairs).contains_key(#[trigger] pairs[i].0)
                && pairs_to_map(pairs)[pairs[i].0] == pairs[i].1,
        forall|k: Seq<u8>|
            #[trigger] pairs_to_map(pairs).contains_key(k) <==> pair_keys(pairs).contains(k),
{
    lemma_pairs_map(pairs);
    assert forall|i: int| 0 <= i < pairs.len() implies all_before(
        #[trigger] pairs_to_map(pairs.take(i)).dom(),
        pairs[i].0,
    ) by {
        let p = pairs.take(i);
        lemma_increasing_prefix(pairs, i);
        assert(p =~= pairs.subrange(0, i));
        lemma_pairs_map(p);
        assert forall|j: Seq<u8>| pairs_to_map(p).dom().contains(j) implies crate::keyorder::lex_lt(
            j,
            pairs[i].0,
        ) by {
            assert(pair_keys(p).to_set().contains(j));
            let m = choose|m: int| 0 <= m < pair_keys(p).len() && pair_keys(p)[m] == j;
            assert(pair_keys(pairs)[m] == j);
            assert(pair_keys(pairs)[i] == pairs[i].0);
        }
    }
    assert forall|i: int| 0 <= i < pairs.len() implies pairs_to_map(pairs.take(i + 1))
        == #[trigger] pairs_to_map(pairs.take(i)).insert(pairs[i].0, pairs[i].1) by {
        assert(pairs.take(i + 1).drop_last() =~= pairs.take(i));
    }
    assert forall|k: Seq<u8>| #[trigger]
        pairs_to_map(pairs).contains_key(k) <==> pair_keys(pairs).contains(k) by {
        assert(pairs_to_map(pairs).dom().contains(k) == pair_keys(pairs).to_set().contains(k));
    }
}

/// Enumerating what was built from strictly increasing pairs gives back
/// exactly those pairs, in the same order.
pub proof fn law_round_trip(pairs: Seq<(Seq<u8>, u64)>, listing: Seq<(Seq<u8>, u64)>)
    requires
        strictly_increasing(pair_keys(pairs)),
        lists_entries(listing, pairs_to_map(pairs)),
    ensures
        listing == pairs,
{
    lemma_increasing_pairs_unique(listing, pairs);
}

/// A map holding what a builder recorded from strictly increasing pairs (the
/// builder's `insert` and `finish` contracts give `m@ == pairs_to_map(pairs)`)
/// answers every lookup with the inserted value or absence, and enumerates
/// exactly those pairs in the same order.
pub proof fn law_built_map_answers(pairs: Seq<(Seq<u8>, u64)>, m: FstMap)
    requires
        strictly_increasing(pair_keys(pairs)),
        m@ == pairs_to_map(pairs),
    ensures
        forall|i: int|
            0 <= i < pairs.len() ==> m@.contains_key(#[trigger] pairs[i].0) && m@[pairs[i].0]
                == pairs[i].1,
        forall|k: Seq<u8>| #[trigger] m@.contains_key(k) <==> pair_keys(pairs).contains(k),
        m@.len() == pairs.len(),
        forall|l: Seq<(Seq<u8>, u64)>| lists_entries(l, m@) ==> l == pairs,
{
    law_sorted_build_lookup(pairs);
    lemma_pairs_map(pairs);
    assert forall|l: Seq<(Seq<u8>, u64)>| lists_entries(l, m@) implies l == pairs by {
        law_round_trip(pairs, l);
    }
}

/// Keys paired with a zero value.
pub open spec fn zero_pairs(ks: Seq<Seq<u8>>) -> Seq<(Seq<u8>, u64)> {
    ks.map_values(|k: Seq<u8>| (k, 0u64))
}

proof fn lemma_zero_pairs(ks: Seq<Seq<u8>>)
    ensures
        pair_keys(zero_pairs(ks)) == ks,
        forall|k: Seq<u8>| #[trigger] pairs_to_map(zero_pairs(ks)).contains_key(k) ==> pairs_to_map(zero_pairs(ks))[k] == 0,
        pairs_to_map(zero_pairs(ks)).dom() == ks.to_set(),
    decreases ks.len(),
{
    assert(pair_keys(zero_pairs(ks)) =~= ks);
    if ks.len() > 0 {
        lemma_zero_pairs(ks.drop_last());
        assert(zero_pairs(ks).drop_last() =~= zero_pairs(ks.drop_last()));
        assert(ks =~= ks.drop_last().push(ks.last()));
        assert(ks.to_set() =~= ks.drop_last().to_set().insert(ks.last())) by {
            assert forall|k: Seq<u8>| ks.to_set().contains(k) implies ks.drop_last().to_set().insert(ks.last()).contains(k) by {
                let i = choose|i: int| 0 <= i < ks.len() && ks[i] == k;
                if i < ks.len() - 1 {
                    assert(ks.drop_last()[i] == k);
                }
            }
            assert forall|k: Seq<u8>| ks.drop_last().to_set().insert(ks.last()).contains(k) implies ks.to_set().contains(k) by {
                if k != ks.last() {
                    let i = choose|i: int| 0 <= i < ks.drop_last().len() && ks.drop_last()[i] == k;
                    assert(ks[i] == k);
                } else {
                    assert(ks[ks.len() - 1] == k);
                }
            }
        }
        assert(pairs_to_map(zero_pairs(ks)).dom() =~= ks.to_set());
    } else {
        assert(pairs_to_map(zero_pairs(ks)).dom() =~= ks.to_set());
    }
}

/// A set holding what a builder recorded from strictly increasing keys (the
/// builder's `insert` and `finish` contracts give `s@ == keys.to_set()`)
/// holds exactly those keys and enumerates them in the same order.
pub proof fn law_built_set_answers(keys: Seq<Seq<u8>>, s: FstSet)
    requires
        strictly_increasing(keys),
        s@ == keys.to_set(),
    ensures
        forall|k: Seq<u8>| #[trigger] s@.contains(k) <==> keys.contains(k),
        s@.len() == keys.len(),
        forall|l: Seq<Seq<u8>>| lists_keys(l, s@) ==> l == keys,
{
    lemma_zero_pairs(keys);
    lemma_pairs_map(zero_pairs(keys));
    assert forall|l: Seq<Seq<u8>>| lists_keys(l, s@) implies l == keys by {
        lemma_zero_pairs(l);
        assert(pairs_to_map(zero_pairs(l)) =~= pairs_to_map(zero_pairs(keys)));
        lemma_increasing_pairs_unique(zero_pairs(l), zero_pairs(keys));
        assert(pair_keys(zero_pairs(l)) == pair_keys(zero_pairs(keys)));
    }
}

/// Two maps opened from the same buffer hold the same entries, so they agree
/// on length, on every lookup, and on their full enumeration.
pub proof fn law_reopen_idempotent(bytes: Seq<u8>, a: FstMap, b: FstMap)
    requires
        a@ == map_of_bytes(bytes),
        b@ == map_of_bytes(bytes),
    ensures
        a@.len() == b@.len(),
        forall|k: Seq<u8>| #[trigger] a@.contains_key(k) == b@.contains_key(k),
        forall|k: Seq<u8>| a@.contains_key(k) ==> #[trigger] a@[k] == b@[k],
        forall|la: Seq<(Seq<u8>, u64)>, lb: Seq<(Seq<u8>, u64)>|
            lists_entries(la, a@) && lists_entries(lb, b@) ==> la == lb,
{
    assert forall|la: Seq<(Seq<u8>, u64)>, lb: Seq<(Seq<u8>, u64)>|
        lists_entries(la, a@) && lists_entries(lb, b@) implies la == lb by {
        lemma_increasing_pairs_unique(la, lb);
    }
}

/// The membership tests agree with the set operations: a subset leaves an
/// empty difference, a superset an empty reverse difference, and disjoint
/// sets an empty intersection.
pub proof fn law_set_tests_agree(a: Set<Seq<u8>>, b: Set<Seq<u8>>)
    ensures
        a.subset_of(b) <==> a.difference(b) == Set::<Seq<u8>>::empty(),
        b.subset_of(a) <==> b.difference(a) == Set::<Seq<u8>>::empty(),
        a.disjoint(b) <==> a.intersect(b) == Set::<Seq<u8>>::empty(),
{
    if a.difference(b) == Set::<Seq<u8>>::empty() {
        assert forall|k: Seq<u8>| a.contains(k) implies b.contains(k) by {
            assert(!a.difference(b).contains(k));
        }
    }
    if a.subset_of(b) {
        assert(a.difference(b) =~= Set::<Seq<u8>>::empty());
    }
    if b.difference(a) == Set::<Seq<u8>>::empty() {
        assert forall|k: Seq<u8>| b.contains(k) implies a.contains(k) by {
            assert(!b.difference(a).contains(k));
        }
    }
    if b.subset_of(a) {
        assert(b.difference(a) =~= Set::<Seq<u8>>::empty());
    }
    if a.intersect(b) == Set::<Seq<u8>>::empty() {
        assert forall|k: Seq<u8>| a.contains(k) implies !b.contains(k) by {
            assert(!a.intersect(b).contains(k));
        }
    }
    if a.disjoint(b) {
        assert(a.intersect(b) =~= Set::<Seq<u8>>::empty());
    }
}

} // verus!
