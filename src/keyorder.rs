use vstd::prelude::*;

verus! {

/// Byte-lexicographic strict order on keys.
pub open spec fn lex_lt(a: Seq<u8>, b: Seq<u8>) -> bool
    decreases a.len(),
{
    if b.len() == 0 {
        false
    } else if a.len() == 0 {
        true
    } else if a[0] != b[0] {
        a[0] < b[0]
    } else {
        lex_lt(a.drop_first(), b.drop_first())
    }
}

/// Every key comes strictly before the next one.
pub open spec fn strictly_increasing(ks: Seq<Seq<u8>>) -> bool {
    forall|i: int, j: int| 0 <= i < j < ks.len() ==> lex_lt(#[trigger] ks[i], #[trigger] ks[j])
}

/// The keys of a sequence of (key, value) pairs.
pub open spec fn pair_keys(ps: Seq<(Seq<u8>, u64)>) -> Seq<Seq<u8>> {
    ps.map_values(|p: (Seq<u8>, u64)| p.0)
}

/// The map that results from recording the pairs in order.
pub open spec fn pairs_to_map(ps: Seq<(Seq<u8>, u64)>) -> Map<Seq<u8>, u64>
    decreases ps.len(),
{
    if ps.len() == 0 {
        Map::empty()
    } else {
        pairs_to_map(ps.drop_last()).insert(ps.last().0, ps.last().1)
    }
}

/// Every key of `keys` comes strictly before `k`.
pub open spec fn all_before(keys: Set<Seq<u8>>, k: Seq<u8>) -> bool {
    forall|j: Seq<u8>| keys.contains(j) ==> lex_lt(j, k)
}

/// Every key of `keys` is `k` or comes before it.
pub open spec fn all_at_most(keys: Set<Seq<u8>>, k: Seq<u8>) -> bool {
    forall|j: Seq<u8>| keys.contains(j) ==> j == k || lex_lt(j, k)
}

pub proof fn lemma_lex_irreflexive(a: Seq<u8>)
    ensures
        !lex_lt(a, a),
    decreases a.len(),
{
    if a.len() > 0 {
        lemma_lex_irreflexive(a.drop_first());
    }
}

pub proof fn lemma_lex_transitive(a: Seq<u8>, b: Seq<u8>, c: Seq<u8>)
    requires
        lex_lt(a, b),
        lex_lt(b, c),
    ensures
        lex_lt(a, c),
    decreases a.len(),
{
    if a.len() > 0 && a[0] == b[0] && b[0] == c[0] {
        lemma_lex_transitive(a.drop_first(), b.drop_first(), c.drop_first());
    }
}

pub proof fn lemma_lex_total(a: Seq<u8>, b: Seq<u8>)
    ensures
        a == b || lex_lt(a, b) || lex_lt(b, a),
    decreases a.len(),
{
    if a.len() > 0 && b.len() > 0 && a[0] == b[0] {
        lemma_lex_total(a.drop_first(), b.drop_first());
        if a.drop_first() == b.drop_first() {
            assert(a =~= seq![a[0]] + a.drop_first());
            assert(b =~= seq![b[0]] + b.drop_first());
        }
    } else if a.len() == 0 && b.len() == 0 {
        assert(a =~= b);
    }
}

pub proof fn lemma_lex_asymmetric(a: Seq<u8>, b: Seq<u8>)
    requires
        lex_lt(a, b),
    ensures
        !lex_lt(b, a),
{
    if lex_lt(b, a) {
        lemma_lex_transitive(a, b, a);
        lemma_lex_irreflexive(a);
    }
}

pub proof fn lemma_increasing_prefix(ps: Seq<(Seq<u8>, u64)>, n: int)
    requires
        strictly_increasing(pair_keys(ps)),
        0 <= n <= ps.len(),
    ensures
        strictly_increasing(pair_keys(ps.subrange(0, n))),
{
    let q = ps.subrange(0, n);
    assert forall|i: int, j: int| 0 <= i < j < q.len() implies lex_lt(
        #[trigger] pair_keys(q)[i],
        #[trigger] pair_keys(q)[j],
    ) by {
        assert(pair_keys(q)[i] == pair_keys(ps)[i]);
        assert(pair_keys(q)[j] == pair_keys(ps)[j]);
    }
}

/// Recording strictly increasing pairs keeps each pair: every key maps to its
/// own value, and nothing else is present.
pub proof fn lemma_pairs_map(ps: Seq<(Seq<u8>, u64)>)
    requires
        strictly_increasing(pair_keys(ps)),
    ensures
        pairs_to_map(ps).dom().finite(),
        pairs_to_map(ps).dom().len() == ps.len(),
        pairs_to_map(ps).dom() == pair_keys(ps).to_set(),
        forall|i: int|
            0 <= i < ps.len() ==> pairs_to_map(ps).contains_key(#[trigger] ps[i].0)
                && pairs_to_map(ps)[ps[i].0] == ps[i].1,
    decreases ps.len(),
{
    if ps.len() > 0 {
        let p = ps.drop_last();
        let n = ps.len() - 1;
        lemma_increasing_prefix(ps, n);
        assert(p =~= ps.subrange(0, n));
        lemma_pairs_map(p);
        let last = ps.last();
        assert(pair_keys(ps)[n] == last.0);
        if pairs_to_map(p).contains_key(last.0) {
            assert(pair_keys(p).to_set().contains(last.0));
            let i = choose|i: int| 0 <= i < pair_keys(p).len() && pair_keys(p)[i] == last.0;
            assert(pair_keys(ps)[i] == pair_keys(p)[i]);
            lemma_lex_irreflexive(last.0);
        }
        assert(pair_keys(ps) =~= pair_keys(p).push(last.0));
        assert forall|k: Seq<u8>| pair_keys(ps).to_set().contains(k) implies pairs_to_map(
            ps,
        ).dom().contains(k) by {
            let i = choose|i: int| 0 <= i < pair_keys(ps).len() && pair_keys(ps)[i] == k;
            if i < n {
                assert(pair_keys(p)[i] == k);
                assert(pair_keys(p).to_set().contains(k));
            }
        }
        assert forall|k: Seq<u8>| pairs_to_map(ps).dom().contains(k) implies pair_keys(
            ps,
        ).to_set().contains(k) by {
            if k != last.0 {
                assert(pair_keys(p).to_set().contains(k));
                let i = choose|i: int| 0 <= i < pair_keys(p).len() && pair_keys(p)[i] == k;
                assert(pair_keys(ps)[i] == k);
            } else {
                assert(pair_keys(ps)[n] == k);
            }
        }
        assert(pairs_to_map(ps).dom() =~= pair_keys(ps).to_set());
        assert forall|i: int| 0 <= i < ps.len() implies pairs_to_map(ps).contains_key(
            #[trigger] ps[i].0,
        ) && pairs_to_map(ps)[ps[i].0] == ps[i].1 by {
            if i < n {
                assert(p[i] == ps[i]);
                assert(pair_keys(ps)[i] == ps[i].0);
                lemma_lex_irreflexive(last.0);
                assert(ps[i].0 != last.0);
            }
        }
    }
}

/// Two strictly increasing pair sequences that record the same map are equal.
pub proof fn lemma_increasing_pairs_unique(ps: Seq<(Seq<u8>, u64)>, qs: Seq<(Seq<u8>, u64)>)
    requires
        strictly_increasing(pair_keys(ps)),
        strictly_increasing(pair_keys(qs)),
        pairs_to_map(ps) == pairs_to_map(qs),
    ensures
        ps == qs,
    decreases ps.len(),
{
    lemma_pairs_map(ps);
    lemma_pairs_map(qs);
    if ps.len() == 0 || qs.len() == 0 {
        assert(ps.len() == qs.len());
        assert(ps =~= qs);
    } else {
        let a = ps.last();
        let b = qs.last();
        let np = ps.len() - 1;
        let nq = qs.len() - 1;
        assert(ps[np] == a);
        assert(qs[nq] == b);
        assert(pairs_to_map(ps).contains_key(b.0));
        assert(pair_keys(ps).to_set().contains(b.0));
        let i = choose|i: int| 0 <= i < pair_keys(ps).len() && pair_keys(ps)[i] == b.0;
        assert(pairs_to_map(qs).contains_key(a.0));
        assert(pair_keys(qs).to_set().contains(a.0));
        let j = choose|j: int| 0 <= j < pair_keys(qs).len() && pair_keys(qs)[j] == a.0;
        assert(pair_keys(ps)[np] == a.0);
        assert(pair_keys(qs)[nq] == b.0);
        if a.0 != b.0 {
            assert(i < np);
            assert(j < nq);
            assert(lex_lt(b.0, a.0));
            assert(lex_lt(a.0, b.0));
            lemma_lex_asymmetric(a.0, b.0);
        }
        assert(a.1 == b.1);
        let p = ps.drop_last();
        let q = qs.drop_last();
        lemma_increasing_prefix(ps, np);
        lemma_increasing_prefix(qs, nq);
        assert(p =~= ps.subrange(0, np));
        assert(q =~= qs.subrange(0, nq));
        lemma_pairs_map(p);
        lemma_pairs_map(q);
        assert(!pairs_to_map(p).contains_key(a.0)) by {
            if pairs_to_map(p).contains_key(a.0) {
                assert(pair_keys(p).to_set().contains(a.0));
                let k = choose|k: int| 0 <= k < pair_keys(p).len() && pair_keys(p)[k] == a.0;
                assert(pair_keys(ps)[k] == pair_keys(p)[k]);
                lemma_lex_irreflexive(a.0);
            }
        }
        assert(!pairs_to_map(q).contains_key(a.0)) by {
            if pairs_to_map(q).contains_key(a.0) {
                assert(pair_keys(q).to_set().contains(a.0));
                let k = choose|k: int| 0 <= k < pair_keys(q).len() && pair_keys(q)[k] == a.0;
                assert(pair_keys(qs)[k] == pair_keys(q)[k]);
                lemma_lex_irreflexive(a.0);
            }
        }
        assert(pairs_to_map(p) =~= pairs_to_map(ps).remove(a.0));
        assert(pairs_to_map(q) =~= pairs_to_map(qs).remove(a.0));
        lemma_increasing_pairs_unique(p, q);
        assert(ps =~= p.push(a));
        assert(qs =~= q.push(b));
    }
}

/// Whether two keys hold the same bytes.
pub fn same_bytes(a: &[u8], b: &[u8]) -> (r: bool)
    ensures
        r == (a@ == b@),
{
    if a.len() != b.len() {
        return false;
    }
    let mut i: usize = 0;
    while i < a.len()
        invariant
            a@.len() == b@.len(),
            i <= a@.len(),
            forall|j: int| 0 <= j < i ==> a@[j] == b@[j],
        decreases a@.len() - i,
    {
        if a[i] != b[i] {
            return false;
        }
        i = i + 1;
    }
    assert(a@ =~= b@);
    true
}

/// Keeps the greatest of a set of keys: `last` is present and every key is
/// at most `last`, and there is no last key only when there are no keys.
pub open spec fn last_of(keys: Set<Seq<u8>>, last: Option<Seq<u8>>) -> bool {
    match last {
        None => keys == Set::<Seq<u8>>::empty(),
        Some(l) => keys.contains(l) && forall|k: Seq<u8>| keys.contains(k) ==> k == l || lex_lt(k, l),
    }
}

/// Adding a key after all others makes it the greatest.
pub proof fn lemma_last_after_insert(keys: Set<Seq<u8>>, k: Seq<u8>)
    requires
        all_before(keys, k),
    ensures
        last_of(keys.insert(k), Some(k)),
{
}

/// When `k` is not the greatest key, it comes after all keys exactly when it
/// comes after or equals all of them.
pub proof fn lemma_at_most_is_before(keys: Set<Seq<u8>>, last: Seq<u8>, k: Seq<u8>)
    requires
        last_of(keys, Some(last)),
        k != last,
    ensures
        all_at_most(keys, k) == all_before(keys, k),
{
    if all_at_most(keys, k) && keys.contains(k) {
        assert(lex_lt(k, last));
        assert(lex_lt(last, k));
        lemma_lex_asymmetric(k, last);
    }
}

/// A byte vector's deep view is its view.
pub proof fn lemma_bytes_deep_view(v: Vec<u8>)
    ensures
        v.deep_view() == v@,
{
    assert(v.deep_view() =~= v@);
}

/// A fresh copy of a key.
pub fn copy_bytes(a: &[u8]) -> (r: Vec<u8>)
    ensures
        r@ == a@,
{
    let mut r: Vec<u8> = Vec::new();
    let mut i: usize = 0;
    while i < a.len()
        invariant
            i <= a@.len(),
            r@ == a@.subrange(0, i as int),
        decreases a@.len() - i,
    {
        r.push(a[i]);
        i = i + 1;
    }
    assert(r@ =~= a@);
    r
}

} // verus!
