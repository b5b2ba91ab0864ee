//! The membership-only index, and set algebra over two of them.
use crate::cursor::Cursor;
use crate::errors::{BuildError, FormatError, SearchError};
use crate::fstcalls::{
    bad_version, built_set_bytes, set_bytes, set_bytes_for, lev_builds, regex_builds,
    lev_accepts, lists_keys, open_set, regex_accepts, set_builder_bytes, set_builder_insert,
    set_builder_keys, set_builder_memory, set_contains, set_difference_keys,
    set_intersection_keys, set_is_disjoint, set_is_subset, set_is_superset, set_key_list,
    set_keys, set_len, set_lev_keys, set_of_bytes, set_opens, set_regex_keys,
    set_symmetric_difference_keys, set_union_keys,
};
use crate::keyorder::{
    all_before, copy_bytes, last_of, lemma_at_most_is_before, lemma_last_after_insert, same_bytes,
};
use vstd::prelude::*;

verus! {

/// An opened, immutable set of byte-string keys.
pub struct FstSet {
    inner: fst::Set<Vec<u8>>,
}

impl View for FstSet {
    type V = Set<Seq<u8>>;

    closed spec fn view(&self) -> Set<Seq<u8>> {
        set_keys(self.inner)
    }
}

/// Keys handed out one at a time, in the order fixed when it was made.
pub struct KeyCursor {
    cur: Cursor<Vec<u8>>,
}

impl KeyCursor {
    /// The keys not yet handed out, in the order they will come.
    pub closed spec fn pending(&self) -> Seq<Seq<u8>> {
        self.cur.pending().map_values(|k: Vec<u8>| k@)
    }

    /// A cursor over a listing of keys, first key first.
    pub fn from_list(v: Vec<Vec<u8>>) -> (r: Self)
        ensures
            r.pending() == v.deep_view(),
    {
        let ghost listing = v.deep_view();
        let mut v = v;
        let mut stack: Vec<Vec<u8>> = Vec::new();
        while v.len() > 0
            invariant
                stack.len() + v.len() == listing.len(),
                forall|i: int| 0 <= i < v.len() ==> #[trigger] v@[i].deep_view() == listing[i],
                forall|i: int|
                    0 <= i < stack.len() ==> #[trigger] stack@[i]@ == listing[listing.len() - 1 - i],
            decreases v.len(),
        {
            let ghost before = v@;
            match v.pop() {
                Some(k) => {
                    proof {
                        crate::keyorder::lemma_bytes_deep_view(k);
                        assert(before[before.len() - 1].deep_view() == listing[before.len() - 1]);
                        assert(forall|i: int| 0 <= i < v.len() ==> v@[i] == before[i]);
                    }
                    stack.push(k);
                },
                None => {},
            }
        }
        let r = KeyCursor { cur: Cursor::from_stack(stack) };
        assert(r.pending() =~= listing);
        r
    }

    /// The next key; `None` once all are gone, and from then on.
    pub fn next(&mut self) -> (r: Option<Vec<u8>>)
        ensures
            old(self).pending().len() == 0 ==> r is None && final(self).pending() == old(
                self,
            ).pending(),
            old(self).pending().len() > 0 ==> (r matches Some(k) && k@ == old(self).pending()[0])
                && final(self).pending() == old(self).pending().drop_first(),
    {
        let r = self.cur.next();
        assert(self.pending() =~= old(self).pending().drop_first() || old(self).pending().len()
            == 0);
        r
    }
}

/// The keys of a set, in increasing order.
pub struct SetStream {
    keys: KeyCursor,
}

impl SetStream {
    /// The keys not yet handed out, in the order they will come.
    pub closed spec fn pending(&self) -> Seq<Seq<u8>> {
        self.keys.pending()
    }

    /// The next key; `None` once all are gone, and from then on.
    pub fn next(&mut self) -> (r: Option<Vec<u8>>)
        ensures
            old(self).pending().len() == 0 ==> r is None && final(self).pending() == old(
                self,
            ).pending(),
            old(self).pending().len() > 0 ==> (r matches Some(k) && k@ == old(self).pending()[0])
                && final(self).pending() == old(self).pending().drop_first(),
    {
        self.keys.next()
    }
}

/// The keys of a set that a regular expression matches, in increasing order.
pub struct SetRegexStream {
    keys: KeyCursor,
}

impl SetRegexStream {
    /// The keys not yet handed out, in the order they will come.
    pub closed spec fn pending(&self) -> Seq<Seq<u8>> {
        self.keys.pending()
    }

    /// The next key; `None` once all are gone, and from then on.
    pub fn next(&mut self) -> (r: Option<Vec<u8>>)
        ensures
            old(self).pending().len() == 0 ==> r is None && final(self).pending() == old(
                self,
            ).pending(),
            old(self).pending().len() > 0 ==> (r matches Some(k) && k@ == old(self).pending()[0])
                && final(self).pending() == old(self).pending().drop_first(),
    {
        self.keys.next()
    }
}

/// The keys of a set within an edit distance of a term, in increasing order.
pub struct SetLevStream {
    keys: KeyCursor,
}

impl SetLevStream {
    /// The keys not yet handed out, in the order they will come.
    pub closed spec fn pending(&self) -> Seq<Seq<u8>> {
        self.keys.pending()
    }

    /// The next key; `None` once all are gone, and from then on.
    pub fn next(&mut self) -> (r: Option<Vec<u8>>)
        ensures
            old(self).pending().len() == 0 ==> r is None && final(self).pending() == old(
                self,
            ).pending(),
            old(self).pending().len() > 0 ==> (r matches Some(k) && k@ == old(self).pending()[0])
                && final(self).pending() == old(self).pending().drop_first(),
    {
        self.keys.next()
    }
}

/// The keys in either of two sets, in increasing order.
pub struct SetUnion {
    keys: KeyCursor,
}

impl SetUnion {
    /// The keys not yet handed out, in the order they will come.
    pub closed spec fn pending(&self) -> Seq<Seq<u8>> {
        self.keys.pending()
    }

    /// The next key; `None` once all are gone, and from then on.
    pub fn next(&mut self) -> (r: Option<Vec<u8>>)
        ensures
            old(self).pending().len() == 0 ==> r is None && final(self).pending() == old(
                self,
            ).pending(),
            old(self).pending().len() > 0 ==> (r matches Some(k) && k@ == old(self).pending()[0])
                && final(self).pending() == old(self).pending().drop_first(),
    {
        self.keys.next()
    }
}

/// The keys in both of two sets, in increasing order.
pub struct SetIntersection {
    keys: KeyCursor,
}

impl SetIntersection {
    /// The keys not yet handed out, in the order they will come.
    pub closed spec fn pending(&self) -> Seq<Seq<u8>> {
        self.keys.pending()
    }

    /// The next key; `None` once all are gone, and from then on.
    pub fn next(&mut self) -> (r: Option<Vec<u8>>)
        ensures
            old(self).pending().len() == 0 ==> r is None && final(self).pending() == old(
                self,
            ).pending(),
            old(self).pending().len() > 0 ==> (r matches Some(k) && k@ == old(self).pending()[0])
                && final(self).pending() == old(self).pending().drop_first(),
    {
        self.keys.next()
    }
}

/// The keys of one set that are not in another, in increasing order.
pub struct SetDifference {
    keys: KeyCursor,
}

impl SetDifference {
    /// The keys not yet handed out, in the order they will come.
    pub closed spec fn pending(&self) -> Seq<Seq<u8>> {
        self.keys.pending()
    }

    /// The next key; `None` once all are gone, and from then on.
    pub fn next(&mut self) -> (r: Option<Vec<u8>>)
        ensures
            old(self).pending().len() == 0 ==> r is None && final(self).pending() == old(
                self,
            ).pending(),
            old(self).pending().len() > 0 ==> (r matches Some(k) && k@ == old(self).pending()[0])
                && final(self).pending() == old(self).pending().drop_first(),
    {
        self.keys.next()
    }
}

/// The keys in exactly one of two sets, in increasing order.
pub struct SetSymmetricDifference {
    keys: KeyCursor,
}

impl SetSymmetricDifference {
    /// The keys not yet handed out, in the order they will come.
    pub closed spec fn pending(&self) -> Seq<Seq<u8>> {
        self.keys.pending()
    }

    /// The next key; `None` once all are gone, and from then on.
    pub fn next(&mut self) -> (r: Option<Vec<u8>>)
        ensures
            old(self).pending().len() == 0 ==> r is None && final(self).pending() == old(
                self,
            ).pending(),
            old(self).pending().len() > 0 ==> (r matches Some(k) && k@ == old(self).pending()[0])
                && final(self).pending() == old(self).pending().drop_first(),
    {
        self.keys.next()
    }
}

impl FstSet {
    /// Whether the buffer was written by this library's builder; only such a
    /// buffer is read.
    pub closed spec fn is_built(&self) -> bool {
        built_set_bytes(set_bytes(self.inner))
    }

    /// Opens a finished transducer held in `bytes`.
    pub fn new(bytes: Vec<u8>) -> (r: Result<FstSet, FormatError>)
        ensures
            r is Ok <==> set_opens(bytes@),
            r matches Ok(s) ==> s.is_built() == built_set_bytes(bytes@),
            r matches Err(e) ==> (e == FormatError::Version <==> bad_version(bytes@)),
            r matches Ok(s) ==> s@ == set_of_bytes(bytes@),
    {
        match open_set(bytes) {
            Ok(inner) => Ok(FstSet { inner }),
            Err(e) => Err(e),
        }
    }

    /// Whether `key` is present.
    pub fn contains(&self, key: &[u8]) -> (r: bool)
        requires
            self.is_built(),
        ensures
            r == self@.contains(key@),
    {
        set_contains(&self.inner, key)
    }

    /// The number of keys.
    pub fn len(&self) -> (r: usize)
        requires
            self.is_built(),
        ensures
            r == self@.len(),
    {
        set_len(&self.inner)
    }

    /// All keys, in strictly increasing order.
    pub fn iter(&self) -> (r: SetStream)
        requires
            self.is_built(),
        ensures
            lists_keys(r.pending(), self@),
    {
        SetStream { keys: KeyCursor::from_list(set_key_list(&self.inner)) }
    }

    /// The keys that the regular expression matches whole, in strictly
    /// increasing order; fails when the pattern does not compile.
    pub fn search_re(&self, pattern: &str) -> (r: Result<SetRegexStream, SearchError>)
        requires
            self.is_built(),
        ensures
            r matches Ok(s) ==> lists_keys(
                s.pending(),
                self@.filter(|k: Seq<u8>| regex_accepts(pattern@, k)),
            ),
            r is Ok <==> regex_builds(pattern@),
            r matches Err(e) ==> e == SearchError::InvalidPattern,
    {
        match set_regex_keys(&self.inner, pattern) {
            Ok(v) => Ok(SetRegexStream { keys: KeyCursor::from_list(v) }),
            Err(_) => Err(SearchError::InvalidPattern),
        }
    }

    /// The keys within `max_dist` edits of `key`, in strictly increasing order;
    /// fails when the automaton would be too large.
    pub fn search_lev(&self, key: &str, max_dist: u32) -> (r: Result<SetLevStream, SearchError>)
        requires
            self.is_built(),
        ensures
            r matches Ok(s) ==> lists_keys(
                s.pending(),
                self@.filter(|k: Seq<u8>| lev_accepts(key@, max_dist, k)),
            ),
            r is Ok <==> lev_builds(key@, max_dist),
            r matches Err(e) ==> e == SearchError::TooManyStates,
    {
        match set_lev_keys(&self.inner, key, max_dist) {
            Ok(v) => Ok(SetLevStream { keys: KeyCursor::from_list(v) }),
            Err(_) => Err(SearchError::TooManyStates),
        }
    }

    /// Whether no key is in both sets.
    pub fn is_disjoint(&self, other: &FstSet) -> (r: bool)
        requires
            self.is_built(),
            other.is_built(),
        ensures
            r == self@.disjoint(other@),
    {
        set_is_disjoint(&self.inner, &other.inner)
    }

    /// Whether every key of `self` is in `other`.
    pub fn is_subset(&self, other: &FstSet) -> (r: bool)
        requires
            self.is_built(),
            other.is_built(),
        ensures
            r == self@.subset_of(other@),
    {
        set_is_subset(&self.inner, &other.inner)
    }

    /// Whether every key of `other` is in `self`.
    pub fn is_superset(&self, other: &FstSet) -> (r: bool)
        requires
            self.is_built(),
            other.is_built(),
        ensures
            r == other@.subset_of(self@),
    {
        set_is_superset(&self.inner, &other.inner)
    }

    /// The keys in either set, in strictly increasing order.
    pub fn union(&self, other: &FstSet) -> (r: SetUnion)
        requires
            self.is_built(),
            other.is_built(),
        ensures
            lists_keys(r.pending(), self@.union(other@)),
    {
        SetUnion { keys: KeyCursor::from_list(set_union_keys(&self.inner, &other.inner)) }
    }

    /// The keys in both sets, in strictly increasing order.
    pub fn intersection(&self, other: &FstSet) -> (r: SetIntersection)
        requires
            self.is_built(),
            other.is_built(),
        ensures
            lists_keys(r.pending(), self@.intersect(other@)),
    {
        SetIntersection {
            keys: KeyCursor::from_list(set_intersection_keys(&self.inner, &other.inner)),
        }
    }

    /// The keys of `self` that are not in `other`, in strictly increasing order.
    pub fn difference(&self, other: &FstSet) -> (r: SetDifference)
        requires
            self.is_built(),
            other.is_built(),
        ensures
            lists_keys(r.pending(), self@.difference(other@)),
    {
        SetDifference {
            keys: KeyCursor::from_list(set_difference_keys(&self.inner, &other.inner)),
        }
    }

    /// The keys in exactly one of the two sets, in strictly increasing order.
    pub fn symmetric_difference(&self, other: &FstSet) -> (r: SetSymmetricDifference)
        requires
            self.is_built(),
            other.is_built(),
        ensures
            lists_keys(
                r.pending(),
                self@.difference(other@).union(other@.difference(self@)),
            ),
    {
        SetSymmetricDifference {
            keys: KeyCursor::from_list(set_symmetric_difference_keys(&self.inner, &other.inner)),
        }
    }
}

/// Builds a set in memory from keys given in strictly increasing order.
pub struct FstSetBuilder {
    inner: Option<fst::SetBuilder<Vec<u8>>>,
    last: Option<Vec<u8>>,
}

impl FstSetBuilder {
    /// The keys inserted so far; none once finished.
    pub closed spec fn keys(&self) -> Set<Seq<u8>> {
        match self.inner {
            Some(b) => set_builder_keys(b),
            None => Set::empty(),
        }
    }

    /// Whether `finish` has been called.
    pub closed spec fn is_finished(&self) -> bool {
        self.inner is None
    }

    /// The key inserted last, if any.
    pub closed spec fn last_key(&self) -> Option<Seq<u8>> {
        match self.last {
            Some(l) => Some(l@),
            None => None,
        }
    }

    /// The last key is the greatest inserted one.
    pub open spec fn wf(&self) -> bool {
        !self.is_finished() ==> last_of(self.keys(), self.last_key())
    }

    /// A builder with nothing inserted.
    pub fn new() -> (r: FstSetBuilder)
        ensures
            r.wf(),
            !r.is_finished(),
            r.keys() == Set::<Seq<u8>>::empty(),
            r.last_key() is None,
    {
        FstSetBuilder { inner: Some(set_builder_memory()), last: None }
    }

    /// Appends `key`. A key must come strictly after every key inserted
    /// before it: one equal to the last is a duplicate, one before it is out
    /// of order, and either leaves the builder as it was.
    pub fn insert(&mut self, key: &[u8]) -> (r: Result<(), BuildError>)
        requires
            old(self).wf(),
        ensures
            final(self).wf(),
            final(self).is_finished() == old(self).is_finished(),
            old(self).is_finished() ==> r == Err::<(), BuildError>(BuildError::Finished),
            !old(self).is_finished() ==> (r is Ok <==> all_before(old(self).keys(), key@)),
            r is Ok ==> final(self).keys() == old(self).keys().insert(key@)
                && final(self).last_key() == Some(key@),
            r is Err ==> final(self).keys() == old(self).keys() && final(self).last_key() == old(
                self,
            ).last_key(),
            !old(self).is_finished() && r is Err ==> r == Err::<(), BuildError>(
                if old(self).last_key() == Some(key@) {
                    BuildError::DuplicateKey
                } else {
                    BuildError::OutOfOrder
                },
            ),
    {
        match self.inner.as_mut() {
            None => Err(BuildError::Finished),
            Some(b) => {
                let dup = match &self.last {
                    Some(l) => same_bytes(l.as_slice(), key),
                    None => false,
                };
                if dup {
                    proof {
                        crate::keyorder::lemma_lex_irreflexive(key@);
                        assert(set_builder_keys(*b).contains(key@));
                    }
                    return Err(BuildError::DuplicateKey);
                }
                let ghost before = set_builder_keys(*b);
                proof {
                    if self.last is Some {
                        lemma_at_most_is_before(before, self.last->Some_0@, key@);
                    }
                }
                match set_builder_insert(b, key) {
                    Ok(()) => {
                        proof {
                            lemma_last_after_insert(before, key@);
                        }
                        self.last = Some(copy_bytes(key));
                        Ok(())
                    },
                    Err(_) => Err(BuildError::OutOfOrder),
                }
            },
        }
    }

    /// Finishes the build and hands out the transducer's bytes, which
    /// `FstSet::new` opens with exactly the inserted keys.
    pub fn finish_bytes(&mut self) -> (r: Result<Vec<u8>, BuildError>)
        ensures
            final(self).is_finished(),
            final(self).wf(),
            old(self).is_finished() ==> r == Err::<Vec<u8>, BuildError>(BuildError::Finished),
            !old(self).is_finished() ==> (r matches Ok(v) && set_opens(v@) && set_of_bytes(v@)
                == old(self).keys() && v@ == set_bytes_for(old(self).keys())),
    {
        match self.inner.take() {
            None => Err(BuildError::Finished),
            Some(b) => match set_builder_bytes(b) {
                Ok(v) => Ok(v),
                Err(_) => Err(BuildError::Finished),
            },
        }
    }

    /// Finishes the build and opens the result, which holds exactly the
    /// inserted keys.
    pub fn finish(&mut self) -> (r: Result<FstSet, BuildError>)
        ensures
            final(self).is_finished(),
            final(self).wf(),
            old(self).is_finished() ==> r == Err::<FstSet, BuildError>(BuildError::Finished),
            !old(self).is_finished() ==> (r matches Ok(s) && s@ == old(self).keys() && s.is_built()),
    {
        let ghost e = old(self).keys();
        let bytes = self.finish_bytes()?;
        assert(built_set_bytes(bytes@) == built_set_bytes(bytes@)) by {
            assert(bytes@ == set_bytes_for(e));
        }
        match FstSet::new(bytes) {
            Ok(s) => Ok(s),
            Err(_) => Err(BuildError::Finished),
        }
    }
}

} // verus!
