//! The value-carrying index: byte-string keys mapped to `u64` values.
use crate::cursor::Cursor;
use crate::errors::{BuildError, FormatError, SearchError};
use crate::fstcalls::{
    bad_version, built_map_bytes, map_bytes, map_bytes_for, lev_builds, regex_builds,
    lev_accepts, lists_entries, map_builder_bytes, map_builder_entries, map_builder_insert,
    map_builder_memory, map_entries, map_get, map_len, map_lev_pairs, map_of_bytes, map_opens,
    map_pairs, map_regex_pairs, open_map, regex_accepts,
};
use crate::keyorder::{
    all_before, copy_bytes, last_of, lemma_last_after_insert, pair_keys, same_bytes, strictly_increasing,
};
use vstd::prelude::*;

verus! {

/// An opened, immutable map from byte-string keys to `u64` values.
pub struct FstMap {
    inner: fst::Map<Vec<u8>>,
}

impl View for FstMap {
    type V = Map<Seq<u8>, u64>;

    closed spec fn view(&self) -> Map<Seq<u8>, u64> {
        map_entries(self.inner)
    }
}

/// Pairs waiting on a stack, top first, are exactly `listing`.
pub open spec fn stacked_pairs(stack: Seq<(Vec<u8>, u64)>, listing: Seq<(Seq<u8>, u64)>) -> bool {
    &&& stack.len() == listing.len()
    &&& forall|i: int|
        0 <= i < stack.len() ==> (#[trigger] stack[i].0@, stack[i].1) == listing[listing.len() - 1
            - i]
}

/// Moves an increasing listing onto a stack whose top is its first pair.
fn stack_of_pairs(v: Vec<(Vec<u8>, u64)>) -> (r: Vec<(Vec<u8>, u64)>)
    ensures
        stacked_pairs(r@, v.deep_view()),
{
    let ghost listing = v.deep_view();
    let mut v = v;
    let mut stack: Vec<(Vec<u8>, u64)> = Vec::new();
    while v.len() > 0
        invariant
            stack.len() + v.len() == listing.len(),
            forall|i: int| 0 <= i < v.len() ==> #[trigger] v@[i].deep_view() == listing[i],
            forall|i: int|
                0 <= i < stack.len() ==> (#[trigger] stack@[i].0@, stack@[i].1) == listing[listing.len()
                    - 1 - i],
        decreases v.len(),
    {
        let ghost before = v@;
        match v.pop() {
            Some(p) => {
                proof {
                    crate::keyorder::lemma_bytes_deep_view(p.0);
                    assert(before[before.len() - 1].deep_view() == listing[before.len() - 1]);
                    assert(forall|i: int| 0 <= i < v.len() ==> v@[i] == before[i]);
                }
                stack.push(p);
            },
            None => {},
        }
    }
    stack
}

/// The items of a map, in increasing key order.
pub struct MapItems {
    cur: Cursor<(Vec<u8>, u64)>,
}

impl MapItems {
    /// The pairs not yet handed out, in the order they will come.
    pub closed spec fn pending(&self) -> Seq<(Seq<u8>, u64)> {
        self.cur.pending().map_values(|p: (Vec<u8>, u64)| (p.0@, p.1))
    }

    /// A cursor over an increasing listing of entries, first pair first.
    pub fn from_listing(v: Vec<(Vec<u8>, u64)>) -> (r: Self)
        ensures
            r.pending() == v.deep_view(),
    {
        let ghost listing = v.deep_view();
        let stack = stack_of_pairs(v);
        let r = MapItems { cur: Cursor::from_stack(stack) };
        assert(r.pending() =~= listing);
        r
    }

    /// The next pair; `None` once all are gone, and from then on.
    pub fn next(&mut self) -> (r: Option<(Vec<u8>, u64)>)
        ensures
            old(self).pending().len() == 0 ==> r is None && final(self).pending() == old(
                self,
            ).pending(),
            old(self).pending().len() > 0 ==> (r matches Some(p) && (p.0@, p.1) == old(
                self,
            ).pending()[0]) && final(self).pending() == old(self).pending().drop_first(),
    {
        let r = self.cur.next();
        assert(self.pending() =~= old(self).pending().drop_first() || old(self).pending().len()
            == 0);
        r
    }
}

/// Moves the keys of an increasing listing onto a stack whose top is the first.
fn stack_of_keys(v: Vec<(Vec<u8>, u64)>) -> (r: Vec<Vec<u8>>)
    ensures
        r@.len() == v@.len(),
        forall|i: int|
            0 <= i < r@.len() ==> #[trigger] r@[i]@ == v.deep_view()[v@.len() - 1 - i].0,
{
    let ghost listing = v.deep_view();
    let mut v = v;
    let mut stack: Vec<Vec<u8>> = Vec::new();
    while v.len() > 0
        invariant
            stack.len() + v.len() == listing.len(),
            forall|i: int| 0 <= i < v.len() ==> #[trigger] v@[i].deep_view() == listing[i],
            forall|i: int|
                0 <= i < stack.len() ==> #[trigger] stack@[i]@ == listing[listing.len() - 1 - i].0,
        decreases v.len(),
    {
        let ghost before = v@;
        match v.pop() {
            Some(p) => {
                proof {
                    crate::keyorder::lemma_bytes_deep_view(p.0);
                    assert(before[before.len() - 1].deep_view() == listing[before.len() - 1]);
                    assert(forall|i: int| 0 <= i < v.len() ==> v@[i] == before[i]);
                }
                stack.push(p.0);
            },
            None => {},
        }
    }
    stack
}

/// Moves the values of an increasing listing onto a stack whose top is the first.
fn stack_of_values(v: Vec<(Vec<u8>, u64)>) -> (r: Vec<u64>)
    ensures
        r@.len() == v@.len(),
        forall|i: int| 0 <= i < r@.len() ==> #[trigger] r@[i] == v@[v@.len() - 1 - i].1,
{
    let ghost listing = v@;
    let mut v = v;
    let mut stack: Vec<u64> = Vec::new();
    while v.len() > 0
        invariant
            stack.len() + v.len() == listing.len(),
            forall|i: int| 0 <= i < v.len() ==> #[trigger] v@[i] == listing[i],
            forall|i: int|
                0 <= i < stack.len() ==> #[trigger] stack@[i] == listing[listing.len() - 1 - i].1,
        decreases v.len(),
    {
        let ghost before = v@;
        match v.pop() {
            Some(p) => {
                proof {
                    assert(forall|i: int| 0 <= i < v.len() ==> v@[i] == before[i]);
                }
                stack.push(p.1);
            },
            None => {},
        }
    }
    stack
}

/// The keys of a map, in increasing order.
pub struct MapKeys {
    cur: Cursor<Vec<u8>>,
}

impl MapKeys {
    /// The keys not yet handed out, in the order they will come.
    pub closed spec fn pending(&self) -> Seq<Seq<u8>> {
        self.cur.pending().map_values(|k: Vec<u8>| k@)
    }

    /// A cursor over the keys of an increasing listing of entries.
    pub fn from_listing(v: Vec<(Vec<u8>, u64)>) -> (r: Self)
        ensures
            r.pending() == pair_keys(v.deep_view()),
    {
        let ghost listing = v.deep_view();
        let stack = stack_of_keys(v);
        let r = MapKeys { cur: Cursor::from_stack(stack) };
        assert(r.pending() =~= pair_keys(listing));
        r
    }

    /// The next key; `None` once all are gone, and from then on.
    pub fn next(&mut self) -> (r: Option<Vec<u8>>)
        ensures
            old(self).pending().len() == 0 ==> r is None && final(self).pending() == old(
                self,
            ).pending(),
            old(self).pending().len() > 0 ==> (r matches Some(k) && k@ == old(self).pending()[0])
                && final(self).pending() == old(self).pending().drop_first(),
    {
        let r = self.cur.next();
        assert(self.pending() =~= old(self).pending().drop_first() || old(self).pending().len()
            == 0);
        r
    }
}

/// The values of a map, in increasing order of their keys.
pub struct MapValues {
    cur: Cursor<u64>,
}

impl MapValues {
    /// The values not yet handed out, in the order they will come.
    pub closed spec fn pending(&self) -> Seq<u64> {
        self.cur.pending()
    }

    /// A cursor over the values of an increasing listing of entries.
    pub fn from_listing(v: Vec<(Vec<u8>, u64)>) -> (r: Self)
        ensures
            r.pending() == v.deep_view().map_values(|p: (Seq<u8>, u64)| p.1),
    {
        let ghost listing = v@;
        let ghost deep = v.deep_view();
        let stack = stack_of_values(v);
        let r = MapValues { cur: Cursor::from_stack(stack) };
        assert(r.pending() =~= deep.map_values(|p: (Seq<u8>, u64)| p.1)) by {
            assert(forall|i: int| 0 <= i < listing.len() ==> #[trigger] deep[i].1 == listing[i].1);
        }
        r
    }

    /// The next value; `None` once all are gone, and from then on.
    pub fn next(&mut self) -> (r: Option<u64>)
        ensures
            old(self).pending().len() == 0 ==> r is None && final(self).pending() == old(
                self,
            ).pending(),
            old(self).pending().len() > 0 ==> r == Some(old(self).pending()[0])
                && final(self).pending() == old(self).pending().drop_first(),
    {
        self.cur.next()
    }
}

/// The items of a map whose keys a regular expression matches, in increasing
/// key order.
pub struct MapRegexStream {
    items: MapItems,
}

impl MapRegexStream {
    /// The pairs not yet handed out, in the order they will come.
    pub closed spec fn pending(&self) -> Seq<(Seq<u8>, u64)> {
        self.items.pending()
    }

    /// The next pair; `None` once all are gone, and from then on.
    pub fn next(&mut self) -> (r: Option<(Vec<u8>, u64)>)
        ensures
            old(self).pending().len() == 0 ==> r is None && final(self).pending() == old(
                self,
            ).pending(),
            old(self).pending().len() > 0 ==> (r matches Some(p) && (p.0@, p.1) == old(
                self,
            ).pending()[0]) && final(self).pending() == old(self).pending().drop_first(),
    {
        self.items.next()
    }
}

/// The items of a map whose keys lie within an edit distance of a term, in
/// increasing key order.
pub struct MapLevStream {
    items: MapItems,
}

impl MapLevStream {
    /// The pairs not yet handed out, in the order they will come.
    pub closed spec fn pending(&self) -> Seq<(Seq<u8>, u64)> {
        self.items.pending()
    }

    /// The next pair; `None` once all are gone, and from then on.
    pub fn next(&mut self) -> (r: Option<(Vec<u8>, u64)>)
        ensures
            old(self).pending().len() == 0 ==> r is None && final(self).pending() == old(
                self,
            ).pending(),
            old(self).pending().len() > 0 ==> (r matches Some(p) && (p.0@, p.1) == old(
                self,
            ).pending()[0]) && final(self).pending() == old(self).pending().drop_first(),
    {
        self.items.next()
    }
}

/// The entries of `m` whose keys the anchored pattern matches.
pub open spec fn regex_entries(m: Map<Seq<u8>, u64>, pattern: Seq<char>) -> Map<Seq<u8>, u64> {
    m.restrict(Set::new(|k: Seq<u8>| regex_accepts(pattern, k)))
}

/// The entries of `m` whose keys lie within `dist` edits of `query`.
pub open spec fn lev_entries(m: Map<Seq<u8>, u64>, query: Seq<char>, dist: u32) -> Map<
    Seq<u8>,
    u64,
> {
    m.restrict(Set::new(|k: Seq<u8>| lev_accepts(query, dist, k)))
}

impl FstMap {
    /// Whether the buffer was written by this library's builder; only such a
    /// buffer is read.
    pub closed spec fn is_built(&self) -> bool {
        built_map_bytes(map_bytes(self.inner))
    }

    /// Opens a finished transducer held in `bytes`.
    pub fn new(bytes: Vec<u8>) -> (r: Result<FstMap, FormatError>)
        ensures
            r is Ok <==> map_opens(bytes@),
            r matches Ok(m) ==> m.is_built() == built_map_bytes(bytes@),
            r matches Err(e) ==> (e == FormatError::Version <==> bad_version(bytes@)),
            r matches Ok(m) ==> m@ == map_of_bytes(bytes@),
    {
        match open_map(bytes) {
            Ok(inner) => Ok(FstMap { inner }),
            Err(e) => Err(e),
        }
    }

    /// Whether `key` is present.
    pub fn contains_key(&self, key: &[u8]) -> (r: bool)
        requires
            self.is_built(),
        ensures
            r == self@.contains_key(key@),
    {
        map_get(&self.inner, key).is_some()
    }

    /// The value of `key`, or `None` when it is absent.
    pub fn get_item(&self, key: &[u8]) -> (r: Option<u64>)
        requires
            self.is_built(),
        ensures
            r == (if self@.contains_key(key@) {
                Some(self@[key@])
            } else {
                None
            }),
    {
        map_get(&self.inner, key)
    }

    /// The value of `key`, or `default` when it is absent.
    pub fn get(&self, key: &[u8], default: Option<u64>) -> (r: Option<u64>)
        requires
            self.is_built(),
        ensures
            r == (if self@.contains_key(key@) {
                Some(self@[key@])
            } else {
                default
            }),
    {
        match map_get(&self.inner, key) {
            Some(v) => Some(v),
            None => default,
        }
    }

    /// The number of keys.
    pub fn len(&self) -> (r: usize)
        requires
            self.is_built(),
        ensures
            r == self@.len(),
    {
        map_len(&self.inner)
    }

    /// All keys, in strictly increasing order.
    pub fn keys(&self) -> (r: MapKeys)
        requires
            self.is_built(),
        ensures
            strictly_increasing(r.pending()),
            r.pending().to_set() == self@.dom(),
    {
        let v = map_pairs(&self.inner);
        let ghost listing = v.deep_view();
        proof {
            crate::keyorder::lemma_pairs_map(listing);
        }
        MapKeys::from_listing(v)
    }

    /// All values, in strictly increasing order of their keys.
    pub fn values(&self) -> (r: MapValues)
        requires
            self.is_built(),
        ensures
            exists|l: Seq<(Seq<u8>, u64)>|
                lists_entries(l, self@) && r.pending() == l.map_values(|p: (Seq<u8>, u64)| p.1),
    {
        let v = map_pairs(&self.inner);
        let ghost listing = v.deep_view();
        let r = MapValues::from_listing(v);
        assert(lists_entries(listing, self@));
        r
    }

    /// All entries, in strictly increasing key order.
    pub fn items(&self) -> (r: MapItems)
        requires
            self.is_built(),
        ensures
            lists_entries(r.pending(), self@),
    {
        MapItems::from_listing(map_pairs(&self.inner))
    }

    /// The entries whose whole key the regular expression matches, in
    /// strictly increasing key order; fails when the pattern does not compile.
    pub fn search_re(&self, pattern: &str) -> (r: Result<MapRegexStream, SearchError>)
        requires
            self.is_built(),
        ensures
            r matches Ok(s) ==> lists_entries(s.pending(), regex_entries(self@, pattern@)),
            r is Ok <==> regex_builds(pattern@),
            r matches Err(e) ==> e == SearchError::InvalidPattern,
    {
        match map_regex_pairs(&self.inner, pattern) {
            Ok(v) => Ok(MapRegexStream { items: MapItems::from_listing(v) }),
            Err(_) => Err(SearchError::InvalidPattern),
        }
    }

    /// The entries whose keys lie within `max_dist` edits of `key`, in strictly
    /// increasing key order; fails when the automaton would be too large.
    pub fn search_lev(&self, key: &str, max_dist: u32) -> (r: Result<MapLevStream, SearchError>)
        requires
            self.is_built(),
        ensures
            r matches Ok(s) ==> lists_entries(s.pending(), lev_entries(self@, key@, max_dist)),
            r is Ok <==> lev_builds(key@, max_dist),
            r matches Err(e) ==> e == SearchError::TooManyStates,
    {
        match map_lev_pairs(&self.inner, key, max_dist) {
            Ok(v) => Ok(MapLevStream { items: MapItems::from_listing(v) }),
            Err(_) => Err(SearchError::TooManyStates),
        }
    }
}

/// Builds a map in memory from keys given in strictly increasing order.
pub struct FstMapBuilder {
    inner: Option<fst::MapBuilder<Vec<u8>>>,
    last: Option<Vec<u8>>,
}

impl FstMapBuilder {
    /// The entries inserted so far; none once finished.
    pub closed spec fn entries(&self) -> Map<Seq<u8>, u64> {
        match self.inner {
            Some(b) => map_builder_entries(b),
            None => Map::empty(),
        }
    }

    /// Whether `finish` has been called.
    pub closed spec fn is_finished(&self) -> bool {
        self.inner is None
    }

    /// The key inserted last, if any.
    pub closed spec fn last_key(&self) -> Option<Seq<u8>> {
        match self.last {
            Some(l) => Some(l@),
            None => None,
        }
    }

    /// The last key is the greatest inserted one.
    pub open spec fn wf(&self) -> bool {
        !self.is_finished() ==> last_of(self.entries().dom(), self.last_key())
    }

    /// A builder with nothing inserted.
    pub fn new() -> (r: FstMapBuilder)
        ensures
            r.wf(),
            !r.is_finished(),
            r.entries() == Map::<Seq<u8>, u64>::empty(),
            r.last_key() is None,
    {
        let r = FstMapBuilder { inner: Some(map_builder_memory()), last: None };
        assert(r.entries() =~= Map::<Seq<u8>, u64>::empty());
        r
    }

    /// Appends `key` with `val`. A key must come strictly after every key
    /// inserted before it: one equal to the last is a duplicate, one before it
    /// is out of order, and either leaves the builder as it was.
    pub fn insert(&mut self, key: &[u8], val: u64) -> (r: Result<(), BuildError>)
        requires
            old(self).wf(),
        ensures
            final(self).wf(),
            final(self).is_finished() == old(self).is_finished(),
            old(self).is_finished() ==> r == Err::<(), BuildError>(BuildError::Finished),
            !old(self).is_finished() ==> (r is Ok <==> all_before(old(self).entries().dom(), key@)),
            r is Ok ==> final(self).entries() == old(self).entries().insert(key@, val)
                && final(self).last_key() == Some(key@),
            r is Err ==> final(self).entries() == old(self).entries() && final(self).last_key()
                == old(self).last_key(),
            !old(self).is_finished() && r is Err ==> r == Err::<(), BuildError>(
                if old(self).last_key() == Some(key@) {
                    BuildError::DuplicateKey
                } else {
                    BuildError::OutOfOrder
                },
            ),
    {
        match self.inner.as_mut() {
            None => Err(BuildError::Finished),
            Some(b) => {
                let ghost before = map_builder_entries(*b);
                match map_builder_insert(b, key, val) {
                    Ok(()) => {
                        proof {
                            lemma_last_after_insert(before.dom(), key@);
                            assert(before.insert(key@, val).dom() =~= before.dom().insert(key@));
                        }
                        self.last = Some(copy_bytes(key));
                        Ok(())
                    },
                    Err(_) => {
                        let dup = match &self.last {
                            Some(l) => same_bytes(l.as_slice(), key),
                            None => false,
                        };
                        if dup {
                            Err(BuildError::DuplicateKey)
                        } else {
                            Err(BuildError::OutOfOrder)
                        }
                    },
                }
            },
        }
    }

    /// Finishes the build and hands out the transducer's bytes, which
    /// `FstMap::new` opens with exactly the inserted entries.
    pub fn finish_bytes(&mut self) -> (r: Result<Vec<u8>, BuildError>)
        ensures
            final(self).is_finished(),
            final(self).wf(),
            old(self).is_finished() ==> r == Err::<Vec<u8>, BuildError>(BuildError::Finished),
            !old(self).is_finished() ==> (r matches Ok(v) && map_opens(v@) && map_of_bytes(v@)
                == old(self).entries() && v@ == map_bytes_for(old(self).entries())),
    {
        match self.inner.take() {
            None => Err(BuildError::Finished),
            Some(b) => match map_builder_bytes(b) {
                Ok(v) => Ok(v),
                Err(_) => Err(BuildError::Finished),
            },
        }
    }

    /// Finishes the build and opens the result, which holds exactly the
    /// inserted entries.
    pub fn finish(&mut self) -> (r: Result<FstMap, BuildError>)
        ensures
            final(self).is_finished(),
            final(self).wf(),
            old(self).is_finished() ==> r == Err::<FstMap, BuildError>(BuildError::Finished),
            !old(self).is_finished() ==> (r matches Ok(m) && m@ == old(self).entries() && m.is_built()),
    {
        let ghost e = old(self).entries();
        let bytes = self.finish_bytes()?;
        assert(built_map_bytes(bytes@) == built_map_bytes(bytes@)) by {
            assert(bytes@ == map_bytes_for(e));
        }
        match FstMap::new(bytes) {
            Ok(m) => Ok(m),
            Err(_) => Err(BuildError::Finished),
        }
    }
}

} // verus!
