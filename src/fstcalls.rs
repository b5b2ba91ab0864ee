//! The calls into the `fst` and `regex-automata` crates that the index relies on,
//! with the contracts that their sources document.
use crate::errors::FormatError;
use crate::keyorder::{all_at_most, all_before, pair_keys, pairs_to_map, strictly_increasing};
use fst::{IntoStreamer, Streamer};
use vstd::prelude::*;

verus! {

#[verifier::external_type_specification]
#[verifier::external_body]
#[verifier::reject_recursive_types(D)]
pub struct ExFstMap<D>(fst::Map<D>);

#[verifier::external_type_specification]
#[verifier::external_body]
#[verifier::reject_recursive_types(D)]
pub struct ExFstSet<D>(fst::Set<D>);

#[verifier::external_type_specification]
#[verifier::external_body]
#[verifier::reject_recursive_types(W)]
pub struct ExFstMapBuilder<W>(fst::MapBuilder<W>);

#[verifier::external_type_specification]
#[verifier::external_body]
#[verifier::reject_recursive_types(W)]
pub struct ExFstSetBuilder<W>(fst::SetBuilder<W>);

#[verifier::external_type_specification]
#[verifier::external_body]
pub struct ExFstError(fst::Error);

#[verifier::external_type_specification]
#[verifier::external_body]
pub struct ExLevenshteinError(fst::automaton::LevenshteinError);

#[verifier::external_type_specification]
#[verifier::external_body]
pub struct ExRegexError(regex_automata::Error);

/// The key/value entries that an opened map holds.
pub uninterp spec fn map_entries(m: fst::Map<Vec<u8>>) -> Map<Seq<u8>, u64>;

/// The keys that an opened set holds.
pub uninterp spec fn set_keys(s: fst::Set<Vec<u8>>) -> Set<Seq<u8>>;

/// The entries inserted so far into an in-memory map builder.
pub uninterp spec fn map_builder_entries(b: fst::MapBuilder<Vec<u8>>) -> Map<Seq<u8>, u64>;

/// The keys inserted so far into an in-memory set builder.
pub uninterp spec fn set_builder_keys(b: fst::SetBuilder<Vec<u8>>) -> Set<Seq<u8>>;

/// Whether `fst::Map::new` accepts a buffer.
pub uninterp spec fn map_opens(bytes: Seq<u8>) -> bool;

/// The entries that `fst::Map::new` reads from a buffer.
pub uninterp spec fn map_of_bytes(bytes: Seq<u8>) -> Map<Seq<u8>, u64>;

/// Whether `fst::Set::new` accepts a buffer.
pub uninterp spec fn set_opens(bytes: Seq<u8>) -> bool;

/// The keys that `fst::Set::new` reads from a buffer.
pub uninterp spec fn set_of_bytes(bytes: Seq<u8>) -> Set<Seq<u8>>;

/// Whether the anchored dense DFA that regex-automata compiles from `pattern`
/// accepts `key`.
pub uninterp spec fn regex_accepts(pattern: Seq<char>, key: Seq<u8>) -> bool;

/// Whether fst's Levenshtein automaton for `query` and `dist` accepts `key`.
pub uninterp spec fn lev_accepts(query: Seq<char>, dist: u32, key: Seq<u8>) -> bool;

/// Whether regex-automata compiles `pattern` into an anchored dense DFA.
pub uninterp spec fn regex_builds(pattern: Seq<char>) -> bool;

/// Whether fst's Levenshtein automaton for `query` and `dist` stays within
/// its state limit.
pub uninterp spec fn lev_builds(query: Seq<char>, dist: u32) -> bool;

/// The bytes that fst's in-memory map builder writes for these entries.
pub uninterp spec fn map_bytes_for(entries: Map<Seq<u8>, u64>) -> Seq<u8>;

/// The bytes that fst's in-memory set builder writes for these keys.
pub uninterp spec fn set_bytes_for(keys: Set<Seq<u8>>) -> Seq<u8>;

/// The buffer an opened map reads.
pub uninterp spec fn map_bytes(m: fst::Map<Vec<u8>>) -> Seq<u8>;

/// The buffer an opened set reads.
pub uninterp spec fn set_bytes(s: fst::Set<Vec<u8>>) -> Seq<u8>;

/// A buffer that fst's map builder wrote. fst trusts the node offsets of an
/// opened buffer, so only such a buffer is read without panics and with a key
/// count that matches its graph.
pub open spec fn built_map_bytes(bytes: Seq<u8>) -> bool {
    exists|e: Map<Seq<u8>, u64>| bytes == #[trigger] map_bytes_for(e)
}

/// A buffer that fst's set builder wrote.
pub open spec fn built_set_bytes(bytes: Seq<u8>) -> bool {
    exists|k: Set<Seq<u8>>| bytes == #[trigger] set_bytes_for(k)
}

/// The little-endian integer held in the first `n` bytes.
pub open spec fn le_value(bytes: Seq<u8>, n: nat) -> int
    decreases n,
{
    if n == 0 || bytes.len() < n {
        0
    } else {
        le_value(bytes, (n - 1) as nat) + bytes[n - 1] as int * pow256((n - 1) as nat)
    }
}

pub open spec fn pow256(n: nat) -> int
    decreases n,
{
    if n == 0 {
        1
    } else {
        256 * pow256((n - 1) as nat)
    }
}

/// fst refuses a buffer of at least 36 bytes whose leading version word is 0
/// or above the format version 3 that it writes.
pub open spec fn bad_version(bytes: Seq<u8>) -> bool {
    bytes.len() >= 36 && (le_value(bytes, 8) == 0 || le_value(bytes, 8) > 3)
}

/// A strictly increasing listing of exactly the entries of `m`.
pub open spec fn lists_entries(v: Seq<(Seq<u8>, u64)>, m: Map<Seq<u8>, u64>) -> bool {
    &&& strictly_increasing(pair_keys(v))
    &&& pairs_to_map(v) == m
}

/// A strictly increasing listing of exactly the keys of `s`.
pub open spec fn lists_keys(v: Seq<Seq<u8>>, s: Set<Seq<u8>>) -> bool {
    &&& strictly_increasing(v)
    &&& v.to_set() == s
}

/// Relies on fst::Map::new: it accepts or refuses a buffer by its bytes alone,
/// reads the entries from them, and reports a bad version word as
/// `raw::Error::Version` after checking the length.
#[verifier::external_body]
pub(crate) fn open_map(bytes: Vec<u8>) -> (r: Result<fst::Map<Vec<u8>>, FormatError>)
    ensures
        r is Ok <==> map_opens(bytes@),
        r matches Ok(m) ==> map_entries(m) == map_of_bytes(bytes@) && map_bytes(m) == bytes@,
        r matches Err(e) ==> (e == FormatError::Version <==> bad_version(bytes@)),
{
    match fst::Map::new(bytes) {
        Ok(m) => Ok(m),
        Err(fst::Error::Fst(fst::raw::Error::Version { .. })) => Err(FormatError::Version),
        Err(_) => Err(FormatError::Corrupt),
    }
}

/// Relies on fst::Map::len: the number of keys, stored in the footer.
#[verifier::external_body]
pub(crate) fn map_len(m: &fst::Map<Vec<u8>>) -> (r: usize)
    requires
        built_map_bytes(map_bytes(*m)),
    ensures
        r == map_entries(*m).len(),
{
    m.len()
}

/// Relies on fst::Map::get: the value of a key, or `None` when it is absent.
#[verifier::external_body]
pub(crate) fn map_get(m: &fst::Map<Vec<u8>>, key: &[u8]) -> (r: Option<u64>)
    requires
        built_map_bytes(map_bytes(*m)),
    ensures
        r == (if map_entries(*m).contains_key(key@) {
            Some(map_entries(*m)[key@])
        } else {
            None
        }),
{
    m.get(key)
}

/// Relies on fst::Map::stream and map::Stream::into_byte_vec: every entry, in
/// increasing key order.
#[verifier::external_body]
pub(crate) fn map_pairs(m: &fst::Map<Vec<u8>>) -> (r: Vec<(Vec<u8>, u64)>)
    requires
        built_map_bytes(map_bytes(*m)),
    ensures
        lists_entries(r.deep_view(), map_entries(*m)),
{
    m.stream().into_byte_vec()
}

/// Relies on regex-automata's anchored dense DFA and fst::Map::search: the
/// entries whose keys the whole pattern matches, in increasing key order.
#[verifier::external_body]
pub(crate) fn map_regex_pairs(m: &fst::Map<Vec<u8>>, pattern: &str) -> (r: Result<
    Vec<(Vec<u8>, u64)>,
    regex_automata::Error,
>)
    requires
        built_map_bytes(map_bytes(*m)),
    ensures
        r is Ok <==> regex_builds(pattern@),
        r matches Ok(v) ==> lists_entries(
            v.deep_view(),
            map_entries(*m).restrict(Set::new(|k: Seq<u8>| regex_accepts(pattern@, k))),
        ),
{
    let dfa = regex_automata::dense::Builder::new().anchored(true).build(pattern)?;
    Ok(m.search(&dfa).into_stream().into_byte_vec())
}

/// Relies on fst::automaton::Levenshtein::new and fst::Map::search: the entries
/// whose keys are within `dist` edits of `query`, in increasing key order.
#[verifier::external_body]
pub(crate) fn map_lev_pairs(m: &fst::Map<Vec<u8>>, query: &str, dist: u32) -> (r: Result<
    Vec<(Vec<u8>, u64)>,
    fst::automaton::LevenshteinError,
>)
    requires
        built_map_bytes(map_bytes(*m)),
    ensures
        r is Ok <==> lev_builds(query@, dist),
        r matches Ok(v) ==> lists_entries(
            v.deep_view(),
            map_entries(*m).restrict(Set::new(|k: Seq<u8>| lev_accepts(query@, dist, k))),
        ),
{
    let lev = fst::automaton::Levenshtein::new(query, dist)?;
    Ok(m.search(&lev).into_stream().into_byte_vec())
}

/// Relies on fst::MapBuilder::memory: a builder into a fresh `Vec`, with
/// nothing inserted.
#[verifier::external_body]
pub(crate) fn map_builder_memory() -> (r: fst::MapBuilder<Vec<u8>>)
    ensures
        map_builder_entries(r).dom() == Set::<Seq<u8>>::empty(),
{
    fst::MapBuilder::memory()
}

/// Relies on fst::MapBuilder::insert: a key equal to or before the last
/// accepted one is refused and leaves the builder as it was; writing into a
/// `Vec` cannot fail. Since only keys after all earlier ones are accepted, the
/// last accepted key is the greatest, so comparing with it is comparing with
/// every inserted key.
#[verifier::external_body]
pub(crate) fn map_builder_insert(b: &mut fst::MapBuilder<Vec<u8>>, key: &[u8], val: u64) -> (r:
    Result<(), fst::Error>)
    ensures
        r is Ok <==> all_before(map_builder_entries(*old(b)).dom(), key@),
        map_builder_entries(*final(b)) == (if r is Ok {
            map_builder_entries(*old(b)).insert(key@, val)
        } else {
            map_builder_entries(*old(b))
        }),
{
    b.insert(key, val)
}

/// Relies on fst::MapBuilder::into_inner: it writes the finished transducer,
/// which fst::Map::new then opens with the inserted entries; writing into a
/// `Vec` cannot fail.
#[verifier::external_body]
pub(crate) fn map_builder_bytes(b: fst::MapBuilder<Vec<u8>>) -> (r: Result<Vec<u8>, fst::Error>)
    ensures
        r is Ok,
        r matches Ok(v) ==> map_opens(v@) && map_of_bytes(v@) == map_builder_entries(b) && v@
            == map_bytes_for(map_builder_entries(b)),
{
    b.into_inner()
}

/// Relies on fst::Set::new: it accepts or refuses a buffer by its bytes alone,
/// reads the keys from them, and reports a bad version word as
/// `raw::Error::Version` after checking the length.
#[verifier::external_body]
pub(crate) fn open_set(bytes: Vec<u8>) -> (r: Result<fst::Set<Vec<u8>>, FormatError>)
    ensures
        r is Ok <==> set_opens(bytes@),
        r matches Ok(s) ==> set_keys(s) == set_of_bytes(bytes@) && set_bytes(s) == bytes@,
        r matches Err(e) ==> (e == FormatError::Version <==> bad_version(bytes@)),
{
    match fst::Set::new(bytes) {
        Ok(s) => Ok(s),
        Err(fst::Error::Fst(fst::raw::Error::Version { .. })) => Err(FormatError::Version),
        Err(_) => Err(FormatError::Corrupt),
    }
}

/// Relies on fst::Set::len: the number of keys, stored in the footer.
#[verifier::external_body]
pub(crate) fn set_len(s: &fst::Set<Vec<u8>>) -> (r: usize)
    requires
        built_set_bytes(set_bytes(*s)),
    ensures
        r == set_keys(*s).len(),
{
    s.len()
}

/// Relies on fst::Set::contains: whether the key is present.
#[verifier::external_body]
pub(crate) fn set_contains(s: &fst::Set<Vec<u8>>, key: &[u8]) -> (r: bool)
    requires
        built_set_bytes(set_bytes(*s)),
    ensures
        r == set_keys(*s).contains(key@),
{
    s.contains(key)
}

/// Relies on fst::Set::stream and set::Stream::into_bytes: every key, in
/// increasing order.
#[verifier::external_body]
pub(crate) fn set_key_list(s: &fst::Set<Vec<u8>>) -> (r: Vec<Vec<u8>>)
    requires
        built_set_bytes(set_bytes(*s)),
    ensures
        lists_keys(r.deep_view(), set_keys(*s)),
{
    s.stream().into_bytes()
}

/// Relies on regex-automata's anchored dense DFA and fst::Set::search: the keys
/// that the whole pattern matches, in increasing order.
#[verifier::external_body]
pub(crate) fn set_regex_keys(s: &fst::Set<Vec<u8>>, pattern: &str) -> (r: Result<
    Vec<Vec<u8>>,
    regex_automata::Error,
>)
    requires
        built_set_bytes(set_bytes(*s)),
    ensures
        r is Ok <==> regex_builds(pattern@),
        r matches Ok(v) ==> lists_keys(
            v.deep_view(),
            set_keys(*s).filter(|k: Seq<u8>| regex_accepts(pattern@, k)),
        ),
{
    let dfa = regex_automata::dense::Builder::new().anchored(true).build(pattern)?;
    Ok(s.search(&dfa).into_stream().into_bytes())
}

/// Relies on fst::automaton::Levenshtein::new and fst::Set::search: the keys
/// within `dist` edits of `query`, in increasing order.
#[verifier::external_body]
pub(crate) fn set_lev_keys(s: &fst::Set<Vec<u8>>, query: &str, dist: u32) -> (r: Result<
    Vec<Vec<u8>>,
    fst::automaton::LevenshteinError,
>)
    requires
        built_set_bytes(set_bytes(*s)),
    ensures
        r is Ok <==> lev_builds(query@, dist),
        r matches Ok(v) ==> lists_keys(
            v.deep_view(),
            set_keys(*s).filter(|k: Seq<u8>| lev_accepts(query@, dist, k)),
        ),
{
    let lev = fst::automaton::Levenshtein::new(query, dist)?;
    Ok(s.search(&lev).into_stream().into_bytes())
}

/// Relies on fst::Set::is_disjoint: no key is in both sets.
#[verifier::external_body]
pub(crate) fn set_is_disjoint(a: &fst::Set<Vec<u8>>, b: &fst::Set<Vec<u8>>) -> (r: bool)
    requires
        built_set_bytes(set_bytes(*a)),
        built_set_bytes(set_bytes(*b)),
    ensures
        r == set_keys(*a).disjoint(set_keys(*b)),
{
    a.is_disjoint(b)
}

/// Relies on fst::Set::is_subset: every key of `a` is in `b`.
#[verifier::external_body]
pub(crate) fn set_is_subset(a: &fst::Set<Vec<u8>>, b: &fst::Set<Vec<u8>>) -> (r: bool)
    requires
        built_set_bytes(set_bytes(*a)),
        built_set_bytes(set_bytes(*b)),
    ensures
        r == set_keys(*a).subset_of(set_keys(*b)),
{
    a.is_subset(b)
}

/// Relies on fst::Set::is_superset: every key of `b` is in `a`.
#[verifier::external_body]
pub(crate) fn set_is_superset(a: &fst::Set<Vec<u8>>, b: &fst::Set<Vec<u8>>) -> (r: bool)
    requires
        built_set_bytes(set_bytes(*a)),
        built_set_bytes(set_bytes(*b)),
    ensures
        r == set_keys(*b).subset_of(set_keys(*a)),
{
    a.is_superset(b)
}

/// Relies on fst::set::OpBuilder::union: the merged stream yields each key of
/// either set once, in increasing order.
#[verifier::external_body]
pub(crate) fn set_union_keys(a: &fst::Set<Vec<u8>>, b: &fst::Set<Vec<u8>>) -> (r: Vec<Vec<u8>>)
    requires
        built_set_bytes(set_bytes(*a)),
        built_set_bytes(set_bytes(*b)),
    ensures
        lists_keys(r.deep_view(), set_keys(*a).union(set_keys(*b))),
{
    let mut stream = a.op().add(b).union();
    let mut out = Vec::new();
    while let Some(k) = stream.next() {
        out.push(k.to_vec());
    }
    out
}

/// Relies on fst::set::OpBuilder::intersection: the keys in both sets, in
/// increasing order.
#[verifier::external_body]
pub(crate) fn set_intersection_keys(a: &fst::Set<Vec<u8>>, b: &fst::Set<Vec<u8>>) -> (r: Vec<
    Vec<u8>,
>)
    requires
        built_set_bytes(set_bytes(*a)),
        built_set_bytes(set_bytes(*b)),
    ensures
        lists_keys(r.deep_view(), set_keys(*a).intersect(set_keys(*b))),
{
    let mut stream = a.op().add(b).intersection();
    let mut out = Vec::new();
    while let Some(k) = stream.next() {
        out.push(k.to_vec());
    }
    out
}

/// Relies on fst::set::OpBuilder::difference: the keys of the first set that
/// are not in the second, in increasing order.
#[verifier::external_body]
pub(crate) fn set_difference_keys(a: &fst::Set<Vec<u8>>, b: &fst::Set<Vec<u8>>) -> (r: Vec<
    Vec<u8>,
>)
    requires
        built_set_bytes(set_bytes(*a)),
        built_set_bytes(set_bytes(*b)),
    ensures
        lists_keys(r.deep_view(), set_keys(*a).difference(set_keys(*b))),
{
    let mut stream = a.op().add(b).difference();
    let mut out = Vec::new();
    while let Some(k) = stream.next() {
        out.push(k.to_vec());
    }
    out
}

/// Relies on fst::set::OpBuilder::symmetric_difference: the keys in exactly one
/// of the two sets, in increasing order.
#[verifier::external_body]
pub(crate) fn set_symmetric_difference_keys(a: &fst::Set<Vec<u8>>, b: &fst::Set<Vec<u8>>) -> (r:
    Vec<Vec<u8>>)
    requires
        built_set_bytes(set_bytes(*a)),
        built_set_bytes(set_bytes(*b)),
    ensures
        lists_keys(
            r.deep_view(),
            set_keys(*a).difference(set_keys(*b)).union(set_keys(*b).difference(set_keys(*a))),
        ),
{
    let mut stream = a.op().add(b).symmetric_difference();
    let mut out = Vec::new();
    while let Some(k) = stream.next() {
        out.push(k.to_vec());
    }
    out
}

/// Relies on fst::SetBuilder::memory: a builder into a fresh `Vec`, with
/// nothing inserted.
#[verifier::external_body]
pub(crate) fn set_builder_memory() -> (r: fst::SetBuilder<Vec<u8>>)
    ensures
        set_builder_keys(r) == Set::<Seq<u8>>::empty(),
{
    fst::SetBuilder::memory()
}

/// Relies on fst::SetBuilder::insert: a key before the last accepted one is
/// refused and leaves the builder as it was; the last key again is accepted
/// and changes nothing; writing into a `Vec` cannot fail. The last accepted
/// key is the greatest, as for the map builder.
#[verifier::external_body]
pub(crate) fn set_builder_insert(b: &mut fst::SetBuilder<Vec<u8>>, key: &[u8]) -> (r: Result<
    (),
    fst::Error,
>)
    ensures
        r is Ok <==> all_at_most(set_builder_keys(*old(b)), key@),
        set_builder_keys(*final(b)) == (if r is Ok {
            set_builder_keys(*old(b)).insert(key@)
        } else {
            set_builder_keys(*old(b))
        }),
{
    b.insert(key)
}

/// Relies on fst::SetBuilder::into_inner: it writes the finished transducer,
/// which fst::Set::new then opens with the inserted keys; writing into a `Vec`
/// cannot fail.
#[verifier::external_body]
pub(crate) fn set_builder_bytes(b: fst::SetBuilder<Vec<u8>>) -> (r: Result<Vec<u8>, fst::Error>)
    ensures
        r is Ok,
        r matches Ok(v) ==> set_opens(v@) && set_of_bytes(v@) == set_builder_keys(b) && v@
            == set_bytes_for(set_builder_keys(b)),
{
    b.into_inner()
}

} // verus!
