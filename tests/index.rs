use fstlib::errors::{BuildError, FormatError, SearchError};
use fstlib::map::{FstMap, FstMapBuilder, MapItems, MapKeys, MapValues};
use fstlib::set::{FstSet, FstSetBuilder, KeyCursor};

fn build_map(pairs: &[(&str, u64)]) -> FstMap {
    let mut b = FstMapBuilder::new();
    for (k, v) in pairs {
        b.insert(k.as_bytes(), *v).unwrap();
    }
    b.finish().unwrap()
}

fn build_set(keys: &[&str]) -> FstSet {
    let mut b = FstSetBuilder::new();
    for k in keys {
        b.insert(k.as_bytes()).unwrap();
    }
    b.finish().unwrap()
}

fn all_items(mut it: MapItems) -> Vec<(Vec<u8>, u64)> {
    let mut out = Vec::new();
    while let Some(p) = it.next() {
        out.push(p);
    }
    out
}

fn all_keys(mut it: MapKeys) -> Vec<Vec<u8>> {
    let mut out = Vec::new();
    while let Some(k) = it.next() {
        out.push(k);
    }
    out
}

fn strs(v: &[&str]) -> Vec<Vec<u8>> {
    v.iter().map(|s| s.as_bytes().to_vec()).collect()
}

fn drain<F: FnMut() -> Option<Vec<u8>>>(mut next: F) -> Vec<Vec<u8>> {
    let mut out = Vec::new();
    while let Some(k) = next() {
        out.push(k);
    }
    out
}

#[test]
fn lookup_after_build() {
    let m = build_map(&[("apple", 3), ("banana", 7), ("cherry", 0)]);
    assert_eq!(m.len(), 3);
    assert_eq!(m.get_item(b"apple"), Some(3));
    assert_eq!(m.get_item(b"banana"), Some(7));
    assert_eq!(m.get_item(b"cherry"), Some(0));
    assert_eq!(m.get_item(b"app"), None);
    assert_eq!(m.get_item(b"durian"), None);
    assert!(m.contains_key(b"banana"));
    assert!(!m.contains_key(b"banan"));
    assert_eq!(m.get(b"durian", Some(42)), Some(42));
    assert_eq!(m.get(b"apple", Some(42)), Some(3));
    assert_eq!(m.get(b"durian", None), None);
}

#[test]
fn empty_key_and_empty_map() {
    let m = build_map(&[]);
    assert_eq!(m.len(), 0);
    assert_eq!(m.get_item(b""), None);
    assert!(all_items(m.items()).is_empty());
    let m = build_map(&[("", 5), ("a", 6)]);
    assert_eq!(m.get_item(b""), Some(5));
    assert_eq!(m.get_item(b"a"), Some(6));
}

#[test]
fn enumeration_is_increasing() {
    let m = build_map(&[("a", 1), ("ab", 2), ("b", 3), ("ba", 4), ("z", 5)]);
    let keys = all_keys(m.keys());
    assert_eq!(keys, strs(&["a", "ab", "b", "ba", "z"]));
    for w in keys.windows(2) {
        assert!(w[0] < w[1]);
    }
    let mut vals = m.values();
    let mut got = Vec::new();
    while let Some(v) = vals.next() {
        got.push(v);
    }
    assert_eq!(got, vec![1, 2, 3, 4, 5]);
}

#[test]
fn round_trip_through_bytes() {
    let pairs = [("alpha", 10u64), ("beta", 20), ("gamma", 30)];
    let mut b = FstMapBuilder::new();
    for (k, v) in &pairs {
        b.insert(k.as_bytes(), *v).unwrap();
    }
    let bytes = b.finish_bytes().unwrap();
    let m = FstMap::new(bytes).unwrap();
    let items = all_items(m.items());
    let expected: Vec<(Vec<u8>, u64)> =
        pairs.iter().map(|(k, v)| (k.as_bytes().to_vec(), *v)).collect();
    assert_eq!(items, expected);
}

#[test]
fn iterator_is_one_shot() {
    let m = build_map(&[("x", 1)]);
    let mut it = m.items();
    assert_eq!(it.next(), Some((b"x".to_vec(), 1)));
    assert_eq!(it.next(), None);
    assert_eq!(it.next(), None);
}

#[test]
fn ordering_violation_rejected() {
    let mut b = FstMapBuilder::new();
    assert_eq!(b.insert(b"b", 1), Ok(()));
    assert_eq!(b.insert(b"a", 2), Err(BuildError::OutOfOrder));
    let mut b = FstMapBuilder::new();
    assert_eq!(b.insert(b"a", 1), Ok(()));
    assert_eq!(b.insert(b"a", 2), Err(BuildError::DuplicateKey));
    let mut s = FstSetBuilder::new();
    assert_eq!(s.insert(b"b"), Ok(()));
    assert_eq!(s.insert(b"a"), Err(BuildError::OutOfOrder));
    assert_eq!(s.insert(b"b"), Err(BuildError::DuplicateKey));
    assert_eq!(s.insert(b"c"), Ok(()));
    let set = s.finish().unwrap();
    assert_eq!(set.len(), 2);
}

#[test]
fn finished_builder_refuses() {
    let mut b = FstMapBuilder::new();
    b.insert(b"a", 1).unwrap();
    assert!(b.finish().is_ok());
    assert_eq!(b.insert(b"b", 2), Err(BuildError::Finished));
    assert!(matches!(b.finish(), Err(BuildError::Finished)));
    let mut s = FstSetBuilder::new();
    assert!(s.finish_bytes().is_ok());
    assert_eq!(s.insert(b"b"), Err(BuildError::Finished));
    assert_eq!(BuildError::Finished.message(), "Builder already finished");
}

#[test]
fn fuzzy_search() {
    let m = build_map(&[("bar", 1), ("fob", 2), ("foo", 3)]);
    let mut st = m.search_lev("foo", 1).unwrap();
    assert_eq!(st.next(), Some((b"fob".to_vec(), 2)));
    assert_eq!(st.next(), Some((b"foo".to_vec(), 3)));
    assert_eq!(st.next(), None);
    let s = build_set(&["bar", "fob", "foo"]);
    assert_eq!({ let mut st = s.search_lev("foo", 1).unwrap(); drain(|| st.next()) }, strs(&["fob", "foo"]));
    assert_eq!({ let mut st = s.search_lev("foo", 0).unwrap(); drain(|| st.next()) }, strs(&["foo"]));
}

#[test]
fn regex_search() {
    let s = build_set(&["a1", "a2", "b1"]);
    assert_eq!({ let mut st = s.search_re("a[0-9]").unwrap(); drain(|| st.next()) }, strs(&["a1", "a2"]));
    let m = build_map(&[("a1", 1), ("a2", 2), ("b1", 3)]);
    let mut st = m.search_re("a[0-9]").unwrap();
    assert_eq!(st.next(), Some((b"a1".to_vec(), 1)));
    assert_eq!(st.next(), Some((b"a2".to_vec(), 2)));
    assert_eq!(st.next(), None);
    assert!(matches!(s.search_re("a("), Err(SearchError::InvalidPattern)));
    assert!(matches!(m.search_re("[z-a]"), Err(SearchError::InvalidPattern)));
}

#[test]
fn set_algebra() {
    let a = build_set(&["a", "b", "c"]);
    let b = build_set(&["b", "c", "d"]);
    assert_eq!({ let mut st = a.union(&b); drain(|| st.next()) }, strs(&["a", "b", "c", "d"]));
    assert_eq!({ let mut st = a.intersection(&b); drain(|| st.next()) }, strs(&["b", "c"]));
    assert_eq!({ let mut st = a.difference(&b); drain(|| st.next()) }, strs(&["a"]));
    assert_eq!({ let mut st = a.symmetric_difference(&b); drain(|| st.next()) }, strs(&["a", "d"]));
    assert!(!a.is_subset(&b));
    assert!(!a.is_superset(&b));
    assert!(!a.is_disjoint(&b));
    let c = build_set(&["b", "c"]);
    assert!(c.is_subset(&a));
    assert!(a.is_superset(&c));
    let d = build_set(&["x", "y"]);
    assert!(a.is_disjoint(&d));
    assert!({ let mut st = a.intersection(&d); drain(|| st.next()) }.is_empty());
}

#[test]
fn set_basics() {
    let s = build_set(&["cat", "dog", "emu"]);
    assert_eq!(s.len(), 3);
    assert!(s.contains(b"dog"));
    assert!(!s.contains(b"do"));
    assert_eq!({ let mut st = s.iter(); drain(|| st.next()) }, strs(&["cat", "dog", "emu"]));
}

#[test]
fn reopen_is_idempotent() {
    let mut b = FstMapBuilder::new();
    b.insert(b"k1", 1).unwrap();
    b.insert(b"k2", 2).unwrap();
    let bytes = b.finish_bytes().unwrap();
    let m1 = FstMap::new(bytes.clone()).unwrap();
    let m2 = FstMap::new(bytes.clone()).unwrap();
    let m3 = FstMap::new(bytes).unwrap();
    assert_eq!(m1.len(), m2.len());
    assert_eq!(m2.len(), m3.len());
    assert_eq!(all_items(m1.items()), all_items(m2.items()));
    assert_eq!(all_items(m2.items()), all_items(m3.items()));
    for k in [&b"k1"[..], b"k2", b"k3"] {
        assert_eq!(m1.get_item(k), m3.get_item(k));
    }
}

#[test]
fn corrupt_buffer_refused() {
    assert!(matches!(FstMap::new(vec![1, 2, 3]), Err(FormatError::Corrupt)));
    assert!(matches!(FstSet::new(vec![0; 10]), Err(FormatError::Corrupt)));
}

#[test]
fn cursors_follow_listing() {
    let mut it = MapItems::from_listing(vec![(b"a".to_vec(), 1), (b"b".to_vec(), 2)]);
    assert_eq!(it.next(), Some((b"a".to_vec(), 1)));
    assert_eq!(it.next(), Some((b"b".to_vec(), 2)));
    assert_eq!(it.next(), None);
    let keys = all_keys(MapKeys::from_listing(vec![(b"x".to_vec(), 9), (b"y".to_vec(), 8)]));
    assert_eq!(keys, strs(&["x", "y"]));
    let mut vals = MapValues::from_listing(vec![(b"x".to_vec(), 9), (b"y".to_vec(), 8)]);
    assert_eq!(vals.next(), Some(9));
    assert_eq!(vals.next(), Some(8));
    assert_eq!(vals.next(), None);
    let mut kc = KeyCursor::from_list(strs(&["p", "q"]));
    assert_eq!(kc.next(), Some(b"p".to_vec()));
    assert_eq!(kc.next(), Some(b"q".to_vec()));
    assert_eq!(kc.next(), None);
}

#[test]
fn version_mismatch_is_its_own_error() {
    assert!(matches!(FstMap::new(vec![0; 36]), Err(FormatError::Version)));
    let mut b = FstMapBuilder::new();
    b.insert(b"a", 1).unwrap();
    let mut bytes = b.finish_bytes().unwrap();
    bytes[0] = 9;
    assert!(matches!(FstMap::new(bytes.clone()), Err(FormatError::Version)));
    assert!(matches!(FstSet::new(bytes), Err(FormatError::Version)));
    assert!(matches!(FstMap::new(vec![1; 20]), Err(FormatError::Corrupt)));
}

#[test]
fn build_error_messages() {
    assert_eq!(BuildError::DuplicateKey.message(), "duplicate key");
    assert_eq!(BuildError::OutOfOrder.message(), "key out of order");
}

#[test]
fn search_failures() {
    let s = build_set(&["a"]);
    assert!(matches!(s.search_re("("), Err(SearchError::InvalidPattern)));
    let m = build_map(&[("a", 1)]);
    assert!(m.search_lev("a", 1).is_ok());
    assert!(m.search_re("a|b").is_ok());
}
