use id_context::{Id, IdMap};
use std::collections::hash_map::RandomState;

fn sorted_raw(ids: Vec<Id<&'static str>>) -> Vec<u64> {
    let mut v: Vec<u64> = ids.iter().map(|i| i.raw()).collect();
    v.sort();
    v
}

#[test]
fn insert_new_hands_out_fresh_ids() {
    let mut m: IdMap<&'static str> = IdMap::new();
    let a = m.insert_new("a");
    let b = m.insert_new("b");
    assert_eq!(a.raw(), 0);
    assert_eq!(b.raw(), 1);
    assert_eq!(m.get(a), Some(&"a"));
    assert_eq!(m.get(b), Some(&"b"));
    assert_eq!(m.len(), 2);
    assert!(!m.is_empty());
}

#[test]
fn get_after_insert_and_remove() {
    let mut m: IdMap<&'static str> = IdMap::new();
    let a = m.insert_new("a");
    assert_eq!(m.insert(a, "z"), Some("a"));
    assert_eq!(m.get(a), Some(&"z"));
    assert_eq!(m.remove(a), Some("z"));
    assert_eq!(m.get(a), None);
    assert_eq!(m.remove(a), None);
    assert!(!m.contains_id(a));
    assert!(m.is_empty());
    assert_eq!(m.insert(a, "y"), None);
    assert!(m.contains_id(a));
}

#[test]
fn remove_undoes_insert_of_absent_id() {
    let mut m: IdMap<&'static str> = IdMap::new();
    let a = m.insert_new("a");
    let other: Id<&'static str> = Id::from_raw(40);
    assert_eq!(m.insert(other, "x"), None);
    assert_eq!(m.remove(other), Some("x"));
    assert_eq!(m.len(), 1);
    assert_eq!(m.get(a), Some(&"a"));
    assert_eq!(m.get(other), None);
}

#[test]
fn get_mut_writes_through() {
    let mut m: IdMap<u32> = IdMap::new();
    let a = m.insert_new(1);
    *m.get_mut(a).unwrap() += 10;
    assert_eq!(m.get(a), Some(&11));
    assert!(m.get_mut(Id::from_raw(5)).is_none());
}

#[test]
fn index_reads_present_value() {
    let mut m: IdMap<u32> = IdMap::new();
    let a = m.insert_new(7);
    assert_eq!(m[a], 7);
}

#[test]
fn clear_resets_the_context() {
    let mut m: IdMap<&'static str> = IdMap::new();
    m.insert_new("a");
    m.insert_new("b");
    m.clear();
    assert!(m.is_empty());
    assert_eq!(m.len(), 0);
    assert_eq!(m.insert_new("c").raw(), 0);
}

#[test]
fn drain_returns_every_value_and_resets() {
    let mut m: IdMap<u32> = IdMap::new();
    for v in 0..5 {
        m.insert_new(v * 10);
    }
    let mut drained = m.drain();
    drained.sort();
    assert_eq!(drained, vec![0, 10, 20, 30, 40]);
    assert!(m.is_empty());
    assert_eq!(m.insert_new(99).raw(), 0);
}

#[test]
fn ids_iter_and_values_list_each_entry_once() {
    let mut m: IdMap<&'static str> = IdMap::new();
    let a = m.insert_new("a");
    let b = m.insert_new("b");
    let c = m.insert_new("c");
    m.remove(b);
    assert_eq!(sorted_raw(m.ids()), vec![a.raw(), c.raw()]);
    assert_eq!(m.ids().len(), m.len());
    assert_eq!(m.iter().len(), m.len());
    assert_eq!(m.values().len(), m.len());
    let mut pairs: Vec<(u64, &str)> = m.iter().into_iter().map(|(i, v)| (i.raw(), *v)).collect();
    pairs.sort();
    assert_eq!(pairs, vec![(0, "a"), (2, "c")]);
    let mut vals: Vec<&str> = m.values().into_iter().copied().collect();
    vals.sort();
    assert_eq!(vals, vec!["a", "c"]);
}

#[test]
fn iter_mut_and_values_mut_write_through() {
    let mut m: IdMap<u32> = IdMap::new();
    let a = m.insert_new(1);
    let b = m.insert_new(2);
    for (id, v) in m.iter_mut() {
        *v += id.raw() as u32 * 100;
    }
    assert_eq!(m.get(a), Some(&1));
    assert_eq!(m.get(b), Some(&102));
    for v in m.values_mut() {
        *v *= 2;
    }
    assert_eq!(m.get(a), Some(&2));
    assert_eq!(m.get(b), Some(&204));
    assert_eq!(m.len(), 2);
}

#[test]
fn retain_keeps_what_the_closure_accepts() {
    let mut m: IdMap<u32> = IdMap::new();
    let ids: Vec<_> = (0..6).map(|v| m.insert_new(v)).collect();
    let mut calls = 0;
    m.retain(|id, v| {
        calls += 1;
        *v += 100;
        id.raw() % 2 == 0
    });
    assert_eq!(calls, 6);
    assert_eq!(m.len(), 3);
    assert_eq!(m.get(ids[0]), Some(&100));
    assert_eq!(m.get(ids[1]), None);
    assert_eq!(m.get(ids[4]), Some(&104));
    assert_eq!(m.insert_new(7).raw(), 6);
}

#[test]
fn clone_is_independent_and_keeps_the_counter() {
    let mut m: IdMap<u32> = IdMap::new();
    let a = m.insert_new(1);
    let mut n = m.clone();
    assert_eq!(n.get(a), Some(&1));
    n.insert(a, 5);
    assert_eq!(m.get(a), Some(&1));
    assert_eq!(n.insert_new(2).raw(), 1);
    assert_eq!(m.insert_new(3).raw(), 1);
}

#[test]
fn constructors_start_empty() {
    let d: IdMap<u8> = IdMap::default();
    assert!(d.is_empty());
    let mut h: IdMap<u8, RandomState> = IdMap::with_hasher(RandomState::new());
    assert!(h.is_empty());
    assert_eq!(h.insert_new(1).raw(), 0);
    let _ = h.hasher();
    let c: IdMap<u8> = IdMap::with_capacity(32);
    assert!(c.capacity() >= 32);
    let ch: IdMap<u8, RandomState> = IdMap::with_capacity_and_hasher(8, RandomState::new());
    assert!(ch.capacity() >= 8);
    assert_eq!(ch.len(), 0);
}

#[test]
fn reserve_and_shrink_keep_the_entries() {
    let mut m: IdMap<u8> = IdMap::new();
    let a = m.insert_new(1);
    m.reserve(100);
    assert!(m.capacity() >= 101);
    m.shrink_to_fit();
    assert!(m.capacity() >= 1);
    assert_eq!(m.get(a), Some(&1));
    assert_eq!(m.insert_new(2).raw(), 1);
}

#[test]
fn from_entries_sets_counter_past_largest_id() {
    let entries: Vec<(Id<&'static str>, &'static str)> =
        vec![(Id::from_raw(4), "d"), (Id::from_raw(1), "a"), (Id::from_raw(4), "e")];
    let mut m: IdMap<&'static str> = IdMap::from_entries(entries);
    assert_eq!(m.len(), 2);
    assert_eq!(m.get(Id::from_raw(4)), Some(&"e"));
    assert_eq!(m.get(Id::from_raw(1)), Some(&"a"));
    let fresh = m.insert_new("f");
    assert_eq!(fresh.raw(), 5);
    assert_eq!(m.len(), 3);
}

#[test]
fn from_no_entries_starts_counter_at_one() {
    let mut m: IdMap<u8> = IdMap::from_entries(Vec::new());
    assert!(m.is_empty());
    assert_eq!(m.insert_new(0).raw(), 1);
}
