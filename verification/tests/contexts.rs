use id_context::{AtomicIdContext, Id, IdContext};
use std::collections::HashSet;

struct Apples;
struct Pears;

#[test]
fn next_id_counts_up_from_zero() {
    let mut ctx: IdContext = IdContext::new();
    let a = ctx.next_id();
    let b = ctx.next_id();
    let c = ctx.next_id();
    assert_eq!(a.raw(), 0);
    assert_eq!(b.raw(), 1);
    assert_eq!(c.raw(), 2);
    assert!(a != b && b != c && a != c);
}

#[test]
fn ids_of_one_context_are_distinct() {
    let mut ctx: IdContext<Apples> = IdContext::new();
    let mut seen = HashSet::new();
    for _ in 0..1000 {
        assert!(seen.insert(ctx.next_id()));
    }
    assert_eq!(seen.len(), 1000);
}

#[test]
fn default_context_starts_at_zero() {
    let mut ctx: IdContext<Pears> = IdContext::default();
    assert_eq!(ctx.next_id().raw(), 0);
}

#[test]
fn families_count_independently() {
    let mut apples: IdContext<Apples> = IdContext::new();
    let mut pears: IdContext<Pears> = IdContext::new();
    assert_eq!(apples.next_id().raw(), 0);
    assert_eq!(apples.next_id().raw(), 1);
    assert_eq!(pears.next_id().raw(), 0);
}

#[test]
fn id_equality_and_order_follow_the_raw_value() {
    let a: Id = Id::from_raw(3);
    let b: Id = Id::from_raw(3);
    let c: Id = Id::from_raw(4);
    assert_eq!(a, b);
    assert_ne!(a, c);
    assert!(a < c);
    assert!(c > b);
    assert!(a <= b && a >= b);
    assert_eq!(a.partial_cmp(&c), Some(std::cmp::Ordering::Less));
    assert_eq!(c.partial_cmp(&a), Some(std::cmp::Ordering::Greater));
    assert_eq!(a.partial_cmp(&b), Some(std::cmp::Ordering::Equal));
    assert_eq!(a.cmp(&c), std::cmp::Ordering::Less);
    assert_eq!(std::cmp::max(a, c), c);
}

#[test]
fn ids_of_any_family_are_ordered() {
    let mut ctx: IdContext<Apples> = IdContext::new();
    let a = ctx.next_id();
    let b = ctx.next_id();
    assert!(a < b);
    assert_eq!(a.cmp(&b), std::cmp::Ordering::Less);
    assert_eq!(b.cmp(&a), std::cmp::Ordering::Greater);
    assert_eq!(a.cmp(&a), std::cmp::Ordering::Equal);
    let mut v = vec![b, a];
    v.sort();
    assert!(v[0] == a && v[1] == b);
}

#[test]
fn ids_are_copy_and_hash_by_value() {
    let a: Id = Id::from_raw(9);
    let b = a;
    let c = a.clone();
    assert_eq!(a, b);
    assert_eq!(a, c);
    let mut set = HashSet::new();
    set.insert(a);
    assert!(set.contains(&Id::from_raw(9)));
    assert!(!set.contains(&Id::from_raw(10)));
}

#[test]
fn atomic_context_counts_up_from_zero() {
    let ctx: AtomicIdContext = AtomicIdContext::new();
    assert_eq!(ctx.next_id().raw(), 0);
    assert_eq!(ctx.next_id().raw(), 1);
    assert_eq!(ctx.next_id().raw(), 2);
    let d: AtomicIdContext<Apples> = AtomicIdContext::default();
    assert_eq!(d.next_id().raw(), 0);
}
