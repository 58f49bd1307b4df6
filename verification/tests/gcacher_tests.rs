use std::collections::hash_map::RandomState;
use rusttools::GCacher;

#[test]
fn it_works() {
    let mut cache = GCacher::new(|x: &usize| x + 1);

    assert_eq!(2, *cache.value_from(1));
}

#[test]
fn immutable_lock() {
    let mut cache = GCacher::new(|x: &usize| x * x);
    cache.value_from(2);

    let cache = cache;

    assert_eq!(Some(&4), cache.get(&2));
}

#[test]
fn instancer_capturing() {
    let mut num = 0;
    num += 1;
    let mut cache = GCacher::new(|x: &usize| x + num);

    cache.value_from(2);
    cache.value_from(3);
    num += 1;

    assert_eq!(num, 2);
}

#[test]
fn gcacher_instancer_deconstruction() {
    let cache = GCacher::new(|x: &usize| x * x);
    let instancer = cache.into_instancer();

    let mut cache = GCacher::new(instancer);

    let instancer = cache.instancer();
    assert_eq!(4, instancer(&2));
    assert_eq!(16, *cache.value_from(4));
}

#[test]
fn gcacher_cache_deconstruction() {
    let mut cache = GCacher::new(|x: &usize| x * x);
    cache.value_from(2);

    let cache = cache.into_cache();
    assert_eq!(cache.get(&2), Some(&4));
}

#[test]
fn gcacher_inner_deconstruction() {
    let mut cache = GCacher::new(|x: &usize| x * x);
    cache.value_from(2);

    let (instancer, cache) = cache.into_inner();
    assert_eq!(cache.get(&2), Some(&4));
    assert_eq!(instancer(&2), 4);
}

#[test]
fn removal_and_clearing() {
    let mut cache = GCacher::new(|x: &u64| x * 10);
    cache.value_from(1);
    cache.value_from(2);
    assert_eq!(cache.len(), 2);

    assert_eq!(cache.remove(&1), Some(10));
    assert_eq!(cache.remove(&1), None);
    assert_eq!(cache.remove_entry(&2), Some((2, 20)));
    assert_eq!(cache.remove_entry(&2), None);

    cache.value_from(3);
    cache.clear();
    assert!(cache.is_empty());
}

#[test]
fn draining_and_retaining() {
    let mut cache = GCacher::new(|x: &u64| x * x);
    cache.value_from(2);
    cache.value_from(3);

    let mut drained = cache.drain();
    assert!(cache.is_empty());
    drained.sort();
    assert_eq!(drained, vec![(2, 4), (3, 9)]);

    cache.value_from(1);
    cache.value_from(2);
    cache.value_from(3);
    cache.value_from(4);
    cache.retain(|&k, _| k % 2 == 0);
    assert_eq!(cache.len(), 2);
    assert_eq!(cache.get(&2), Some(&4));
    assert_eq!(cache.get(&3), None);
}

#[test]
fn capacity_adjustments_keep_entries() {
    let mut cache = GCacher::with_capacity(|x: &u64| x + 7, 100);
    cache.value_from(1);
    cache.reserve(10);
    cache.try_reserve(10).expect("a small reservation should succeed");
    cache.shrink_to(10);
    cache.shrink_to_fit();
    assert_eq!(cache.get(&1), Some(&8));
}

#[test]
fn hasher_constructors_start_empty() {
    let s = RandomState::new();
    let mut cache = GCacher::with_hasher(|x: &u64| x + 1, s);
    assert!(cache.is_empty());
    cache.value_from(1);
    assert_eq!(cache.get(&1), Some(&2));

    let s = RandomState::new();
    let mut cache = GCacher::with_capacity_and_hasher(|x: &u64| x + 1, 10, s);
    assert!(cache.is_empty());
    cache.value_from(5);
    assert_eq!(cache.cache().get(&5), Some(&6));
}
