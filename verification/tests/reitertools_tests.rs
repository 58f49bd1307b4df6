use rusttools::reitertools::ConditionalAdvance;
use rusttools::reitertools::NextWith;
use rusttools::reitertools::ReItertools;
use rusttools::reitertools::vec_next_if;

#[test]
fn next_with_peeking() {
    let mut peekable_range: Vec<usize> = vec![0, 1, 2, 3];

    let mut adaptor = NextWith::new(|v: &mut Vec<usize>| v.next_if_lt(&2), peekable_range);
    while let Some(i) = adaptor.next() {
        assert!(i < 2);
    }
    peekable_range = adaptor.into_inner();

    assert_eq!(peekable_range, vec![2, 3]);
}

#[test]
fn next_with_batching() {
    let mut batches = NextWith::new(
        |v: &mut Vec<i32>| {
            if v.len() >= 2 {
                let a = v.remove(0);
                let b = v.remove(0);
                Some((a, b))
            } else {
                None
            }
        },
        vec![0, 1, 2, 3],
    );

    assert_eq!(batches.next(), Some((0, 1)));
    assert_eq!(batches.next(), Some((2, 3)));
    assert_eq!(batches.next(), None);
}

#[test]
fn palimdrome_strings() {
    let wow: Vec<char> = "Wow".chars().flat_map(|x| x.to_lowercase()).collect();

    assert!(wow.palidrome_items());
}

#[test]
fn palindrome_iterators() {
    let wow = vec![0, 1, 0].palidrome_items();

    assert!(wow);
}

#[test]
fn conditional_advancing_keeps_rejected_elements() {
    let mut range: Vec<i32> = vec![0, 1, 2];
    assert_eq!(range.next_if_eq(&0), Some(0));
    assert_eq!(range.next_if_eq(&0), None);
    assert_eq!(range.next_if_ne(&0), Some(1));
    assert_eq!(range.next_if_ge(&5), None);
    assert_eq!(range.next_if_le(&5), Some(2));
    assert_eq!(range.next_if_gt(&0), None);

    let mut range: Vec<i32> = vec![3];
    assert_eq!(vec_next_if(&mut range, |x| x % 2 == 1), Some(3));
    assert_eq!(vec_next_if(&mut range, |x| x % 2 == 1), None);
}

#[test]
fn summarising_through_the_adaptor_interface() {
    let a = vec!["One", "Two", "Two", "Three", "Three"];
    assert!(matches!(a.most_common_with_count(), Some((_, 2))));
    assert!(matches!(a.least_common_with_count(), Some(("One", 1))));
    assert_eq!(2, ReItertools::tally_item(&a, &"Two"));
    assert!(ReItertools::count_items(&a).len() == 3);
    assert!(ReItertools::most_common(&a).is_some());
    assert!(ReItertools::least_common(&a).is_some());
}
