use rusttools::traits::SummariseCollection;
use rusttools::traits::TallyItems;

#[derive(Clone, Copy, PartialEq, Eq, Debug)]
struct TestType;

#[derive(Clone, PartialEq, Eq, Debug)]
struct TestType2;

#[test]
fn count_items_behaviour() {
    let a = vec![1, 2, 1, 2, 3, 4];
    let b: Vec<i32> = vec![];

    let count_a = a.count_items();
    assert!(!count_a.is_empty());

    let count_b = b.count_items();
    assert!(count_b.is_empty());
}

#[test]
fn most_common_behaviour() {
    let a = vec!["One", "Two", "Three", "Three"];
    let b: Vec<&str> = vec![];

    let most_common_a = a.most_common_count();
    assert!(matches!(most_common_a, Some((_, 2))));

    let most_common_b = b.most_common_count();
    assert!(most_common_b.is_none());
}

#[test]
fn least_common_behaviour() {
    let a = vec!["One", "Two", "Two", "Three", "Three"];
    let b: Vec<&str> = vec![];

    let least_common_a = a.least_common_count();
    assert!(matches!(least_common_a, Some((_, 1))));

    let least_common_b = b.least_common_count();
    assert!(least_common_b.is_none());
}

#[test]
fn tally_test() {
    let a = vec!["One", "Two", "Three", "Three"];
    let b = vec![TestType; 4];
    let c = vec![TestType2, TestType2];

    assert_eq!(2, a.tally_item(&"Three"));
    assert_eq!(4, b.tally_item(&TestType));
    assert_eq!(2, c.tally_item(&TestType2));

    println!("{:?}", c[0]);
}

#[test]
fn count_items_counts_exactly() {
    let a = vec![5u64, 5, 7, 5];
    let counts = a.count_items();
    assert_eq!(counts.get(&5), Some(&3));
    assert_eq!(counts.get(&7), Some(&1));
    assert_eq!(counts.get(&9), None);

    assert_eq!(a.most_common(), Some(5));
    assert_eq!(a.least_common(), Some(7));
}
