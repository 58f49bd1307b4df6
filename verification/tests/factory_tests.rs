use rusttools::factories::fizzbuzz;
use rusttools::factories::range_with_step;
use rusttools::factories::repeat_interval;
use rusttools::factories::repeat_interval_with;
use rusttools::factories::repeat_values;
use rusttools::factories::sieve_primes;

#[test]
fn sieve_to_10th() {
    let primes = sieve_primes(10);

    assert_eq!(primes, vec![2, 3, 5, 7]);
}

#[test]
fn fizzbuzz_indexes() {
    let first_15: Vec<String> = [
        "1", "2", "Fizz", "4", "Buzz", "Fizz", "7", "8", "Fizz", "Buzz", "11", "Fizz", "13", "14",
        "FizzBuzz",
    ]
    .into_iter()
    .map(str::to_owned)
    .collect();

    assert_eq!(fizzbuzz(15), first_15);
}

#[test]
fn correct_intervals() {
    let bar: Vec<String> = ["", "", "", "", "Bar"].into_iter().map(str::to_owned).collect();

    assert_eq!(repeat_interval("Foo", 3, 3), vec!["", "", "Foo"]);
    assert_eq!(repeat_interval_with(|| String::from("Bar"), 5, 5), bar);

    let foobar = repeat_values(&[("A", 3), ("B", 5)]);

    assert_eq!(foobar, vec!["A", "A", "A", "B", "B", "B", "B", "B"]);
}

#[test]
fn sieve_edges() {
    assert_eq!(sieve_primes(0), Vec::<usize>::new());
    assert_eq!(sieve_primes(1), Vec::<usize>::new());
    assert_eq!(sieve_primes(2), vec![2]);
    assert_eq!(sieve_primes(30), vec![2, 3, 5, 7, 11, 13, 17, 19, 23, 29]);
}

#[test]
fn stepped_ranges() {
    assert_eq!(range_with_step(0..10, 2), vec![0, 2, 4, 6, 8]);
    assert_eq!(range_with_step(3..4, 5), vec![3]);
    assert_eq!(range_with_step(7..7, 1), Vec::<usize>::new());
}

#[test]
fn fizzbuzz_starts_counting_at_one() {
    assert_eq!(fizzbuzz(0), Vec::<String>::new());
    assert_eq!(fizzbuzz(1), vec!["1".to_owned()]);
    let long = fizzbuzz(30);
    assert_eq!(long[29], "FizzBuzz");
    assert_eq!(long[24], "Buzz");
    assert_eq!(long[26], "Fizz");
    assert_eq!(long[21], "22");
}
