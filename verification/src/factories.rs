//! Factories that build familiar sequences: the primes up to a bound, the
//! fizz-buzz word game, stepped ranges and repetition patterns.

use vstd::prelude::*;
use vstd::string::StringExecFns;

verus! {

/// Whether `n` is a prime number: at least two, with no divisor strictly
/// between one and itself.
pub open spec fn is_prime(n: int) -> bool {
    n >= 2 && forall|d: int| 2 <= d < n ==> #[trigger] (n % d) != 0
}

/// Whether `n` has a divisor strictly between one and itself, checking
/// candidates from `d` upwards.
fn has_divisor_from(n: usize, d: usize) -> (found: bool)
    requires
        2 <= d <= n,
        forall|e: int| 2 <= e < d ==> #[trigger] (n as int % e) != 0,
    ensures
        found == exists|e: int| 2 <= e < n && #[trigger] (n as int % e) == 0,
    decreases n - d,
{
    if d == n {
        false
    } else if n % d == 0 {
        true
    } else {
        has_divisor_from(n, d + 1)
    }
}

/// Whether `n` is prime, by trial division.
fn is_prime_exec(n: usize) -> (prime: bool)
    ensures
        prime == is_prime(n as int),
{
    if n < 2 {
        false
    } else {
        !has_divisor_from(n, 2)
    }
}

/// Any element a sequence holds is still held after a push.
proof fn lemma_contains_after_push(s: Seq<usize>, x: usize, p: usize)
    requires
        s.contains(p) || p == x,
    ensures
        s.push(x).contains(p),
{
    if s.contains(p) {
        let i = choose|i: int| 0 <= i < s.len() && s[i] == p;
        assert(s.push(x)[i] == p);
    } else {
        assert(s.push(x)[s.len() as int] == p);
    }
}

/// All the primes less than or equal to `upper_bound`, in increasing
/// order: every entry is prime and no prime within the bound is missing.
pub fn sieve_primes(upper_bound: usize) -> (primes: Vec<usize>)
    ensures
        forall|i: int|
            0 <= i < primes@.len() ==> is_prime(#[trigger] primes@[i] as int) && primes@[i]
                <= upper_bound,
        forall|i: int, j: int| 0 <= i < j < primes@.len() ==> primes@[i] < primes@[j],
        forall|p: int| 2 <= p <= upper_bound && is_prime(p) ==> primes@.contains(p as usize),
{
    let mut primes: Vec<usize> = Vec::new();
    if upper_bound < 2 {
        return primes;
    }
    let mut n: usize = 2;
    while n < upper_bound
        invariant
            2 <= n <= upper_bound,
            forall|i: int|
                0 <= i < primes@.len() ==> is_prime(#[trigger] primes@[i] as int) && primes@[i] < n,
            forall|i: int, j: int| 0 <= i < j < primes@.len() ==> primes@[i] < primes@[j],
            forall|p: int| 2 <= p < n && is_prime(p) ==> primes@.contains(p as usize),
        decreases upper_bound - n,
    {
        let ghost before = primes@;
        if is_prime_exec(n) {
            primes.push(n);
        }
        proof {
            assert forall|p: int| 2 <= p < n + 1 && is_prime(p) implies primes@.contains(
                p as usize,
            ) by {
                if primes@ != before {
                    lemma_contains_after_push(before, n, p as usize);
                }
            }
        }
        n += 1;
    }
    let ghost before = primes@;
    if is_prime_exec(upper_bound) {
        primes.push(upper_bound);
    }
    proof {
        assert forall|p: int| 2 <= p <= upper_bound && is_prime(p) implies primes@.contains(
            p as usize,
        ) by {
            if p < upper_bound {
                assert(before.contains(p as usize));
            }
            if primes@ != before {
                lemma_contains_after_push(before, upper_bound, p as usize);
            }
        }
    }
    primes
}

/// The values of `range` taken in steps of `step`: the first value is the
/// range's start, each later value is one step further, and the walk
/// covers the whole range — one more step from the last value would leave
/// it.
pub fn range_with_step(range: core::ops::Range<usize>, step: usize) -> (values: Vec<usize>)
    requires
        step >= 1,
    ensures
        forall|i: int|
            0 <= i < values@.len() ==> #[trigger] values@[i] == range.start + i * step
                && values@[i] < range.end,
        range.start >= range.end ==> values@.len() == 0,
        range.start < range.end ==> values@.len() >= 1 && range.start + values@.len() * step
            >= range.end,
{
    let mut values: Vec<usize> = Vec::new();
    if range.start >= range.end {
        return values;
    }
    let mut next: usize = range.start;
    proof {
        assert(values@.len() * step == 0) by (nonlinear_arith)
            requires
                values@.len() == 0,
        ;
    }
    loop
        invariant
            step >= 1,
            range.start < range.end,
            next == range.start + values@.len() * step,
            next < range.end || values@.len() >= 1,
            forall|i: int|
                0 <= i < values@.len() ==> #[trigger] values@[i] == range.start + i * step
                    && values@[i] < range.end,
        ensures
            next >= range.end,
            next == range.start + values@.len() * step,
            values@.len() >= 1,
            forall|i: int|
                0 <= i < values@.len() ==> #[trigger] values@[i] == range.start + i * step
                    && values@[i] < range.end,
        decreases range.end - next,
    {
        if next >= range.end {
            break ;
        }
        values.push(next);
        proof {
            assert(values@.len() * step == (values@.len() - 1) * step + step) by (nonlinear_arith);
        }
        if range.end - next <= step {
            return values;
        }
        next += step;
    }
    values
}


/// The decimal digit character for `d`.
pub open spec fn digit_char(d: int) -> char {
    if d == 0 {
        '0'
    } else if d == 1 {
        '1'
    } else if d == 2 {
        '2'
    } else if d == 3 {
        '3'
    } else if d == 4 {
        '4'
    } else if d == 5 {
        '5'
    } else if d == 6 {
        '6'
    } else if d == 7 {
        '7'
    } else if d == 8 {
        '8'
    } else {
        '9'
    }
}

/// The decimal numeral of `n`, most significant digit first.
pub open spec fn dec_str(n: nat) -> Seq<char>
    decreases n,
{
    if n < 10 {
        seq![digit_char(n as int)]
    } else {
        dec_str(n / 10) + seq![digit_char((n % 10) as int)]
    }
}

/// The decimal digit `d` as a string slice.
fn digit_str(d: usize) -> (s: &'static str)
    requires
        d < 10,
    ensures
        s@ == seq![digit_char(d as int)],
{
    proof {
        reveal_strlit("0");
        reveal_strlit("1");
        reveal_strlit("2");
        reveal_strlit("3");
        reveal_strlit("4");
        reveal_strlit("5");
        reveal_strlit("6");
        reveal_strlit("7");
        reveal_strlit("8");
        reveal_strlit("9");
    }
    let s = match d {
        0 => "0",
        1 => "1",
        2 => "2",
        3 => "3",
        4 => "4",
        5 => "5",
        6 => "6",
        7 => "7",
        8 => "8",
        _ => "9",
    };
    proof {
        assert(s@ =~= seq![digit_char(d as int)]);
    }
    s
}

/// The decimal numeral of `n` as a string.
fn to_dec_string(n: usize) -> (s: String)
    ensures
        s@ == dec_str(n as nat),
    decreases n,
{
    if n < 10 {
        digit_str(n).to_owned()
    } else {
        let mut s = to_dec_string(n / 10);
        s.append(digit_str(n % 10));
        s
    }
}

/// The fizz-buzz word for position `n`, counting from one: multiples of
/// fifteen say FizzBuzz, multiples of three say Fizz, multiples of five
/// say Buzz, and anything else gives its own decimal numeral.
pub open spec fn fizzbuzz_entry(n: nat) -> Seq<char> {
    if n % 15 == 0 {
        "FizzBuzz"@
    } else if n % 3 == 0 {
        "Fizz"@
    } else if n % 5 == 0 {
        "Buzz"@
    } else {
        dec_str(n)
    }
}

/// The first `count` values of the fizz-buzz sequence, which starts at
/// position one.
pub fn fizzbuzz(count: usize) -> (values: Vec<String>)
    ensures
        values@.len() == count,
        forall|i: int|
            0 <= i < count ==> (#[trigger] values@[i])@ == fizzbuzz_entry((i + 1) as nat),
{
    let mut values: Vec<String> = Vec::new();
    let mut k: usize = 0;
    while k < count
        invariant
            k <= count,
            values@.len() == k,
            forall|i: int|
                0 <= i < k ==> (#[trigger] values@[i])@ == fizzbuzz_entry((i + 1) as nat),
        decreases count - k,
    {
        let n = k + 1;
        let s: String = if n % 15 == 0 {
            "FizzBuzz".to_owned()
        } else if n % 3 == 0 {
            "Fizz".to_owned()
        } else if n % 5 == 0 {
            "Buzz".to_owned()
        } else {
            to_dec_string(n)
        };
        proof {
            assert(s@ == fizzbuzz_entry(n as nat));
        }
        values.push(s);
        k += 1;
    }
    values
}

/// A sequence of `count` values that repeats a filler value, placing
/// `repeat` at every `interval`-th position: all other positions hold one
/// and the same filler.
pub fn repeat_interval<T: Copy + core::default::Default>(
    repeat: T,
    interval: usize,
    count: usize,
) -> (values: Vec<T>)
    requires
        interval >= 1,
    ensures
        values@.len() == count,
        forall|i: int|
            0 <= i < count && (i + 1) % (interval as int) == 0 ==> #[trigger] values@[i] == repeat,
        forall|i: int, j: int|
            #![trigger values@[i], values@[j]]
            0 <= i < count && 0 <= j < count && (i + 1) % (interval as int) != 0 && (j + 1) % (
            interval as int) != 0 ==> values@[i] == values@[j],
{
    let filler: T = T::default();
    let mut values: Vec<T> = Vec::new();
    let mut k: usize = 0;
    while k < count
        invariant
            k <= count,
            values@.len() == k,
            interval >= 1,
            forall|i: int|
                0 <= i < k && (i + 1) % (interval as int) == 0 ==> #[trigger] values@[i] == repeat,
            forall|i: int|
                0 <= i < k && (i + 1) % (interval as int) != 0 ==> #[trigger] values@[i] == filler,
        decreases count - k,
    {
        if (k + 1) % interval == 0 {
            values.push(repeat);
        } else {
            values.push(filler);
        }
        k += 1;
    }
    values
}

/// A sequence of `count` values that repeats freshly produced filler
/// values, placing a result of the `repeat` closure at every
/// `interval`-th position.
pub fn repeat_interval_with<T: core::default::Default, F: Fn() -> T>(
    repeat: F,
    interval: usize,
    count: usize,
) -> (values: Vec<T>)
    requires
        interval >= 1,
        call_requires(repeat, ()),
    ensures
        values@.len() == count,
        forall|i: int|
            0 <= i < count && (i + 1) % (interval as int) == 0 ==> call_ensures(
                repeat,
                (),
                #[trigger] values@[i],
            ),
{
    let mut values: Vec<T> = Vec::new();
    let mut k: usize = 0;
    while k < count
        invariant
            k <= count,
            values@.len() == k,
            interval >= 1,
            call_requires(repeat, ()),
            forall|i: int|
                0 <= i < k && (i + 1) % (interval as int) == 0 ==> call_ensures(
                    repeat,
                    (),
                    #[trigger] values@[i],
                ),
        decreases count - k,
    {
        if (k + 1) % interval == 0 {
            let v = repeat();
            values.push(v);
        } else {
            values.push(T::default());
        }
        k += 1;
    }
    values
}

/// The value `t`, `n` times over.
pub open spec fn repeat_elem<T>(t: T, n: nat) -> Seq<T> {
    Seq::new(n, |i: int| t)
}

/// Each pair's value, repeated as many times as the pair's count, all
/// pairs in order.
pub open spec fn flatten_counts<T>(s: Seq<(T, usize)>) -> Seq<T>
    decreases s.len(),
{
    if s.len() == 0 {
        Seq::empty()
    } else {
        flatten_counts(s.drop_last()) + repeat_elem(s.last().0, s.last().1 as nat)
    }
}

/// Takes the pairs of `repeat` in order and yields each pair's value as
/// many times as the pair's count says.
pub fn repeat_values<T: Copy>(repeat: &[(T, usize)]) -> (values: Vec<T>)
    ensures
        values@ == flatten_counts(repeat@),
{
    let mut values: Vec<T> = Vec::new();
    let mut i: usize = 0;
    proof {
        assert(repeat@.take(0) =~= Seq::<(T, usize)>::empty());
    }
    while i < repeat.len()
        invariant
            i <= repeat@.len(),
            values@ == flatten_counts(repeat@.take(i as int)),
        decreases repeat@.len() - i,
    {
        let (value, cnt) = repeat[i];
        let mut j: usize = 0;
        while j < cnt
            invariant
                j <= cnt,
                i < repeat@.len(),
                (value, cnt) == repeat@[i as int],
                values@ == flatten_counts(repeat@.take(i as int)) + repeat_elem(value, j as nat),
            decreases cnt - j,
        {
            values.push(value);
            proof {
                assert(values@ =~= flatten_counts(repeat@.take(i as int)) + repeat_elem(
                    value,
                    (j + 1) as nat,
                ));
            }
            j += 1;
        }
        proof {
            assert(repeat@.take(i + 1).drop_last() =~= repeat@.take(i as int));
            assert(values@ =~= flatten_counts(repeat@.take(i + 1)));
        }
        i += 1;
    }
    proof {
        assert(repeat@.take(repeat@.len() as int) =~= repeat@);
    }
    values
}

} // verus!
