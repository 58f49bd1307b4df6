//! Interfaces for summarising collections: tallying one item, counting
//! every item, and picking the most or least common one.

use std::collections::HashMap;
use vstd::prelude::*;
use vstd::std_specs::cmp::PartialEqSpec;
use vstd::std_specs::hash::obeys_key_model;

verus! {

broadcast use vstd::std_specs::hash::group_hash_axioms;

/// How many items of `s` the executable equality relates to `find`.
pub open spec fn tally_spec<T: PartialEqSpec>(s: Seq<T>, find: T) -> nat
    decreases s.len(),
{
    if s.len() == 0 {
        0
    } else {
        (if s.last().eq_spec(&find) {
            1nat
        } else {
            0nat
        }) + tally_spec(s.drop_last(), find)
    }
}

/// How many items of `s` are the value `x`.
pub open spec fn occurrences<T>(s: Seq<T>, x: T) -> nat
    decreases s.len(),
{
    if s.len() == 0 {
        0
    } else {
        (if s.last() == x {
            1nat
        } else {
            0nat
        }) + occurrences(s.drop_last(), x)
    }
}

/// Whether the executable equality of `T` decides equality of values:
/// its comparison follows its specification, and that specification is
/// equality itself. The primitive types are like this.
pub open spec fn eq_decides<T: PartialEqSpec>() -> bool {
    &&& T::obeys_eq_spec()
    &&& forall|a: T, b: T| #[trigger] a.eq_spec(&b) <==> a == b
}

/// An interface for counting the number of times the referenced item
/// appears in a collection.
pub trait TallyItems {
    /// The type of the items being tallied.
    type Item: PartialEq;

    /// The items the collection holds, in order.
    spec fn items(&self) -> Seq<Self::Item>;

    /// Counts the number of times the referenced item appears in the
    /// collection, as the items' own equality sees it.
    fn tally_item(&self, find: &Self::Item) -> (count: usize)
        ensures
            <Self::Item as PartialEqSpec>::obeys_eq_spec() ==> count == tally_spec(
                self.items(),
                *find,
            ),
    ;
}

impl<T: PartialEq> TallyItems for Vec<T> {
    type Item = T;

    open spec fn items(&self) -> Seq<T> {
        self@
    }

    fn tally_item(&self, find: &T) -> (count: usize) {
        let mut count: usize = 0;
        let mut i: usize = 0;
        proof {
            assert(self@.take(0) =~= Seq::<T>::empty());
        }
        while i < self.len()
            invariant
                i <= self@.len(),
                count <= i,
                T::obeys_eq_spec() ==> count == tally_spec(self@.take(i as int), *find),
            decreases self@.len() - i,
        {
            proof {
                assert(self@.take(i + 1).drop_last() =~= self@.take(i as int));
                assert(self@.take(i + 1).last() == self@[i as int]);
            }
            if self[i].eq(find) {
                count += 1;
            }
            i += 1;
        }
        proof {
            assert(self@.take(self@.len() as int) =~= self@);
        }
        count
    }
}


/// A value absent from a sequence occurs zero times in it.
proof fn lemma_occurrences_absent<T>(s: Seq<T>, x: T)
    requires
        !s.contains(x),
    ensures
        occurrences(s, x) == 0,
    decreases s.len(),
{
    if s.len() > 0 {
        assert(s.last() != x) by {
            if s.last() == x {
                assert(s[s.len() - 1] == x);
            }
        }
        assert(!s.drop_last().contains(x)) by {
            if s.drop_last().contains(x) {
                let w = choose|w: int| 0 <= w < s.len() - 1 && (#[trigger] s.drop_last()[w]) == x;
                assert(s[w] == x);
            }
        }
        lemma_occurrences_absent(s.drop_last(), x);
    }
}

/// How many items of `v` the executable equality matches with `x`.
fn matching_count<T: PartialEq>(v: &Vec<T>, x: &T) -> (count: usize)
    ensures
        eq_decides::<T>() ==> count == occurrences(v@, *x),
{
    let mut count: usize = 0;
    let mut i: usize = 0;
    proof {
        assert(v@.take(0) =~= Seq::<T>::empty());
    }
    while i < v.len()
        invariant
            i <= v@.len(),
            count <= i,
            eq_decides::<T>() ==> count == occurrences(v@.take(i as int), *x),
        decreases v@.len() - i,
    {
        proof {
            assert(v@.take(i + 1).drop_last() =~= v@.take(i as int));
            assert(v@.take(i + 1).last() == v@[i as int]);
        }
        if v[i].eq(x) {
            count += 1;
        }
        i += 1;
    }
    proof {
        assert(v@.take(v@.len() as int) =~= v@);
    }
    count
}

/// The item of `v` whose occurrence count is largest (or smallest, when
/// `want_max` is false), paired with that count; nothing when `v` is
/// empty. Of several extremes, one is returned.
fn extreme_count<T: PartialEq + Copy>(v: &Vec<T>, want_max: bool) -> (result: Option<(T, usize)>)
    ensures
        (result is Some) <==> v@.len() > 0,
        eq_decides::<T>() ==> match result {
            Some(best) => v@.contains(best.0) && best.1 == occurrences(v@, best.0) && forall|j: int|
                0 <= j < v@.len() ==> (if want_max {
                    occurrences(v@, #[trigger] v@[j]) <= best.1
                } else {
                    occurrences(v@, v@[j]) >= best.1
                }),
            None => true,
        },
{
    if v.len() == 0 {
        return None;
    }
    let first = v[0];
    let mut best: T = first;
    let mut best_count: usize = matching_count(v, &first);
    let mut i: usize = 1;
    while i < v.len()
        invariant
            1 <= i <= v@.len(),
            eq_decides::<T>() ==> {
                &&& v@.contains(best)
                &&& best_count == occurrences(v@, best)
                &&& forall|j: int|
                    0 <= j < i ==> (if want_max {
                        occurrences(v@, #[trigger] v@[j]) <= best_count
                    } else {
                        occurrences(v@, v@[j]) >= best_count
                    })
            },
        decreases v@.len() - i,
    {
        let candidate = v[i];
        let count = matching_count(v, &candidate);
        if (want_max && count > best_count) || (!want_max && count < best_count) {
            best = candidate;
            best_count = count;
        }
        i += 1;
    }
    Some((best, best_count))
}

/// An interface for summarising a collection of values: counting every
/// item, and picking the most or least common one.
pub trait SummariseCollection {
    /// The type of the items in the collection being summarised.
    type Item: PartialEq + core::cmp::Eq + core::hash::Hash + Copy;

    /// The items the collection holds, in order.
    spec fn elements(&self) -> Seq<Self::Item>;

    /// Counts the number of times each value appears in the collection,
    /// as a map from value to occurrence count.
    fn count_items(&self) -> (counts: HashMap<Self::Item, usize>)
        ensures
            obeys_key_model::<Self::Item>() ==> {
                &&& forall|k: Self::Item| #[trigger]
                    counts@.contains_key(k) <==> self.elements().contains(k)
                &&& forall|k: Self::Item| #[trigger]
                    counts@.contains_key(k) ==> counts@[k] == occurrences(self.elements(), k)
            },
    ;

    /// The most common item of the collection, with the number of times
    /// it occurs; nothing when the collection is empty. Of several most
    /// common items, one is returned.
    fn most_common_count(&self) -> (result: Option<(Self::Item, usize)>)
        ensures
            (result is Some) <==> self.elements().len() > 0,
            eq_decides::<Self::Item>() ==> match result {
                Some(best) => self.elements().contains(best.0) && best.1 == occurrences(
                    self.elements(),
                    best.0,
                ) && forall|j: int|
                    0 <= j < self.elements().len() ==> occurrences(
                        self.elements(),
                        #[trigger] self.elements()[j],
                    ) <= best.1,
                None => true,
            },
    ;

    /// The most common item of the collection; nothing when the
    /// collection is empty.
    fn most_common(&self) -> (result: Option<Self::Item>)
        ensures
            (result is Some) <==> self.elements().len() > 0,
            eq_decides::<Self::Item>() ==> match result {
                Some(x) => self.elements().contains(x) && forall|j: int|
                    0 <= j < self.elements().len() ==> occurrences(
                        self.elements(),
                        #[trigger] self.elements()[j],
                    ) <= occurrences(self.elements(), x),
                None => true,
            },
    ;

    /// The least common item of the collection, with the number of times
    /// it occurs; nothing when the collection is empty. Of several least
    /// common items, one is returned.
    fn least_common_count(&self) -> (result: Option<(Self::Item, usize)>)
        ensures
            (result is Some) <==> self.elements().len() > 0,
            eq_decides::<Self::Item>() ==> match result {
                Some(best) => self.elements().contains(best.0) && best.1 == occurrences(
                    self.elements(),
                    best.0,
                ) && forall|j: int|
                    0 <= j < self.elements().len() ==> occurrences(
                        self.elements(),
                        #[trigger] self.elements()[j],
                    ) >= best.1,
                None => true,
            },
    ;

    /// The least common item of the collection; nothing when the
    /// collection is empty.
    fn least_common(&self) -> (result: Option<Self::Item>)
        ensures
            (result is Some) <==> self.elements().len() > 0,
            eq_decides::<Self::Item>() ==> match result {
                Some(x) => self.elements().contains(x) && forall|j: int|
                    0 <= j < self.elements().len() ==> occurrences(
                        self.elements(),
                        #[trigger] self.elements()[j],
                    ) >= occurrences(self.elements(), x),
                None => true,
            },
    ;
}

impl<T: PartialEq + core::cmp::Eq + core::hash::Hash + Copy> SummariseCollection for Vec<T> {
    type Item = T;

    open spec fn elements(&self) -> Seq<T> {
        self@
    }

    fn count_items(&self) -> (counts: HashMap<T, usize>) {
        let mut counts: HashMap<T, usize> = HashMap::new();
        let mut i: usize = 0;
        proof {
            assert(self@.take(0) =~= Seq::<T>::empty());
        }
        while i < self.len()
            invariant
                i <= self@.len(),
                obeys_key_model::<T>() ==> {
                    &&& forall|k: T| #[trigger]
                        counts@.contains_key(k) <==> self@.take(i as int).contains(k)
                    &&& forall|k: T| #[trigger]
                        counts@.contains_key(k) ==> counts@[k] == occurrences(
                            self@.take(i as int),
                            k,
                        ) && counts@[k] <= i
                },
            decreases self@.len() - i,
        {
            proof {
                assert(self@.take(i + 1).drop_last() =~= self@.take(i as int));
                assert(self@.take(i + 1).last() == self@[i as int]);
            }
            let e = self[i];
            let next = match counts.get(&e) {
                Some(c) => c.saturating_add(1),
                None => 1,
            };
            let ghost counts0 = counts@;
            counts.insert(e, next);
            proof {
                if obeys_key_model::<T>() {
                    assert forall|k: T| #[trigger]
                        counts@.contains_key(k) <==> self@.take(i + 1).contains(k) by {
                        if counts@.contains_key(k) && k != self@[i as int] {
                            assert(self@.take(i as int).contains(k));
                            let w = choose|w: int|
                                0 <= w < i && (#[trigger] self@.take(i as int)[w]) == k;
                            assert(self@.take(i + 1)[w] == k);
                        }
                        if self@.take(i + 1).contains(k) && k != self@[i as int] {
                            let w = choose|w: int|
                                0 <= w < i + 1 && (#[trigger] self@.take(i + 1)[w]) == k;
                            assert(self@.take(i as int)[w] == k);
                        }
                        if k == self@[i as int] {
                            assert(self@.take(i + 1)[i as int] == k);
                        }
                    }
                    assert forall|k: T| #[trigger] counts@.contains_key(k) implies counts@[k]
                        == occurrences(self@.take(i + 1), k) && counts@[k] <= i + 1 by {
                        if k != self@[i as int] {
                            assert(counts@[k] == counts0[k]);
                            assert(occurrences(self@.take(i + 1), k) == occurrences(
                                self@.take(i as int),
                                k,
                            ));
                        } else if !counts0.contains_key(k) {
                            assert(!self@.take(i as int).contains(k));
                            lemma_occurrences_absent(self@.take(i as int), k);
                        }
                    }
                }
            }
            i += 1;
        }
        proof {
            assert(self@.take(self@.len() as int) =~= self@);
        }
        counts
    }

    fn most_common_count(&self) -> (result: Option<(T, usize)>) {
        extreme_count(self, true)
    }

    fn most_common(&self) -> (result: Option<T>) {
        match extreme_count(self, true) {
            Some(best) => Some(best.0),
            None => None,
        }
    }

    fn least_common_count(&self) -> (result: Option<(T, usize)>) {
        extreme_count(self, false)
    }

    fn least_common(&self) -> (result: Option<T>) {
        match extreme_count(self, false) {
            Some(best) => Some(best.0),
            None => None,
        }
    }
}

} // verus!
