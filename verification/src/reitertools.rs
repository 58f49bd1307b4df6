//! Iterator-style extension interfaces over vectors: tallying and
//! summarising elements, bespoke advancing through a stored closure, and
//! conditional advancing that keeps a rejected element in place.

use core::cmp::Ordering;
use std::collections::HashMap;
use vstd::prelude::*;
use vstd::std_specs::cmp::PartialEqSpec;
use vstd::std_specs::cmp::PartialOrdSpec;
use vstd::std_specs::hash::obeys_key_model;

use crate::traits::summarise_collection::eq_decides;
use crate::traits::summarise_collection::occurrences;
use crate::traits::summarise_collection::tally_spec;

verus! {

/// Whether `s` reads the same from both ends.
pub open spec fn is_palindrome<T>(s: Seq<T>) -> bool {
    forall|i: int| 0 <= i < s.len() ==> #[trigger] s[i] == s[s.len() - 1 - i]
}

/// An interface to extend collections with additional summarising
/// methods, in the style of iterator adaptors.
pub trait ReItertools {
    /// The type of the items being summarised.
    type Item: PartialEq + core::cmp::Eq + core::hash::Hash + Copy;

    /// The items the collection yields, in order.
    spec fn yielded(&self) -> Seq<Self::Item>;

    /// Counts the number of times the referenced item appears, as the
    /// items' own equality sees it.
    fn tally_item(&self, find: &Self::Item) -> (count: usize)
        ensures
            <Self::Item as PartialEqSpec>::obeys_eq_spec() ==> count == tally_spec(
                self.yielded(),
                *find,
            ),
    ;

    /// Counts the number of times each unique element appears.
    fn count_items(&self) -> (counts: HashMap<Self::Item, usize>)
        ensures
            obeys_key_model::<Self::Item>() ==> {
                &&& forall|k: Self::Item| #[trigger]
                    counts@.contains_key(k) <==> self.yielded().contains(k)
                &&& forall|k: Self::Item| #[trigger]
                    counts@.contains_key(k) ==> counts@[k] == occurrences(self.yielded(), k)
            },
    ;

    /// The element yielded most often, with its count; nothing when the
    /// collection is empty. Of several most common elements, one is
    /// returned.
    fn most_common_with_count(&self) -> (result: Option<(Self::Item, usize)>)
        ensures
            (result is Some) <==> self.yielded().len() > 0,
            eq_decides::<Self::Item>() ==> match result {
                Some(best) => self.yielded().contains(best.0) && best.1 == occurrences(
                    self.yielded(),
                    best.0,
                ) && forall|j: int|
                    0 <= j < self.yielded().len() ==> occurrences(
                        self.yielded(),
                        #[trigger] self.yielded()[j],
                    ) <= best.1,
                None => true,
            },
    ;

    /// The element yielded most often; nothing when the collection is
    /// empty.
    fn most_common(&self) -> (result: Option<Self::Item>)
        ensures
            (result is Some) <==> self.yielded().len() > 0,
    ;

    /// The element yielded least often, with its count; nothing when the
    /// collection is empty. Of several least common elements, one is
    /// returned.
    fn least_common_with_count(&self) -> (result: Option<(Self::Item, usize)>)
        ensures
            (result is Some) <==> self.yielded().len() > 0,
            eq_decides::<Self::Item>() ==> match result {
                Some(best) => self.yielded().contains(best.0) && best.1 == occurrences(
                    self.yielded(),
                    best.0,
                ) && forall|j: int|
                    0 <= j < self.yielded().len() ==> occurrences(
                        self.yielded(),
                        #[trigger] self.yielded()[j],
                    ) >= best.1,
                None => true,
            },
    ;

    /// The element yielded least often; nothing when the collection is
    /// empty.
    fn least_common(&self) -> (result: Option<Self::Item>)
        ensures
            (result is Some) <==> self.yielded().len() > 0,
    ;

    /// Tests whether the elements are mirrored: the collection reads the
    /// same from the front and from the back. An empty collection is a
    /// palindrome.
    fn palidrome_items(&self) -> (mirrored: bool)
        ensures
            eq_decides::<Self::Item>() ==> mirrored == is_palindrome(self.yielded()),
    ;
}

impl<T: PartialEq + core::cmp::Eq + core::hash::Hash + Copy> ReItertools for Vec<T> {
    type Item = T;

    open spec fn yielded(&self) -> Seq<T> {
        self@
    }

    fn tally_item(&self, find: &T) -> (count: usize) {
        crate::traits::summarise_collection::TallyItems::tally_item(self, find)
    }

    fn count_items(&self) -> (counts: HashMap<T, usize>) {
        crate::traits::summarise_collection::SummariseCollection::count_items(self)
    }

    fn most_common_with_count(&self) -> (result: Option<(T, usize)>) {
        crate::traits::summarise_collection::SummariseCollection::most_common_count(self)
    }

    fn most_common(&self) -> (result: Option<T>) {
        crate::traits::summarise_collection::SummariseCollection::most_common(self)
    }

    fn least_common_with_count(&self) -> (result: Option<(T, usize)>) {
        crate::traits::summarise_collection::SummariseCollection::least_common_count(self)
    }

    fn least_common(&self) -> (result: Option<T>) {
        crate::traits::summarise_collection::SummariseCollection::least_common(self)
    }

    fn palidrome_items(&self) -> (mirrored: bool) {
        let n = self.len();
        let mut i: usize = 0;
        while i < n / 2
            invariant
                i <= n / 2,
                n == self@.len(),
                eq_decides::<T>() ==> forall|j: int|
                    0 <= j < i ==> #[trigger] self@[j] == self@[n - 1 - j],
            decreases n / 2 - i,
        {
            if !self[i].eq(&self[n - 1 - i]) {
                proof {
                    if eq_decides::<T>() {
                        assert(self@[i as int] != self@[n - 1 - i]);
                        assert(!is_palindrome(self@));
                    }
                }
                return false;
            }
            i += 1;
        }
        proof {
            if eq_decides::<T>() {
                assert forall|j: int| 0 <= j < n implies #[trigger] self@[j] == self@[n - 1 - j] by {
                    if j < n / 2 {
                    } else if n - 1 - j < n / 2 {
                        assert(self@[n - 1 - j] == self@[n - 1 - (n - 1 - j)]);
                    } else {
                        assert(j == n - 1 - j);
                    }
                }
            }
        }
        true
    }
}

/// A meta iterator: its closure receives the inner collection by mutable
/// reference, so bespoke advancing behaviour — batching, conditional
/// takes — can be expressed over it.
pub struct NextWith<I, F> {
    next: F,
    inner: I,
}

impl<T, I, F> NextWith<I, F> where F: Fn(&mut I) -> Option<T> {
    /// The inner collection, for contracts.
    pub closed spec fn spec_inner(&self) -> I {
        self.inner
    }

    /// The advancing closure, for contracts.
    pub closed spec fn spec_next(&self) -> F {
        self.next
    }

    /// Constructs a new `NextWith` from the passed closure and
    /// collection.
    pub fn new(next: F, inner: I) -> (r: NextWith<I, F>)
        ensures
            r.spec_next() == next,
            r.spec_inner() == inner,
    {
        NextWith { next, inner }
    }

    /// Deconstructs the adaptor into its inner collection.
    pub fn into_inner(self) -> (inner: I)
        ensures
            inner == self.spec_inner(),
    {
        self.inner
    }

    /// Advances once: hands the inner collection to the closure and
    /// returns what the closure decided.
    pub fn next(&mut self) -> (item: Option<T>)
        requires
            forall|i: &mut I| call_requires(old(self).spec_next(), (i,)),
        ensures
            final(self).spec_next() == old(self).spec_next(),
    {
        (self.next)(&mut self.inner)
    }
}

/// Consumes and returns the front element of `v` when `func` accepts
/// it; otherwise leaves it in place and returns nothing.
pub fn vec_next_if<T: Copy, F: Fn(&T) -> bool>(v: &mut Vec<T>, func: F) -> (taken: Option<T>)
    requires
        forall|x: T| call_requires(func, (&x,)),
    ensures
        match taken {
            Some(x) => old(v)@.len() > 0 && x == old(v)@.first() && final(v)@ == old(
                v,
            )@.drop_first() && call_ensures(func, (&x,), true),
            None => final(v)@ == old(v)@ && (old(v)@.len() > 0 ==> call_ensures(
                func,
                (&old(v)@.first(),),
                false,
            )),
        },
{
    if v.len() == 0 {
        return None;
    }
    let front: T = v[0];
    if func(&front) {
        let taken = v.remove(0);
        proof {
            assert(v@ =~= old(v)@.drop_first());
        }
        Some(taken)
    } else {
        None
    }
}

/// An interface for collections with the capacity to retain values which
/// do not meet a condition to advance: a rejected element stays at the
/// front.
pub trait ConditionalAdvance {
    /// The type of the elements being advanced over.
    type Item: Copy + PartialEq + PartialOrd;

    /// The elements still to come, in order.
    spec fn upcoming(&self) -> Seq<Self::Item>;

    /// Consumes and returns the front element when it equals `expected`;
    /// otherwise leaves it in place.
    fn next_if_eq(&mut self, expected: &Self::Item) -> (taken: Option<Self::Item>)
        ensures
            <Self::Item as PartialEqSpec>::obeys_eq_spec() ==> match taken {
                Some(x) => old(self).upcoming().len() > 0 && x == old(self).upcoming().first()
                    && final(self).upcoming() == old(self).upcoming().drop_first()
                    && x.eq_spec(expected),
                None => final(self).upcoming() == old(self).upcoming() && (old(
                    self,
                ).upcoming().len() > 0 ==> !old(self).upcoming().first().eq_spec(expected)),
            },
    ;

    /// Consumes and returns the front element when it differs from
    /// `expected`; otherwise leaves it in place.
    fn next_if_ne(&mut self, expected: &Self::Item) -> (taken: Option<Self::Item>)
        ensures
            <Self::Item as PartialEqSpec>::obeys_eq_spec() ==> match taken {
                Some(x) => old(self).upcoming().len() > 0 && x == old(self).upcoming().first()
                    && final(self).upcoming() == old(self).upcoming().drop_first()
                    && !x.eq_spec(expected),
                None => final(self).upcoming() == old(self).upcoming() && (old(
                    self,
                ).upcoming().len() > 0 ==> old(self).upcoming().first().eq_spec(expected)),
            },
    ;

    /// Consumes and returns the front element when it is at most
    /// `expected`; otherwise leaves it in place.
    fn next_if_le(&mut self, expected: &Self::Item) -> (taken: Option<Self::Item>)
        ensures
            <Self::Item as PartialOrdSpec>::obeys_partial_cmp_spec() ==> match taken {
                Some(x) => old(self).upcoming().len() > 0 && x == old(self).upcoming().first()
                    && final(self).upcoming() == old(self).upcoming().drop_first()
                    && x.partial_cmp_spec(expected) matches Some(
                    Ordering::Less
                    | Ordering::Equal,
                ),
                None => final(self).upcoming() == old(self).upcoming(),
            },
    ;

    /// Consumes and returns the front element when it is less than
    /// `expected`; otherwise leaves it in place.
    fn next_if_lt(&mut self, expected: &Self::Item) -> (taken: Option<Self::Item>)
        ensures
            <Self::Item as PartialOrdSpec>::obeys_partial_cmp_spec() ==> match taken {
                Some(x) => old(self).upcoming().len() > 0 && x == old(self).upcoming().first()
                    && final(self).upcoming() == old(self).upcoming().drop_first()
                    && x.partial_cmp_spec(expected) == Some(Ordering::Less),
                None => final(self).upcoming() == old(self).upcoming(),
            },
    ;

    /// Consumes and returns the front element when it is at least
    /// `expected`; otherwise leaves it in place.
    fn next_if_ge(&mut self, expected: &Self::Item) -> (taken: Option<Self::Item>)
        ensures
            <Self::Item as PartialOrdSpec>::obeys_partial_cmp_spec() ==> match taken {
                Some(x) => old(self).upcoming().len() > 0 && x == old(self).upcoming().first()
                    && final(self).upcoming() == old(self).upcoming().drop_first()
                    && x.partial_cmp_spec(expected) matches Some(
                    Ordering::Greater
                    | Ordering::Equal,
                ),
                None => final(self).upcoming() == old(self).upcoming(),
            },
    ;

    /// Consumes and returns the front element when it is greater than
    /// `expected`; otherwise leaves it in place.
    fn next_if_gt(&mut self, expected: &Self::Item) -> (taken: Option<Self::Item>)
        ensures
            <Self::Item as PartialOrdSpec>::obeys_partial_cmp_spec() ==> match taken {
                Some(x) => old(self).upcoming().len() > 0 && x == old(self).upcoming().first()
                    && final(self).upcoming() == old(self).upcoming().drop_first()
                    && x.partial_cmp_spec(expected) == Some(Ordering::Greater),
                None => final(self).upcoming() == old(self).upcoming(),
            },
    ;
}

impl<T: Copy + PartialEq + PartialOrd> ConditionalAdvance for Vec<T> {
    type Item = T;

    open spec fn upcoming(&self) -> Seq<T> {
        self@
    }

    fn next_if_eq(&mut self, expected: &T) -> (taken: Option<T>) {
        if self.len() == 0 {
            return None;
        }
        let front: T = self[0];
        if front.eq(expected) {
            let taken = self.remove(0);
            proof {
                assert(self@ =~= old(self)@.drop_first());
            }
            Some(taken)
        } else {
            None
        }
    }

    fn next_if_ne(&mut self, expected: &T) -> (taken: Option<T>) {
        if self.len() == 0 {
            return None;
        }
        let front: T = self[0];
        if front.ne(expected) {
            let taken = self.remove(0);
            proof {
                assert(self@ =~= old(self)@.drop_first());
            }
            Some(taken)
        } else {
            None
        }
    }

    fn next_if_le(&mut self, expected: &T) -> (taken: Option<T>) {
        if self.len() == 0 {
            return None;
        }
        let front: T = self[0];
        if front.le(expected) {
            let taken = self.remove(0);
            proof {
                assert(self@ =~= old(self)@.drop_first());
            }
            Some(taken)
        } else {
            None
        }
    }

    fn next_if_lt(&mut self, expected: &T) -> (taken: Option<T>) {
        if self.len() == 0 {
            return None;
        }
        let front: T = self[0];
        if front.lt(expected) {
            let taken = self.remove(0);
            proof {
                assert(self@ =~= old(self)@.drop_first());
            }
            Some(taken)
        } else {
            None
        }
    }

    fn next_if_ge(&mut self, expected: &T) -> (taken: Option<T>) {
        if self.len() == 0 {
            return None;
        }
        let front: T = self[0];
        if front.ge(expected) {
            let taken = self.remove(0);
            proof {
                assert(self@ =~= old(self)@.drop_first());
            }
            Some(taken)
        } else {
            None
        }
    }

    fn next_if_gt(&mut self, expected: &T) -> (taken: Option<T>) {
        if self.len() == 0 {
            return None;
        }
        let front: T = self[0];
        if front.gt(expected) {
            let taken = self.remove(0);
            proof {
                assert(self@ =~= old(self)@.drop_first());
            }
            Some(taken)
        } else {
            None
        }
    }
}

} // verus!
