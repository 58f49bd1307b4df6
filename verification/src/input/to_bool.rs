//! An interface that processes user input and matches it against word
//! sets standing for true and false, and its error type.

use crate::input::basic_input::TakeBasicInput;
use vstd::prelude::*;

verus! {

/// An error returned when a converted input matches neither of the word
/// sets it was held against.
#[derive(Debug, Clone, PartialEq, Eq, Structural)]
pub struct ToBoolError;

impl ToBoolError {
    /// A human-readable description of the error.
    pub fn message(&self) -> (m: &'static str)
        ensures
            m@ == "input did not map to a value in either parameter array"@,
    {
        "input did not map to a value in either parameter array"
    }
}

/// The views of a set of string slices, in order.
pub open spec fn str_views(set: Seq<&str>) -> Seq<Seq<char>> {
    set.map_values(|x: &str| x@)
}

/// Whether `s` is one of the strings of `set`.
pub open spec fn set_has(set: Seq<Seq<char>>, s: Seq<char>) -> bool {
    exists|i: int| 0 <= i < set.len() && set[i] == s
}

/// How a processed input maps against the true and false word sets: the
/// trimmed input answers true when the true set has it, false when the
/// false set has it, and the error otherwise.
pub open spec fn bool_mapping(processed: Seq<char>, ts: Seq<Seq<char>>, fs: Seq<Seq<char>>) -> Result<
    bool,
    ToBoolError,
> {
    if set_has(ts, crate::trim_spec(processed)) {
        Ok(true)
    } else if set_has(fs, crate::trim_spec(processed)) {
        Ok(false)
    } else {
        Err(ToBoolError)
    }
}

/// Whether the views of `a` and `b` are equal, executably.
fn str_eq(a: &str, b: &str) -> (r: bool)
    ensures
        r == (a@ == b@),
{
    let sa = a.to_owned();
    let sb = b.to_owned();
    sa.eq(&sb)
}

/// Whether `s` is one of the strings of `set`, executably.
fn contains_str(set: &[&str], s: &str) -> (found: bool)
    ensures
        found == set_has(str_views(set@), s@),
{
    let mut i: usize = 0;
    while i < set.len()
        invariant
            i <= set@.len(),
            forall|j: int| 0 <= j < i ==> str_views(set@)[j] != s@,
        decreases set@.len() - i,
    {
        if str_eq(set[i], s) {
            proof {
                assert(str_views(set@)[i as int] == s@);
            }
            return true;
        }
        i += 1;
    }
    false
}

/// Maps a processed input against the two word sets, exactly as
/// [`bool_mapping`] describes: the input is trimmed and held against the
/// true set, then the false set.
pub fn map_to_bool(uinp: &str, t: &[&str], f: &[&str]) -> (result: Result<bool, ToBoolError>)
    ensures
        result == bool_mapping(uinp@, str_views(t@), str_views(f@)),
{
    let trimmed = crate::str_trim(uinp);
    if contains_str(t, trimmed) {
        Ok(true)
    } else if contains_str(f, trimmed) {
        Ok(false)
    } else {
        Err(ToBoolError)
    }
}

/// An interface to process and map user input against boolean cases.
///
/// The input arrives from the implementing source and is handed to the
/// caller's processing closure; the contracts promise that the answer is
/// the faithful mapping of some processed input, whatever the source
/// produced.
pub trait TakeBoolInput<F> where F: Fn(String) -> String, Self: TakeBasicInput {
    /// Takes and processes one input, then maps it to the `t` (true) and
    /// `f` (false) word sets; an input matching neither is the error.
    fn input_to_bool(&self, t: &[&str], f: &[&str], process: F) -> (result: Result<
        bool,
        ToBoolError,
    >)
        requires
            forall|s: String| call_requires(process, (s,)),
        ensures
            exists|raw: String, p: String|
                #[trigger] call_ensures(process, (raw,), p) && result == bool_mapping(
                    p@,
                    str_views(t@),
                    str_views(f@),
                ),
    ;

    /// Takes and processes one input and maps it against the `t` (true)
    /// word set alone; an input outside the set is assumed false. The
    /// input is not trimmed first.
    fn input_to_bool_assume_false(&self, t: &[&str], process: F) -> (result: bool)
        requires
            forall|s: String| call_requires(process, (s,)),
        ensures
            exists|raw: String, p: String|
                #[trigger] call_ensures(process, (raw,), p) && result == set_has(str_views(t@), p@),
    ;

    /// Takes and processes one input and maps it against the `f` (false)
    /// word set alone; an input outside the set is assumed true. The
    /// input is not trimmed first.
    fn input_to_bool_assume_true(&self, f: &[&str], process: F) -> (result: bool)
        requires
            forall|s: String| call_requires(process, (s,)),
        ensures
            exists|raw: String, p: String|
                #[trigger] call_ensures(process, (raw,), p) && result == !set_has(
                    str_views(f@),
                    p@,
                ),
    ;
}

impl<T, F> TakeBoolInput<F> for T where F: Fn(String) -> String, T: TakeBasicInput {
    fn input_to_bool(&self, t: &[&str], f: &[&str], process: F) -> (result: Result<
        bool,
        ToBoolError,
    >) {
        let raw = self.take_string_input();
        let ghost raw0 = raw;
        let uinp = process(raw);
        let result = map_to_bool(uinp.as_str(), t, f);
        proof {
            assert(call_ensures(process, (raw0,), uinp));
        }
        result
    }

    fn input_to_bool_assume_false(&self, t: &[&str], process: F) -> (result: bool) {
        let raw = self.take_string_input();
        let ghost raw0 = raw;
        let uinp = process(raw);
        let found = contains_str(t, uinp.as_str());
        proof {
            assert(call_ensures(process, (raw0,), uinp));
        }
        found
    }

    fn input_to_bool_assume_true(&self, f: &[&str], process: F) -> (result: bool) {
        let raw = self.take_string_input();
        let ghost raw0 = raw;
        let uinp = process(raw);
        let found = contains_str(f, uinp.as_str());
        proof {
            assert(call_ensures(process, (raw0,), uinp));
        }
        !found
    }
}

} // verus!
