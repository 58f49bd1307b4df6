//! A small convenience interface with methods for turning booleans into
//! related human words.

use vstd::prelude::*;

verus! {

/// An interface for converting boolean-like values into related string
/// terms.
pub trait HumanizeBooleans: Sized {
    /// The word this value's yes-or-no form reads as.
    spec fn yes_no_spec(self) -> Seq<char>;

    /// The character this value's y-or-n form reads as.
    spec fn yes_no_short_spec(self) -> char;

    /// The word this value's on-or-off form reads as.
    spec fn on_off_spec(self) -> Seq<char>;

    /// Converts the value to a string of `Yes` or `No`.
    fn yes_no(self) -> (r: &'static str)
        ensures
            r@ == self.yes_no_spec(),
    ;

    /// Converts the value to a `y` or `n` character.
    fn yes_no_short(self) -> (r: char)
        ensures
            r == self.yes_no_short_spec(),
    ;

    /// Converts the value to a string of `On` or `Off`.
    fn on_off(self) -> (r: &'static str)
        ensures
            r@ == self.on_off_spec(),
    ;
}

impl HumanizeBooleans for bool {
    open spec fn yes_no_spec(self) -> Seq<char> {
        if self {
            "Yes"@
        } else {
            "No"@
        }
    }

    open spec fn yes_no_short_spec(self) -> char {
        if self {
            'y'
        } else {
            'n'
        }
    }

    open spec fn on_off_spec(self) -> Seq<char> {
        if self {
            "On"@
        } else {
            "Off"@
        }
    }

    fn yes_no(self) -> (r: &'static str) {
        if self {
            "Yes"
        } else {
            "No"
        }
    }

    fn yes_no_short(self) -> (r: char) {
        if self {
            'y'
        } else {
            'n'
        }
    }

    fn on_off(self) -> (r: &'static str) {
        if self {
            "On"
        } else {
            "Off"
        }
    }
}

} // verus!
