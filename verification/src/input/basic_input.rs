//! An interface for taking basic input as strings.

use vstd::prelude::*;

verus! {

/// What a multi-line read does with the line that just arrived.
#[derive(Clone, Copy, PartialEq, Eq, Structural, Debug)]
pub enum LineReadStep {
    /// Keep the line and go on reading.
    Accept,
    /// Drop the empty line and go on reading.
    Skip,
    /// Stop reading; the collected lines are the result.
    Stop,
}

/// The rule a bounded multi-line read follows once a line arrives,
/// `count` non-empty lines having been collected so far: the read stops
/// at `max_lines`, an empty line stops it once `min_lines` is reached
/// and is dropped before that, and any other line is kept.
pub fn lines_read_decision(count: usize, min_lines: usize, max_lines: usize, line_is_empty: bool) -> (step: LineReadStep)
    ensures
        step == (if count >= max_lines {
            LineReadStep::Stop
        } else if line_is_empty {
            if count >= min_lines {
                LineReadStep::Stop
            } else {
                LineReadStep::Skip
            }
        } else {
            LineReadStep::Accept
        }),
{
    if count >= max_lines {
        LineReadStep::Stop
    } else if line_is_empty {
        if count >= min_lines {
            LineReadStep::Stop
        } else {
            LineReadStep::Skip
        }
    } else {
        LineReadStep::Accept
    }
}

/// An interface for taking basic input as strings.
///
/// An implementor is an input source: each call to a method reads from
/// it. What comes back depends on the outside world, so nothing is
/// promised of the returned strings; the interfaces built on top are
/// verified to map whatever arrives correctly.
pub trait TakeBasicInput {
    /// Takes one line of input as a string.
    fn take_string_input(&self) -> String;

    /// Takes lines of input as one string, reading at least `min_lines`
    /// non-empty lines and at most `max_lines`.
    fn take_lines_input(&self, min_lines: usize, max_lines: usize) -> String;
}

} // verus!
