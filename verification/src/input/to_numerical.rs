//! Interfaces for taking numerical input: a verified decimal parser,
//! validation against ranges, and the error type the interfaces share.

use crate::input::basic_input::TakeBasicInput;
use core::cmp::Ordering;
use vstd::prelude::*;
use vstd::std_specs::cmp::PartialOrdSpec;
use vstd::string::StrSliceExecFns;

verus! {

/// An enum to indicate the various types of errors that can invalidate
/// numerical input.
#[derive(Debug, Clone, PartialEq, Eq, Structural)]
pub enum NumInputErrorKind {
    /// The parsed value falls outside the valid range the call named.
    OutsideValidRange,
    /// The parsed value falls inside the invalid range the call named.
    InInvalidRange,
    /// The value being parsed is empty.
    Empty,
    /// The value holds a digit that is invalid in its context.
    InvalidDigit,
    /// The number is too large to store in the target type.
    PosOverflow,
    /// The number is too small to store in the target type.
    NegOverflow,
    /// The value was zero, which the non-zero target types reject.
    Zero,
}

/// An error which can be returned when taking numerical input.
#[derive(Debug, Clone, PartialEq, Eq, Structural)]
pub struct NumInputError {
    /// The detailed cause of why the input was invalidated.
    pub kind: NumInputErrorKind,
}

impl NumInputError {
    /// Outputs the detailed cause of why the input was invalidated.
    pub fn kind(&self) -> (k: &NumInputErrorKind)
        ensures
            k == &self.kind,
    {
        &self.kind
    }

    /// A human-readable description of the error.
    pub fn message(&self) -> (m: &'static str)
        ensures
            self.kind is OutsideValidRange ==> m@
                == "parsed input invalidated, not found within included range"@,
            self.kind is InInvalidRange ==> m@
                == "parsed input invalidated, found within excluded range"@,
            self.kind is Empty ==> m@ == "cannot parse numerical value from empty string"@,
            self.kind is InvalidDigit ==> m@ == "invalid digit found in string"@,
            self.kind is PosOverflow ==> m@ == "number too large to fit in target type"@,
            self.kind is NegOverflow ==> m@ == "number too small to fit in target type"@,
            self.kind is Zero ==> m@ == "number would be zero for non-zero type"@,
    {
        match self.kind {
            NumInputErrorKind::OutsideValidRange => "parsed input invalidated, not found within included range",
            NumInputErrorKind::InInvalidRange => "parsed input invalidated, found within excluded range",
            NumInputErrorKind::Empty => "cannot parse numerical value from empty string",
            NumInputErrorKind::InvalidDigit => "invalid digit found in string",
            NumInputErrorKind::PosOverflow => "number too large to fit in target type",
            NumInputErrorKind::NegOverflow => "number too small to fit in target type",
            NumInputErrorKind::Zero => "number would be zero for non-zero type",
        }
    }
}

/// Whether `c` is a decimal digit.
pub open spec fn is_dec_digit(c: char) -> bool {
    '0' <= c && c <= '9'
}

/// The value of the decimal digit `c`.
pub open spec fn dec_digit_val(c: char) -> int {
    c as int - '0' as int
}

/// Whether every character of `s` is a decimal digit.
pub open spec fn all_dec_digits(s: Seq<char>) -> bool {
    forall|i: int| 0 <= i < s.len() ==> is_dec_digit(#[trigger] s[i])
}

/// The number the digit string `s` denotes, most significant digit
/// first.
pub open spec fn digits_val(s: Seq<char>) -> int
    decreases s.len(),
{
    if s.len() == 0 {
        0
    } else {
        digits_val(s.drop_last()) * 10 + dec_digit_val(s.last())
    }
}

/// How a signed decimal numeral parses: an empty input is the empty
/// error; a sign with nothing after it, or any character that is not a
/// digit, is an invalid digit; a numeral beyond the signed 64-bit range
/// overflows in its direction; anything else is its value.
pub open spec fn int_parse_spec(s: Seq<char>) -> Result<i64, NumInputError> {
    if s.len() == 0 {
        Err(NumInputError { kind: NumInputErrorKind::Empty })
    } else {
        let negative = s.first() == '-';
        let body = if s.first() == '-' || s.first() == '+' {
            s.drop_first()
        } else {
            s
        };
        if body.len() == 0 || !all_dec_digits(body) {
            Err(NumInputError { kind: NumInputErrorKind::InvalidDigit })
        } else {
            let magnitude = digits_val(body);
            if negative {
                if -magnitude < i64::MIN {
                    Err(NumInputError { kind: NumInputErrorKind::NegOverflow })
                } else {
                    Ok((-magnitude) as i64)
                }
            } else {
                if magnitude > i64::MAX {
                    Err(NumInputError { kind: NumInputErrorKind::PosOverflow })
                } else {
                    Ok(magnitude as i64)
                }
            }
        }
    }
}

/// A digit string denotes a non-negative number.
proof fn lemma_digits_val_nonneg(s: Seq<char>)
    requires
        all_dec_digits(s),
    ensures
        digits_val(s) >= 0,
    decreases s.len(),
{
    if s.len() > 0 {
        assert(all_dec_digits(s.drop_last())) by {
            assert(forall|i: int|
                0 <= i < s.len() - 1 ==> (#[trigger] s.drop_last()[i]) == s[i]);
        }
        lemma_digits_val_nonneg(s.drop_last());
        assert(digits_val(s.drop_last()) * 10 >= 0) by (nonlinear_arith)
            requires
                digits_val(s.drop_last()) >= 0,
        ;
    }
}

/// The magnitude of the digit string `body`, capped: the value itself
/// when it fits an unsigned 64-bit word, and nothing when it exceeds it.
fn digits_magnitude(body: &str) -> (r: Option<u64>)
    requires
        all_dec_digits(body@),
    ensures
        match r {
            Some(acc) => acc == digits_val(body@),
            None => digits_val(body@) > u64::MAX,
        },
{
    let n = body.unicode_len();
    let mut acc: u64 = 0;
    let mut overflow = false;
    let mut i: usize = 0;
    proof {
        assert(body@.take(0) =~= Seq::<char>::empty());
    }
    while i < n
        invariant
            i <= n == body@.len(),
            all_dec_digits(body@),
            !overflow ==> acc == digits_val(body@.take(i as int)),
            overflow ==> digits_val(body@.take(i as int)) > u64::MAX,
        decreases n - i,
    {
        let c = body.get_char(i);
        let d: u64 = (c as u32 as u64) - 48;
        proof {
            assert(body@.take(i + 1).drop_last() =~= body@.take(i as int));
            assert(body@.take(i + 1).last() == body@[i as int]);
            assert(is_dec_digit(body@[i as int]));
            assert(d == dec_digit_val(body@[i as int]));
            assert(all_dec_digits(body@.take(i as int))) by {
                assert(forall|j: int|
                    0 <= j < i ==> (#[trigger] body@.take(i as int)[j]) == body@[j]);
            }
            lemma_digits_val_nonneg(body@.take(i as int));
        }
        if !overflow {
            if acc <= (u64::MAX - d) / 10 {
                proof {
                    assert(acc * 10 + d <= u64::MAX) by (nonlinear_arith)
                        requires
                            0 <= d <= 9,
                            0 <= acc <= ((u64::MAX - d) / 10) as int,
                    ;
                }
                acc = acc * 10 + d;
            } else {
                proof {
                    assert(acc * 10 + d > u64::MAX) by (nonlinear_arith)
                        requires
                            0 <= d <= 9,
                            acc > ((u64::MAX - d) / 10) as int,
                    ;
                }
                overflow = true;
            }
        } else {
            proof {
                let v = digits_val(body@.take(i as int));
                assert(v * 10 + d > u64::MAX) by (nonlinear_arith)
                    requires
                        v > u64::MAX,
                        d >= 0,
                ;
            }
        }
        i += 1;
    }
    proof {
        assert(body@.take(n as int) =~= body@);
    }
    if overflow {
        None
    } else {
        Some(acc)
    }
}

/// Parses a signed decimal numeral into a 64-bit integer, exactly as
/// [`int_parse_spec`] describes.
pub fn parse_i64(s: &str) -> (result: Result<i64, NumInputError>)
    ensures
        result == int_parse_spec(s@),
{
    let n = s.unicode_len();
    if n == 0 {
        return Err(NumInputError { kind: NumInputErrorKind::Empty });
    }
    let first = s.get_char(0);
    let negative = first == '-';
    let body: &str = if first == '-' || first == '+' {
        let b = s.substring_char(1, n);
        proof {
            assert(b@ =~= s@.drop_first());
        }
        b
    } else {
        s
    };
    let body_len = body.unicode_len();
    if body_len == 0 {
        return Err(NumInputError { kind: NumInputErrorKind::InvalidDigit });
    }
    let mut i: usize = 0;
    while i < body_len
        invariant
            i <= body_len == body@.len(),
            s@.len() > 0,
            body@ == (if s@.first() == '-' || s@.first() == '+' {
                s@.drop_first()
            } else {
                s@
            }),
            forall|j: int| 0 <= j < i ==> is_dec_digit(#[trigger] body@[j]),
        decreases body_len - i,
    {
        let c = body.get_char(i);
        if !('0' <= c && c <= '9') {
            proof {
                assert(!is_dec_digit(body@[i as int]));
                assert(!all_dec_digits(body@));
            }
            return Err(NumInputError { kind: NumInputErrorKind::InvalidDigit });
        }
        i += 1;
    }
    let magnitude = digits_magnitude(body);
    if negative {
        match magnitude {
            Some(m) => {
                if m <= 9223372036854775808u64 {
                    if m == 9223372036854775808u64 {
                        Ok(i64::MIN)
                    } else {
                        Ok(-(m as i64))
                    }
                } else {
                    Err(NumInputError { kind: NumInputErrorKind::NegOverflow })
                }
            },
            None => Err(NumInputError { kind: NumInputErrorKind::NegOverflow }),
        }
    } else {
        match magnitude {
            Some(m) => {
                if m <= i64::MAX as u64 {
                    Ok(m as i64)
                } else {
                    Err(NumInputError { kind: NumInputErrorKind::PosOverflow })
                }
            },
            None => Err(NumInputError { kind: NumInputErrorKind::PosOverflow }),
        }
    }
}

/// Whether `a` is at most `b` under the type's comparison specification.
pub open spec fn spec_le<T: PartialOrdSpec>(a: T, b: T) -> bool {
    a.partial_cmp_spec(&b) matches Some(Ordering::Less | Ordering::Equal)
}

/// How a parsed value is validated against an inclusive range: a parse
/// error passes through, a value inside the range is accepted, and a
/// value outside it is the out-of-range error.
pub open spec fn include_range_mapping<T: PartialOrdSpec>(
    parsed: Result<T, NumInputError>,
    min: T,
    max: T,
) -> Result<T, NumInputError> {
    match parsed {
        Ok(v) => if spec_le(min, v) && spec_le(v, max) {
            Ok(v)
        } else {
            Err(NumInputError { kind: NumInputErrorKind::OutsideValidRange })
        },
        Err(e) => Err(e),
    }
}

/// How a parsed value is validated against an exclusive range: a parse
/// error passes through, a value inside the range is the in-invalid-range
/// error, and a value outside it is accepted.
pub open spec fn exclude_range_mapping<T: PartialOrdSpec>(
    parsed: Result<T, NumInputError>,
    min: T,
    max: T,
) -> Result<T, NumInputError> {
    match parsed {
        Ok(v) => if spec_le(min, v) && spec_le(v, max) {
            Err(NumInputError { kind: NumInputErrorKind::InInvalidRange })
        } else {
            Ok(v)
        },
        Err(e) => Err(e),
    }
}

/// Validates a parsed value against the inclusive range from `min` to
/// `max`, exactly as [`include_range_mapping`] describes.
pub fn validate_include_range<T: Copy + PartialOrd>(
    parsed: Result<T, NumInputError>,
    min: &T,
    max: &T,
) -> (result: Result<T, NumInputError>)
    ensures
        T::obeys_partial_cmp_spec() ==> result == include_range_mapping(parsed, *min, *max),
{
    match parsed {
        Ok(v) => {
            if min.le(&v) && v.le(max) {
                Ok(v)
            } else {
                Err(NumInputError { kind: NumInputErrorKind::OutsideValidRange })
            }
        },
        Err(e) => Err(e),
    }
}

/// Validates a parsed value against the exclusive range from `min` to
/// `max`, exactly as [`exclude_range_mapping`] describes.
pub fn validate_exclude_range<T: Copy + PartialOrd>(
    parsed: Result<T, NumInputError>,
    min: &T,
    max: &T,
) -> (result: Result<T, NumInputError>)
    ensures
        T::obeys_partial_cmp_spec() ==> result == exclude_range_mapping(parsed, *min, *max),
{
    match parsed {
        Ok(v) => {
            if min.le(&v) && v.le(max) {
                Err(NumInputError { kind: NumInputErrorKind::InInvalidRange })
            } else {
                Ok(v)
            }
        },
        Err(e) => Err(e),
    }
}

/// An interface for handling integer input.
///
/// The raw text comes from the implementing input source; the trimmed
/// text is parsed as [`int_parse_spec`] describes and validated against
/// ranges as the two mapping functions describe.
pub trait TakeIntInput where Self: TakeBasicInput {
    /// Takes one input and parses its trimmed text as a signed 64-bit
    /// integer.
    fn take_int(&self) -> (result: Result<i64, NumInputError>)
        ensures
            exists|raw: Seq<char>| result == int_parse_spec(#[trigger] crate::trim_spec(raw)),
    ;

    /// Takes an integer input, validating that it falls within the
    /// inclusive range from `min` to `max`.
    fn take_int_include_range(&self, min: &i64, max: &i64) -> (result: Result<i64, NumInputError>)
        ensures
            exists|parsed: Result<i64, NumInputError>|
                result == #[trigger] include_range_mapping(parsed, *min, *max),
    ;

    /// Takes an integer input, validating that it falls outside the
    /// inclusive range from `min` to `max`.
    fn take_int_exclude_range(&self, min: &i64, max: &i64) -> (result: Result<i64, NumInputError>)
        ensures
            exists|parsed: Result<i64, NumInputError>|
                result == #[trigger] exclude_range_mapping(parsed, *min, *max),
    ;
}

impl<U: TakeBasicInput> TakeIntInput for U {
    fn take_int(&self) -> (result: Result<i64, NumInputError>) {
        let raw = self.take_string_input();
        let result = parse_i64(crate::str_trim(raw.as_str()));
        proof {
            assert(result == int_parse_spec(crate::trim_spec(raw@)));
        }
        result
    }

    fn take_int_include_range(&self, min: &i64, max: &i64) -> (result: Result<i64, NumInputError>) {
        let parsed = self.take_int();
        let result = validate_include_range(parsed, min, max);
        proof {
            assert(result == include_range_mapping(parsed, *min, *max));
        }
        result
    }

    fn take_int_exclude_range(&self, min: &i64, max: &i64) -> (result: Result<i64, NumInputError>) {
        let parsed = self.take_int();
        let result = validate_exclude_range(parsed, min, max);
        proof {
            assert(result == exclude_range_mapping(parsed, *min, *max));
        }
        result
    }
}

} // verus!
