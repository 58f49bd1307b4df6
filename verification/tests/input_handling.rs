use rusttools::input::LineReadStep;
use rusttools::input::NumInputError;
use rusttools::input::basic_input::lines_read_decision;
use rusttools::input::NumInputErrorKind;
use rusttools::input::TakeBasicInput;
use rusttools::input::TakeIntInput;
use rusttools::input::to_numerical::parse_i64;
use rusttools::input::to_numerical::validate_exclude_range;
use rusttools::input::to_numerical::validate_include_range;

struct ScriptedInput(String);

impl TakeBasicInput for ScriptedInput {
    fn take_string_input(&self) -> String {
        self.0.clone()
    }

    fn take_lines_input(&self, _min_lines: usize, _max_lines: usize) -> String {
        self.0.clone()
    }
}

fn kind_of(result: Result<i64, NumInputError>) -> NumInputErrorKind {
    result.expect_err("expected an invalid input").kind
}

#[test]
fn parsing_decimal_numerals() {
    assert_eq!(Ok(0), parse_i64("0"));
    assert_eq!(Ok(42), parse_i64("42"));
    assert_eq!(Ok(42), parse_i64("+42"));
    assert_eq!(Ok(-17), parse_i64("-17"));
    assert_eq!(Ok(i64::MAX), parse_i64("9223372036854775807"));
    assert_eq!(Ok(i64::MIN), parse_i64("-9223372036854775808"));
}

#[test]
fn parse_errors_name_their_cause() {
    assert_eq!(NumInputErrorKind::Empty, kind_of(parse_i64("")));
    assert_eq!(NumInputErrorKind::InvalidDigit, kind_of(parse_i64("+")));
    assert_eq!(NumInputErrorKind::InvalidDigit, kind_of(parse_i64("-")));
    assert_eq!(NumInputErrorKind::InvalidDigit, kind_of(parse_i64("12x")));
    assert_eq!(NumInputErrorKind::InvalidDigit, kind_of(parse_i64("4.2")));
    assert_eq!(NumInputErrorKind::PosOverflow, kind_of(parse_i64("9223372036854775808")));
    assert_eq!(NumInputErrorKind::PosOverflow, kind_of(parse_i64("99999999999999999999999")));
    assert_eq!(NumInputErrorKind::NegOverflow, kind_of(parse_i64("-9223372036854775809")));
}

#[test]
fn taking_integers_trims_first() {
    let source = ScriptedInput("  42\n".to_owned());
    assert_eq!(Ok(42), source.take_int());

    let source = ScriptedInput("forty-two".to_owned());
    assert_eq!(NumInputErrorKind::InvalidDigit, kind_of(source.take_int()));
}

#[test]
fn range_validation() {
    let source = ScriptedInput("42".to_owned());
    assert_eq!(Ok(42), source.take_int_include_range(&0, &100));
    assert_eq!(
        NumInputErrorKind::OutsideValidRange,
        kind_of(source.take_int_include_range(&0, &10)),
    );
    assert_eq!(Ok(42), source.take_int_exclude_range(&0, &10));
    assert_eq!(
        NumInputErrorKind::InInvalidRange,
        kind_of(source.take_int_exclude_range(&0, &100)),
    );

    assert_eq!(Ok(5), validate_include_range(Ok(5), &5, &5));
    assert_eq!(
        NumInputErrorKind::InInvalidRange,
        kind_of(validate_exclude_range(Ok(5), &5, &5)),
    );
    let upstream = NumInputError { kind: NumInputErrorKind::Empty };
    assert_eq!(Err(upstream.clone()), validate_include_range(Err(upstream.clone()), &0, &1));
    assert_eq!(Err(upstream.clone()), validate_exclude_range(Err(upstream), &0, &1));
}

#[test]
fn error_messages_describe_the_kind() {
    let err = NumInputError { kind: NumInputErrorKind::PosOverflow };
    assert_eq!("number too large to fit in target type", err.message());
    assert!(matches!(err.kind(), NumInputErrorKind::PosOverflow));
}

#[test]
fn line_reads_stop_skip_or_accept() {
    assert_eq!(LineReadStep::Stop, lines_read_decision(3, 1, 3, false));
    assert_eq!(LineReadStep::Stop, lines_read_decision(1, 1, 3, true));
    assert_eq!(LineReadStep::Skip, lines_read_decision(0, 1, 3, true));
    assert_eq!(LineReadStep::Accept, lines_read_decision(0, 1, 3, false));
}
