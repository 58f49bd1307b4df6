use rusttools::input::TakeBasicInput;
use rusttools::input::TakeBoolInput;
use rusttools::input::ToBoolError;
use rusttools::input::to_bool::map_to_bool;

struct ScriptedInput(String);

impl TakeBasicInput for ScriptedInput {
    fn take_string_input(&self) -> String {
        self.0.clone()
    }

    fn take_lines_input(&self, _min_lines: usize, _max_lines: usize) -> String {
        self.0.clone()
    }
}

#[test]
fn err_test() {
    assert_eq!(
        "input did not map to a value in either parameter array".to_string(),
        ToBoolError.message().to_string()
    );
}

#[test]
fn mapping_against_word_sets() {
    assert_eq!(Ok(true), map_to_bool(" yes ", &["y", "yes"], &["n", "no"]));
    assert_eq!(Ok(false), map_to_bool("no", &["y", "yes"], &["n", "no"]));
    assert_eq!(Err(ToBoolError), map_to_bool("maybe", &["y", "yes"], &["n", "no"]));
}

#[test]
fn scripted_input_to_bool() {
    let source = ScriptedInput("YES\n".to_owned());
    let answer = source.input_to_bool(&["y", "yes"], &["n", "no"], |x| x.to_lowercase());
    assert_eq!(Ok(true), answer);

    let source = ScriptedInput("maybe".to_owned());
    let answer = source.input_to_bool(&["y", "yes"], &["n", "no"], |x| x.to_lowercase());
    assert_eq!(Err(ToBoolError), answer);
}

#[test]
fn assumed_directions_skip_trimming() {
    let source = ScriptedInput("yes".to_owned());
    assert!(source.input_to_bool_assume_false(&["y", "yes"], |x| x.to_lowercase()));
    assert!(source.input_to_bool_assume_true(&["n", "no"], |x| x.to_lowercase()));

    let source = ScriptedInput("yes ".to_owned());
    assert!(!source.input_to_bool_assume_false(&["y", "yes"], |x| x.to_lowercase()));
}
