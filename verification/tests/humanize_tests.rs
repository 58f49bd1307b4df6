use rusttools::traits::HumanizeBooleans;

#[test]
fn booleans_read_as_words() {
    assert_eq!("Yes", true.yes_no());
    assert_eq!("No", false.yes_no());
    assert_eq!('y', true.yes_no_short());
    assert_eq!('n', false.yes_no_short());
    assert_eq!("On", true.on_off());
    assert_eq!("Off", false.on_off());
}
