use rusttools::pigify;
use rusttools::pigify_segment;

#[test]
fn tqbf_pigified() {
    let tqbf = "the quick brown fox jumped over the lazy dog";
    let tqbf_pigified = "he-tay uick-qay rown-bay ox-fay umped-jay over-hay he-tay azy-lay og-day";

    assert_eq!(tqbf_pigified.to_owned(), pigify(tqbf));
}

#[test]
fn vowel_words_keep_their_head() {
    assert_eq!(pigify("Example"), "Example-hay");
    assert_eq!(pigify("I am"), "I-hay am-hay");
}

#[test]
fn segments_transform_one_by_one() {
    assert_eq!(pigify_segment("the"), "he-tay");
    assert_eq!(pigify_segment("over"), "over-hay");
    assert_eq!(pigify_segment("b"), "bay");
    assert_eq!(pigify_segment("42"), "42");
    assert_eq!(pigify_segment(" "), " ");
    assert_eq!(pigify_segment(""), "");
}

#[test]
fn pigify_trims_its_input() {
    assert_eq!(pigify("  the  "), "he-tay");
    assert_eq!(pigify("\t\n"), "");
}
