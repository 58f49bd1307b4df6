use rusttools::minigrep::Config;
use rusttools::minigrep::split_lines;

#[test]
fn parsing_test() {
    regex::Regex::new("\\A\\z").unwrap();
}

#[test]
fn config_takes_query_then_path() {
    let config = Config::new(vec!["\\A\\z".to_owned(), "Example".to_owned()]).unwrap();
    assert_eq!("Example", config.path());
    assert!(config.query().is_match(""));

    let err = Config::new(vec![]).unwrap_err();
    assert!(err.starts_with("invalid arguments."));

    let err = Config::new(vec!["(".to_owned()]).unwrap_err();
    assert!(err.starts_with("invalid arguments."));
}

#[test]
fn search_keeps_matching_lines_in_order() {
    let config = Config::new(vec!["b".to_owned(), "ignored".to_owned()]).unwrap();
    let found = config.search("abc\nxyz\nbbb\n");
    assert_eq!(found, vec!["abc".to_owned(), "bbb".to_owned()]);
}

#[test]
fn lines_split_like_std_lines() {
    let samples = ["", "a", "a\nb", "a\nb\n", "a\r\nb\r", "\n\n"];
    for sample in samples {
        let expected: Vec<String> = sample.lines().map(str::to_owned).collect();
        assert_eq!(split_lines(sample), expected, "splitting {:?}", sample);
    }
}
