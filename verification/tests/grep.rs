use clikit::grep::{grep_output, GrepError};

#[test]
fn invalid_pattern_is_reported() {
    let r = grep_output("(", "anything");
    assert!(matches!(r, Err(GrepError::InvalidPattern(_))));
}

#[test]
fn valid_pattern_succeeds() {
    let r = grep_output("a.c", "xxabcyy");
    assert!(r.is_ok());
}

#[test]
fn output_is_the_capture_iterator_rendering() {
    let pattern = "(b)(c+)";
    let contents = "abcc abc";
    let got = grep_output(pattern, contents).expect("pattern compiles");
    let re = regex::Regex::new(pattern).expect("pattern compiles");
    let expected = format!("{:#?}", re.captures_iter(contents));
    assert_eq!(got, expected);
    assert_ne!(got, contents);
}

#[test]
fn empty_pattern_compiles() {
    assert!(grep_output("", "abc").is_ok());
}
