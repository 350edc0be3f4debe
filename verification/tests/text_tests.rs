use yoakore::text::{contains_str, find_chars, join, lines_of, replace_chars, split_char, trim_char, trim_str};

fn to_chars(s: &str) -> Vec<char> {
    s.chars().collect()
}

fn s(v: Vec<char>) -> String {
    v.into_iter().collect()
}

#[test]
fn trims_unicode_white_space() {
    assert_eq!(trim_str("  \t hello \u{3000}\n"), "hello");
    assert_eq!(trim_str("   "), "");
    assert_eq!(s(trim_char(&to_chars("\"\"quoted\""), '"')), "quoted");
}

#[test]
fn lines_follow_std() {
    let text = "a\r\nb\n\nc\r";
    let expected: Vec<String> = text.lines().map(|l| l.to_string()).collect();
    assert_eq!(lines_of(&to_chars(text)), expected);
    assert_eq!(lines_of(&to_chars("x\n")), vec!["x".to_string()]);
    assert!(lines_of(&to_chars("")).is_empty());
    assert_eq!(lines_of(&to_chars("\n")), vec!["".to_string()]);
}

#[test]
fn split_follows_std() {
    let text = "a,,b,";
    let expected: Vec<String> = text.split(',').map(|l| l.to_string()).collect();
    assert_eq!(split_char(&to_chars(text), ','), expected);
    assert_eq!(split_char(&to_chars(""), ','), vec!["".to_string()]);
}

#[test]
fn replace_follows_std() {
    let text = "aaa {{x}} b {{x}}{{x}}";
    let r = replace_chars(&to_chars(text), &to_chars("{{x}}"), &to_chars("Y"));
    assert_eq!(s(r), text.replace("{{x}}", "Y"));
    let r = replace_chars(&to_chars("aaaa"), &to_chars("aa"), &to_chars("b"));
    assert_eq!(s(r), "bb");
}

#[test]
fn find_and_contains() {
    assert_eq!(find_chars(&to_chars("hello world"), &to_chars("o w")), Some(4));
    assert_eq!(find_chars(&to_chars("abc"), &to_chars("")), Some(0));
    assert_eq!(find_chars(&to_chars("abc"), &to_chars("d")), None);
    assert!(contains_str("cargo build", "go b"));
    assert!(!contains_str("cargo", "Cargo"));
}

#[test]
fn join_texts() {
    assert_eq!(join(&vec!["a".to_string(), "b".to_string(), "c".to_string()], ", "), "a, b, c");
    assert_eq!(join(&vec![], ", "), "");
}
