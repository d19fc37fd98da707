use port::text::{ends_with, join, push_decimal, replace_char};

#[test]
fn suffixes() {
    assert!(ends_with("hello", "llo"));
    assert!(ends_with("hello", ""));
    assert!(ends_with("hello", "hello"));
    assert!(!ends_with("hello", "hell"));
    assert!(!ends_with("lo", "hello"));
    assert!(ends_with("na\u{ef}ve.png", ".png"));
    assert!(ends_with("caf\u{e9}", "f\u{e9}"));
}

#[test]
fn decimal_numbers() {
    let mut out = String::from("p/");
    push_decimal(&mut out, 0);
    assert_eq!(out, "p/0");
    let mut out = String::new();
    push_decimal(&mut out, 7);
    push_decimal(&mut out, 10);
    push_decimal(&mut out, 1234567890);
    assert_eq!(out, "7101234567890");
    let mut out = String::new();
    push_decimal(&mut out, usize::MAX);
    assert_eq!(out, format!("{}", usize::MAX));
}

#[test]
fn replacing_characters() {
    assert_eq!(replace_char("a/b/c", '/', '.'), "a.b.c");
    assert_eq!(replace_char("", '/', '.'), "");
    assert_eq!(replace_char("abc", '/', '.'), "abc");
    assert_eq!(replace_char("//", '/', '.'), "..");
}

#[test]
fn joining_paths() {
    assert_eq!(join("", "p/2"), "p/2");
    assert_eq!(join("/", "blog"), "/blog");
    assert_eq!(join("/", ""), "/");
    assert_eq!(join("/blog", "p/2"), "/blog/p/2");
    assert_eq!(join("site/.build", ""), "site/.build/");
    assert_eq!(join("site/.build/", "index.html"), "site/.build/index.html");
}
