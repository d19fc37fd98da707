use port::markdown::Compiled;
use port::post::{assemble, compile_post, describe, FrontMatter, Timestamp};

fn at(year: i32, month: u8, day: u8, hour: u8, minute: u8) -> Timestamp {
    Timestamp { year, month, day, hour, minute, second: 0, nanosecond: 0 }
}

fn meta() -> FrontMatter {
    FrontMatter { published_at: at(2024, 1, 2, 3, 4), draft: false }
}

#[test]
fn long_text_is_cut_to_139_characters_and_an_ellipsis() {
    let text: String = "abcdefghij".repeat(15);
    assert_eq!(text.chars().count(), 150);
    let description = describe(&text);
    assert_eq!(description.chars().count(), 140);
    let head: String = text.chars().take(139).collect();
    assert_eq!(description, format!("{}\u{2026}", head));
}

#[test]
fn text_of_140_characters_is_kept() {
    let text: String = "abcdefghij".repeat(14);
    assert_eq!(text.chars().count(), 140);
    assert_eq!(describe(&text), text);
}

#[test]
fn text_of_141_characters_is_cut() {
    let text: String = "x".repeat(141);
    assert_eq!(describe(&text), format!("{}\u{2026}", "x".repeat(139)));
}

#[test]
fn short_and_empty_text_is_kept() {
    assert_eq!(describe(""), "");
    assert_eq!(describe("short"), "short");
}

#[test]
fn description_counts_characters() {
    let text: String = "\u{e9}".repeat(140);
    assert_eq!(describe(&text), text);
    let text: String = "\u{e9}".repeat(150);
    assert_eq!(describe(&text), format!("{}\u{2026}", "\u{e9}".repeat(139)));
}

#[test]
fn assembled_post() {
    let compiled = Compiled {
        html: "<p>x</p>\n".to_string(),
        title: "T".to_string(),
        body: "x\n".to_string(),
        main_image: Some("a.png".to_string()),
    };
    let post = assemble("blog/tech", "first", meta(), compiled);
    assert_eq!(post.url, "blog/tech/first");
    assert_eq!(post.slug, "first");
    assert_eq!(post.category, "blog/tech");
    assert_eq!(post.html, "<p>x</p>\n");
    assert_eq!(post.title, "T");
    assert_eq!(post.description, Some("x\n".to_string()));
    assert_eq!(post.image, Some("a.png".to_string()));
    assert_eq!(post.meta, meta());
}

#[test]
fn post_without_text_has_no_description() {
    let compiled = Compiled {
        html: String::new(),
        title: "T".to_string(),
        body: String::new(),
        main_image: None,
    };
    let post = assemble("c", "s", meta(), compiled);
    assert_eq!(post.description, None);
    assert_eq!(post.image, None);
}

#[test]
fn compiled_post() {
    let post = compile_post("notes", "hello", meta(), "# Hi\n\nSome text.\n").unwrap();
    assert_eq!(post.url, "notes/hello");
    assert_eq!(post.title, "Hi");
    assert_eq!(post.html, "<p>Some text.</p>\n");
    assert_eq!(post.description, Some("Some text.\n".to_string()));
}

#[test]
fn broken_post_does_not_compile() {
    assert!(compile_post("notes", "bad", meta(), "```nope-lang\nx\n```\n").is_err());
}

#[test]
fn valid_moments() {
    assert!(at(2024, 2, 29, 0, 0).is_valid());
    assert!(!at(2023, 2, 29, 0, 0).is_valid());
    assert!(at(2000, 2, 29, 23, 59).is_valid());
    assert!(!at(1900, 2, 29, 0, 0).is_valid());
    assert!(!at(2024, 4, 31, 0, 0).is_valid());
    assert!(at(2024, 12, 31, 0, 0).is_valid());
    assert!(!at(2024, 13, 1, 0, 0).is_valid());
    assert!(!at(2024, 0, 1, 0, 0).is_valid());
    assert!(!at(2024, 1, 0, 0, 0).is_valid());
    assert!(!at(2024, 1, 1, 24, 0).is_valid());
    assert!(!at(2024, 1, 1, 0, 60).is_valid());
    assert!(!at(10000, 1, 1, 0, 0).is_valid());
    assert!(at(-4, 2, 29, 0, 0).is_valid());
    let mut late = at(2024, 1, 1, 0, 0);
    late.second = 60;
    assert!(!late.is_valid());
    late.second = 59;
    late.nanosecond = 1_000_000_000;
    assert!(!late.is_valid());
}

#[test]
fn order_of_moments() {
    assert!(at(2023, 12, 31, 23, 59).is_before(&at(2024, 1, 1, 0, 0)));
    assert!(!at(2024, 1, 1, 0, 0).is_before(&at(2023, 12, 31, 23, 59)));
    assert!(!at(2024, 1, 1, 0, 0).is_before(&at(2024, 1, 1, 0, 0)));
    assert!(at(2024, 1, 1, 0, 0).is_before(&at(2024, 1, 1, 0, 1)));
    assert!(at(2024, 1, 31, 0, 0).is_before(&at(2024, 2, 1, 0, 0)));
    let mut a = at(2024, 1, 1, 0, 0);
    let b = a;
    a.nanosecond = 1;
    assert!(b.is_before(&a));
}
