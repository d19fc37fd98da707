use port::order::sort_newest_first;
use port::post::{FrontMatter, Post, Timestamp};

fn post(slug: &str, day: u8) -> Post {
    Post {
        url: format!("c/{}", slug),
        slug: slug.to_string(),
        html: String::new(),
        title: slug.to_string(),
        category: "c".to_string(),
        description: None,
        image: None,
        meta: FrontMatter {
            published_at: Timestamp {
                year: 2024,
                month: 1,
                day,
                hour: 0,
                minute: 0,
                second: 0,
                nanosecond: 0,
            },
            draft: false,
        },
    }
}

fn slugs(posts: &[Post]) -> Vec<String> {
    posts.iter().map(|p| p.slug.clone()).collect()
}

#[test]
fn newest_comes_first() {
    let sorted = sort_newest_first(vec![post("a", 3), post("b", 9), post("c", 1), post("d", 5)]);
    assert_eq!(slugs(&sorted), vec!["b", "d", "a", "c"]);
}

#[test]
fn same_moment_keeps_order() {
    let sorted = sort_newest_first(vec![
        post("a", 2),
        post("b", 5),
        post("c", 2),
        post("d", 5),
        post("e", 2),
        post("f", 7),
    ]);
    assert_eq!(slugs(&sorted), vec!["f", "b", "d", "a", "c", "e"]);
}

#[test]
fn sorted_and_empty_lists() {
    assert_eq!(sort_newest_first(Vec::new()).len(), 0);
    let sorted = sort_newest_first(vec![post("a", 9), post("b", 8), post("c", 7)]);
    assert_eq!(slugs(&sorted), vec!["a", "b", "c"]);
    let sorted = sort_newest_first(vec![post("a", 7), post("b", 8), post("c", 9)]);
    assert_eq!(slugs(&sorted), vec!["c", "b", "a"]);
}
