use port::feed::FeedError;
use port::highlight::CompileError;
use port::post::{FrontMatter, Post, Timestamp};
use port::site::{
    all_posts, compile_group, feed_posts, numbered_path, published, BuildError, Category, Config,
    Port, SourceGroup, SourcePost,
};

fn at(day: u8) -> Timestamp {
    Timestamp { year: 2024, month: 1, day, hour: 12, minute: 0, second: 0, nanosecond: 0 }
}

fn post(slug: &str, category: &str, day: u8, draft: bool) -> Post {
    Post {
        url: format!("{}/{}", category, slug),
        slug: slug.to_string(),
        html: format!("<p>{}</p>", slug),
        title: slug.to_string(),
        category: category.to_string(),
        description: None,
        image: None,
        meta: FrontMatter { published_at: at(day), draft },
    }
}

fn port(per_page: usize, timezone: i32) -> Port {
    Port {
        config: Config {
            root: "/home/me/site".to_string(),
            name: "Site".to_string(),
            url: "https://example.org".to_string(),
            desc: "About".to_string(),
            image: "logo.png".to_string(),
            links: Vec::new(),
            timezone,
            per_page,
        },
    }
}

fn slugs(posts: &[&Post]) -> Vec<String> {
    posts.iter().map(|p| p.slug.clone()).collect()
}

fn source(slug: &str, day: u8, body: &str) -> SourcePost {
    SourcePost {
        slug: slug.to_string(),
        meta: FrontMatter { published_at: at(day), draft: false },
        body: body.to_string(),
    }
}

#[test]
fn drafts_are_not_published() {
    let posts = vec![
        post("a", "c", 1, false),
        post("b", "c", 2, true),
        post("c", "c", 3, false),
        post("d", "c", 4, true),
    ];
    assert_eq!(slugs(&published(&posts)), vec!["a", "c"]);
    assert_eq!(published(&Vec::new()).len(), 0);
}

#[test]
fn feed_takes_first_twenty_published() {
    let mut posts = Vec::new();
    for i in 0..30u8 {
        posts.push(post(&format!("p{}", i), "c", 28 - (i % 28), i % 5 == 0));
    }
    let first = feed_posts(&posts);
    assert_eq!(first.len(), 20);
    let expected: Vec<String> =
        posts.iter().filter(|p| !p.meta.draft).take(20).map(|p| p.slug.clone()).collect();
    assert_eq!(slugs(&first), expected);
    let few = vec![post("a", "c", 1, false), post("b", "c", 2, true)];
    assert_eq!(slugs(&feed_posts(&few)), vec!["a"]);
}

#[test]
fn numbered_pages() {
    assert_eq!(numbered_path("", 2), "p/2");
    assert_eq!(numbered_path("/", 3), "/p/3");
    assert_eq!(numbered_path("/blog/tech", 12), "/blog/tech/p/12");
}

#[test]
fn build_directory() {
    assert_eq!(port(2, 0).build_dir(), "/home/me/site/.build");
    assert_eq!(port(2, 0).build_static("404.html"), "/home/me/site/.build/404.html");
}

#[test]
fn index_pages_of_a_category() {
    let posts = vec![
        post("a", "blog", 9, false),
        post("b", "blog", 8, false),
        post("x", "blog", 7, true),
        post("c", "blog", 6, false),
        post("d", "blog", 5, false),
        post("e", "blog", 4, false),
    ];
    let site = port(2, 0);
    let pages = site.build_index("blog", &posts);
    assert_eq!(pages.len(), 3);
    assert_eq!(pages[0].page_path, "blog");
    assert_eq!(pages[0].dir, "/home/me/site/.build/blog");
    assert_eq!(pages[0].file, "/home/me/site/.build/blog/index.html");
    assert_eq!(pages[0].prev_page, None);
    assert_eq!(pages[0].next_page, Some("/blog/p/2".to_string()));
    assert_eq!(slugs(&pages[0].posts), vec!["a", "b"]);
    assert_eq!(pages[1].page_path, "blog/p/2");
    assert_eq!(pages[1].file, "/home/me/site/.build/blog/p/2/index.html");
    assert_eq!(pages[1].prev_page, Some("/blog".to_string()));
    assert_eq!(pages[1].next_page, Some("/blog/p/3".to_string()));
    assert_eq!(slugs(&pages[1].posts), vec!["c", "d"]);
    assert_eq!(pages[2].page_path, "blog/p/3");
    assert_eq!(pages[2].prev_page, Some("/blog/p/2".to_string()));
    assert_eq!(pages[2].next_page, None);
    assert_eq!(slugs(&pages[2].posts), vec!["e"]);
}

#[test]
fn index_pages_of_the_whole_site() {
    let posts = vec![post("a", "blog", 9, false), post("b", "notes", 8, false), post("c", "blog", 7, false)];
    let site = port(1, 0);
    let pages = site.build_index("", &posts);
    assert_eq!(pages.len(), 3);
    assert_eq!(pages[0].page_path, "");
    assert_eq!(pages[0].file, "/home/me/site/.build/index.html");
    assert_eq!(pages[0].next_page, Some("/p/2".to_string()));
    assert_eq!(pages[1].page_path, "p/2");
    assert_eq!(pages[1].file, "/home/me/site/.build/p/2/index.html");
    assert_eq!(pages[1].prev_page, Some("/".to_string()));
    assert_eq!(pages[2].prev_page, Some("/p/2".to_string()));
}

#[test]
fn only_drafts_give_no_index() {
    let posts = vec![post("x", "blog", 7, true)];
    assert_eq!(port(2, 0).build_index("blog", &posts).len(), 0);
}

#[test]
fn post_pages() {
    let posts = vec![post("a", "blog/tech", 9, false), post("x", "blog/tech", 7, true)];
    let site = port(2, 0);
    let pages = site.build_posts(&posts);
    assert_eq!(pages.len(), 2);
    assert_eq!(pages[0].dir, "/home/me/site/.build/blog/tech/a");
    assert_eq!(pages[0].file, "/home/me/site/.build/blog/tech/a/index.html");
    assert_eq!(pages[0].current_url, "https://example.org/blog/tech/a");
    assert_eq!(pages[0].post.slug, "a");
    assert_eq!(pages[1].post.slug, "x");
    assert_eq!(pages[1].current_url, "https://example.org/blog/tech/x");
}

#[test]
fn category_build() {
    let posts = vec![
        post("a", "blog/tech", 9, false),
        post("x", "blog/tech", 7, true),
        post("b", "blog/tech", 5, false),
    ];
    let site = port(5, 60);
    let built = site.build_category("blog/tech", &posts).unwrap();
    assert_eq!(built.index.len(), 1);
    assert_eq!(built.posts.len(), 3);
    assert_eq!(built.feed_file, "/home/me/site/.build/rss/blog.tech.xml");
    let channel = rss::Channel::read_from(built.feed.as_bytes()).unwrap();
    assert_eq!(channel.title(), "Site");
    assert_eq!(channel.link(), "https://example.org");
    assert_eq!(channel.description(), "About");
    let titles: Vec<&str> = channel.items().iter().map(|i| i.title().unwrap()).collect();
    assert_eq!(titles, vec!["a", "b"]);
    let links: Vec<&str> = channel.items().iter().map(|i| i.link().unwrap()).collect();
    assert_eq!(links, vec!["blog/tech/a", "blog/tech/b"]);
    for item in channel.items() {
        assert_eq!(item.categories()[0].name(), "blog/tech");
    }
    assert_eq!(channel.items()[0].pub_date(), Some("Tue, 09 Jan 2024 12:00:00 +0100"));
}

#[test]
fn feed_holds_at_most_twenty_items() {
    let mut posts = Vec::new();
    for i in 0..25u8 {
        posts.push(post(&format!("p{}", i), "c", 28 - i, i == 3));
    }
    let site = port(10, 0);
    let built = site.build_category("c", &posts).unwrap();
    let channel = rss::Channel::read_from(built.feed.as_bytes()).unwrap();
    assert_eq!(channel.items().len(), 20);
    let expected: Vec<String> =
        posts.iter().filter(|p| !p.meta.draft).take(20).map(|p| p.slug.clone()).collect();
    let titles: Vec<String> =
        channel.items().iter().map(|i| i.title().unwrap().to_string()).collect();
    assert_eq!(titles, expected);
    assert_eq!(built.index.len(), 3);
}

#[test]
fn category_fails_where_feed_fails() {
    let posts = vec![post("a", "c", 9, false)];
    assert_eq!(port(5, 5000).build_category("c", &posts).err(), Some(FeedError::Offset));
    let drafts = vec![post("a", "c", 9, true)];
    assert!(port(5, 5000).build_category("c", &drafts).is_ok());
}

#[test]
fn group_compiles_in_order() {
    let sources = vec![source("a", 1, "# A\n\ntext a\n"), source("b", 2, "# B\n\ntext b\n")];
    let posts = compile_group("blog", &sources).unwrap();
    assert_eq!(posts.len(), 2);
    assert_eq!(posts[0].url, "blog/a");
    assert_eq!(posts[0].title, "A");
    assert_eq!(posts[1].url, "blog/b");
    assert_eq!(posts[1].html, "<p>text b</p>\n");
}

#[test]
fn site_build_sorts_categories() {
    let groups = vec![
        SourceGroup {
            slug: "blog".to_string(),
            posts: vec![source("old", 1, "# Old\n"), source("new", 20, "# New\n"), source("mid", 10, "# Mid\n")],
        },
        SourceGroup { slug: "notes".to_string(), posts: vec![source("n", 15, "note\n")] },
    ];
    let categories = port(2, 0).build(&groups).unwrap();
    assert_eq!(categories.len(), 2);
    assert_eq!(categories[0].slug, "blog");
    let order: Vec<&str> = categories[0].posts.iter().map(|p| p.slug.as_str()).collect();
    assert_eq!(order, vec!["new", "mid", "old"]);
    assert_eq!(categories[1].slug, "notes");
    assert_eq!(categories[1].posts[0].title, "");
    let all = all_posts(categories);
    let order: Vec<&str> = all.iter().map(|p| p.slug.as_str()).collect();
    assert_eq!(order, vec!["new", "n", "mid", "old"]);
}

#[test]
fn site_build_fails_on_first_broken_post() {
    let groups = vec![
        SourceGroup { slug: "blog".to_string(), posts: vec![source("ok", 1, "fine\n")] },
        SourceGroup {
            slug: "notes".to_string(),
            posts: vec![source("bad", 2, "```first-bad\nx\n```\n"), source("worse", 3, "```second-bad\nx\n```\n")],
        },
    ];
    match port(2, 0).build(&groups) {
        Err(BuildError::Compile(CompileError::UnknownLanguage(tag))) => assert_eq!(tag, "first-bad"),
        other => panic!("expected a compile error, got {:?}", other),
    }
}

#[test]
fn site_build_needs_a_page_size() {
    let groups = vec![SourceGroup { slug: "blog".to_string(), posts: vec![source("ok", 1, "fine\n")] }];
    assert!(matches!(port(0, 0).build(&groups), Err(BuildError::PageSize)));
    assert!(port(1, 0).build(&groups).is_ok());
}

#[test]
fn all_posts_keep_category_order_for_one_moment() {
    let categories = vec![
        Category { slug: "a".to_string(), posts: vec![post("a1", "a", 5, false), post("a2", "a", 3, false)] },
        Category { slug: "b".to_string(), posts: vec![post("b1", "b", 5, false), post("b2", "b", 3, false)] },
    ];
    let all = all_posts(categories);
    let order: Vec<&str> = all.iter().map(|p| p.slug.as_str()).collect();
    assert_eq!(order, vec!["a1", "b1", "a2", "b2"]);
}
