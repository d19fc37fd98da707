use port::feed::{feed, pub_date, FeedError};
use port::post::{FrontMatter, Post, Timestamp};

fn at(year: i32, month: u8, day: u8, hour: u8, minute: u8, second: u8) -> Timestamp {
    Timestamp { year, month, day, hour, minute, second, nanosecond: 0 }
}

fn post(slug: &str, category: &str, published_at: Timestamp) -> Post {
    Post {
        url: format!("{}/{}", category, slug),
        slug: slug.to_string(),
        html: format!("<p>{}</p>", slug),
        title: format!("Title of {}", slug),
        category: category.to_string(),
        description: Some(format!("About {}", slug)),
        image: None,
        meta: FrontMatter { published_at, draft: false },
    }
}

#[test]
fn date_in_rfc_2822() {
    assert_eq!(
        pub_date(&at(2024, 1, 2, 3, 4, 5), 60),
        Ok("Tue, 02 Jan 2024 03:04:05 +0100".to_string())
    );
    assert_eq!(
        pub_date(&at(2024, 2, 29, 23, 59, 0), 0),
        Ok("Thu, 29 Feb 2024 23:59:00 +0000".to_string())
    );
    assert_eq!(
        pub_date(&at(1999, 12, 31, 0, 0, 0), -330),
        Ok("Fri, 31 Dec 1999 00:00:00 -0530".to_string())
    );
}

#[test]
fn widest_offsets() {
    assert_eq!(
        pub_date(&at(2024, 1, 2, 3, 4, 5), 1559),
        Ok("Tue, 02 Jan 2024 03:04:05 +2559".to_string())
    );
    assert_eq!(
        pub_date(&at(2024, 1, 2, 3, 4, 5), -1559),
        Ok("Tue, 02 Jan 2024 03:04:05 -2559".to_string())
    );
    assert_eq!(pub_date(&at(2024, 1, 2, 3, 4, 5), 1560), Err(FeedError::Offset));
    assert_eq!(pub_date(&at(2024, 1, 2, 3, 4, 5), -1560), Err(FeedError::Offset));
    assert_eq!(pub_date(&at(2024, 1, 2, 3, 4, 5), i32::MAX), Err(FeedError::Offset));
    assert_eq!(pub_date(&at(2024, 1, 2, 3, 4, 5), i32::MIN), Err(FeedError::Offset));
}

#[test]
fn dates_that_cannot_be_written() {
    assert_eq!(pub_date(&at(1899, 12, 31, 0, 0, 0), 0), Err(FeedError::Date));
    assert_eq!(pub_date(&at(2023, 2, 29, 0, 0, 0), 0), Err(FeedError::Date));
    assert_eq!(pub_date(&at(2024, 1, 1, 24, 0, 0), 0), Err(FeedError::Date));
    assert_eq!(pub_date(&at(1900, 1, 1, 0, 0, 0), 0), Ok("Mon, 01 Jan 1900 00:00:00 +0000".to_string()));
    assert_eq!(pub_date(&at(9999, 12, 31, 23, 59, 59), 0), Ok("Fri, 31 Dec 9999 23:59:59 +0000".to_string()));
    assert_eq!(pub_date(&at(1899, 12, 31, 0, 0, 0), 5000), Err(FeedError::Offset));
}

#[test]
fn feed_reads_back() {
    let posts = vec![
        post("one", "blog", at(2024, 3, 1, 10, 0, 0)),
        post("two", "blog/tech", at(2024, 2, 1, 10, 0, 0)),
        post("three & four", "notes", at(2024, 1, 1, 10, 0, 0)),
    ];
    let refs: Vec<&Post> = posts.iter().collect();
    let xml = feed("My <site>", "https://example.org", "A site", &refs, 120).unwrap();
    let channel = rss::Channel::read_from(xml.as_bytes()).unwrap();
    assert_eq!(channel.title(), "My <site>");
    assert_eq!(channel.link(), "https://example.org");
    assert_eq!(channel.description(), "A site");
    assert_eq!(channel.items().len(), 3);
    for (item, post) in channel.items().iter().zip(posts.iter()) {
        assert_eq!(item.title(), Some(post.title.as_str()));
        assert_eq!(item.link(), Some(post.url.as_str()));
        assert_eq!(item.content(), Some(post.html.as_str()));
        assert_eq!(item.description(), post.description.as_deref());
        assert_eq!(item.categories().len(), 1);
        assert_eq!(item.categories()[0].name(), post.category.as_str());
    }
    assert_eq!(channel.items()[0].pub_date(), Some("Fri, 01 Mar 2024 10:00:00 +0200"));
}

#[test]
fn empty_feed() {
    let refs: Vec<&Post> = Vec::new();
    let xml = feed("Name", "https://example.org", "Desc", &refs, 100_000).unwrap();
    let channel = rss::Channel::read_from(xml.as_bytes()).unwrap();
    assert_eq!(channel.items().len(), 0);
    assert_eq!(channel.title(), "Name");
}

#[test]
fn feed_fails_on_first_bad_date() {
    let posts = vec![
        post("one", "blog", at(2024, 3, 1, 10, 0, 0)),
        post("old", "blog", at(1800, 1, 1, 0, 0, 0)),
    ];
    let refs: Vec<&Post> = posts.iter().collect();
    assert_eq!(feed("n", "u", "d", &refs, 0), Err(FeedError::Date));
    assert_eq!(feed("n", "u", "d", &refs, 2000), Err(FeedError::Offset));
}
