//! RSS feeds: the items of a feed, their publication dates, and the XML,
//! which the `rss` crate writes.

use vstd::prelude::*;
use time::format_description::well_known::Rfc2822;
use time::{Date, Month, PrimitiveDateTime, Time, UtcOffset};
use crate::markdown::option_view;
use crate::post::{posts_of, Post, Timestamp};

verus! {

/// One item of a feed.
#[derive(Debug)]
pub struct FeedItem {
    pub link: String,
    pub title: String,
    pub content: String,
    pub description: Option<String>,
    pub pub_date: String,
    pub category: String,
}

/// A feed item over sequences of characters.
pub struct FeedItemView {
    pub link: Seq<char>,
    pub title: Seq<char>,
    pub content: Seq<char>,
    pub description: Option<Seq<char>>,
    pub pub_date: Seq<char>,
    pub category: Seq<char>,
}

impl View for FeedItem {
    type V = FeedItemView;

    open spec fn view(&self) -> FeedItemView {
        FeedItemView {
            link: self.link@,
            title: self.title@,
            content: self.content@,
            description: option_view(self.description),
            pub_date: self.pub_date@,
            category: self.category@,
        }
    }
}

impl DeepView for FeedItem {
    type V = FeedItemView;

    open spec fn deep_view(&self) -> FeedItemView {
        self@
    }
}

/// Why a feed cannot be written.
#[derive(Clone, Copy, Debug, PartialEq, Eq, Structural)]
pub enum FeedError {
    /// The site's offset from UTC is more than 25 hours and 59 minutes.
    Offset,
    /// A post's date is no day of the calendar, or its year is not one of
    /// 1900 to 9999, which RFC 2822 cannot write.
    Date,
}

/// The RFC 2822 text of a moment at an offset from UTC, as the `time` crate
/// writes it.
pub uninterp spec fn pub_date_text(
    year: int,
    month: int,
    day: int,
    hour: int,
    minute: int,
    second: int,
    offset_seconds: int,
) -> Seq<char>;

/// The XML that the `rss` crate writes for a channel with this title, link
/// and description and these items, each with one category.
pub uninterp spec fn feed_xml(
    title: Seq<char>,
    link: Seq<char>,
    description: Seq<char>,
    items: Seq<FeedItemView>,
) -> Seq<char>;

/// Whether an offset from UTC, in minutes, is one that a date can carry.
pub open spec fn offset_in_range(minutes: int) -> bool {
    -1559 <= minutes <= 1559
}

/// Whether RFC 2822 can write the moment.
pub open spec fn writable(at: Timestamp) -> bool {
    at.valid() && 1900 <= at.year
}

/// `time::OffsetDateTime::format` with `Rfc2822`, on the date and time of
/// `at` taken to be at the given offset. The value is put together with
/// `Date::from_calendar_date`, `Time::from_hms_nano`,
/// `UtcOffset::from_whole_seconds` and `PrimitiveDateTime::assume_offset`,
/// none of which fails on a valid moment and an offset of whole minutes
/// within 25:59 hours; the format needs a year from 1900 on. The contract
/// names the text.
#[verifier::external_body]
fn rfc2822(at: &Timestamp, offset_seconds: i32) -> (text: String)
    requires
        writable(*at),
        -93599 <= offset_seconds <= 93599,
        offset_seconds % 60 == 0,
    ensures
        text@ == pub_date_text(
            at.year as int,
            at.month as int,
            at.day as int,
            at.hour as int,
            at.minute as int,
            at.second as int,
            offset_seconds as int,
        ),
{
    let month = Month::try_from(at.month).unwrap();
    let date = Date::from_calendar_date(at.year, month, at.day).unwrap();
    let time = Time::from_hms_nano(at.hour, at.minute, at.second, at.nanosecond).unwrap();
    let offset = UtcOffset::from_whole_seconds(offset_seconds).unwrap();
    PrimitiveDateTime::new(date, time).assume_offset(offset).format(&Rfc2822).unwrap()
}

/// `rss::ChannelBuilder` and `rss::ItemBuilder`, then `to_string` on the
/// channel. Each item gets its link, title, content, description,
/// publication date and one category. The contract names the XML.
#[verifier::external_body]
fn channel_xml(title: &str, link: &str, description: &str, items: &Vec<FeedItem>) -> (xml: String)
    ensures
        xml@ == feed_xml(title@, link@, description@, items.deep_view()),
{
    let items: Vec<rss::Item> = items.iter().map(|item| rss::ItemBuilder::default()
        .link(Some(item.link.clone()))
        .title(Some(item.title.clone()))
        .content(Some(item.content.clone()))
        .description(item.description.clone())
        .pub_date(Some(item.pub_date.clone()))
        .category(rss::CategoryBuilder::default().name(&item.category).build())
        .build()).collect();
    rss::ChannelBuilder::default().title(title).link(link).description(description).items(items)
        .build().to_string()
}

/// The publication date of a moment at an offset of `minutes` from UTC, or
/// why there is none: the offset is looked at first.
pub open spec fn pub_date_of(at: Timestamp, minutes: int) -> Result<Seq<char>, FeedError> {
    if !offset_in_range(minutes) {
        Err(FeedError::Offset)
    } else if !writable(at) {
        Err(FeedError::Date)
    } else {
        Ok(
            pub_date_text(
                at.year as int,
                at.month as int,
                at.day as int,
                at.hour as int,
                at.minute as int,
                at.second as int,
                60 * minutes,
            ),
        )
    }
}

/// Writes a moment as an RFC 2822 date at an offset of `minutes` from UTC.
pub fn pub_date(at: &Timestamp, minutes: i32) -> (r: Result<String, FeedError>)
    ensures
        match r {
            Ok(text) => pub_date_of(*at, minutes as int) == Ok::<Seq<char>, FeedError>(text@),
            Err(e) => pub_date_of(*at, minutes as int) == Err::<Seq<char>, FeedError>(e),
        },
{
    if minutes < -1559 || minutes > 1559 {
        return Err(FeedError::Offset);
    }
    if !at.is_valid() || at.year < 1900 {
        return Err(FeedError::Date);
    }
    Ok(rfc2822(at, 60 * minutes))
}

/// The feed item of a post whose publication date reads `pub_date`.
pub open spec fn item_of(post: Post, pub_date: Seq<char>) -> FeedItemView {
    FeedItemView {
        link: post.url@,
        title: post.title@,
        content: post.html@,
        description: option_view(post.description),
        pub_date,
        category: post.category@,
    }
}

/// The feed items of the first `count` of `posts`, or the error of the
/// first post among them that has no publication date.
pub open spec fn items_of(posts: Seq<Post>, minutes: int, count: int) -> Result<
    Seq<FeedItemView>,
    FeedError,
>
    decreases count,
{
    if count <= 0 {
        Ok(Seq::empty())
    } else {
        match items_of(posts, minutes, count - 1) {
            Err(e) => Err(e),
            Ok(items) => match pub_date_of(posts[count - 1].meta.published_at, minutes) {
                Err(e) => Err(e),
                Ok(text) => Ok(items.push(item_of(posts[count - 1], text))),
            },
        }
    }
}

/// The feed of `posts` for a site with this name, address and description,
/// or why it cannot be written.
pub open spec fn feed_of(
    name: Seq<char>,
    url: Seq<char>,
    desc: Seq<char>,
    posts: Seq<Post>,
    minutes: int,
) -> Result<Seq<char>, FeedError> {
    match items_of(posts, minutes, posts.len() as int) {
        Ok(items) => Ok(feed_xml(name, url, desc, items)),
        Err(e) => Err(e),
    }
}

/// A copy of an optional string.
fn copy_option(text: &Option<String>) -> (r: Option<String>)
    ensures
        r == *text,
{
    match text {
        Some(text) => Some(text.clone()),
        None => None,
    }
}

/// Writes the feed of `posts`, in their order, as RSS XML.
///
/// The feed is written exactly if the offset is within range and RFC 2822
/// can write every post's date, or if there are no posts; the error is that
/// of the first post that has no publication date.
pub fn feed(name: &str, url: &str, desc: &str, posts: &Vec<&Post>, minutes: i32) -> (r: Result<
    String,
    FeedError,
>)
    ensures
        match r {
            Ok(xml) => feed_of(name@, url@, desc@, posts_of(posts@), minutes as int) == Ok::<
                Seq<char>,
                FeedError,
            >(xml@),
            Err(e) => feed_of(name@, url@, desc@, posts_of(posts@), minutes as int) == Err::<
                Seq<char>,
                FeedError,
            >(e),
        },
{
    let mut items: Vec<FeedItem> = Vec::new();
    let mut i: usize = 0;
    assert(items.deep_view() =~= Seq::<FeedItemView>::empty());
    while i < posts.len()
        invariant
            i <= posts.len(),
            items_of(posts_of(posts@), minutes as int, i as int) == Ok::<
                Seq<FeedItemView>,
                FeedError,
            >(
                items.deep_view(),
            ),
        decreases posts.len() - i,
    {
        let post = posts[i];
        assert(posts_of(posts@)[i as int] == *post);
        match pub_date(&post.meta.published_at, minutes) {
            Ok(text) => {
                let ghost before = items.deep_view();
                let item = FeedItem {
                    link: post.url.clone(),
                    title: post.title.clone(),
                    content: post.html.clone(),
                    description: copy_option(&post.description),
                    pub_date: text,
                    category: post.category.clone(),
                };
                items.push(item);
                assert(items.deep_view() =~= before.push(item@));
            },
            Err(e) => {
                assert(items_of(posts_of(posts@), minutes as int, i + 1) == Err::<
                    Seq<FeedItemView>,
                    FeedError,
                >(e));
                proof {
                    lemma_items_error_stays(
                        posts_of(posts@),
                        minutes as int,
                        i + 1,
                        posts@.len() as int,
                    );
                }
                return Err(e);
            },
        }
        i += 1;
    }
    Ok(channel_xml(name, url, desc, &items))
}

/// Once a post has no publication date, no longer list of posts has items.
pub proof fn lemma_items_error_stays(posts: Seq<Post>, minutes: int, count: int, more: int)
    requires
        count <= more,
        items_of(posts, minutes, count) is Err,
    ensures
        items_of(posts, minutes, more) == items_of(posts, minutes, count),
    decreases more - count,
{
    if count < more {
        lemma_items_error_stays(posts, minutes, count, more - 1);
    }
}

} // verus!
