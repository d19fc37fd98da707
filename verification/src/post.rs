//! Posts: front matter, the compiled record, and the description drawn from
//! a post's plain text.

use vstd::prelude::*;
use vstd::string::StringExecFns;
use vstd::string::StrSliceExecFns;
use crate::markdown::{
    compile_markdown,
    layout_of,
    option_view,
    Compiled,
    LayoutView,
};
use crate::highlight::{CompileError, CompileErrorView};
use crate::parser::{markdown_tokens, rendered_html};

verus! {

/// A date and time of day, without an offset.
#[derive(Clone, Copy, Debug, PartialEq, Eq, Structural)]
pub struct Timestamp {
    pub year: i32,
    pub month: u8,
    pub day: u8,
    pub hour: u8,
    pub minute: u8,
    pub second: u8,
    pub nanosecond: u32,
}

/// Whether the year is a leap year of the Gregorian calendar.
pub open spec fn leap_year(year: int) -> bool {
    year % 4 == 0 && (year % 100 != 0 || year % 400 == 0)
}

/// The number of days of a month, 1 to 12, in a year.
pub open spec fn days_in_month(year: int, month: int) -> int {
    if month == 2 {
        if leap_year(year) {
            29
        } else {
            28
        }
    } else if month == 4 || month == 6 || month == 9 || month == 11 {
        30
    } else {
        31
    }
}

impl Timestamp {
    /// Whether the fields name a day of the calendar and a time of that day.
    pub open spec fn valid(self) -> bool {
        &&& -9999 <= self.year <= 9999
        &&& 1 <= self.month <= 12
        &&& 1 <= self.day <= days_in_month(self.year as int, self.month as int)
        &&& self.hour < 24
        &&& self.minute < 60
        &&& self.second < 60
        &&& self.nanosecond < 1_000_000_000
    }

    /// Whether `self` lies before `other`: the fields compared in order,
    /// from the year down.
    pub open spec fn before(self, other: Timestamp) -> bool {
        if self.year != other.year {
            self.year < other.year
        } else if self.month != other.month {
            self.month < other.month
        } else if self.day != other.day {
            self.day < other.day
        } else if self.hour != other.hour {
            self.hour < other.hour
        } else if self.minute != other.minute {
            self.minute < other.minute
        } else if self.second != other.second {
            self.second < other.second
        } else {
            self.nanosecond < other.nanosecond
        }
    }

    /// Whether the fields name a day of the calendar and a time of that day.
    pub fn is_valid(&self) -> (r: bool)
        ensures
            r == self.valid(),
    {
        if self.year < -9999 || self.year > 9999 || self.month < 1 || self.month > 12 {
            return false;
        }
        let leap = self.year % 4 == 0 && (self.year % 100 != 0 || self.year % 400 == 0);
        let days: u8 = if self.month == 2 {
            if leap {
                29
            } else {
                28
            }
        } else if self.month == 4 || self.month == 6 || self.month == 9 || self.month == 11 {
            30
        } else {
            31
        };
        1 <= self.day && self.day <= days && self.hour < 24 && self.minute < 60 && self.second
            < 60 && self.nanosecond < 1_000_000_000
    }

    /// Whether `self` lies before `other`.
    pub fn is_before(&self, other: &Timestamp) -> (r: bool)
        ensures
            r == self.before(*other),
    {
        if self.year != other.year {
            self.year < other.year
        } else if self.month != other.month {
            self.month < other.month
        } else if self.day != other.day {
            self.day < other.day
        } else if self.hour != other.hour {
            self.hour < other.hour
        } else if self.minute != other.minute {
            self.minute < other.minute
        } else if self.second != other.second {
            self.second < other.second
        } else {
            self.nanosecond < other.nanosecond
        }
    }
}

/// What a post states about itself ahead of its text.
#[derive(Clone, Copy, Debug, PartialEq, Eq, Structural)]
pub struct FrontMatter {
    pub published_at: Timestamp,
    pub draft: bool,
}

/// A compiled post.
#[derive(Debug)]
pub struct Post {
    pub url: String,
    pub slug: String,
    pub html: String,
    pub title: String,
    pub category: String,
    pub description: Option<String>,
    pub image: Option<String>,
    pub meta: FrontMatter,
}

/// The posts that a list of references stands for.
pub open spec fn posts_of(refs: Seq<&Post>) -> Seq<Post> {
    Seq::new(refs.len(), |i: int| *refs[i])
}

/// The most characters of plain text that a description shows in full.
pub const DESCRIPTION_LIMIT: usize = 140;

/// The mark that ends a shortened description.
pub const ELLIPSIS: char = '\u{2026}';

/// The description for a post's plain text: the text itself up to 140
/// characters, else its first 139 characters and an ellipsis.
pub open spec fn description_of(text: Seq<char>) -> Seq<char> {
    if text.len() <= 140 {
        text
    } else {
        text.subrange(0, 139).push('\u{2026}')
    }
}

/// Shortens plain text to a description.
pub fn describe(text: &str) -> (out: String)
    ensures
        out@ == description_of(text@),
{
    if text.unicode_len() <= DESCRIPTION_LIMIT {
        text.to_owned()
    } else {
        let mut out = text.substring_char(0, DESCRIPTION_LIMIT - 1).to_owned();
        out.push(ELLIPSIS);
        out
    }
}

/// A description is at most 140 characters long, and text of up to 140
/// characters is its own description.
pub proof fn lemma_description_length(text: Seq<char>)
    ensures
        description_of(text).len() <= 140,
        text.len() <= 140 ==> description_of(text) == text,
        text.len() > 140 ==> description_of(text).len() == 140 && description_of(text).last()
            == '\u{2026}' && description_of(text).subrange(0, 139) == text.subrange(0, 139),
{
    if text.len() > 140 {
        assert(description_of(text).subrange(0, 139) =~= text.subrange(0, 139));
    }
}

/// The address of a post: its category, a slash, its slug.
pub open spec fn post_url(category: Seq<char>, slug: Seq<char>) -> Seq<char> {
    category.push('/') + slug
}

/// Whether `post` is the record of a compiled document under a category
/// and a slug: the HTML, the title and the image passed on, the address
/// made of category and slug, and a description where there is any plain
/// text.
pub open spec fn assembled(
    post: Post,
    category: Seq<char>,
    slug: Seq<char>,
    meta: FrontMatter,
    html: Seq<char>,
    title: Seq<char>,
    text: Seq<char>,
    image: Option<Seq<char>>,
) -> bool {
    &&& post.url@ == post_url(category, slug)
    &&& post.slug@ == slug
    &&& post.category@ == category
    &&& post.html@ == html
    &&& post.title@ == title
    &&& post.meta == meta
    &&& option_view(post.image) == image
    &&& option_view(post.description) == if text.len() == 0 {
        None
    } else {
        Some(description_of(text))
    }
}

/// Puts a compiled document and its front matter together as a post.
pub fn assemble(category: &str, slug: &str, meta: FrontMatter, compiled: Compiled) -> (post: Post)
    ensures
        assembled(
            post,
            category@,
            slug@,
            meta,
            compiled.html@,
            compiled.title@,
            compiled.body@,
            option_view(compiled.main_image),
        ),
{
    let mut url = category.to_owned();
    url.push('/');
    url.append(slug);
    let description = if compiled.body.as_str().unicode_len() == 0 {
        None
    } else {
        Some(describe(compiled.body.as_str()))
    };
    Post {
        url,
        slug: slug.to_owned(),
        html: compiled.html,
        title: compiled.title,
        category: category.to_owned(),
        description,
        image: compiled.main_image,
        meta,
    }
}

/// Compiles the Markdown text of a post and assembles the post.
///
/// Fails exactly where compilation of the text fails, with its error.
/// Otherwise the post holds the rendered body and title of the text's
/// layout, its main image, and the description of its plain text.
pub fn compile_post(category: &str, slug: &str, meta: FrontMatter, body: &str) -> (r: Result<
    Post,
    CompileError,
>)
    ensures
        match r {
            Ok(post) => match layout_of(markdown_tokens(body@)) {
                Ok(layout) => assembled(
                    post,
                    category@,
                    slug@,
                    meta,
                    rendered_html(body@, layout.body),
                    rendered_html(body@, layout.title),
                    layout.excerpt,
                    layout.main_image,
                ) && (layout.title.len() == 0 ==> post.title@.len() == 0),
                Err(_) => false,
            },
            Err(e) => layout_of(markdown_tokens(body@)) == Err::<LayoutView, CompileErrorView>(
                e@,
            ),
        },
{
    match compile_markdown(body) {
        Ok(compiled) => Ok(assemble(category, slug, meta, compiled)),
        Err(e) => Err(e),
    }
}

} // verus!
