//! Reading Markdown into tokens and writing pieces out as HTML, both done by
//! the `pulldown_cmark` crate.

use vstd::prelude::*;
use pulldown_cmark::{CodeBlockKind, Event, Options, Parser, Tag, TagEnd};
use crate::token::{pieces_within, Piece, PieceView, Token, TokenView};

verus! {

/// The tokens of the Markdown text `raw`, in document order, as
/// `pulldown_cmark` reads them with every extension switched on.
pub uninterp spec fn markdown_tokens(raw: Seq<char>) -> Seq<TokenView>;

/// The HTML that `pulldown_cmark` writes for a list of pieces of the
/// Markdown text `raw`: each kept position stands for the document's event
/// there, each other piece for an event of raw HTML.
pub uninterp spec fn rendered_html(raw: Seq<char>, pieces: Seq<PieceView>) -> Seq<char>;

/// `pulldown_cmark::Parser::new_ext` with `Options::all()`, read to its end.
/// Each event becomes one token: headings keep their level, text its
/// content, an image its address and title, a fenced code block its tag.
/// The contract names the list.
#[verifier::external_body]
fn parse(raw: &str) -> (tokens: Vec<Token>)
    ensures
        tokens.deep_view() == markdown_tokens(raw@),
{
    Parser::new_ext(raw, Options::all()).map(|event| match event {
        Event::Start(Tag::Heading { level, .. }) => Token::HeadingStart(level as u8),
        Event::End(TagEnd::Heading(level)) => Token::HeadingEnd(level as u8),
        Event::Text(text) => Token::Text(text.to_string()),
        Event::End(TagEnd::Paragraph) => Token::ParagraphEnd,
        Event::Start(Tag::Image { dest_url, title, .. }) => Token::Image {
            url: dest_url.to_string(),
            title: title.to_string(),
        },
        Event::Start(Tag::CodeBlock(CodeBlockKind::Fenced(tag))) => Token::Fence(tag.to_string()),
        _ => Token::Other,
    }).collect()
}

/// `pulldown_cmark::html::push_html` on the events that the pieces stand
/// for, into an empty string. The document is read again to find the events
/// by position. The contract names the HTML, and states that no pieces give
/// no HTML.
#[verifier::external_body]
pub(crate) fn render(raw: &str, pieces: &Vec<Piece>) -> (html: String)
    requires
        pieces_within(pieces.deep_view(), markdown_tokens(raw@).len() as int),
    ensures
        html@ == rendered_html(raw@, pieces.deep_view()),
        pieces.len() == 0 ==> html@.len() == 0,
{
    let events: Vec<Event> = Parser::new_ext(raw, Options::all()).collect();
    let picked = pieces.iter().map(|piece| match piece {
        Piece::Keep(at) => events[*at].clone(),
        Piece::Html(html) => Event::Html(html.clone().into()),
    });
    let mut html = String::new();
    pulldown_cmark::html::push_html(&mut html, picked);
    html
}

/// Reads Markdown text into its tokens.
pub fn tokenize(raw: &str) -> (tokens: Vec<Token>)
    ensures
        tokens.deep_view() == markdown_tokens(raw@),
{
    parse(raw)
}

} // verus!
