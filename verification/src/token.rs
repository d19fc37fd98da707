//! The tokens of a Markdown document, as far as compilation reads them, and
//! the pieces that compilation puts out.

use vstd::prelude::*;

verus! {

/// One unit of a document's structure. A token carries what compilation
/// decides on; everything else about it stays with the document, where the
/// token is known by its position.
#[derive(Debug)]
pub enum Token {
    /// The start of a heading of the given level, 1 to 6.
    HeadingStart(u8),
    /// The end of a heading of the given level.
    HeadingEnd(u8),
    /// A run of text.
    Text(String),
    /// The end of a paragraph.
    ParagraphEnd,
    /// The start of an image or video reference.
    Image { url: String, title: String },
    /// The start of a fenced code block, with its language tag, which may be
    /// empty.
    Fence(String),
    /// Any other token.
    Other,
}

/// A token over sequences of characters.
pub enum TokenView {
    HeadingStart(u8),
    HeadingEnd(u8),
    Text(Seq<char>),
    ParagraphEnd,
    Image { url: Seq<char>, title: Seq<char> },
    Fence(Seq<char>),
    Other,
}

impl View for Token {
    type V = TokenView;

    open spec fn view(&self) -> TokenView {
        match *self {
            Token::HeadingStart(level) => TokenView::HeadingStart(level),
            Token::HeadingEnd(level) => TokenView::HeadingEnd(level),
            Token::Text(text) => TokenView::Text(text@),
            Token::ParagraphEnd => TokenView::ParagraphEnd,
            Token::Image { url, title } => TokenView::Image { url: url@, title: title@ },
            Token::Fence(tag) => TokenView::Fence(tag@),
            Token::Other => TokenView::Other,
        }
    }
}

impl DeepView for Token {
    type V = TokenView;

    open spec fn deep_view(&self) -> TokenView {
        self@
    }
}

/// One piece of compiled output: a token of the document passed on as it
/// is, or raw HTML that took the place of a whole construct.
#[derive(Debug)]
pub enum Piece {
    /// The document's token at this position.
    Keep(usize),
    /// Raw HTML.
    Html(String),
}

/// A piece over sequences of characters.
pub enum PieceView {
    Keep(int),
    Html(Seq<char>),
}

impl View for Piece {
    type V = PieceView;

    open spec fn view(&self) -> PieceView {
        match *self {
            Piece::Keep(at) => PieceView::Keep(at as int),
            Piece::Html(html) => PieceView::Html(html@),
        }
    }
}

impl DeepView for Piece {
    type V = PieceView;

    open spec fn deep_view(&self) -> PieceView {
        self@
    }
}

/// Whether every kept token of `pieces` lies below `count`.
pub open spec fn pieces_within(pieces: Seq<PieceView>, count: int) -> bool {
    forall|i: int|
        0 <= i < pieces.len() ==> match #[trigger] pieces[i] {
            PieceView::Keep(at) => 0 <= at < count,
            PieceView::Html(_) => true,
        }
}

/// The tokens at positions `from` up to `to`, each passed on as it is.
pub open spec fn keeps(from: int, to: int) -> Seq<PieceView> {
    Seq::new(
        if to >= from {
            (to - from) as nat
        } else {
            0
        },
        |i: int| PieceView::Keep(from + i),
    )
}

/// Appends a piece.
pub fn push_piece(pieces: &mut Vec<Piece>, piece: Piece)
    ensures
        final(pieces).deep_view() == old(pieces).deep_view().push(piece@),
{
    pieces.push(piece);
    assert(pieces.deep_view() =~= old(pieces).deep_view().push(piece@));
}

} // verus!
