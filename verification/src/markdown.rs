//! Compilation of a post: one pass over the document's tokens that draws the
//! title out, replaces image and video references by figures, highlights
//! fenced code, and gathers the plain text for an excerpt.

use vstd::prelude::*;
use vstd::string::StringExecFns;
use crate::figure::{figure_html, figure_markup, image_address, is_image};
use crate::highlight::{
    block_html,
    block_markup,
    tagged,
    CompileError,
    CompileErrorView,
    Syntax,
};
use crate::parser::{markdown_tokens, render, rendered_html, tokenize};
use crate::token::{pieces_within, push_piece, Piece, PieceView, Token, TokenView};

verus! {

/// Where the pass stands: in the body, or inside the heading that gives the
/// title.
#[derive(Clone, Copy, Debug, PartialEq, Eq, Structural)]
pub enum Mode {
    Normal,
    InTitle,
}

/// What one pass over a document yields: the pieces of the title, the pieces
/// of the body, the plain text of the body, and the main image.
#[derive(Debug)]
pub struct Layout {
    pub title: Vec<Piece>,
    pub body: Vec<Piece>,
    pub excerpt: String,
    pub main_image: Option<String>,
}

/// A layout over sequences of characters.
pub struct LayoutView {
    pub title: Seq<PieceView>,
    pub body: Seq<PieceView>,
    pub excerpt: Seq<char>,
    pub main_image: Option<Seq<char>>,
}

/// The characters of an optional string.
pub open spec fn option_view(text: Option<String>) -> Option<Seq<char>> {
    match text {
        Some(text) => Some(text@),
        None => None,
    }
}

impl View for Layout {
    type V = LayoutView;

    open spec fn view(&self) -> LayoutView {
        LayoutView {
            title: self.title.deep_view(),
            body: self.body.deep_view(),
            excerpt: self.excerpt@,
            main_image: option_view(self.main_image),
        }
    }
}

/// The state of the pass: what has been put out, and where the pass stands.
pub struct Scan {
    pub out: LayoutView,
    pub mode: Mode,
}

impl Scan {
    /// The state before the first token.
    pub open spec fn start() -> Scan {
        Scan {
            out: LayoutView {
                title: Seq::empty(),
                body: Seq::empty(),
                excerpt: Seq::empty(),
                main_image: None,
            },
            mode: Mode::Normal,
        }
    }

    /// The state with the pass standing in `mode`.
    pub open spec fn with_mode(self, mode: Mode) -> Scan {
        Scan { out: self.out, mode }
    }

    /// The state with one more piece in the title.
    pub open spec fn with_title(self, piece: PieceView) -> Scan {
        Scan {
            out: LayoutView {
                title: self.out.title.push(piece),
                body: self.out.body,
                excerpt: self.out.excerpt,
                main_image: self.out.main_image,
            },
            mode: self.mode,
        }
    }

    /// The state with one more piece in the body.
    pub open spec fn with_body(self, piece: PieceView) -> Scan {
        Scan {
            out: LayoutView {
                title: self.out.title,
                body: self.out.body.push(piece),
                excerpt: self.out.excerpt,
                main_image: self.out.main_image,
            },
            mode: self.mode,
        }
    }

    /// The state with `excerpt` as the plain text gathered so far.
    pub open spec fn with_excerpt(self, excerpt: Seq<char>) -> Scan {
        Scan {
            out: LayoutView {
                title: self.out.title,
                body: self.out.body,
                excerpt,
                main_image: self.out.main_image,
            },
            mode: self.mode,
        }
    }

    /// Records `url` as the main image if none is recorded yet and the
    /// address is that of an image.
    pub open spec fn with_image(self, url: Seq<char>) -> Scan {
        Scan {
            out: LayoutView {
                title: self.out.title,
                body: self.out.body,
                excerpt: self.out.excerpt,
                main_image: if self.out.main_image is None && image_address(url) {
                    Some(url)
                } else {
                    self.out.main_image
                },
            },
            mode: self.mode,
        }
    }
}

/// Whether the token at `at` exists and is text.
pub open spec fn is_text(tokens: Seq<TokenView>, at: int) -> bool {
    0 <= at < tokens.len() && tokens[at] is Text
}

/// How many text tokens follow one another from `from` on: the length of a
/// caption that starts at `from`.
pub open spec fn caption_len(tokens: Seq<TokenView>, from: int) -> nat
    decreases tokens.len() - from,
{
    if is_text(tokens, from) {
        1 + caption_len(tokens, from + 1)
    } else {
        0
    }
}

/// The text of the text tokens that follow one another from `from` on.
pub open spec fn caption_text(tokens: Seq<TokenView>, from: int) -> Seq<char>
    decreases tokens.len() - from,
{
    if is_text(tokens, from) {
        match tokens[from] {
            TokenView::Text(text) => text + caption_text(tokens, from + 1),
            _ => Seq::empty(),
        }
    } else {
        Seq::empty()
    }
}

/// How many tokens the step at `pos` takes in beside the one at `pos`.
/// Inside the title, none. Outside it an image reference takes in the text
/// tokens that follow it and the token that ends them; a fenced code block
/// takes in the token after it, and, where that token is text, the one
/// after that as well.
pub open spec fn absorbed(tokens: Seq<TokenView>, pos: int, mode: Mode) -> nat {
    if mode is InTitle {
        0
    } else {
        match tokens[pos] {
            TokenView::Image { .. } => {
                let texts = caption_len(tokens, pos + 1);
                if pos + 1 + texts < tokens.len() {
                    texts + 1
                } else {
                    texts
                }
            },
            TokenView::Fence(_) => {
                if pos + 2 < tokens.len() && is_text(tokens, pos + 1) {
                    2
                } else if pos + 1 < tokens.len() {
                    1
                } else {
                    0
                }
            },
            _ => 0,
        }
    }
}

/// The position of the step that follows the one at `pos`.
pub open spec fn after(tokens: Seq<TokenView>, pos: int, mode: Mode) -> int {
    pos + 1 + absorbed(tokens, pos, mode)
}

/// The state after a fenced block with language tag `tag` and body `code`:
/// the highlighted code as one piece of raw HTML, or the error.
pub open spec fn fenced(s: Scan, tag: Seq<char>, code: Seq<char>) -> Result<
    Scan,
    CompileErrorView,
> {
    match block_markup(tag, code) {
        Ok(html) => Ok(s.with_body(PieceView::Html(html))),
        Err(e) => Err(e),
    }
}

/// The state after the step at `pos`.
///
/// Inside the title, the end of a level-1 heading leaves the title and is
/// dropped, the start of one is dropped, and every other token goes to the
/// title. Outside it, the start of a level-1 heading enters the title and
/// is dropped if the title is still empty; text and paragraph ends add to
/// the excerpt and go to the body; an image reference becomes a figure; a
/// fenced block followed by text becomes highlighted HTML; every other token
/// goes to the body.
pub open spec fn step(tokens: Seq<TokenView>, pos: int, s: Scan) -> Result<Scan, CompileErrorView> {
    let keep = PieceView::Keep(pos);
    if s.mode is InTitle {
        if tokens[pos] == TokenView::HeadingEnd(1) {
            Ok(s.with_mode(Mode::Normal))
        } else if tokens[pos] == TokenView::HeadingStart(1) {
            Ok(s)
        } else {
            Ok(s.with_title(keep))
        }
    } else {
        match tokens[pos] {
            TokenView::HeadingStart(level) => {
                if level == 1 && s.out.title.len() == 0 {
                    Ok(s.with_mode(Mode::InTitle))
                } else {
                    Ok(s.with_body(keep))
                }
            },
            TokenView::Text(text) => Ok(s.with_excerpt(s.out.excerpt + text).with_body(keep)),
            TokenView::ParagraphEnd => Ok(
                s.with_excerpt(s.out.excerpt.push('\n')).with_body(keep),
            ),
            TokenView::Image { url, title } => Ok(
                s.with_image(url).with_body(
                    PieceView::Html(figure_markup(url, title, caption_text(tokens, pos + 1))),
                ),
            ),
            TokenView::Fence(tag) => {
                if is_text(tokens, pos + 1) {
                    match tokens[pos + 1] {
                        TokenView::Text(code) => fenced(s, tag, code),
                        _ => Ok(s),
                    }
                } else {
                    Ok(s.with_body(keep))
                }
            },
            _ => Ok(s.with_body(keep)),
        }
    }
}

/// The state at the end of the document, for a pass that stands at `pos` in
/// state `s`; or the error of the first step that fails.
pub open spec fn scan_from(tokens: Seq<TokenView>, pos: int, s: Scan) -> Result<
    Scan,
    CompileErrorView,
>
    decreases
        (if pos < tokens.len() {
            tokens.len() - pos
        } else {
            0
        }),
{
    if pos < 0 || pos >= tokens.len() {
        Ok(s)
    } else {
        match step(tokens, pos, s) {
            Ok(next) => scan_from(tokens, after(tokens, pos, s.mode), next),
            Err(e) => Err(e),
        }
    }
}

/// What the pass over `tokens` yields.
pub open spec fn layout_of(tokens: Seq<TokenView>) -> Result<LayoutView, CompileErrorView> {
    match scan_from(tokens, 0, Scan::start()) {
        Ok(s) => Ok(s.out),
        Err(e) => Err(e),
    }
}

/// A caption lies within the document.
pub proof fn lemma_caption_within(tokens: Seq<TokenView>, from: int)
    requires
        0 <= from <= tokens.len(),
    ensures
        from + caption_len(tokens, from) <= tokens.len(),
        forall|k: int| from <= k < from + caption_len(tokens, from) ==> is_text(tokens, k),
        !is_text(tokens, from + caption_len(tokens, from)),
    decreases tokens.len() - from,
{
    if is_text(tokens, from) {
        lemma_caption_within(tokens, from + 1);
    }
}

/// A step ends within the document.
pub proof fn lemma_after_within(tokens: Seq<TokenView>, pos: int, mode: Mode)
    requires
        0 <= pos < tokens.len(),
    ensures
        pos < after(tokens, pos, mode) <= tokens.len(),
{
    lemma_caption_within(tokens, pos + 1);
}

/// Whether the token is text.
fn text_token(token: &Token) -> (r: bool)
    ensures
        r == (token@ is Text),
{
    match token {
        Token::Text(_) => true,
        _ => false,
    }
}

/// Reads the caption that starts at `from`: the text of the text tokens
/// that follow one another, and the position behind them.
fn read_caption(tokens: &Vec<Token>, from: usize) -> (r: (String, usize))
    requires
        from <= tokens.len(),
    ensures
        r.0@ == caption_text(tokens.deep_view(), from as int),
        r.1 == from + caption_len(tokens.deep_view(), from as int),
        r.1 <= tokens.len(),
{
    let ghost tv = tokens.deep_view();
    let mut caption = String::new();
    let mut end: usize = from;
    while end < tokens.len() && text_token(&tokens[end])
        invariant
            from <= end <= tokens.len(),
            tv == tokens.deep_view(),
            end - from + caption_len(tv, end as int) == caption_len(tv, from as int),
            caption@ + caption_text(tv, end as int) == caption_text(tv, from as int),
        decreases tokens.len() - end,
    {
        assert(tv[end as int] == tokens[end as int]@);
        match &tokens[end] {
            Token::Text(text) => {
                assert(caption@ + (text@ + caption_text(tv, end + 1)) =~= (caption@ + text@)
                    + caption_text(tv, end + 1));
                caption.append(text.as_str());
            },
            _ => {},
        }
        end += 1;
    }
    assert(end < tokens.len() ==> tv[end as int] == tokens[end as int]@);
    assert(caption@ =~= caption_text(tv, from as int));
    (caption, end)
}

/// Runs the pass over a document's tokens.
///
/// The result is the layout that `layout_of` describes, with every kept
/// position inside the document, or the error of the first fenced block
/// that cannot be highlighted.
pub fn compile_tokens(tokens: &Vec<Token>) -> (r: Result<Layout, CompileError>)
    ensures
        match r {
            Ok(layout) => layout_of(tokens.deep_view()) == Ok::<LayoutView, CompileErrorView>(
                layout@,
            ) && pieces_within(layout@.title, tokens.len() as int) && pieces_within(
                layout@.body,
                tokens.len() as int,
            ),
            Err(e) => layout_of(tokens.deep_view()) == Err::<LayoutView, CompileErrorView>(e@)
                && tagged(e@),
        },
{
    let n: usize = tokens.len();
    let ghost tv = tokens.deep_view();
    let mut syn = Syntax::new();
    let mut layout = Layout {
        title: Vec::new(),
        body: Vec::new(),
        excerpt: String::new(),
        main_image: None,
    };
    let mut mode = Mode::Normal;
    let mut pos: usize = 0;
    assert(layout@ == Scan::start().out) by {
        assert(layout.title.deep_view() =~= Seq::empty());
        assert(layout.body.deep_view() =~= Seq::empty());
    }
    while pos < n
        invariant
            pos <= n,
            n == tokens.len(),
            tv == tokens.deep_view(),
            pieces_within(layout@.title, n as int),
            pieces_within(layout@.body, n as int),
            scan_from(tv, pos as int, Scan { out: layout@, mode }) == scan_from(
                tv,
                0,
                Scan::start(),
            ),
        decreases n - pos,
    {
        let ghost before = Scan { out: layout@, mode };
        let ghost here = pos as int;
        proof {
            lemma_after_within(tv, here, mode);
        }
        assert(tv[here] == tokens[here]@);
        let token = &tokens[pos];
        let mut next: usize = pos + 1;
        match mode {
            Mode::InTitle => match token {
                Token::HeadingEnd(1) => {
                    mode = Mode::Normal;
                },
                Token::HeadingStart(1) => {},
                _ => {
                    push_piece(&mut layout.title, Piece::Keep(pos));
                },
            },
            Mode::Normal => match token {
                Token::HeadingStart(1) if layout.title.len() == 0 => {
                    mode = Mode::InTitle;
                },
                Token::Text(text) => {
                    layout.excerpt.append(text.as_str());
                    push_piece(&mut layout.body, Piece::Keep(pos));
                },
                Token::ParagraphEnd => {
                    layout.excerpt.push('\n');
                    push_piece(&mut layout.body, Piece::Keep(pos));
                },
                Token::Image { url, title } => {
                    if layout.main_image.is_none() && is_image(url.as_str()) {
                        layout.main_image = Some(url.clone());
                    }
                    let (caption, end) = read_caption(tokens, pos + 1);
                    let html = figure_html(url.as_str(), title.as_str(), caption.as_str());
                    push_piece(&mut layout.body, Piece::Html(html));
                    next = if end < n {
                        end + 1
                    } else {
                        end
                    };
                },
                Token::Fence(tag) => {
                    if pos + 1 < n {
                        assert(tv[here + 1] == tokens[here + 1]@);
                        match &tokens[pos + 1] {
                            Token::Text(code) => {
                                match block_html(&mut syn, tag.as_str(), code.as_str()) {
                                    Ok(html) => {
                                        push_piece(&mut layout.body, Piece::Html(html));
                                    },
                                    Err(e) => {
                                        return Err(e);
                                    },
                                }
                                next = if pos + 2 < n {
                                    pos + 3
                                } else {
                                    pos + 2
                                };
                            },
                            _ => {
                                push_piece(&mut layout.body, Piece::Keep(pos));
                                next = pos + 2;
                            },
                        }
                    } else {
                        push_piece(&mut layout.body, Piece::Keep(pos));
                    }
                },
                _ => {
                    push_piece(&mut layout.body, Piece::Keep(pos));
                },
            },
        }
        assert(step(tv, here, before) == Ok::<Scan, CompileErrorView>(Scan { out: layout@, mode }));
        assert(next as int == after(tv, here, before.mode));
        pos = next;
    }
    Ok(layout)
}

/// A compiled post: the HTML of its body, the HTML of its title, the plain
/// text of its body, and the address of its main image.
#[derive(Debug)]
pub struct Compiled {
    pub html: String,
    pub title: String,
    pub body: String,
    pub main_image: Option<String>,
}

/// What compiling the Markdown text `raw` gives, for a layout of its
/// tokens: both lists of pieces rendered against the document.
pub open spec fn compiled_of(raw: Seq<char>, layout: LayoutView, c: Compiled) -> bool {
    &&& c.html@ == rendered_html(raw, layout.body)
    &&& c.title@ == rendered_html(raw, layout.title)
    &&& c.body@ == layout.excerpt
    &&& option_view(c.main_image) == layout.main_image
}

/// Compile a markdown string to an html string, while extracting the title,
/// the plain text and the main image.
///
/// Compilation fails exactly where the pass over the document's tokens
/// fails, with its error. Where the pass yields a layout, the body and the
/// title are its pieces rendered, and a title without pieces is empty.
pub fn compile_markdown(raw: &str) -> (r: Result<Compiled, CompileError>)
    ensures
        match r {
            Ok(c) => match layout_of(markdown_tokens(raw@)) {
                Ok(layout) => compiled_of(raw@, layout, c) && (layout.title.len() == 0
                    ==> c.title@.len() == 0),
                Err(_) => false,
            },
            Err(e) => layout_of(markdown_tokens(raw@)) == Err::<LayoutView, CompileErrorView>(
                e@,
            ) && tagged(e@),
        },
{
    let tokens = tokenize(raw);
    match compile_tokens(&tokens) {
        Ok(layout) => {
            let html = render(raw, &layout.body);
            let title = render(raw, &layout.title);
            Ok(Compiled { html, title, body: layout.excerpt, main_image: layout.main_image })
        },
        Err(e) => Err(e),
    }
}

} // verus!
