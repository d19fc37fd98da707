//! What the pass does with the title heading, proved of every document.

use vstd::prelude::*;
use crate::markdown::{
    absorbed,
    after,
    is_text,
    layout_of,
    lemma_after_within,
    scan_from,
    step,
    LayoutView,
    Mode,
    Scan,
};
use crate::highlight::CompileErrorView;
use crate::token::{keeps, PieceView, TokenView};

verus! {

/// Whether no position from `from` on starts a level-1 heading.
pub open spec fn no_title_start(tokens: Seq<TokenView>, from: int) -> bool {
    forall|k: int| from <= k < tokens.len() ==> tokens[k] != TokenView::HeadingStart(1)
}

/// Whether no kept token of `pieces` lies at a position from `from` to `to`.
pub open spec fn keeps_outside(pieces: Seq<PieceView>, from: int, to: int) -> bool {
    forall|p: int|
        0 <= p < pieces.len() ==> match #[trigger] pieces[p] {
            PieceView::Keep(at) => at < from || at > to,
            PieceView::Html(_) => true,
        }
}

/// Whether a pass that stands outside the title at `pos` comes to stand at
/// `target`, rather than taking the token there in as part of an earlier
/// construct.
pub open spec fn arrives(tokens: Seq<TokenView>, pos: int, target: int) -> bool
    decreases
        (if pos < target {
            target - pos
        } else {
            0
        }),
{
    if pos >= target {
        pos == target
    } else {
        arrives(tokens, after(tokens, pos, Mode::Normal), target)
    }
}

/// `state` with its title set to `title`, outside the title.
pub open spec fn titled(s: Scan, title: Seq<PieceView>) -> Scan {
    Scan {
        out: LayoutView {
            title,
            body: s.out.body,
            excerpt: s.out.excerpt,
            main_image: s.out.main_image,
        },
        mode: Mode::Normal,
    }
}

/// Inside the title, the pass from `p` up to the heading's end at `end`
/// puts the tokens between them into the title, one by one, and changes
/// nothing else.
pub proof fn lemma_inside_title(tokens: Seq<TokenView>, p: int, end: int, s: Scan)
    requires
        s.mode is InTitle,
        0 <= p <= end < tokens.len(),
        tokens[end] == TokenView::HeadingEnd(1),
        forall|k: int|
            p <= k < end ==> tokens[k] != TokenView::HeadingStart(1) && tokens[k]
                != TokenView::HeadingEnd(1),
    ensures
        scan_from(tokens, p, s) == scan_from(
            tokens,
            end + 1,
            titled(s, s.out.title + keeps(p, end)),
        ),
    decreases end - p,
{
    if p == end {
        assert(s.out.title + keeps(p, end) =~= s.out.title);
        assert(step(tokens, p, s) == Ok::<Scan, CompileErrorView>(s.with_mode(Mode::Normal)));
    } else {
        let next = s.with_title(PieceView::Keep(p));
        assert(step(tokens, p, s) == Ok::<Scan, CompileErrorView>(next));
        lemma_inside_title(tokens, p + 1, end, next);
        assert(next.out.title + keeps(p + 1, end) =~= s.out.title + keeps(p, end));
    }
}

/// A level-1 heading that the pass meets with an empty title adds its inner
/// tokens to the title and nothing to the body, the excerpt or the main
/// image: the pass goes on behind the heading's end as if it had started
/// there, with the title filled.
pub proof fn lemma_heading_feeds_title_only(tokens: Seq<TokenView>, start: int, end: int, s: Scan)
    requires
        s.mode is Normal,
        s.out.title.len() == 0,
        0 <= start < end < tokens.len(),
        tokens[start] == TokenView::HeadingStart(1),
        tokens[end] == TokenView::HeadingEnd(1),
        forall|k: int|
            start < k < end ==> tokens[k] != TokenView::HeadingStart(1) && tokens[k]
                != TokenView::HeadingEnd(1),
    ensures
        scan_from(tokens, start, s) == scan_from(
            tokens,
            end + 1,
            titled(s, keeps(start + 1, end)),
        ),
{
    let inside = s.with_mode(Mode::InTitle);
    assert(step(tokens, start, s) == Ok::<Scan, CompileErrorView>(inside));
    lemma_inside_title(tokens, start + 1, end, inside);
    assert(inside.out.title + keeps(start + 1, end) =~= keeps(start + 1, end));
}

/// Outside the title, with no start of a level-1 heading ahead, the pass
/// leaves the title as it is, and adds to the body no token that lies
/// before the position where it stands.
pub proof fn lemma_rest_keeps_title(tokens: Seq<TokenView>, pos: int, s: Scan, from: int, to: int)
    requires
        s.mode is Normal,
        0 <= pos,
        to < pos,
        no_title_start(tokens, pos),
        keeps_outside(s.out.body, from, to),
    ensures
        match scan_from(tokens, pos, s) {
            Ok(f) => f.out.title == s.out.title && keeps_outside(f.out.body, from, to),
            Err(_) => true,
        },
    decreases tokens.len() - pos,
{
    if pos < tokens.len() {
        lemma_after_within(tokens, pos, Mode::Normal);
        match step(tokens, pos, s) {
            Ok(next) => {
                lemma_rest_keeps_title(tokens, after(tokens, pos, Mode::Normal), next, from, to);
            },
            Err(_) => {},
        }
    }
}

/// The pass up to the title heading, through it, and to the end.
proof fn lemma_up_to_title(tokens: Seq<TokenView>, pos: int, s: Scan, start: int, end: int)
    requires
        s.mode is Normal,
        s.out.title.len() == 0,
        0 <= pos <= start < end < tokens.len(),
        arrives(tokens, pos, start),
        keeps_outside(s.out.body, start, end),
        tokens[start] == TokenView::HeadingStart(1),
        tokens[end] == TokenView::HeadingEnd(1),
        forall|k: int|
            0 <= k < tokens.len() && k != start ==> tokens[k] != TokenView::HeadingStart(1),
        forall|k: int| 0 <= k < tokens.len() && k != end ==> tokens[k] != TokenView::HeadingEnd(1),
    ensures
        match scan_from(tokens, pos, s) {
            Ok(f) => f.out.title == keeps(start + 1, end) && keeps_outside(
                f.out.body,
                start,
                end,
            ),
            Err(_) => true,
        },
    decreases start - pos,
{
    if pos == start {
        lemma_heading_feeds_title_only(tokens, start, end, s);
        lemma_rest_keeps_title(tokens, end + 1, titled(s, keeps(start + 1, end)), start, end);
    } else {
        lemma_after_within(tokens, pos, Mode::Normal);
        assert(arrives(tokens, after(tokens, pos, Mode::Normal), start));
        assert(after(tokens, pos, Mode::Normal) <= start) by {
            if after(tokens, pos, Mode::Normal) >= start {
                assert(after(tokens, pos, Mode::Normal) == start);
            }
        }
        match step(tokens, pos, s) {
            Ok(next) => {
                lemma_up_to_title(tokens, after(tokens, pos, Mode::Normal), next, start, end);
            },
            Err(_) => {},
        }
    }
}

/// A document with exactly one level-1 heading, which the pass meets as a
/// heading: the title is the heading's inner tokens, in order and nothing
/// else, and the body keeps neither the heading's start or end nor any
/// token between them.
pub proof fn lemma_single_heading_is_title(tokens: Seq<TokenView>, start: int, end: int)
    requires
        0 <= start < end < tokens.len(),
        tokens[start] == TokenView::HeadingStart(1),
        tokens[end] == TokenView::HeadingEnd(1),
        forall|k: int|
            0 <= k < tokens.len() && k != start ==> tokens[k] != TokenView::HeadingStart(1),
        forall|k: int| 0 <= k < tokens.len() && k != end ==> tokens[k] != TokenView::HeadingEnd(1),
        arrives(tokens, 0, start),
    ensures
        match layout_of(tokens) {
            Ok(layout) => layout.title == keeps(start + 1, end) && keeps_outside(
                layout.body,
                start,
                end,
            ),
            Err(_) => true,
        },
{
    lemma_up_to_title(tokens, 0, Scan::start(), start, end);
}

/// A document without a level-1 heading has no title.
pub proof fn lemma_no_heading_no_title(tokens: Seq<TokenView>)
    requires
        no_title_start(tokens, 0),
    ensures
        match layout_of(tokens) {
            Ok(layout) => layout.title.len() == 0,
            Err(_) => true,
        },
{
    lemma_rest_keeps_title(tokens, 0, Scan::start(), -1, -1);
}

/// Whether the token starts a construct that the pass replaces or a title.
pub open spec fn plain(token: TokenView) -> bool {
    token != TokenView::HeadingStart(1) && !(token is Image) && !(token is Fence)
}

/// Over tokens that are all plain, the pass from `pos` adds every token to
/// the body, in order, and does not fail.
proof fn lemma_plain_rest(tokens: Seq<TokenView>, pos: int, s: Scan)
    requires
        s.mode is Normal,
        0 <= pos <= tokens.len(),
        forall|k: int| 0 <= k < tokens.len() ==> plain(#[trigger] tokens[k]),
    ensures
        match scan_from(tokens, pos, s) {
            Ok(f) => f.out.title == s.out.title && f.out.body == s.out.body + keeps(
                pos,
                tokens.len() as int,
            ),
            Err(_) => false,
        },
    decreases tokens.len() - pos,
{
    if pos < tokens.len() {
        assert(plain(tokens[pos]));
        assert(absorbed(tokens, pos, Mode::Normal) == 0);
        let next = step(tokens, pos, s)->Ok_0;
        assert(step(tokens, pos, s) is Ok);
        assert(next.out.body == s.out.body.push(PieceView::Keep(pos)));
        lemma_plain_rest(tokens, pos + 1, next);
        assert(s.out.body.push(PieceView::Keep(pos)) + keeps(pos + 1, tokens.len() as int)
            =~= s.out.body + keeps(pos, tokens.len() as int));
    } else {
        assert(s.out.body + keeps(pos, tokens.len() as int) =~= s.out.body);
    }
}

/// A document without a level-1 heading, an image reference or a fenced
/// code block compiles, has no title, and has every token in its body, in
/// document order.
pub proof fn lemma_plain_document_is_body(tokens: Seq<TokenView>)
    requires
        forall|k: int| 0 <= k < tokens.len() ==> plain(#[trigger] tokens[k]),
    ensures
        match layout_of(tokens) {
            Ok(layout) => layout.title.len() == 0 && layout.body == keeps(
                0,
                tokens.len() as int,
            ),
            Err(_) => false,
        },
{
    lemma_plain_rest(tokens, 0, Scan::start());
    assert(Seq::<PieceView>::empty() + keeps(0, tokens.len() as int) =~= keeps(
        0,
        tokens.len() as int,
    ));
}

/// Whether the pass, standing outside the title at `at`, passes the token
/// there on to the body as it is.
pub open spec fn passed_on(tokens: Seq<TokenView>, at: int) -> bool {
    &&& tokens[at] != TokenView::HeadingStart(1)
    &&& !(tokens[at] is Image)
    &&& !(tokens[at] is Fence && is_text(tokens, at + 1))
}

/// What the body holds, it holds to the end.
pub proof fn lemma_body_grows(tokens: Seq<TokenView>, pos: int, s: Scan, piece: PieceView)
    requires
        0 <= pos,
        s.out.body.contains(piece),
    ensures
        match scan_from(tokens, pos, s) {
            Ok(f) => f.out.body.contains(piece),
            Err(_) => true,
        },
    decreases tokens.len() - pos,
{
    if pos < tokens.len() {
        lemma_after_within(tokens, pos, s.mode);
        match step(tokens, pos, s) {
            Ok(next) => {
                let at = choose|i: int| 0 <= i < s.out.body.len() && s.out.body[i] == piece;
                assert(next.out.body[at] == piece);
                lemma_body_grows(tokens, after(tokens, pos, s.mode), next, piece);
            },
            Err(_) => {},
        }
    }
}

/// The pass from `pos` to a token that it passes on.
proof fn lemma_up_to_kept(tokens: Seq<TokenView>, pos: int, s: Scan, at: int)
    requires
        s.mode is Normal,
        0 <= pos <= at < tokens.len(),
        no_title_start(tokens, pos),
        arrives(tokens, pos, at),
        passed_on(tokens, at),
    ensures
        match scan_from(tokens, pos, s) {
            Ok(f) => f.out.body.contains(PieceView::Keep(at)),
            Err(_) => true,
        },
    decreases at - pos,
{
    lemma_after_within(tokens, pos, Mode::Normal);
    match step(tokens, pos, s) {
        Ok(next) => {
            if pos == at {
                assert(next.out.body == s.out.body.push(PieceView::Keep(at)));
                assert(next.out.body[s.out.body.len() as int] == PieceView::Keep(at));
                lemma_body_grows(tokens, after(tokens, pos, Mode::Normal), next, PieceView::Keep(at));
            } else {
                assert(arrives(tokens, after(tokens, pos, Mode::Normal), at));
                assert(after(tokens, pos, Mode::Normal) <= at) by {
                    if after(tokens, pos, Mode::Normal) >= at {
                        assert(after(tokens, pos, Mode::Normal) == at);
                    }
                }
                lemma_up_to_kept(tokens, after(tokens, pos, Mode::Normal), next, at);
            }
        },
        Err(_) => {},
    }
}

/// In a document without a level-1 heading, every token that the pass
/// meets, and that starts neither a figure nor a highlighted block, is in
/// the body.
pub proof fn lemma_no_heading_keeps_tokens(tokens: Seq<TokenView>, at: int)
    requires
        0 <= at < tokens.len(),
        no_title_start(tokens, 0),
        arrives(tokens, 0, at),
        passed_on(tokens, at),
    ensures
        match layout_of(tokens) {
            Ok(layout) => layout.title.len() == 0 && layout.body.contains(PieceView::Keep(at)),
            Err(_) => true,
        },
{
    lemma_up_to_kept(tokens, 0, Scan::start(), at);
    lemma_no_heading_no_title(tokens);
}

} // verus!
