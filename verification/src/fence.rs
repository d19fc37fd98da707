//! What the pass does with fenced code blocks, proved of every document.

use vstd::prelude::*;
use crate::highlight::{grammar_known, grammar_of};
use crate::markdown::{
    after,
    is_text,
    layout_of,
    lemma_after_within,
    scan_from,
    step,
    Mode,
    Scan,
};
use crate::title::arrives;
use crate::token::TokenView;

verus! {

/// The pass up to a fenced block whose language has no grammar.
proof fn lemma_up_to_fence(tokens: Seq<TokenView>, pos: int, s: Scan, at: int, tag: Seq<char>)
    requires
        s.mode is Normal,
        0 <= pos <= at,
        at + 1 < tokens.len(),
        arrives(tokens, pos, at),
        forall|k: int| pos <= k < at ==> tokens[k] != TokenView::HeadingStart(1),
        tokens[at] == TokenView::Fence(tag),
        is_text(tokens, at + 1),
        tag.len() > 0,
        !grammar_known(tag),
    ensures
        scan_from(tokens, pos, s) is Err,
    decreases at - pos,
{
    if pos == at {
        assert(grammar_of(tag) == tag);
        assert(step(tokens, pos, s) is Err);
    } else {
        lemma_after_within(tokens, pos, Mode::Normal);
        assert(arrives(tokens, after(tokens, pos, Mode::Normal), at));
        assert(after(tokens, pos, Mode::Normal) <= at) by {
            if after(tokens, pos, Mode::Normal) >= at {
                assert(after(tokens, pos, Mode::Normal) == at);
            }
        }
        match step(tokens, pos, s) {
            Ok(next) => {
                lemma_up_to_fence(tokens, after(tokens, pos, Mode::Normal), next, at, tag);
            },
            Err(_) => {},
        }
    }
}

/// A document does not compile if the pass meets, before any title, a
/// fenced block with a body whose language tag is not empty and names no
/// grammar.
pub proof fn lemma_unknown_language_fails(tokens: Seq<TokenView>, at: int, tag: Seq<char>)
    requires
        0 <= at,
        at + 1 < tokens.len(),
        arrives(tokens, 0, at),
        forall|k: int| 0 <= k < at ==> tokens[k] != TokenView::HeadingStart(1),
        tokens[at] == TokenView::Fence(tag),
        is_text(tokens, at + 1),
        tag.len() > 0,
        !grammar_known(tag),
    ensures
        layout_of(tokens) is Err,
{
    lemma_up_to_fence(tokens, 0, Scan::start(), at, tag);
}

} // verus!
