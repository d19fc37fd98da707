//! What the pass does with the main image, proved of every document.

use vstd::prelude::*;
use crate::figure::image_address;
use crate::markdown::{after, layout_of, lemma_after_within, scan_from, step, Scan};
use crate::token::TokenView;

verus! {

/// Whether a main image, if there is one, has the address of an image.
pub open spec fn image_or_none(main_image: Option<Seq<char>>) -> bool {
    match main_image {
        Some(url) => image_address(url),
        None => true,
    }
}

/// Once a main image is recorded, the pass leaves it as it is.
pub proof fn lemma_main_image_stays(tokens: Seq<TokenView>, pos: int, s: Scan)
    requires
        0 <= pos,
        s.out.main_image is Some,
    ensures
        match scan_from(tokens, pos, s) {
            Ok(f) => f.out.main_image == s.out.main_image,
            Err(_) => true,
        },
    decreases tokens.len() - pos,
{
    if pos < tokens.len() {
        lemma_after_within(tokens, pos, s.mode);
        match step(tokens, pos, s) {
            Ok(next) => {
                lemma_main_image_stays(tokens, after(tokens, pos, s.mode), next);
            },
            Err(_) => {},
        }
    }
}

/// The pass records no address as main image but that of an image.
pub proof fn lemma_main_image_is_image(tokens: Seq<TokenView>, pos: int, s: Scan)
    requires
        0 <= pos,
        image_or_none(s.out.main_image),
    ensures
        match scan_from(tokens, pos, s) {
            Ok(f) => image_or_none(f.out.main_image),
            Err(_) => true,
        },
    decreases tokens.len() - pos,
{
    if pos < tokens.len() {
        lemma_after_within(tokens, pos, s.mode);
        match step(tokens, pos, s) {
            Ok(next) => {
                lemma_main_image_is_image(tokens, after(tokens, pos, s.mode), next);
            },
            Err(_) => {},
        }
    }
}

/// The main image of a document, if it has one, has the address of an
/// image, which is never that of a video.
pub proof fn lemma_main_image(tokens: Seq<TokenView>)
    ensures
        match layout_of(tokens) {
            Ok(layout) => image_or_none(layout.main_image),
            Err(_) => true,
        },
{
    lemma_main_image_is_image(tokens, 0, Scan::start());
}

} // verus!
