//! The HTML figures that stand in for image and video references.

use vstd::prelude::*;
use vstd::string::StringExecFns;
use crate::text::{ends_with, has_suffix};

verus! {

/// Whether the address names a still image, going by its extension.
pub open spec fn image_address(url: Seq<char>) -> bool {
    has_suffix(url, ".png"@) || has_suffix(url, ".jpg"@) || has_suffix(url, ".jpeg"@)
        || has_suffix(url, ".webp"@)
}

/// Whether the address names a video, going by its extension.
pub open spec fn video_address(url: Seq<char>) -> bool {
    has_suffix(url, ".mp4"@)
}

/// The figure for a captioned image that links to itself.
pub open spec fn image_markup(url: Seq<char>, title: Seq<char>, caption: Seq<char>) -> Seq<char> {
    "<figure>\n            <a href=\""@ + url + "\" title=\""@ + title
        + "\">\n            <img src=\""@ + url + "\" title=\""@ + title
        + "\">\n            </a>\n            <figcaption>"@ + caption
        + "</figcaption>\n            </figure>"@
}

/// The figure for a captioned video that plays by itself, in a loop and
/// without sound.
pub open spec fn video_markup(url: Seq<char>, title: Seq<char>, caption: Seq<char>) -> Seq<char> {
    "<figure>\n            <video autoplay loop muted src=\""@ + url + "\" title=\""@ + title
        + "\" />\n            <figcaption>"@ + caption + "</figcaption>\n            </figure>"@
}

/// The figure that replaces a reference to `url`: a video for a video
/// address, an image for every other.
pub open spec fn figure_markup(url: Seq<char>, title: Seq<char>, caption: Seq<char>) -> Seq<char> {
    if video_address(url) {
        video_markup(url, title, caption)
    } else {
        image_markup(url, title, caption)
    }
}

/// No address is that of an image and of a video at once.
pub proof fn lemma_image_is_no_video(url: Seq<char>)
    ensures
        !(image_address(url) && video_address(url)),
{
    reveal_strlit(".png");
    reveal_strlit(".jpg");
    reveal_strlit(".jpeg");
    reveal_strlit(".webp");
    reveal_strlit(".mp4");
    let n = url.len() as int;
    if video_address(url) {
        assert(url.subrange(n - 4, n)[3] == '4');
        assert(url[n - 1] == '4');
        if has_suffix(url, ".png"@) {
            assert(url.subrange(n - 4, n)[3] == 'g');
        }
        if has_suffix(url, ".jpg"@) {
            assert(url.subrange(n - 4, n)[3] == 'g');
        }
        if has_suffix(url, ".jpeg"@) {
            assert(url.subrange(n - 5, n)[4] == 'g');
        }
        if has_suffix(url, ".webp"@) {
            assert(url.subrange(n - 5, n)[4] == 'p');
        }
    }
}

/// Whether the address names a still image.
pub fn is_image(url: &str) -> (r: bool)
    ensures
        r == image_address(url@),
{
    ends_with(url, ".png") || ends_with(url, ".jpg") || ends_with(url, ".jpeg") || ends_with(
        url,
        ".webp",
    )
}

/// Whether the address names a video.
pub fn is_video(url: &str) -> (r: bool)
    ensures
        r == video_address(url@),
{
    ends_with(url, ".mp4")
}

/// `figure` image HTML. Title and caption are written as they are given.
pub fn image_html(url: &str, title: &str, caption: &str) -> (html: String)
    ensures
        html@ == image_markup(url@, title@, caption@),
{
    let mut html = "<figure>\n            <a href=\"".to_owned();
    html.append(url);
    html.append("\" title=\"");
    html.append(title);
    html.append("\">\n            <img src=\"");
    html.append(url);
    html.append("\" title=\"");
    html.append(title);
    html.append("\">\n            </a>\n            <figcaption>");
    html.append(caption);
    html.append("</figcaption>\n            </figure>");
    html
}

/// `figure` video HTML. Title and caption are written as they are given.
pub fn video_html(url: &str, title: &str, caption: &str) -> (html: String)
    ensures
        html@ == video_markup(url@, title@, caption@),
{
    let mut html = "<figure>\n            <video autoplay loop muted src=\"".to_owned();
    html.append(url);
    html.append("\" title=\"");
    html.append(title);
    html.append("\" />\n            <figcaption>");
    html.append(caption);
    html.append("</figcaption>\n            </figure>");
    html
}

/// The figure for a reference to `url`, video or image.
pub fn figure_html(url: &str, title: &str, caption: &str) -> (html: String)
    ensures
        html@ == figure_markup(url@, title@, caption@),
{
    if is_video(url) {
        video_html(url, title, caption)
    } else {
        image_html(url, title, caption)
    }
}

} // verus!
