//! A static-site generator's core: Markdown posts are compiled to HTML with
//! their title, excerpt and main image drawn out, then sorted, paginated and
//! laid out as index pages, post pages and RSS feeds.
//!
//! Everything here computes on plain values; reading posts and writing the
//! built site is left to the program around this library.

pub mod text;
pub mod figure;
pub mod token;
pub mod highlight;
pub mod parser;
pub mod markdown;
pub mod title;
pub mod fence;
pub mod image;
pub mod post;
pub mod paginate;
pub mod order;
pub mod feed;
pub mod category;
pub mod site;
