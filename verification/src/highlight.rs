//! Syntax highlighting of code blocks, done by the `inkjet` crate.

use vstd::prelude::*;
use vstd::string::StringExecFns;
use vstd::string::StrSliceExecFns;

verus! {

/// `inkjet::Highlighter`, carried as it is.
#[verifier::external_type_specification]
#[verifier::external_body]
pub struct ExHighlighter(inkjet::Highlighter);

/// `inkjet::InkjetError`, carried as it is.
#[verifier::external_type_specification]
#[verifier::external_body]
pub struct ExInkjetError(inkjet::InkjetError);

/// A syntax highlighter, kept from one code block to the next.
pub struct Syntax {
    inner: inkjet::Highlighter,
}

impl Syntax {
    /// A new highlighter.
    pub fn new() -> (syn: Syntax) {
        Syntax { inner: inkjet::Highlighter::new() }
    }
}

/// Whether `inkjet` has a grammar under this name.
pub uninterp spec fn grammar_known(name: Seq<char>) -> bool;

/// What `inkjet` makes of `code` under the grammar of this name, as HTML
/// with class names: the HTML, or nothing where highlighting fails.
pub uninterp spec fn highlighting(name: Seq<char>, code: Seq<char>) -> Option<Seq<char>>;

/// `inkjet::Highlighter::new` makes a highlighter. Nothing is stated of it:
/// what it highlights does not depend on what it did before.
pub assume_specification[ inkjet::Highlighter::new ]() -> (syn: inkjet::Highlighter)
;

/// `inkjet::Language::from_token` looks a grammar up by name. The contract
/// names the answer, and states the one entry that this library relies on:
/// the name `plaintext` is known.
#[verifier::external_body]
fn language_exists(name: &str) -> (known: bool)
    ensures
        known == grammar_known(name@),
        name@ == "plaintext"@ ==> known,
{
    inkjet::Language::from_token(name).is_some()
}

/// `inkjet::Highlighter::highlight_to_string` with the `Html` formatter,
/// under the grammar that `inkjet::Language::from_token` finds for `name`.
/// The contract names the outcome; it depends on the name and the code
/// alone.
#[verifier::external_body]
fn highlight(syn: &mut inkjet::Highlighter, name: &str, code: &str) -> (r: Result<
    String,
    inkjet::InkjetError,
>)
    requires
        grammar_known(name@),
    ensures
        match r {
            Ok(html) => highlighting(name@, code@) == Some(html@),
            Err(_) => highlighting(name@, code@) is None,
        },
{
    let language = inkjet::Language::from_token(name).unwrap();
    syn.highlight_to_string(language, &inkjet::formatter::Html, code)
}

/// Why a post does not compile.
#[derive(Debug)]
pub enum CompileError {
    /// A fenced code block names a language that has no grammar.
    UnknownLanguage(String),
    /// The highlighter gave up on a code block.
    Highlighting,
}

/// A compile error over sequences of characters.
pub enum CompileErrorView {
    UnknownLanguage(Seq<char>),
    Highlighting,
}

impl View for CompileError {
    type V = CompileErrorView;

    open spec fn view(&self) -> CompileErrorView {
        match *self {
            CompileError::UnknownLanguage(tag) => CompileErrorView::UnknownLanguage(tag@),
            CompileError::Highlighting => CompileErrorView::Highlighting,
        }
    }
}

/// Whether the error, if it names a language, names one: an untagged
/// block is highlighted as plain text and never fails for its language.
pub open spec fn tagged(e: CompileErrorView) -> bool {
    match e {
        CompileErrorView::UnknownLanguage(tag) => tag.len() > 0,
        CompileErrorView::Highlighting => true,
    }
}

/// Highlighted code as a preformatted block.
pub open spec fn code_block_markup(highlighted: Seq<char>) -> Seq<char> {
    "<pre>"@ + highlighted + "</pre>"@
}

/// Wraps highlighted code in a `<pre>` element.
pub fn code_block_html(highlighted: &str) -> (html: String)
    ensures
        html@ == code_block_markup(highlighted@),
{
    let mut html = "<pre>".to_owned();
    html.append(highlighted);
    html.append("</pre>");
    html
}

/// The grammar name that a fence's language tag stands for: an empty tag
/// means plain text.
pub open spec fn grammar_of(tag: Seq<char>) -> Seq<char> {
    if tag.len() == 0 {
        "plaintext"@
    } else {
        tag
    }
}

/// The HTML for a fenced block with language tag `tag` and body `code`: the
/// code highlighted under the tag's grammar, as a preformatted block. There
/// is none where the tag names no grammar, or where highlighting fails.
pub open spec fn block_markup(tag: Seq<char>, code: Seq<char>) -> Result<
    Seq<char>,
    CompileErrorView,
> {
    if !grammar_known(grammar_of(tag)) {
        Err(CompileErrorView::UnknownLanguage(tag))
    } else {
        match highlighting(grammar_of(tag), code) {
            Some(html) => Ok(code_block_markup(html)),
            None => Err(CompileErrorView::Highlighting),
        }
    }
}

/// Highlights the body of a fenced block and wraps it in a `<pre>` element.
///
/// An empty tag stands for plain text, which is always known; any other tag
/// must name a grammar.
pub fn block_html(syn: &mut Syntax, tag: &str, code: &str) -> (r: Result<
    String,
    CompileError,
>)
    ensures
        match r {
            Ok(html) => block_markup(tag@, code@) == Ok::<Seq<char>, CompileErrorView>(html@),
            Err(e) => block_markup(tag@, code@) == Err::<Seq<char>, CompileErrorView>(e@)
                && tagged(e@),
        },
{
    let grammar: &str = if tag.unicode_len() == 0 {
        "plaintext"
    } else {
        tag
    };
    if !language_exists(grammar) {
        return Err(CompileError::UnknownLanguage(tag.to_owned()));
    }
    match highlight(&mut syn.inner, grammar, code) {
        Ok(highlighted) => Ok(code_block_html(highlighted.as_str())),
        Err(_) => Err(CompileError::Highlighting),
    }
}

} // verus!
