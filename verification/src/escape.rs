//! Escaping of literal text for use as HTML text content.

use vstd::prelude::*;

verus! {

/// What stands for the character `c` in HTML text: an entity for `&`, `<`
/// and `>`, the character itself otherwise.
pub open spec fn escaped_char(c: char) -> Seq<char> {
    if c == '&' {
        "&amp;"@
    } else if c == '<' {
        "&lt;"@
    } else if c == '>' {
        "&gt;"@
    } else {
        seq![c]
    }
}

/// `text` with each of its characters escaped.
pub open spec fn escaped_text(text: Seq<char>) -> Seq<char> {
    text.flat_map(|c: char| escaped_char(c))
}

/// Calls `html_escape::encode_text`. Trusted: the result is the text with
/// every `&` replaced by `&amp;`, every `<` by `&lt;` and every `>` by
/// `&gt;`, and every other character kept as it is.
#[verifier::external_body]
pub(crate) fn encode_text(text: &str) -> (html: String)
    ensures
        html@ == escaped_text(text@),
{
    html_escape::encode_text(text).into_owned()
}

} // verus!
