//! HTML-escaping of untrusted text, applied to sender names and message
//! contents before they are stored, so that stored and rendered values match.

use vstd::prelude::*;

verus! {

/// The entity replacement for a single character: `&`, `<` and `>` become
/// `&amp;`, `&lt;` and `&gt;`; every other character stands as it is.
pub open spec fn escape_char(c: char) -> Seq<char> {
    if c == '&' {
        seq!['&', 'a', 'm', 'p', ';']
    } else if c == '<' {
        seq!['&', 'l', 't', ';']
    } else if c == '>' {
        seq!['&', 'g', 't', ';']
    } else {
        seq![c]
    }
}

/// A text with every character replaced by its entity form.
pub open spec fn html_escaped(s: Seq<char>) -> Seq<char>
    decreases s.len(),
{
    if s.len() == 0 {
        Seq::empty()
    } else {
        escape_char(s[0]) + html_escaped(s.skip(1))
    }
}

/// Relies on html_escape::encode_text: it replaces each `&` with `&amp;`,
/// each `<` with `&lt;` and each `>` with `&gt;`, and leaves every other
/// character unchanged.
#[verifier::external_body]
pub(crate) fn html_escape_text(s: &str) -> (r: String)
    ensures
        r@ == html_escaped(s@),
{
    html_escape::encode_text(s).into_owned()
}

} // verus!
