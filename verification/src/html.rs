//! Text made safe for a place in an HTML page.

use vstd::prelude::*;
use vstd::string::StringSliceAdditionalSpecFns;
use vstd::utf8::{decode_utf8, encode_utf8, valid_utf8};

verus! {

/// What stands for a character in HTML: an entity for each of `&`, `<`, `>`,
/// `"`, `'` and `/`, and else the character itself.
pub open spec fn escaped_char(c: char) -> Seq<char> {
    if c == '&' {
        seq!['&', 'a', 'm', 'p', ';']
    } else if c == '<' {
        seq!['&', 'l', 't', ';']
    } else if c == '>' {
        seq!['&', 'g', 't', ';']
    } else if c == '"' {
        seq!['&', 'q', 'u', 'o', 't', ';']
    } else if c == '\'' {
        seq!['&', '#', 'x', '2', '7', ';']
    } else if c == '/' {
        seq!['&', '#', 'x', '2', 'F', ';']
    } else {
        seq![c]
    }
}

/// A text with each of its characters escaped.
pub open spec fn html_escaped(text: Seq<char>) -> Seq<char>
    decreases text.len(),
{
    if text.len() == 0 {
        Seq::empty()
    } else {
        html_escaped(text.drop_last()) + escaped_char(text.last())
    }
}

/// Escaping a text escapes its parts, one after the other.
pub proof fn lemma_escaped_concat(a: Seq<char>, b: Seq<char>)
    ensures
        html_escaped(a + b) == html_escaped(a) + html_escaped(b),
    decreases b.len(),
{
    if b.len() == 0 {
        assert(a + b =~= a);
        assert(html_escaped(a) + html_escaped(b) =~= html_escaped(a));
    } else {
        lemma_escaped_concat(a, b.drop_last());
        assert((a + b).drop_last() =~= a + b.drop_last());
        assert((a + b).last() == b.last());
        assert(html_escaped(a) + (html_escaped(b.drop_last()) + escaped_char(b.last()))
            =~= (html_escaped(a) + html_escaped(b.drop_last())) + escaped_char(b.last()));
    }
}

/// An escaped text holds none of `<`, `>`, `"`, `'` and `/`, whatever the
/// text was, and is at least as long.
pub proof fn lemma_escaped_is_safe(text: Seq<char>)
    ensures
        forall|i: int|
            0 <= i < html_escaped(text).len() ==> {
                let c = #[trigger] html_escaped(text)[i];
                c != '<' && c != '>' && c != '"' && c != '\'' && c != '/'
            },
        html_escaped(text).len() >= text.len(),
    decreases text.len(),
{
    if text.len() > 0 {
        lemma_escaped_is_safe(text.drop_last());
        let before = html_escaped(text.drop_last());
        let last = escaped_char(text.last());
        assert forall|i: int| 0 <= i < html_escaped(text).len() implies {
            let c = #[trigger] html_escaped(text)[i];
            c != '<' && c != '>' && c != '"' && c != '\'' && c != '/'
        } by {
            if i < before.len() {
                assert(html_escaped(text)[i] == before[i]);
            } else {
                assert(html_escaped(text)[i] == last[i - before.len()]);
            }
        }
    }
}

/// Whether a text is short enough to be escaped: the escaper reserves room
/// by the length of the text in bytes, and the result may be six times as
/// long.
pub open spec fn escapable(text: Seq<char>) -> bool {
    encode_utf8(text).len() <= usize::MAX / 16
}

/// `tera::escape_html`. Trusted: the result is the text with `&`, `<`, `>`,
/// `"`, `'` and `/` replaced by their entities, as the crate documents. The
/// text is kept short enough for the room that the crate reserves.
#[verifier::external_body]
fn tera_escape_html(text: &str) -> (escaped: String)
    requires
        escapable(text@),
    ensures
        escaped@ == html_escaped(text@),
{
    tera::escape_html(text)
}

/// A text escaped for HTML, where it is short enough to be escaped.
pub fn escape_html(text: &str) -> (r: Option<String>)
    ensures
        match r {
            Some(escaped) => escapable(text@) && escaped@ == html_escaped(text@),
            None => !escapable(text@),
        },
{
    if text.as_bytes().len() > usize::MAX / 16 {
        None
    } else {
        Some(tera_escape_html(text))
    }
}

/// The text that bytes hold, where they are valid UTF-8.
pub open spec fn text_of(data: Seq<u8>) -> Option<Seq<char>> {
    if valid_utf8(data) {
        Some(decode_utf8(data))
    } else {
        None
    }
}

/// `std::str::from_utf8`. Trusted: it accepts the bytes exactly where they
/// are valid UTF-8, and the text then holds the characters that they encode.
#[verifier::external_body]
pub(crate) fn str_from_utf8(data: &[u8]) -> (r: Option<String>)
    ensures
        match r {
            Some(text) => text_of(data@) == Some(text@),
            None => text_of(data@) is None,
        },
{
    match std::str::from_utf8(data) {
        Ok(text) => Some(text.to_string()),
        Err(_) => None,
    }
}

} // verus!
