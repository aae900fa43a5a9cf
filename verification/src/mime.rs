//! MIME types of pastes: by file extension, by content, and which of them
//! are shown as text.

use crate::text::{chars_of, same_text, starts_with};
use vstd::prelude::*;
use vstd::string::{StrSliceExecFns, StringExecFns};
use vstd::utf8::is_ascii_chars;

verus! {

/// The value of a `Content-Type` header.
#[derive(Debug, Clone, PartialEq, Eq)]
pub struct ContentType {
    /// The header's value, such as `text/html; charset=utf-8`.
    pub value: String,
}

impl View for ContentType {
    type V = Seq<char>;

    open spec fn view(&self) -> Seq<char> {
        self.value@
    }
}

impl ContentType {
    /// Plain text in UTF-8.
    pub fn plaintext() -> (ct: Self)
        ensures
            ct@ == "text/plain; charset=utf-8"@,
    {
        ContentType { value: String::from_str("text/plain; charset=utf-8") }
    }

    /// HTML in UTF-8.
    pub fn html() -> (ct: Self)
        ensures
            ct@ == "text/html; charset=utf-8"@,
    {
        ContentType { value: String::from_str("text/html; charset=utf-8") }
    }
}

/// Whether a MIME type is shown as text: every `text/` type, and the type of
/// shell scripts.
pub open spec fn is_text_type(mime_type: Seq<char>) -> bool {
    mime_type == "application/x-sh"@ || "text/"@.is_prefix_of(mime_type)
}

/// Checks whether a given MIME type represents some text.
pub fn is_text(mime_type: &str) -> (text: bool)
    ensures
        text == is_text_type(mime_type@),
{
    let given = chars_of(mime_type);
    let shell = chars_of("application/x-sh");
    let prefix = chars_of("text/");
    same_text(given.as_slice(), shell.as_slice()) || starts_with(
        given.as_slice(),
        prefix.as_slice(),
    )
}

/// The text in which the `mime` crate writes the media type that it reads
/// from `text`, and `None` where it reads none.
pub uninterp spec fn parsed_mime(text: Seq<char>) -> Option<Seq<char>>;

/// `str::parse` to `mime::Mime`, and that type's `to_string`. Trusted: it
/// returns the crate's reading of `text`, written out again, and `None`
/// exactly where the crate reads no media type. The crate cuts the text at
/// character counts, so it is handed ASCII only.
#[verifier::external_body]
fn parse_mime(text: &str) -> (r: Option<String>)
    requires
        is_ascii_chars(text@),
    ensures
        match r {
            Some(m) => parsed_mime(text@) == Some(m@),
            None => parsed_mime(text@) is None,
        },
{
    match text.parse::<mime::Mime>() {
        Ok(m) => Some(m.to_string()),
        Err(_) => None,
    }
}

/// The content type for a MIME type: the media type read from it, and plain
/// text where it is not ASCII or holds no media type.
pub open spec fn content_type_of(mime_type: Seq<char>) -> Seq<char> {
    if is_ascii_chars(mime_type) && parsed_mime(mime_type) is Some {
        parsed_mime(mime_type)->0
    } else {
        "text/plain; charset=utf-8"@
    }
}

/// Converts a given MIME type into a content type.
pub fn to_content_type(mime_type: String) -> (ct: ContentType)
    ensures
        ct@ == content_type_of(mime_type@),
{
    if !mime_type.as_str().is_ascii() {
        return ContentType::plaintext();
    }
    match parse_mime(mime_type.as_str()) {
        Some(value) => ContentType { value },
        None => ContentType::plaintext(),
    }
}

/// The position of the last `c` in `s`, and -1 where there is none.
pub open spec fn last_index_of(s: Seq<char>, c: char) -> int
    decreases s.len(),
{
    if s.len() == 0 {
        -1
    } else if s.last() == c {
        s.len() - 1
    } else {
        last_index_of(s.drop_last(), c)
    }
}

/// The last component of a name: what follows its last `/`.
pub open spec fn file_part(name: Seq<char>) -> Seq<char> {
    name.skip(last_index_of(name, '/') + 1)
}

/// The extension of a file name: what follows the last `.` of its last
/// component. There is none where that component has no `.`, or only one at
/// its start, or is `..`.
pub open spec fn extension_of(name: Seq<char>) -> Option<Seq<char>> {
    let file = file_part(name);
    let dot = last_index_of(file, '.');
    if dot <= 0 || file == seq!['.', '.'] {
        None
    } else {
        Some(file.skip(dot + 1))
    }
}

/// The position of the last `c` in `s`, and the length of `s` where there is
/// none.
fn find_last(s: &[char], c: char) -> (at: usize)
    ensures
        at <= s@.len(),
        at == s@.len() <==> last_index_of(s@, c) == -1,
        at < s@.len() ==> at == last_index_of(s@, c) && s@[at as int] == c,
{
    let mut end: usize = s.len();
    assert(s@.take(end as int) =~= s@);
    while end > 0
        invariant
            end <= s@.len(),
            last_index_of(s@, c) == last_index_of(s@.take(end as int), c),
        decreases end,
    {
        if s[end - 1] == c {
            return end - 1;
        }
        proof {
            assert(s@.take(end as int).drop_last() =~= s@.take(end - 1));
        }
        end = end - 1;
    }
    s.len()
}

/// The last position of `c` lies within `s`, holds `c`, and no `c` follows
/// it; where there is none, `s` holds no `c`.
pub proof fn lemma_last_index_of(s: Seq<char>, c: char)
    ensures
        -1 <= last_index_of(s, c) < s.len(),
        last_index_of(s, c) >= 0 ==> s[last_index_of(s, c)] == c,
        forall|j: int| last_index_of(s, c) < j < s.len() ==> s[j] != c,
    decreases s.len(),
{
    if s.len() > 0 && s.last() != c {
        lemma_last_index_of(s.drop_last(), c);
        assert forall|j: int| last_index_of(s, c) < j < s.len() implies s[j] != c by {
            if j < s.len() - 1 {
                assert(s.drop_last()[j] == s[j]);
            }
        }
    }
}

/// The extension of a file name.
pub fn file_extension(name: &str) -> (ext: Option<String>)
    ensures
        match ext {
            Some(e) => extension_of(name@) == Some(e@),
            None => extension_of(name@) is None,
        },
{
    let chars = chars_of(name);
    let len = chars.len();
    let slash = find_last(chars.as_slice(), '/');
    let start: usize = if slash == len {
        0
    } else {
        slash + 1
    };
    proof {
        lemma_last_index_of(name@, '/');
    }
    let file = vstd::slice::slice_subrange(chars.as_slice(), start, len);
    assert(file@ =~= file_part(name@));
    let dot = find_last(file, '.');
    if dot == file.len() || dot == 0 {
        return None;
    }
    if file.len() == 2 && file[0] == '.' {
        assert(file@ =~= seq!['.', '.']);
        return None;
    }
    assert(file@ != seq!['.', '.']) by {
        if file@ == seq!['.', '.'] {
            assert(file@.len() == 2);
            assert(file@[0] == '.');
        }
    }
    let ext = name.substring_char(start + dot + 1, len);
    assert(ext@ =~= file@.skip(dot + 1));
    Some(String::from_str(ext))
}

/// The MIME type that `mime_guess::get_mime_type_str` knows for a file
/// extension, and `None` where it knows none.
pub uninterp spec fn extension_mime_type(extension: Seq<char>) -> Option<Seq<char>>;

/// `mime_guess::get_mime_type_str`. Trusted: it returns what the crate's
/// table holds for the extension, and `None` exactly where it holds nothing.
#[verifier::external_body]
fn lookup_extension(extension: &str) -> (r: Option<String>)
    ensures
        match r {
            Some(m) => extension_mime_type(extension@) == Some(m@),
            None => extension_mime_type(extension@) is None,
        },
{
    mime_guess::get_mime_type_str(extension).map(String::from)
}

/// The MIME type that the extension of a file name stands for.
pub open spec fn name_mime_type(name: Seq<char>) -> Option<Seq<char>> {
    match extension_of(name) {
        Some(extension) => extension_mime_type(extension),
        None => None,
    }
}

/// Guesses the MIME type of a file from its name.
pub fn mime_from_file_name(name: &str) -> (r: Option<String>)
    ensures
        match r {
            Some(m) => name_mime_type(name@) == Some(m@),
            None => name_mime_type(name@) is None,
        },
{
    match file_extension(name) {
        Some(extension) => lookup_extension(extension.as_str()),
        None => None,
    }
}

/// `tree_magic::from_u8`: the MIME type that the content looks like. What it
/// finds depends on the type definitions installed on the machine, so
/// nothing is claimed of the result.
#[verifier::external_body]
fn sniff_mime_type(data: &[u8]) -> String {
    tree_magic::from_u8(data)
}

/// The MIME type that a file name alone settles, if it settles one.
pub open spec fn settled_mime_type(file_name: Option<Seq<char>>) -> Option<Seq<char>> {
    match file_name {
        Some(name) => name_mime_type(name),
        None => None,
    }
}

/// Guesses the MIME type of given data and its file name, if any: by the
/// name's extension where that is known, and else by the content.
pub fn data_mime_type(file_name: Option<&str>, data: &[u8]) -> (r: String)
    ensures
        settled_mime_type(
            match file_name {
                Some(name) => Some(name@),
                None => None,
            },
        ) matches Some(m) ==> r@ == m,
{
    let by_name = match file_name {
        Some(name) => mime_from_file_name(name),
        None => None,
    };
    match by_name {
        Some(m) => m,
        None => sniff_mime_type(data),
    }
}

/// Guesses the content type of a file from its name and its content.
pub fn file_content_type(name: &str, content: &[u8]) -> (ct: ContentType)
    ensures
        name_mime_type(name@) matches Some(m) ==> ct@ == content_type_of(m),
{
    to_content_type(data_mime_type(Some(name), content))
}

} // verus!
