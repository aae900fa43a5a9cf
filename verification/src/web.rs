//! Setting the service up.

use crate::paste::DbInterface;
use crate::pastebin::Pastebin;
use crate::text::chars_of;
use vstd::prelude::*;
use vstd::string::{StrSliceExecFns, StringExecFns};

verus! {

/// A text without the slashes at its end.
pub open spec fn without_trailing_slashes(text: Seq<char>) -> Seq<char>
    decreases text.len(),
{
    if text.len() > 0 && text.last() == '/' {
        without_trailing_slashes(text.drop_last())
    } else {
        text
    }
}

/// A URL prefix with exactly one slash at its end, however many it came
/// with.
pub open spec fn normalized_prefix(url_prefix: Seq<char>) -> Seq<char> {
    without_trailing_slashes(url_prefix) + seq!['/']
}

/// What is left without its trailing slashes does not end in a slash, and
/// is a prefix of the text.
pub proof fn lemma_without_trailing_slashes(text: Seq<char>)
    ensures
        without_trailing_slashes(text).is_prefix_of(text),
        without_trailing_slashes(text).len() == 0 || without_trailing_slashes(text).last() != '/',
    decreases text.len(),
{
    if text.len() > 0 && text.last() == '/' {
        lemma_without_trailing_slashes(text.drop_last());
    }
}

/// A normalized prefix ends in one slash and no more, and normalizing it
/// again changes nothing.
pub proof fn lemma_normalized_prefix(url_prefix: Seq<char>)
    ensures
        normalized_prefix(url_prefix).last() == '/',
        normalized_prefix(url_prefix).len() == 1 || normalized_prefix(url_prefix)[normalized_prefix(
            url_prefix,
        ).len() - 2] != '/',
        normalized_prefix(normalized_prefix(url_prefix)) == normalized_prefix(url_prefix),
{
    lemma_without_trailing_slashes(url_prefix);
    let bare = without_trailing_slashes(url_prefix);
    let once = normalized_prefix(url_prefix);
    assert(once.drop_last() =~= bare);
    assert(without_trailing_slashes(once) == without_trailing_slashes(bare));
    assert(without_trailing_slashes(bare) == bare);
}

/// Makes sure that a URL prefix ends in exactly one slash.
pub fn normalize_prefix(url_prefix: &str) -> (normalized: String)
    ensures
        normalized@ == normalized_prefix(url_prefix@),
{
    let chars = chars_of(url_prefix);
    let mut end: usize = chars.len();
    assert(chars@.take(end as int) =~= chars@);
    while end > 0 && chars[end - 1] == '/'
        invariant
            end <= chars@.len(),
            without_trailing_slashes(chars@) == without_trailing_slashes(chars@.take(end as int)),
        decreases end,
    {
        assert(chars@.take(end as int).drop_last() =~= chars@.take(end - 1));
        end = end - 1;
    }
    let bare = url_prefix.substring_char(0, end);
    proof {
        reveal_strlit("/");
        assert("/"@ =~= seq!['/']);
        assert(bare@ =~= chars@.take(end as int));
    }
    String::from_str(bare).concat("/")
}

/// Sets the service up over a storage.
///
/// `url_prefix` stands before the identifier in the answer to a stored
/// paste; however many slashes it ends in, the service uses it with one.
/// `default_ttl` is the time in seconds after which a paste expires where
/// the request does not say.
pub fn new_pastebin<Db: DbInterface>(db: Db, url_prefix: &str, default_ttl: i64) -> (pastebin:
    Pastebin<Db>)
    ensures
        pastebin.db == db,
        pastebin.url_prefix@ == normalized_prefix(url_prefix@),
        pastebin.default_ttl == default_ttl,
{
    Pastebin::new(db, normalize_prefix(url_prefix), default_ttl)
}

} // verus!
