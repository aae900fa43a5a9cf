//! What the dispatcher reads of an HTTP request.

use crate::text::{chars_of, contains, occurs_in};
use vstd::prelude::*;

verus! {

/// The method of a request.
#[derive(Debug, Clone, Copy, PartialEq, Eq, Structural)]
pub enum Method {
    Get,
    Post,
    Put,
    Delete,
    /// Any method that the service does not serve.
    Other,
}

/// An HTTP request without its body.
#[derive(Debug, Clone)]
pub struct Request {
    /// The method.
    pub method: Method,
    /// The segments of the path, in order; `/` alone has one empty segment.
    pub segments: Vec<String>,
    /// The pairs of the query string, decoded, in order.
    pub query: Vec<(String, String)>,
    /// The `User-Agent` header, if there is one.
    pub user_agent: Option<String>,
    /// The `Content-Length` header, if there is one.
    pub content_length: Option<u64>,
    /// Whether the first segment names a file among the static assets.
    pub static_asset: bool,
}

/// Whether a user agent is that of a browser, as opposed to a command line
/// client: it holds one of the signatures `Gecko/`, `AppleWebKit/`, `Opera/`,
/// `Trident/`, `Chrome/`.
pub open spec fn browser_agent(agent: Seq<char>) -> bool {
    ||| occurs_in(agent, "Gecko/"@)
    ||| occurs_in(agent, "AppleWebKit/"@)
    ||| occurs_in(agent, "Opera/"@)
    ||| occurs_in(agent, "Trident/"@)
    ||| occurs_in(agent, "Chrome/"@)
}

/// The `n`-th of the segments, where there is one and it is not empty.
pub open spec fn segment_n(segments: Seq<Seq<char>>, n: int) -> Option<Seq<char>> {
    if 0 <= n < segments.len() && segments[n].len() > 0 {
        Some(segments[n])
    } else {
        None
    }
}

/// The value of the first pair of the query that has the given name.
pub open spec fn arg_value(query: Seq<(Seq<char>, Seq<char>)>, name: Seq<char>) -> Option<
    Seq<char>,
>
    decreases query.len(),
{
    if query.len() == 0 {
        None
    } else if query[0].0 == name {
        Some(query[0].1)
    } else {
        arg_value(query.skip(1), name)
    }
}

/// The value of an argument is that of a pair with its name before which no
/// pair has that name; there is none where no pair has the name.
pub proof fn lemma_arg_value(query: Seq<(Seq<char>, Seq<char>)>, name: Seq<char>)
    ensures
        match arg_value(query, name) {
            Some(value) => exists|i: int|
                0 <= i < query.len() && (#[trigger] query[i]).0 == name && query[i].1 == value
                    && forall|j: int| 0 <= j < i ==> (#[trigger] query[j]).0 != name,
            None => forall|j: int| 0 <= j < query.len() ==> (#[trigger] query[j]).0 != name,
        },
    decreases query.len(),
{
    if query.len() > 0 && query[0].0 != name {
        let rest = query.skip(1);
        lemma_arg_value(rest, name);
        match arg_value(rest, name) {
            Some(value) => {
                let i = choose|i: int|
                    0 <= i < rest.len() && (#[trigger] rest[i]).0 == name && rest[i].1 == value
                        && forall|j: int| 0 <= j < i ==> (#[trigger] rest[j]).0 != name;
                assert(query[i + 1] == rest[i]);
                assert forall|j: int| 0 <= j < i + 1 implies (#[trigger] query[j]).0 != name by {
                    if j > 0 {
                        assert(query[j] == rest[j - 1]);
                    }
                }
            },
            None => {
                assert forall|j: int| 0 <= j < query.len() implies (#[trigger] query[j]).0
                    != name by {
                    if j > 0 {
                        assert(query[j] == rest[j - 1]);
                    }
                }
            },
        }
    } else if query.len() > 0 {
        assert(query[0].0 == name);
    }
}

impl Request {
    /// The segments of the path, as texts.
    pub open spec fn spec_segments(&self) -> Seq<Seq<char>> {
        self.segments.deep_view()
    }

    /// The pairs of the query, as texts.
    pub open spec fn spec_query(&self) -> Seq<(Seq<char>, Seq<char>)> {
        self.query.deep_view()
    }

    /// Whether the request comes from a browser.
    pub open spec fn from_browser(&self) -> bool {
        match self.user_agent {
            Some(agent) => browser_agent(agent@),
            None => false,
        }
    }
}

/// Convenience functions for a `Request`.
pub trait RequestExt {
    /// Checks if a request has been made from a known browser as opposed to
    /// a command line client.
    fn is_browser(&self) -> bool;

    /// Tries to obtain the `n`-th segment of the path.
    fn url_segment_n(&self, n: usize) -> Option<&str>;

    /// Extracts the value of an argument of the query.
    fn get_arg(&self, arg: &str) -> Option<&str>;
}

impl RequestExt for Request {
    fn is_browser(&self) -> (browser: bool)
        ensures
            browser == self.from_browser(),
    {
        match &self.user_agent {
            None => false,
            Some(agent) => {
                let agent = chars_of(agent.as_str());
                let agent = agent.as_slice();
                contains(agent, chars_of("Gecko/").as_slice()) || contains(
                    agent,
                    chars_of("AppleWebKit/").as_slice(),
                ) || contains(agent, chars_of("Opera/").as_slice()) || contains(
                    agent,
                    chars_of("Trident/").as_slice(),
                ) || contains(agent, chars_of("Chrome/").as_slice())
            },
        }
    }

    fn url_segment_n(&self, n: usize) -> (segment: Option<&str>)
        ensures
            match segment {
                Some(s) => segment_n(self.spec_segments(), n as int) == Some(s@),
                None => segment_n(self.spec_segments(), n as int) is None,
            },
    {
        if n >= self.segments.len() {
            return None;
        }
        let s = self.segments[n].as_str();
        assert(self.spec_segments()[n as int] == s@);
        if s.is_empty() {
            None
        } else {
            Some(s)
        }
    }

    fn get_arg(&self, arg: &str) -> (value: Option<&str>)
        ensures
            match value {
                Some(v) => arg_value(self.spec_query(), arg@) == Some(v@),
                None => arg_value(self.spec_query(), arg@) is None,
            },
    {
        let name = chars_of(arg);
        let mut i: usize = 0;
        assert(self.spec_query().skip(0) =~= self.spec_query());
        while i < self.query.len()
            invariant
                i <= self.query@.len(),
                name@ == arg@,
                arg_value(self.spec_query(), arg@) == arg_value(
                    self.spec_query().skip(i as int),
                    arg@,
                ),
            decreases self.query@.len() - i,
        {
            let pair = &self.query[i];
            proof {
                let rest = self.spec_query().skip(i as int);
                assert(rest[0] == self.spec_query()[i as int]);
                assert(rest.skip(1) =~= self.spec_query().skip(i + 1));
            }
            if crate::text::same_text(chars_of(pair.0.as_str()).as_slice(), name.as_slice()) {
                return Some(pair.1.as_str());
            }
            i = i + 1;
        }
        None
    }
}

} // verus!
