//! The dispatcher: what each request does to the storage and what it is
//! answered with.

use crate::error::{Error, Status};
use crate::html::{escapable, escape_html, html_escaped, str_from_utf8, text_of};
use crate::id::{
    decode_id, decoded_id, encode_id, minimal_bytes, url_safe_no_pad_text, IdError,
};
use crate::mime::{
    content_type_of, data_mime_type, is_text, is_text_type, settled_mime_type, to_content_type,
};
use crate::paste::{DbInterface, PasteEntry, PasteView};
use crate::read::{
    body_view, lemma_loaded_is_bounded, load_data, loads, ByteStream, ReadError,
};
use crate::request::{arg_value, segment_n, Method, Request, RequestExt};
use crate::response::{
    outcome_status, outcome_view, Outcome, Page, PageView, Response, ResponseView,
};
use crate::text::{chars_of, same_text};
use crate::time::{expiry, expiry_of, unix_now, ExpiryError};
use vstd::prelude::*;
use vstd::string::StringExecFns;

verus! {

/// The body that answers a stored paste: its address and a line end.
pub open spec fn created_body(prefix: Seq<char>, id: u64) -> Seq<char> {
    prefix + url_safe_no_pad_text(minimal_bytes(id)) + seq!['\n']
}

/// The answer to a paste stored under `id`.
pub fn created(url_prefix: &str, id: u64) -> (response: Response)
    ensures
        response@ == ResponseView::Created(created_body(url_prefix@, id)),
        decoded_id(url_safe_no_pad_text(minimal_bytes(id))) == Ok::<u64, IdError>(id),
{
    let body = String::from_str(url_prefix).concat(encode_id(id).as_str()).concat("\n");
    proof {
        reveal_strlit("\n");
        assert("\n"@ =~= seq!['\n']);
    }
    Response::Created(body)
}

/// The address as which `iron::Url` reads a text, written out again, and
/// `None` where it reads none.
pub uninterp spec fn parsed_url(text: Seq<char>) -> Option<Seq<char>>;

/// `iron::Url::parse`, and that type's `to_string`. Trusted: it returns the
/// crate's reading of `text`, written out again, and `None` exactly where
/// the crate takes the text for no URL that it serves.
#[verifier::external_body]
fn parse_url(text: &str) -> (r: Option<String>)
    ensures
        match r {
            Some(url) => parsed_url(text@) == Some(url@),
            None => parsed_url(text@) is None,
        },
{
    match iron::Url::parse(text) {
        Ok(url) => Some(url.to_string()),
        Err(_) => None,
    }
}

/// The address of a paste with its file name behind it.
pub open spec fn named_address(prefix: Seq<char>, str_id: Seq<char>, name: Seq<char>) -> Seq<
    char,
> {
    prefix + str_id + seq!['/'] + name
}

/// The answer that sends a client on to the address of a paste with its
/// file name, and an error where that address is no URL.
pub open spec fn redirection<E>(prefix: Seq<char>, str_id: Seq<char>, name: Seq<char>) -> Result<
    ResponseView,
    Error<E>,
> {
    match parsed_url(named_address(prefix, str_id, name)) {
        Some(url) => Ok(ResponseView::Redirect(url)),
        None => Err(Error::Url),
    }
}

/// Sends a client on to the address of a paste with its file name.
pub fn redirect_to<E>(url_prefix: &str, str_id: &str, name: &str) -> (r: Outcome<E>)
    ensures
        outcome_view(r) == redirection::<E>(url_prefix@, str_id@, name@),
{
    let address = String::from_str(url_prefix).concat(str_id).concat("/").concat(name);
    proof {
        reveal_strlit("/");
        assert("/"@ =~= seq!['/']);
    }
    match parse_url(address.as_str()) {
        Some(url) => Ok(Response::Redirect(url)),
        None => Err(Error::Url),
    }
}

/// The page that shows a paste as text: its MIME type, file name and
/// content, escaped for HTML. There is none where the content is no UTF-8,
/// or where one of the three is too long to be escaped.
pub open spec fn shown<E>(
    id: u64,
    mime: Seq<char>,
    file_name: Option<Seq<char>>,
    data: Seq<u8>,
) -> Result<PageView, Error<E>> {
    match text_of(data) {
        Some(text) => if escapable(mime) && escapable(text) && (file_name matches Some(name)
            ==> escapable(name)) {
            Ok(
                PageView::Show {
                    id,
                    mime: html_escaped(mime),
                    file_name: match file_name {
                        Some(name) => Some(html_escaped(name)),
                        None => None,
                    },
                    data: html_escaped(text),
                },
            )
        } else {
            Err(Error::TemplateRender)
        },
        None => Err(Error::TemplateRender),
    }
}

/// Serves data in the form of an HTML page.
pub fn serve_data_html<E>(id: u64, mime: &str, file_name: Option<String>, data: &[u8]) -> (r:
    Result<Page, Error<E>>)
    ensures
        match r {
            Ok(page) => shown::<E>(
                id,
                mime@,
                match file_name {
                    Some(name) => Some(name@),
                    None => None,
                },
                data@,
            ) == Ok::<PageView, Error<E>>(page@),
            Err(e) => shown::<E>(
                id,
                mime@,
                match file_name {
                    Some(name) => Some(name@),
                    None => None,
                },
                data@,
            ) == Err::<PageView, Error<E>>(e),
        },
{
    let text = match str_from_utf8(data) {
        Some(text) => text,
        None => {
            return Err(Error::TemplateRender);
        },
    };
    let mime = match escape_html(mime) {
        Some(mime) => mime,
        None => {
            return Err(Error::TemplateRender);
        },
    };
    let file_name = match file_name {
        Some(name) => match escape_html(name.as_str()) {
            Some(name) => Some(name),
            None => {
                return Err(Error::TemplateRender);
            },
        },
        None => None,
    };
    let data = match escape_html(text.as_str()) {
        Some(data) => data,
        None => {
            return Err(Error::TemplateRender);
        },
    };
    Ok(Page::Show { id, mime, file_name, data })
}

/// The answer to a request for the paste `id`, given what the storage holds
/// under it: not found where it holds nothing; a page where the paste is
/// text and a browser asks; and else the bytes of the paste under its
/// content type.
pub open spec fn served<E>(id: u64, loaded: Option<PasteView>, browser: bool) -> Result<
    ResponseView,
    Error<E>,
> {
    match loaded {
        None => Err(Error::IdNotFound(id)),
        Some(paste) => if is_text_type(paste.mime_type) && browser {
            match shown::<E>(id, paste.mime_type, paste.file_name, paste.data) {
                Ok(page) => Ok(ResponseView::Page(page)),
                Err(e) => Err(e),
            }
        } else {
            Ok(
                ResponseView::Paste {
                    content_type: content_type_of(paste.mime_type),
                    data: paste.data,
                },
            )
        },
    }
}

/// Answers a request for the paste `id` with what the storage holds under it.
pub fn serve_paste<E>(id: u64, loaded: Option<PasteEntry>, browser: bool) -> (r: Outcome<E>)
    ensures
        outcome_view(r) == served::<E>(
            id,
            match loaded {
                Some(paste) => Some(paste@),
                None => None,
            },
            browser,
        ),
{
    match loaded {
        None => Err(Error::IdNotFound(id)),
        Some(paste) => {
            if is_text(paste.mime_type.as_str()) && browser {
                match serve_data_html(
                    id,
                    paste.mime_type.as_str(),
                    paste.file_name,
                    paste.data.as_slice(),
                ) {
                    Ok(page) => Ok(Response::Page(page)),
                    Err(e) => Err(e),
                }
            } else {
                Ok(
                    Response::Paste {
                        content_type: to_content_type(paste.mime_type),
                        data: paste.data,
                    },
                )
            }
        },
    }
}

/// A request for a paste that the storage does not hold is answered with
/// `IdNotFound`, which is the status 404.
pub proof fn lemma_missing_paste_is_not_found<E>(id: u64, browser: bool)
    ensures
        served::<E>(id, None, browser) == Err::<ResponseView, Error<E>>(Error::IdNotFound(id)),
        outcome_status(served::<E>(id, None, browser)) == Status::NotFound,
{
}

/// Whether a body is announced as longer than the limit.
pub open spec fn announced_too_large(content_length: Option<u64>, limit: usize) -> bool {
    content_length matches Some(n) && n > limit
}

/// What the paste that a request brought holds, or the error.
pub open spec fn ingest_view<E>(r: Result<PasteEntry, Error<E>>) -> Result<PasteView, Error<E>> {
    match r {
        Ok(paste) => Ok(paste@),
        Err(e) => Err(e),
    }
}

/// The pastebin service: a storage of pastes behind four kinds of request.
pub struct Pastebin<Db: DbInterface> {
    /// The storage.
    pub db: Db,
    /// What stands before an identifier in the address of a paste.
    pub url_prefix: String,
    /// How long a paste is kept, in seconds, where the request does not say.
    pub default_ttl: i64,
    /// The most that the storage takes for one paste.
    pub max_data_size: usize,
}

impl<Db: DbInterface> Pastebin<Db> {
    /// Initializes a pastebin service with a storage. The storage is asked
    /// once for the most that it takes.
    pub fn new(db: Db, url_prefix: String, default_ttl: i64) -> (pastebin: Self)
        ensures
            pastebin.db == db,
            pastebin.url_prefix == url_prefix,
            pastebin.default_ttl == default_ttl,
            db.limits(pastebin.max_data_size),
    {
        let max_data_size = db.max_data_size();
        Pastebin { db, url_prefix, default_ttl, max_data_size }
    }

    /// Whether the service is set up as `other` is: with the same prefix,
    /// time to live and limit.
    pub open spec fn same_setup(&self, other: &Self) -> bool {
        &&& self.url_prefix == other.url_prefix
        &&& self.default_ttl == other.default_ttl
        &&& self.max_data_size == other.max_data_size
    }

    /// Whether `r` can be the end of a request for the paste that `str_id`
    /// names. A text that is no identifier is a decoding error. Else, where
    /// the path held no file name, the storage is asked for one: its error
    /// ends the request, and a name that it knows is answered with a
    /// redirect to the address with that name. Else the storage is asked for
    /// the paste: its error ends the request, and what it holds is answered
    /// as `served` says.
    pub open spec fn fetched(
        &self,
        str_id: Seq<char>,
        browser: bool,
        name_provided: bool,
        r: Outcome<Db::Error>,
    ) -> bool {
        match decoded_id(str_id) {
            Err(e) => r == Err::<Response, Error<Db::Error>>(Error::IdDecode(e)),
            Ok(id) => {
                ||| !name_provided && (r matches Err(Error::Storage(e)) && self.db.names(
                    id,
                    Err(e),
                ))
                ||| !name_provided && exists|name: Seq<char>| #[trigger]
                    self.db.names(id, Ok(Some(name))) && outcome_view(r) == redirection::<
                        Db::Error,
                    >(self.url_prefix@, str_id, name)
                ||| (name_provided || self.db.names(id, Ok(None))) && (r matches Err(
                    Error::Storage(e),
                ) && self.db.loads(id, Err(e)))
                ||| (name_provided || self.db.names(id, Ok(None))) && exists|
                    loaded: Option<PasteView>,
                | #[trigger]
                    self.db.loads(id, Ok(loaded)) && outcome_view(r) == served::<Db::Error>(
                        id,
                        loaded,
                        browser,
                    )
            },
        }
    }

    /// Loads a paste from the storage and answers with it.
    pub fn get_paste(&self, str_id: &str, is_browser: bool, name_provided: bool) -> (r: Outcome<
        Db::Error,
    >)
        ensures
            self.fetched(str_id@, is_browser, name_provided, r),
    {
        let id = match decode_id(str_id) {
            Ok(id) => id,
            Err(e) => {
                return Err(Error::IdDecode(e));
            },
        };
        if !name_provided {
            match self.db.get_file_name(id) {
                Err(e) => {
                    return Err(Error::Storage(e));
                },
                Ok(Some(name)) => {
                    return redirect_to(self.url_prefix.as_str(), str_id, name.as_str());
                },
                Ok(None) => {},
            }
        }
        match self.db.load_data(id) {
            Err(e) => Err(Error::Storage(e)),
            Ok(loaded) => serve_paste(id, loaded, is_browser),
        }
    }

    /// Whether `r` can be the end of a `GET` request: the upload form for an
    /// empty path; the script and the readme under their names; a static
    /// asset under its name; and else the paste that the first segment
    /// names, with or without a file name behind it.
    pub open spec fn got(&self, req: &Request, r: Outcome<Db::Error>) -> bool {
        match segment_n(req.spec_segments(), 0) {
            None => outcome_view(r) == Ok::<ResponseView, Error<Db::Error>>(
                ResponseView::Page(PageView::Upload),
            ),
            Some(first) => if first == "paste.sh"@ {
                outcome_view(r) == Ok::<ResponseView, Error<Db::Error>>(
                    ResponseView::Page(PageView::PasteScript { prefix: self.url_prefix@ }),
                )
            } else if first == "readme"@ {
                outcome_view(r) == Ok::<ResponseView, Error<Db::Error>>(
                    ResponseView::Page(PageView::Readme { prefix: self.url_prefix@ }),
                )
            } else if req.static_asset {
                outcome_view(r) == Ok::<ResponseView, Error<Db::Error>>(
                    ResponseView::StaticFile(first),
                )
            } else {
                self.fetched(
                    first,
                    req.from_browser(),
                    segment_n(req.spec_segments(), 1) is Some,
                    r,
                )
            },
        }
    }

    /// Handles `GET` requests.
    pub fn get(&self, req: &Request) -> (r: Outcome<Db::Error>)
        ensures
            self.got(req, r),
    {
        let first = match req.url_segment_n(0) {
            None => {
                return Ok(Response::Page(Page::Upload));
            },
            Some(first) => first,
        };
        let name = chars_of(first);
        if same_text(name.as_slice(), chars_of("paste.sh").as_slice()) {
            Ok(Response::Page(Page::PasteScript { prefix: self.url_prefix.clone() }))
        } else if same_text(name.as_slice(), chars_of("readme").as_slice()) {
            Ok(Response::Page(Page::Readme { prefix: self.url_prefix.clone() }))
        } else if req.static_asset {
            Ok(Response::StaticFile(String::from_str(first)))
        } else {
            self.get_paste(first, req.is_browser(), req.url_segment_n(1).is_some())
        }
    }

    /// The paste that a `POST` or `PUT` request brings at the time `now`,
    /// given what reading its body came to. An error of reading is the error
    /// of the request, and so is an `expires` that settles no expiry. Else
    /// the paste holds the body; the first segment of the path as its file
    /// name; the MIME type that the file name stands for, or else one found
    /// in the body; and the expiry that `expiry_of` settles.
    pub open spec fn brought(
        &self,
        req: &Request,
        now: i64,
        read: Result<Seq<u8>, ReadError>,
        r: Result<PasteView, Error<Db::Error>>,
    ) -> bool {
        match read {
            Err(e) => r == Err::<PasteView, Error<Db::Error>>(Error::spec_from_read(e)),
            Ok(data) => match expiry_of(
                arg_value(req.spec_query(), "expires"@),
                now,
                self.default_ttl,
            ) {
                Err(e) => r == Err::<PasteView, Error<Db::Error>>(Error::Expiry(e)),
                Ok(best_before) => {
                    &&& r matches Ok(paste)
                    &&& paste.data == data
                    &&& paste.file_name == segment_n(req.spec_segments(), 0)
                    &&& settled_mime_type(paste.file_name) matches Some(m) ==> paste.mime_type
                        == m
                    &&& paste.best_before == best_before
                },
            },
        }
    }

    /// Whether a `POST` or `PUT` request with the body `body` can, at the
    /// time `now`, leave the body as `after` and bring `r`: the body is
    /// loaded under the limit of the storage, as `loads` says, and what that
    /// comes to settles the rest, as `brought` says.
    pub open spec fn ingested<S: ByteStream>(
        &self,
        req: &Request,
        body: &S,
        now: i64,
        after: &S,
        r: Result<PasteView, Error<Db::Error>>,
    ) -> bool {
        exists|read: Result<Seq<u8>, ReadError>| #[trigger]
            loads(*body, self.max_data_size, req.content_length, *after, read) && self.brought(
                req,
                now,
                read,
                r,
            )
    }

    /// Reads the paste that a `POST` or `PUT` request brings: its body, its
    /// file name, its MIME type and its expiry. Nothing is stored.
    pub fn ingest<S: ByteStream>(&self, req: &Request, body: &mut S, now: i64) -> (r: Result<
        PasteEntry,
        Error<Db::Error>,
    >)
        ensures
            self.ingested(req, old(body), now, final(body), ingest_view(r)),
    {
        let file_name = match req.url_segment_n(0) {
            Some(name) => Some(String::from_str(name)),
            None => None,
        };
        let read = load_data(body, self.max_data_size, req.content_length);
        let ghost seen = body_view(read);
        let data = match read {
            Ok(data) => data,
            Err(e) => {
                let r = Err(Error::from_read(e));
                assert(self.brought(req, now, seen, ingest_view(r)));
                return r;
            },
        };
        let mime_type = data_mime_type(
            match &file_name {
                Some(name) => Some(name.as_str()),
                None => None,
            },
            data.as_slice(),
        );
        let r = match expiry(req.get_arg("expires"), now, self.default_ttl) {
            Ok(best_before) => Ok(PasteEntry { data, file_name, mime_type, best_before }),
            Err(e) => Err(Error::Expiry(e)),
        };
        assert(self.brought(req, now, seen, ingest_view(r)));
        r
    }

    /// Whether a `POST` or `PUT` request can bring a paste, leaving its body
    /// as `body_after`, and hand it to the storage, which turns into `after`
    /// and answers `stored`.
    pub open spec fn handed_over<S: ByteStream>(
        &self,
        req: &Request,
        body: &S,
        after: &Db,
        body_after: &S,
        stored: Result<u64, Db::Error>,
    ) -> bool {
        exists|now: i64, paste: PasteView|
            #![trigger self.ingested(req, body, now, body_after, Ok(paste)), self.db.stores(paste, after, stored)]
            self.ingested(req, body, now, body_after, Ok(paste)) && self.db.stores(
                paste,
                after,
                stored,
            )
    }

    /// Whether a `POST` or `PUT` request can fail to bring a paste, with the
    /// error `e`, leaving its body as `body_after`.
    pub open spec fn brings_none<S: ByteStream>(
        &self,
        req: &Request,
        body: &S,
        body_after: &S,
        e: Error<Db::Error>,
    ) -> bool {
        exists|now: i64| #[trigger] self.ingested(req, body, now, body_after, Err(e))
    }

    /// Whether a `POST` or `PUT` request can turn the service into `after`
    /// and end with `r`. The paste that the request brings, at some time, is
    /// handed to the storage; its identifier is answered with its address,
    /// which names that identifier again. A request that brings no paste
    /// ends with the error of that and leaves the storage as it was.
    pub open spec fn posted<S: ByteStream>(
        &self,
        req: &Request,
        body: &S,
        after: &Self,
        body_after: &S,
        r: Outcome<Db::Error>,
    ) -> bool {
        &&& self.same_setup(after)
        &&& match r {
            Ok(response) => exists|id: u64|
                {
                    &&& #[trigger] self.handed_over(req, body, &after.db, body_after, Ok(id))
                    &&& response@ == ResponseView::Created(created_body(self.url_prefix@, id))
                    &&& decoded_id(url_safe_no_pad_text(minimal_bytes(id))) == Ok::<u64, IdError>(
                        id,
                    )
                },
            Err(Error::Storage(e)) => self.handed_over(req, body, &after.db, body_after, Err(e)),
            Err(e) => after.db == self.db && self.brings_none(req, body, body_after, e),
        }
    }

    /// Handles `POST` and `PUT` requests: reads the paste at the present
    /// time, stores it and answers with its address.
    pub fn post<S: ByteStream>(&mut self, req: &Request, body: &mut S) -> (r: Outcome<Db::Error>)
        ensures
            old(self).posted(req, old(body), final(self), final(body), r),
    {
        let now = unix_now();
        let paste = match self.ingest(req, body, now) {
            Ok(paste) => paste,
            Err(e) => {
                assert(old(self).ingested(req, old(body), now, body, Err(e)));
                return Err(e);
            },
        };
        let ghost brought = paste@;
        assert(old(self).ingested(req, old(body), now, body, Ok(brought)));
        let stored = self.db.store_data(
            paste.data,
            paste.file_name,
            paste.mime_type,
            paste.best_before,
        );
        assert(old(self).db.stores(brought, &self.db, stored));
        assert(old(self).handed_over(req, old(body), &self.db, body, stored));
        match stored {
            Ok(id) => Ok(created(self.url_prefix.as_str(), id)),
            Err(e) => Err(Error::Storage(e)),
        }
    }

    /// Whether a `DELETE` request can turn the service into `after` and end
    /// with `r`. A path that names no identifier is an error and leaves the
    /// storage as it was. Else the storage is asked to remove the paste: its
    /// error ends the request, and else the request succeeds.
    pub open spec fn removed(&self, req: &Request, after: &Self, r: Outcome<Db::Error>) -> bool {
        &&& self.same_setup(after)
        &&& match segment_n(req.spec_segments(), 0) {
            None => r == Err::<Response, Error<Db::Error>>(Error::NoIdSegment) && after.db
                == self.db,
            Some(first) => match decoded_id(first) {
                Err(e) => r == Err::<Response, Error<Db::Error>>(Error::IdDecode(e)) && after.db
                    == self.db,
                Ok(id) => match r {
                    Ok(response) => response@ == ResponseView::Removed && self.db.removes(
                        id,
                        &after.db,
                        None,
                    ),
                    Err(Error::Storage(e)) => self.db.removes(id, &after.db, Some(e)),
                    Err(_) => false,
                },
            },
        }
    }

    /// Handles `DELETE` requests.
    pub fn remove(&mut self, req: &Request) -> (r: Outcome<Db::Error>)
        ensures
            old(self).removed(req, final(self), r),
    {
        let first = match req.url_segment_n(0) {
            Some(first) => first,
            None => {
                return Err(Error::NoIdSegment);
            },
        };
        let id = match decode_id(first) {
            Ok(id) => id,
            Err(e) => {
                return Err(Error::IdDecode(e));
            },
        };
        match self.db.remove_data(id) {
            Ok(_) => Ok(Response::Removed),
            Err(e) => Err(Error::Storage(e)),
        }
    }

    /// Whether a request with the body `body` can turn the service into
    /// `after`, leave the body as `body_after` and end with `r`: by its
    /// method, as `got`, `posted` and `removed` say. Only `POST` and `PUT`
    /// read the body. A `GET` request changes nothing, and neither does a
    /// request with a method that is not served, which is answered so.
    pub open spec fn handled<S: ByteStream>(
        &self,
        req: &Request,
        body: &S,
        after: &Self,
        body_after: &S,
        r: Outcome<Db::Error>,
    ) -> bool {
        match req.method {
            Method::Get => after == self && body_after == body && self.got(req, r),
            Method::Post | Method::Put => self.posted(req, body, after, body_after, r),
            Method::Delete => body_after == body && self.removed(req, after, r),
            Method::Other => after == self && body_after == body && outcome_view(r) == Ok::<
                ResponseView,
                Error<Db::Error>,
            >(ResponseView::MethodNotAllowed),
        }
    }

    /// Handles a request.
    pub fn handle<S: ByteStream>(&mut self, req: &Request, body: &mut S) -> (r: Outcome<
        Db::Error,
    >)
        ensures
            old(self).handled(req, old(body), final(self), final(body), r),
    {
        match req.method {
            Method::Get => self.get(req),
            Method::Post | Method::Put => self.post(req, body),
            Method::Delete => self.remove(req),
            Method::Other => Ok(Response::MethodNotAllowed),
        }
    }
}

/// A request that ends in another error than the storage's own has written
/// nothing: it leaves the storage as it was.
pub proof fn lemma_failed_request_writes_nothing<Db: DbInterface, S: ByteStream>(
    before: Pastebin<Db>,
    req: Request,
    body: S,
    after: Pastebin<Db>,
    body_after: S,
    r: Outcome<Db::Error>,
)
    requires
        before.handled(&req, &body, &after, &body_after, r),
        r is Err,
        !(r matches Err(Error::Storage(_))),
    ensures
        after.db == before.db,
{
}

/// A request whose body is announced as larger than the storage takes ends
/// with `TooBig`, the status 413; it has read nothing of the body and
/// written nothing to the storage.
pub proof fn lemma_announced_too_large_is_refused<Db: DbInterface, S: ByteStream>(
    before: Pastebin<Db>,
    req: Request,
    body: S,
    after: Pastebin<Db>,
    body_after: S,
    r: Outcome<Db::Error>,
)
    requires
        req.method == Method::Post || req.method == Method::Put,
        announced_too_large(req.content_length, before.max_data_size),
        before.handled(&req, &body, &after, &body_after, r),
    ensures
        r == Err::<Response, Error<Db::Error>>(Error::TooBig),
        outcome_status(outcome_view(r)) == Status::PayloadTooLarge,
        after.db == before.db,
        body_after == body,
{
    lemma_too_large_brings_too_big(before, req, body, body_after);
}

/// A body announced as larger than the storage takes brings `TooBig` and
/// nothing else, and is left as it was.
pub proof fn lemma_too_large_brings_too_big<Db: DbInterface, S: ByteStream>(
    service: Pastebin<Db>,
    req: Request,
    body: S,
    body_after: S,
)
    requires
        announced_too_large(req.content_length, service.max_data_size),
    ensures
        forall|now: i64, r: Result<PasteView, Error<Db::Error>>| #[trigger]
            service.ingested(&req, &body, now, &body_after, r) ==> r == Err::<
                PasteView,
                Error<Db::Error>,
            >(Error::TooBig) && body_after == body,
{
}

/// A paste that a request brings holds no more than the storage takes, and
/// as many bytes as the request announced.
pub proof fn lemma_ingested_is_within_limit<Db: DbInterface, S: ByteStream>(
    service: Pastebin<Db>,
    req: Request,
    body: S,
    now: i64,
    body_after: S,
    paste: PasteView,
)
    requires
        service.ingested(&req, &body, now, &body_after, Ok(paste)),
    ensures
        paste.data.len() <= service.max_data_size,
        req.content_length matches Some(n) ==> paste.data.len() == n,
{
    let read = choose|read: Result<Seq<u8>, ReadError>| #[trigger]
        loads(body, service.max_data_size, req.content_length, body_after, read)
            && service.brought(&req, now, read, Ok(paste));
    lemma_loaded_is_bounded(
        body,
        service.max_data_size,
        req.content_length,
        body_after,
        paste.data,
    );
}

} // verus!
