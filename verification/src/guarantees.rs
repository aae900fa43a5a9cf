//! What the service guarantees where its storage is the one in memory,
//! whose answers are known.

use crate::error::{Error, Status};
use crate::id::{decoded_id, minimal_bytes, url_safe_no_pad_text, IdError};
use crate::memory::{after_remove, found, MemoryDb, MemoryError};
use crate::paste::{DbInterface, PasteView};
use crate::pastebin::{served, Pastebin};
use crate::read::{lemma_load_from_memory, loaded_from, loads, IoError, MemoryStream, ReadError};
use crate::request::{segment_n, Request};
use crate::response::{outcome_status, outcome_view, Outcome, Response, ResponseView};
use vstd::prelude::*;

verus! {

/// A request for a paste that the storage does not hold ends with
/// `IdNotFound`, the status 404, whoever asks and whether or not the path
/// holds a file name.
pub proof fn lemma_unknown_id_is_not_found(
    service: Pastebin<MemoryDb>,
    str_id: Seq<char>,
    id: u64,
    browser: bool,
    name_provided: bool,
    r: Outcome<MemoryError>,
)
    requires
        decoded_id(str_id) == Ok::<u64, IdError>(id),
        found(service.db.pastes(), id) is None,
        service.fetched(str_id, browser, name_provided, r),
    ensures
        r == Err::<Response, Error<MemoryError>>(Error::IdNotFound(id)),
        outcome_status(outcome_view(r)) == Status::NotFound,
{
}

/// A request for a paste that the storage holds, with a file name in the
/// path or for a paste without one, ends as `served` says of that paste.
pub proof fn lemma_known_id_is_served(
    service: Pastebin<MemoryDb>,
    str_id: Seq<char>,
    id: u64,
    paste: PasteView,
    browser: bool,
    name_provided: bool,
    r: Outcome<MemoryError>,
)
    requires
        decoded_id(str_id) == Ok::<u64, IdError>(id),
        found(service.db.pastes(), id) == Some(paste),
        name_provided || paste.file_name is None,
        service.fetched(str_id, browser, name_provided, r),
    ensures
        outcome_view(r) == served::<MemoryError>(id, Some(paste), browser),
{
}

/// A `DELETE` request that names an identifier never fails, whether or
/// not the storage holds a paste under it, and leaves the storage without
/// one.
pub proof fn lemma_delete_succeeds(
    before: Pastebin<MemoryDb>,
    req: Request,
    id: u64,
    after: Pastebin<MemoryDb>,
    r: Outcome<MemoryError>,
)
    requires
        segment_n(req.spec_segments(), 0) matches Some(first) && decoded_id(first) == Ok::<
            u64,
            IdError,
        >(id),
        before.removed(&req, &after, r),
    ensures
        outcome_view(r) == Ok::<ResponseView, Error<MemoryError>>(ResponseView::Removed),
        outcome_status(outcome_view(r)) == Status::Okay,
        after.db.pastes() == after_remove(before.db.pastes(), id),
        found(after.db.pastes(), id) is None,
{
}

/// Removing the same paste twice in a row succeeds both times, and the
/// second time changes nothing.
pub proof fn lemma_delete_twice(
    before: Pastebin<MemoryDb>,
    req: Request,
    id: u64,
    between: Pastebin<MemoryDb>,
    first: Outcome<MemoryError>,
    after: Pastebin<MemoryDb>,
    second: Outcome<MemoryError>,
)
    requires
        segment_n(req.spec_segments(), 0) matches Some(text) && decoded_id(text) == Ok::<
            u64,
            IdError,
        >(id),
        before.removed(&req, &between, first),
        between.removed(&req, &after, second),
    ensures
        first is Ok,
        second is Ok,
        after.db.pastes() == between.db.pastes(),
{
    lemma_delete_succeeds(before, req, id, between, first);
    lemma_delete_succeeds(between, req, id, after, second);
    crate::memory::lemma_removed_is_gone(before.db.pastes(), id);
}

/// After a `DELETE` request for a paste, a request for that paste ends with
/// `IdNotFound`, the status 404.
pub proof fn lemma_deleted_is_not_found(
    before: Pastebin<MemoryDb>,
    req: Request,
    str_id: Seq<char>,
    id: u64,
    after: Pastebin<MemoryDb>,
    deleted: Outcome<MemoryError>,
    browser: bool,
    name_provided: bool,
    r: Outcome<MemoryError>,
)
    requires
        segment_n(req.spec_segments(), 0) == Some(str_id),
        decoded_id(str_id) == Ok::<u64, IdError>(id),
        before.removed(&req, &after, deleted),
        after.fetched(str_id, browser, name_provided, r),
    ensures
        r == Err::<Response, Error<MemoryError>>(Error::IdNotFound(id)),
        outcome_status(outcome_view(r)) == Status::NotFound,
{
    lemma_delete_succeeds(before, req, id, after, deleted);
    lemma_unknown_id_is_not_found(after, str_id, id, browser, name_provided, r);
}

/// What a `POST` or `PUT` request brings from a body in memory is settled
/// by the bytes of the body: a body that cannot be loaded, as `loaded_from`
/// says, is the error of the request, and else the paste holds the bytes
/// that were loaded.
pub proof fn lemma_ingested_from_memory<Db: DbInterface>(
    service: Pastebin<Db>,
    req: Request,
    body: MemoryStream,
    now: i64,
    body_after: MemoryStream,
    r: Result<PasteView, Error<Db::Error>>,
)
    requires
        service.ingested(&req, &body, now, &body_after, r),
    ensures
        service.brought(
            &req,
            now,
            loaded_from(body.remaining(), service.max_data_size, req.content_length),
            r,
        ),
{
    let read = choose|read: Result<Seq<u8>, ReadError>| #[trigger]
        loads(body, service.max_data_size, req.content_length, body_after, read)
            && service.brought(&req, now, read, r);
    lemma_load_from_memory(body, service.max_data_size, req.content_length, body_after, read);
}

/// A body without announced length that is larger than the storage takes
/// ends the request with `TooBig`, the status 413, and nothing is stored.
pub proof fn lemma_unannounced_too_large_is_refused<Db: DbInterface>(
    before: Pastebin<Db>,
    req: Request,
    body: MemoryStream,
    after: Pastebin<Db>,
    body_after: MemoryStream,
    r: Outcome<Db::Error>,
)
    requires
        req.content_length is None,
        body.remaining().len() > before.max_data_size,
        before.posted(&req, &body, &after, &body_after, r),
    ensures
        r == Err::<Response, Error<Db::Error>>(Error::TooBig),
        outcome_status(outcome_view(r)) == Status::PayloadTooLarge,
        after.db == before.db,
{
    assert forall|now: i64, paste: Result<PasteView, Error<Db::Error>>| #[trigger]
        before.ingested(&req, &body, now, &body_after, paste) implies paste == Err::<
        PasteView,
        Error<Db::Error>,
    >(Error::TooBig) by {
        lemma_ingested_from_memory(before, req, body, now, body_after, paste);
    }
    match r {
        Ok(response) => {
            let id = choose|id: u64| #[trigger]
                before.handed_over(&req, &body, &after.db, &body_after, Ok(id));
            assert(before.handed_over(&req, &body, &after.db, &body_after, Ok(id)));
        },
        _ => {},
    }
}

/// A body that ends before its announced length ends the request with an
/// I/O error, a bad request, and nothing is stored.
pub proof fn lemma_short_body_is_refused<Db: DbInterface>(
    before: Pastebin<Db>,
    req: Request,
    body: MemoryStream,
    after: Pastebin<Db>,
    body_after: MemoryStream,
    r: Outcome<Db::Error>,
)
    requires
        req.content_length matches Some(n) && body.remaining().len() < n <= before.max_data_size,
        before.posted(&req, &body, &after, &body_after, r),
    ensures
        r == Err::<Response, Error<Db::Error>>(Error::Io(IoError::UnexpectedEof)),
        outcome_status(outcome_view(r)) == Status::BadRequest,
        after.db == before.db,
{
    assert forall|now: i64, paste: Result<PasteView, Error<Db::Error>>| #[trigger]
        before.ingested(&req, &body, now, &body_after, paste) implies paste == Err::<
        PasteView,
        Error<Db::Error>,
    >(Error::Io(IoError::UnexpectedEof)) by {
        lemma_ingested_from_memory(before, req, body, now, body_after, paste);
    }
    match r {
        Ok(response) => {
            let id = choose|id: u64| #[trigger]
                before.handed_over(&req, &body, &after.db, &body_after, Ok(id));
            assert(before.handed_over(&req, &body, &after.db, &body_after, Ok(id)));
        },
        _ => {},
    }
}

/// The paste that a `POST` or `PUT` request stored is served under the
/// address that the request was answered with: a request for it, with a
/// file name in the path or for a paste without one, ends as `served` says
/// of a paste that holds the bytes of the body of the first request, and
/// its file name.
pub proof fn lemma_posted_is_served(
    before: Pastebin<MemoryDb>,
    req: Request,
    body: MemoryStream,
    id: u64,
    after: Pastebin<MemoryDb>,
    body_after: MemoryStream,
    browser: bool,
    name_provided: bool,
    r: Outcome<MemoryError>,
)
    requires
        before.handed_over(&req, &body, &after.db, &body_after, Ok(id)),
        decoded_id(url_safe_no_pad_text(minimal_bytes(id))) == Ok::<u64, IdError>(id),
        name_provided || segment_n(req.spec_segments(), 0) is None,
        after.fetched(url_safe_no_pad_text(minimal_bytes(id)), browser, name_provided, r),
    ensures
        exists|paste: PasteView|
            {
                &&& #[trigger] served::<MemoryError>(id, Some(paste), browser) == outcome_view(r)
                &&& Ok::<Seq<u8>, ReadError>(paste.data) == loaded_from(
                    body.remaining(),
                    before.max_data_size,
                    req.content_length,
                )
                &&& paste.file_name == segment_n(req.spec_segments(), 0)
            },
{
    let (now, paste) = choose|now: i64, paste: PasteView|
        #![trigger before.ingested(&req, &body, now, &body_after, Ok(paste)), before.db.stores(paste, &after.db, Ok(id))]
        before.ingested(&req, &body, now, &body_after, Ok(paste)) && before.db.stores(
            paste,
            &after.db,
            Ok(id),
        );
    lemma_ingested_from_memory(before, req, body, now, body_after, Ok(paste));
    crate::memory::lemma_stored_is_found(before.db.pastes(), id, paste);
    lemma_known_id_is_served(
        after,
        url_safe_no_pad_text(minimal_bytes(id)),
        id,
        paste,
        browser,
        name_provided,
        r,
    );
    assert(served::<MemoryError>(id, Some(paste), browser) == outcome_view(r));
}

/// A command line client that asks for a paste, stored from a body in
/// memory without a file name, gets the bytes of that body back, with the
/// status 200.
pub proof fn lemma_posted_body_comes_back(
    before: Pastebin<MemoryDb>,
    req: Request,
    body: MemoryStream,
    id: u64,
    after: Pastebin<MemoryDb>,
    body_after: MemoryStream,
    r: Outcome<MemoryError>,
)
    requires
        before.handed_over(&req, &body, &after.db, &body_after, Ok(id)),
        decoded_id(url_safe_no_pad_text(minimal_bytes(id))) == Ok::<u64, IdError>(id),
        segment_n(req.spec_segments(), 0) is None,
        req.content_length is None,
        after.fetched(url_safe_no_pad_text(minimal_bytes(id)), false, false, r),
    ensures
        outcome_view(r) matches Ok(ResponseView::Paste { data, .. }) && data == body.remaining(),
        outcome_status(outcome_view(r)) == Status::Okay,
{
    lemma_posted_is_served(before, req, body, id, after, body_after, false, false, r);
}

} // verus!
