//! What the dispatcher answers.

use crate::error::{Error, Status};
use crate::mime::ContentType;
use vstd::prelude::*;

verus! {

/// A page for the template engine to render, with what the template is
/// handed.
#[derive(Debug, Clone, PartialEq, Eq)]
pub enum Page {
    /// The upload form.
    Upload,
    /// The shell script that uploads a paste.
    PasteScript { prefix: String },
    /// The page that explains the service.
    Readme { prefix: String },
    /// A paste shown as text. The texts are escaped for HTML.
    Show { id: u64, mime: String, file_name: Option<String>, data: String },
}

/// What a page holds.
pub enum PageView {
    Upload,
    PasteScript { prefix: Seq<char> },
    Readme { prefix: Seq<char> },
    Show { id: u64, mime: Seq<char>, file_name: Option<Seq<char>>, data: Seq<char> },
}

impl View for Page {
    type V = PageView;

    open spec fn view(&self) -> PageView {
        match self {
            Page::Upload => PageView::Upload,
            Page::PasteScript { prefix } => PageView::PasteScript { prefix: prefix@ },
            Page::Readme { prefix } => PageView::Readme { prefix: prefix@ },
            Page::Show { id, mime, file_name, data } => PageView::Show {
                id: *id,
                mime: mime@,
                file_name: match file_name {
                    Some(name) => Some(name@),
                    None => None,
                },
                data: data@,
            },
        }
    }
}

impl Page {
    /// The name of the template that renders the page.
    pub fn template_name(&self) -> (name: &'static str)
        ensures
            name@ == match self@ {
                PageView::Upload => "upload.html"@,
                PageView::PasteScript { .. } => "paste.sh"@,
                PageView::Readme { .. } => "readme.html"@,
                PageView::Show { .. } => "show.html"@,
            },
    {
        match self {
            Page::Upload => "upload.html",
            Page::PasteScript { .. } => "paste.sh",
            Page::Readme { .. } => "readme.html",
            Page::Show { .. } => "show.html",
        }
    }

    /// The content type of the rendered page: plain text for the script,
    /// HTML for the rest.
    pub fn content_type(&self) -> (ct: ContentType)
        ensures
            ct@ == match self@ {
                PageView::PasteScript { .. } => "text/plain; charset=utf-8"@,
                _ => "text/html; charset=utf-8"@,
            },
    {
        match self {
            Page::PasteScript { .. } => ContentType::plaintext(),
            _ => ContentType::html(),
        }
    }
}

/// The answer to a request that was served.
#[derive(Debug, Clone, PartialEq, Eq)]
pub enum Response {
    /// A rendered page.
    Page(Page),
    /// The bytes of a paste.
    Paste { content_type: ContentType, data: Vec<u8> },
    /// The static asset of this name.
    StaticFile(String),
    /// A permanent redirect to this address.
    Redirect(String),
    /// The address of the paste that was stored.
    Created(String),
    /// Nothing, after a paste was removed.
    Removed,
    /// Nothing: the method is not served.
    MethodNotAllowed,
}

/// What a response holds.
pub enum ResponseView {
    Page(PageView),
    Paste { content_type: Seq<char>, data: Seq<u8> },
    StaticFile(Seq<char>),
    Redirect(Seq<char>),
    Created(Seq<char>),
    Removed,
    MethodNotAllowed,
}

impl View for Response {
    type V = ResponseView;

    open spec fn view(&self) -> ResponseView {
        match self {
            Response::Page(page) => ResponseView::Page(page@),
            Response::Paste { content_type, data } => ResponseView::Paste {
                content_type: content_type@,
                data: data@,
            },
            Response::StaticFile(name) => ResponseView::StaticFile(name@),
            Response::Redirect(location) => ResponseView::Redirect(location@),
            Response::Created(body) => ResponseView::Created(body@),
            Response::Removed => ResponseView::Removed,
            Response::MethodNotAllowed => ResponseView::MethodNotAllowed,
        }
    }
}

impl ResponseView {
    /// The status of the response.
    pub open spec fn status(self) -> Status {
        match self {
            ResponseView::Redirect(_) => Status::MovedPermanently,
            ResponseView::Created(_) => Status::Created,
            ResponseView::MethodNotAllowed => Status::MethodNotAllowed,
            _ => Status::Okay,
        }
    }
}

impl Response {
    /// The status of the response.
    pub fn status(&self) -> (status: Status)
        ensures
            status == self@.status(),
    {
        match self {
            Response::Redirect(_) => Status::MovedPermanently,
            Response::Created(_) => Status::Created,
            Response::MethodNotAllowed => Status::MethodNotAllowed,
            _ => Status::Okay,
        }
    }
}

/// How a request ended: with a response, or with an error.
pub type Outcome<E> = Result<Response, Error<E>>;

/// What the end of a request holds.
pub open spec fn outcome_view<E>(outcome: Outcome<E>) -> Result<ResponseView, Error<E>> {
    match outcome {
        Ok(response) => Ok(response@),
        Err(e) => Err(e),
    }
}

/// The status with which a request ended.
pub open spec fn outcome_status<E>(outcome: Result<ResponseView, Error<E>>) -> Status {
    match outcome {
        Ok(response) => response.status(),
        Err(e) => e.spec_status(),
    }
}

/// The status with which a request ended.
pub fn status_of<E>(outcome: &Outcome<E>) -> (status: Status)
    ensures
        status == outcome_status(outcome_view(*outcome)),
{
    match outcome {
        Ok(response) => response.status(),
        Err(e) => e.status(),
    }
}

} // verus!
