//! What is sent back to the client: a status, an optional `Location` and a
//! body. The caller turns a `Response` into the reply of its HTTP framework.

use crate::error::{message_text, ServiceError};
use crate::token::{hyphenated, Token};
use vstd::prelude::*;
use vstd::string::StringExecFns;

verus! {

/// The body of a reply.
#[derive(Debug, PartialEq, Eq)]
pub enum Body {
    Empty,
    Text(String),
    Bytes(Vec<u8>),
}

pub enum BodyView {
    Empty,
    Text(Seq<char>),
    Bytes(Seq<u8>),
}

impl View for Body {
    type V = BodyView;

    open spec fn view(&self) -> BodyView {
        match self {
            Body::Empty => BodyView::Empty,
            Body::Text(text) => BodyView::Text(text@),
            Body::Bytes(bytes) => BodyView::Bytes(bytes@),
        }
    }
}

/// A reply to the client.
#[derive(Debug, PartialEq, Eq)]
pub struct Response {
    pub status: u16,
    pub location: Option<String>,
    pub body: Body,
}

pub struct ResponseView {
    pub status: u16,
    pub location: Option<Seq<char>>,
    pub body: BodyView,
}

/// The characters of an optional text.
pub open spec fn text_view(text: Option<String>) -> Option<Seq<char>> {
    match text {
        Some(t) => Some(t@),
        None => None,
    }
}

impl View for Response {
    type V = ResponseView;

    open spec fn view(&self) -> ResponseView {
        ResponseView {
            status: self.status,
            location: text_view(self.location),
            body: self.body@,
        }
    }
}

/// Which status tells the client that no blob is stored under a token.
#[derive(Clone, Copy, PartialEq, Eq, Structural, Debug)]
pub enum Missing {
    /// 400, as for every other failure.
    AsBadRequest,
    /// 404.
    AsNotFound,
}

/// How a successful upload is answered.
#[derive(Debug)]
pub enum UploadStyle {
    /// 201 with the `Location` of the stored blob.
    Rest,
    /// A redirect to a confirmation page, for uploads from a browser form.
    BrowserForm(String),
}

pub enum UploadStyleView {
    Rest,
    BrowserForm(Seq<char>),
}

impl View for UploadStyle {
    type V = UploadStyleView;

    open spec fn view(&self) -> UploadStyleView {
        match self {
            UploadStyle::Rest => UploadStyleView::Rest,
            UploadStyle::BrowserForm(page) => UploadStyleView::BrowserForm(page@),
        }
    }
}

/// The choices that the service's operator makes.
#[derive(Debug)]
pub struct Config {
    pub missing: Missing,
    pub style: UploadStyle,
}

pub struct ConfigView {
    pub missing: Missing,
    pub style: UploadStyleView,
}

impl View for Config {
    type V = ConfigView;

    open spec fn view(&self) -> ConfigView {
        ConfigView { missing: self.missing, style: self.style@ }
    }
}

/// The status sent for the failure `e`: always a client error.
pub open spec fn error_status(e: ServiceError, missing: Missing) -> u16 {
    if e == ServiceError::NotFound && missing == Missing::AsNotFound {
        404
    } else {
        400
    }
}

/// The reply that reports the failure `e`.
pub open spec fn error_reply(e: ServiceError, missing: Missing) -> ResponseView {
    ResponseView {
        status: error_status(e, missing),
        location: None,
        body: BodyView::Text(message_text(e)),
    }
}

/// The reply of the greeting endpoint.
pub open spec fn greeting_reply(name: Seq<char>) -> ResponseView {
    ResponseView { status: 200, location: None, body: BodyView::Text("Hello, "@ + name + "!"@) }
}

/// The reply that carries a blob.
pub open spec fn blob_reply(bytes: Seq<u8>) -> ResponseView {
    ResponseView { status: 200, location: None, body: BodyView::Bytes(bytes) }
}

/// The reply to a deletion that was carried out.
pub open spec fn deleted_reply() -> ResponseView {
    ResponseView { status: 204, location: None, body: BodyView::Empty }
}

/// The path under which the blob `token` is retrieved.
pub open spec fn retrieval_path(token: Token) -> Seq<char> {
    "/api/upload/"@ + hyphenated(token.value)
}

/// The reply to an upload that was stored under `token`.
pub open spec fn stored_reply(token: Token, style: UploadStyleView) -> ResponseView {
    match style {
        UploadStyleView::Rest => ResponseView {
            status: 201,
            location: Some(retrieval_path(token)),
            body: BodyView::Text("Uploaded to "@ + retrieval_path(token)),
        },
        UploadStyleView::BrowserForm(page) => ResponseView {
            status: 303,
            location: Some(page),
            body: BodyView::Empty,
        },
    }
}

impl Response {
    /// The reply that reports the failure `e`.
    pub fn failure(e: ServiceError, missing: Missing) -> (r: Response)
        ensures
            r@ == error_reply(e, missing),
    {
        let status: u16 = match (e, missing) {
            (ServiceError::NotFound, Missing::AsNotFound) => 404,
            _ => 400,
        };
        Response { status, location: None, body: Body::Text(e.message()) }
    }

    /// The reply that carries the blob `bytes`.
    pub fn blob(bytes: Vec<u8>) -> (r: Response)
        ensures
            r@ == blob_reply(bytes@),
    {
        Response { status: 200, location: None, body: Body::Bytes(bytes) }
    }

    /// The reply to a deletion that was carried out.
    pub fn deleted() -> (r: Response)
        ensures
            r@ == deleted_reply(),
    {
        Response { status: 204, location: None, body: Body::Empty }
    }

    /// The reply to an upload that was stored under `token`.
    pub fn stored(token: Token, style: &UploadStyle) -> (r: Response)
        ensures
            r@ == stored_reply(token, style@),
    {
        match style {
            UploadStyle::Rest => {
                let mut path = String::from_str("/api/upload/");
                path.append(token.text().as_str());
                let mut text = String::from_str("Uploaded to ");
                text.append(path.as_str());
                Response { status: 201, location: Some(path), body: Body::Text(text) }
            },
            UploadStyle::BrowserForm(page) => {
                Response { status: 303, location: Some(page.clone()), body: Body::Empty }
            },
        }
    }
}

} // verus!
