//! The responses that need no file: a status, a content type and a short body.

use vstd::prelude::*;
use vstd::string::*;

verus! {

/// A response with a plain body. Whoever sends it turns it into the response
/// type of the server in use.
#[derive(Clone, Debug, PartialEq, Eq)]
pub struct PlainResponse {
    pub status: u16,
    pub content_type: Option<String>,
    pub body: String,
}

/// The mathematical content of a response.
pub struct ResponseModel {
    pub status: nat,
    pub content_type: Option<Seq<char>>,
    pub body: Seq<char>,
}

impl View for PlainResponse {
    type V = ResponseModel;

    open spec fn view(&self) -> ResponseModel {
        ResponseModel {
            status: self.status as nat,
            content_type: match self.content_type {
                Some(value) => Some(value@),
                None => None,
            },
            body: self.body@,
        }
    }
}

/// The number of `http::StatusCode::OK`, which the crate defines as 200.
/// Believed of the outside code, not proved.
#[verifier::external_body]
fn status_ok() -> (code: u16)
    ensures
        code == 200,
{
    http::StatusCode::OK.as_u16()
}

/// The number of `http::StatusCode::NOT_FOUND`, which the crate defines as
/// 404. Believed of the outside code, not proved.
#[verifier::external_body]
fn status_not_found() -> (code: u16)
    ensures
        code == 404,
{
    http::StatusCode::NOT_FOUND.as_u16()
}

/// The number of `http::StatusCode::INTERNAL_SERVER_ERROR`, which the crate
/// defines as 500. Believed of the outside code, not proved.
#[verifier::external_body]
fn status_internal_server_error() -> (code: u16)
    ensures
        code == 500,
{
    http::StatusCode::INTERNAL_SERVER_ERROR.as_u16()
}

/// The text of `mime::TEXT_PLAIN_UTF_8`: the crate defines the constant from
/// this very string and prints it unchanged. Believed of the outside code, not
/// proved.
#[verifier::external_body]
fn text_plain_utf_8() -> (name: String)
    ensures
        name@ == "text/plain; charset=utf-8"@,
{
    mime::TEXT_PLAIN_UTF_8.to_string()
}

/// What a plain-text response with `status` looks like: the body `not found`,
/// declared as UTF-8 text.
pub open spec fn plain_text(status: nat) -> ResponseModel {
    ResponseModel {
        status,
        content_type: Some("text/plain; charset=utf-8"@),
        body: "not found"@,
    }
}

/// The response for a path that is not served: 404 with a short text.
pub fn not_found_response() -> (response: PlainResponse)
    ensures
        response@ == plain_text(404),
{
    PlainResponse {
        status: status_not_found(),
        content_type: Some(text_plain_utf_8()),
        body: "not found".to_owned(),
    }
}

/// The response for a file whose size cannot be read: 500, with the same
/// short text as a 404 so that it tells nothing about the file.
pub fn server_error_response() -> (response: PlainResponse)
    ensures
        response@ == plain_text(500),
{
    PlainResponse {
        status: status_internal_server_error(),
        content_type: Some(text_plain_utf_8()),
        body: "not found".to_owned(),
    }
}

/// A 404 without body or content type.
pub fn empty_not_found() -> (response: PlainResponse)
    ensures
        response@ == (ResponseModel { status: 404, content_type: None, body: Seq::empty() }),
{
    PlainResponse { status: status_not_found(), content_type: None, body: String::new() }
}

/// The head of a successful response: 200 with the given content type. The
/// body is the file, which the sender attaches.
pub fn file_found(content_type: String) -> (response: PlainResponse)
    ensures
        response@ == (ResponseModel {
            status: 200,
            content_type: Some(content_type@),
            body: Seq::empty(),
        }),
{
    PlainResponse { status: status_ok(), content_type: Some(content_type), body: String::new() }
}

} // verus!
