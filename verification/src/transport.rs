//! Requests and responses.

use reqwest::{Error as ReqwestError, RequestBuilder, Response};
use vstd::prelude::*;

verus! {

/// Declares `reqwest::RequestBuilder`. Nothing is claimed of it.
#[verifier::external_type_specification]
#[verifier::external_body]
pub struct ExRequestBuilder(RequestBuilder);

/// Declares `reqwest::Response`. Nothing is claimed of it.
#[verifier::external_type_specification]
#[verifier::external_body]
pub struct ExResponse(Response);

/// Declares `reqwest::Error`. Nothing is claimed of it.
#[verifier::external_type_specification]
#[verifier::external_body]
pub struct ExReqwestError(ReqwestError);

/// What `RequestBuilder::try_clone` makes of a request.
pub uninterp spec fn request_clone(req: RequestBuilder) -> Option<RequestBuilder>;

/// The number of the status code that `Response::status` returns.
pub uninterp spec fn response_status(response: Response) -> u16;

/// The bytes of the first value that `HeaderMap::get` finds in the headers of a
/// response.
pub uninterp spec fn response_header(response: Response, name: Seq<char>) -> Option<Seq<u8>>;

/// Calls `RequestBuilder::try_clone`. Whether there is a clone depends on the
/// request alone. That it asks for the same as the request is not stated.
#[verifier::external_body]
pub(crate) fn try_clone_request(req: &RequestBuilder) -> (clone: Option<RequestBuilder>)
    ensures
        clone == request_clone(*req),
{
    req.try_clone()
}

/// Calls `Response::status`, and returns the code as a number.
#[verifier::external_body]
pub(crate) fn status_of(response: &Response) -> (status: u16)
    ensures
        status == response_status(*response),
{
    response.status().as_u16()
}

/// Calls `HeaderMap::get` on the headers of a response, and copies the bytes of
/// the value that it finds.
#[verifier::external_body]
pub(crate) fn header_of(response: &Response, name: &str) -> (value: Option<Vec<u8>>)
    ensures
        match value {
            Some(value) => response_header(*response, name@) == Some(value@),
            None => response_header(*response, name@) is None,
        },
{
    match response.headers().get(name) {
        Some(value) => Some(value.as_bytes().to_vec()),
        None => None,
    }
}

} // verus!
