//! Requests and responses, as the rules read them.

use crate::uri::Uri;
use vstd::prelude::*;

verus! {

/// A request: what is asked, of which target, with which header fields.
#[derive(Debug)]
pub struct Request<B> {
    /// The method, such as `GET`.
    pub method: String,
    /// The target.
    pub uri: Uri,
    /// The header fields.
    pub headers: http::HeaderMap,
    /// The label of the webview that the request came from, once the protocol
    /// handler has named it. It has no form on the wire, so nothing inside a
    /// webview can supply one.
    pub webview: Option<String>,
    /// The body.
    pub body: B,
}

/// A response: how it went, with which header fields.
#[derive(Debug)]
pub struct Response<B> {
    /// The status code.
    pub status: u16,
    /// The header fields.
    pub headers: http::HeaderMap,
    /// The body.
    pub body: B,
}

} // verus!
