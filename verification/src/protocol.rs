//! The protocol handler: one webview request, one router response.
//!
//! Every rule applied here is decided elsewhere. What is left is what a response
//! becomes once its body has been read, and what is said when there is nothing
//! to serve a request yet.

use crate::message::Response;
use crate::origin::Origins;
use crate::tower;
use crate::tower::status_only;
use vstd::prelude::*;

verus! {

/// Everything one protocol scheme needs to serve a router.
#[derive(Debug)]
pub struct Bridge<R> {
    origins: Origins,
    router: R,
}

impl<R> Bridge<R> {
    /// The router that is served.
    pub closed spec fn served(self) -> R {
        self.router
    }

    /// The origin pair it is served between.
    pub closed spec fn pair(self) -> Origins {
        self.origins
    }

    /// Serves `router` between the pair `origins`.
    pub fn new(origins: Origins, router: R) -> (bridge: Bridge<R>)
        ensures
            bridge.pair() == origins,
            bridge.served() == router,
    {
        Bridge { origins, router }
    }

    /// The origin pair the router is served between.
    pub fn origins(&self) -> (origins: &Origins)
        ensures
            *origins == self.pair(),
    {
        &self.origins
    }

    /// The router that is served.
    pub fn router(&self) -> (router: &R)
        ensures
            *router == self.served(),
    {
        &self.router
    }
}

/// Buffers the response for the webview, which has no way to stream one: the
/// head of the response with the body that was read, or a `500` if it could not
/// be.
pub fn deliver(head: Response<()>, body: Option<Vec<u8>>) -> (response: Response<Vec<u8>>)
    ensures
        match body {
            Some(body) => response.status == head.status && response.headers == head.headers
                && response.body == body,
            None => tower::says(
                response,
                tower::INTERNAL_SERVER_ERROR,
                "500 Internal Server Error"@,
                "the response body could not be read"@,
            ),
        },
{
    match body {
        Some(body) => Response { status: head.status, headers: head.headers, body },
        None => status_only(tower::INTERNAL_SERVER_ERROR, "the response body could not be read"),
    }
}

/// A request arrived before the plugin finished starting, which should not be
/// reachable: a webview has to exist to make one, and the plugin starts first.
pub fn unavailable() -> (response: Response<Vec<u8>>)
    ensures
        tower::says(
            response,
            tower::SERVICE_UNAVAILABLE,
            "503 Service Unavailable"@,
            "the topcoat plugin has not finished starting"@,
        ),
{
    status_only(tower::SERVICE_UNAVAILABLE, "the topcoat plugin has not finished starting")
}

} // verus!
