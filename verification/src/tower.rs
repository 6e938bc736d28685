//! The rules as layers, so they stack in front of any service.
//!
//! [`Origins::accept`] and [`unsupported`] are the decisions; this module is
//! what a layer does with each. Outermost first, and it matters: the origin
//! rewrite runs before anything else, because every layer under it gets to
//! assume one canonical origin.

use crate::headers;
use crate::message::{Request, Response};
use crate::origin;
use crate::origin::{Denial, Origins, Outcome};
use crate::unsupported;
use crate::unsupported::Unsupported;
use vstd::prelude::*;
use vstd::utf8::*;

verus! {

/// The status of a request that named an origin this protocol does not serve.
pub const FORBIDDEN: u16 = 403;

/// The status of a response whose body could not be read.
pub const INTERNAL_SERVER_ERROR: u16 = 500;

/// The status of an answer that this transport cannot carry.
pub const BAD_GATEWAY: u16 = 502;

/// The status of a request that came before there was anything to serve it.
pub const SERVICE_UNAVAILABLE: u16 = 503;

/// The content type of every refusal.
pub const PLAIN_TEXT: &'static str = "text/plain; charset=utf-8";

/// How `http::StatusCode` writes a status: its number, and the reason phrase
/// it is known by.
pub uninterp spec fn status_text(status: u16) -> Seq<char>;

/// Writes a status with the `Display` of `http::StatusCode`. Of the statuses
/// that refusals have the contract says how they read; of any other, that it
/// reads as [`status_text`] names it.
#[verifier::external_body]
fn status_line(status: u16) -> (line: String)
    requires
        100 <= status <= 999,
    ensures
        line@ == status_text(status),
        status == FORBIDDEN ==> line@ == "403 Forbidden"@,
        status == INTERNAL_SERVER_ERROR ==> line@ == "500 Internal Server Error"@,
        status == BAD_GATEWAY ==> line@ == "502 Bad Gateway"@,
        status == SERVICE_UNAVAILABLE ==> line@ == "503 Service Unavailable"@,
{
    http::StatusCode::from_u16(status).expect("a status code").to_string()
}

/// Whether a response is plain text that says a status line and a reason, with
/// no header but its content type.
pub open spec fn says(
    response: Response<Vec<u8>>,
    status: u16,
    line: Seq<char>,
    reason: Seq<char>,
) -> bool {
    &&& response.status == status
    &&& response.body@ == encode_utf8(line + "\n\n"@ + reason + "\n"@)
    &&& headers::fields(response.headers) == headers::no_fields().insert(
        headers::CONTENT_TYPE@,
        seq![encode_utf8(PLAIN_TEXT@)],
    )
}

/// A response that is nothing but a status and the reason for it.
pub fn status_only(status: u16, reason: &str) -> (response: Response<Vec<u8>>)
    requires
        100 <= status <= 999,
    ensures
        says(response, status, status_text(status), reason@),
        status == FORBIDDEN ==> says(response, status, "403 Forbidden"@, reason@),
        status == INTERNAL_SERVER_ERROR ==> says(
            response,
            status,
            "500 Internal Server Error"@,
            reason@,
        ),
        status == BAD_GATEWAY ==> says(response, status, "502 Bad Gateway"@, reason@),
        status == SERVICE_UNAVAILABLE ==> says(
            response,
            status,
            "503 Service Unavailable"@,
            reason@,
        ),
{
    let line = status_line(status);
    with_line(status, line.as_str(), reason)
}

/// A response that is nothing but a status line and the reason for it.
pub fn with_line(status: u16, line: &str, reason: &str) -> (response: Response<Vec<u8>>)
    ensures
        says(response, status, line@, reason@),
{
    let mut body = line.to_owned();
    body.append("\n\n");
    body.append(reason);
    body.append("\n");
    let mut map = headers::empty();
    proof {
        headers::lemma_names();
        reveal_strlit("text/plain; charset=utf-8");
        headers::lemma_printable(PLAIN_TEXT@);
    }
    headers::insert(&mut map, headers::CONTENT_TYPE, PLAIN_TEXT.as_bytes());
    Response { status, headers: map, body: body.as_str().as_bytes_vec() }
}

/// A `403`: the request named an origin this protocol does not serve.
pub fn refused(denial: &Denial) -> (response: Response<Vec<u8>>)
    ensures
        says(response, FORBIDDEN, "403 Forbidden"@, origin::denial_text(*denial)),
{
    let reason = denial.message();
    status_only(FORBIDDEN, reason.as_str())
}

/// A `502`, because the server answered correctly and this transport is the
/// thing that cannot carry the answer. The body names the capability.
pub fn unsupported_response(report: &Unsupported) -> (response: Response<Vec<u8>>)
    ensures
        says(response, BAD_GATEWAY, "502 Bad Gateway"@, unsupported::unsupported_text(*report)),
        unsupported::keeps_value(*report),
{
    let reason = report.message();
    status_only(BAD_GATEWAY, reason.as_str())
}

/// Rewrites every request into the canonical origin, and refuses the ones that
/// name somebody else's.
#[derive(Debug)]
pub struct CanonicalOriginLayer {
    origins: Origins,
}

impl Clone for CanonicalOriginLayer {
    fn clone(&self) -> (copy: CanonicalOriginLayer)
        ensures
            copy.origins()@ == self.origins()@,
    {
        CanonicalOriginLayer { origins: self.origins.clone() }
    }
}

impl CanonicalOriginLayer {
    /// The origin pair the layer rewrites into.
    pub closed spec fn origins(self) -> Origins {
        self.origins
    }

    /// Rewrites into the origin pair `origins` describes.
    pub fn new(origins: Origins) -> (layer: CanonicalOriginLayer)
        ensures
            layer.origins() == origins,
    {
        CanonicalOriginLayer { origins }
    }

    /// Puts the layer around a service.
    pub fn layer<S>(&self, inner: S) -> (service: CanonicalOrigin<S>)
        ensures
            service.inner() == inner,
            service.origins()@ == self.origins()@,
    {
        CanonicalOrigin { inner, origins: self.origins.clone() }
    }
}

/// The service [`CanonicalOriginLayer`] produces.
#[derive(Debug)]
pub struct CanonicalOrigin<S> {
    inner: S,
    origins: Origins,
}

impl<S: Clone> Clone for CanonicalOrigin<S> {
    fn clone(&self) -> (copy: CanonicalOrigin<S>)
        ensures
            cloned(self.inner(), copy.inner()),
            copy.origins()@ == self.origins()@,
    {
        CanonicalOrigin { inner: self.inner.clone(), origins: self.origins.clone() }
    }
}

impl<S> CanonicalOrigin<S> {
    /// The service inside.
    pub closed spec fn inner(self) -> S {
        self.inner
    }

    /// The origin pair requests are rewritten into.
    pub closed spec fn origins(self) -> Origins {
        self.origins
    }

    /// The service inside, to be asked what was admitted.
    pub fn inner_mut(&mut self) -> (inner: &mut S)
        ensures
            *inner == old(self).inner(),
            final(self).inner() == *final(inner),
            final(self).origins() == old(self).origins(),
    {
        &mut self.inner
    }

    /// What becomes of a request: what to ask the service inside, or the
    /// refusal that answers without asking it.
    pub fn decide<B>(&self, request: Request<B>) -> (result: Result<
        Request<B>,
        Response<Vec<u8>>,
    >)
        requires
            origin::foreign(self.origins()@.1, request.uri@) || headers::roomy(
                headers::fields(request.headers).insert(headers::HOST@, seq![]),
            ),
        ensures
            decides(self.origins()@, request, result),
    {
        self.try_decide(request).unwrap()
    }

    /// As [`CanonicalOrigin::decide`], for a header map of any size: nothing if
    /// the map turned out too full to be rewritten.
    pub fn try_decide<B>(&self, request: Request<B>) -> (result: Option<
        Result<Request<B>, Response<Vec<u8>>>,
    >)
        ensures
            match result {
                Some(result) => decides(self.origins()@, request, result),
                None => !origin::foreign(self.origins()@.1, request.uri@) && !headers::roomy(
                    headers::fields(request.headers).insert(headers::HOST@, seq![]),
                ),
            },
    {
        match self.origins.try_accept(request) {
            Some(Outcome::Serve(served)) => Some(Ok(served.into_inner())),
            Some(Outcome::Deny(denial)) => Some(Err(refused(&denial))),
            None => None,
        }
    }
}

/// Whether a result is what becomes of a request: the request as it is admitted,
/// or a `403` that names the address it asked for.
pub open spec fn decides<B>(
    origins: ((Seq<char>, Seq<char>), (Seq<char>, Seq<char>)),
    request: Request<B>,
    result: Result<Request<B>, Response<Vec<u8>>>,
) -> bool {
    match result {
        Ok(served) => !origin::foreign(origins.1, request.uri@) && origin::admitted(
            origins,
            request,
            served,
        ) && origin::moves_own(
            origins,
            headers::fields(request.headers),
            headers::fields(served.headers),
        ),
        Err(response) => origin::foreign(origins.1, request.uri@) && exists|denial: Denial|
            #![trigger origin::refuses(denial, request.uri@)]
            origin::refuses(denial, request.uri@) && says(
                response,
                FORBIDDEN,
                "403 Forbidden"@,
                origin::denial_text(denial),
            ),
    }
}

/// Replaces a response this transport cannot carry with one that says so.
#[derive(Debug, Clone, Copy)]
pub struct RefuseUnsupportedLayer;

impl RefuseUnsupportedLayer {
    /// Refuses every capability [`Unsupported`] names.
    pub fn new() -> (layer: RefuseUnsupportedLayer)
        ensures
            layer == RefuseUnsupportedLayer,
    {
        RefuseUnsupportedLayer
    }

    /// Puts the layer around a service.
    pub fn layer<S>(&self, inner: S) -> (service: RefuseUnsupported<S>)
        ensures
            service.inner() == inner,
    {
        RefuseUnsupported { inner }
    }
}

impl Default for RefuseUnsupportedLayer {
    fn default() -> (layer: RefuseUnsupportedLayer)
        ensures
            layer == RefuseUnsupportedLayer,
    {
        RefuseUnsupportedLayer
    }
}

/// The service [`RefuseUnsupportedLayer`] produces.
#[derive(Debug)]
pub struct RefuseUnsupported<S> {
    inner: S,
}

impl<S: Clone> Clone for RefuseUnsupported<S> {
    fn clone(&self) -> (copy: RefuseUnsupported<S>)
        ensures
            cloned(self.inner(), copy.inner()),
    {
        RefuseUnsupported { inner: self.inner.clone() }
    }
}

impl<S> RefuseUnsupported<S> {
    /// The service inside.
    pub closed spec fn inner(self) -> S {
        self.inner
    }

    /// The service inside, to be asked.
    pub fn inner_mut(&mut self) -> (inner: &mut S)
        ensures
            *inner == old(self).inner(),
            final(self).inner() == *final(inner),
    {
        &mut self.inner
    }

    /// What becomes of the answer of the service inside: it is passed on as it
    /// is, or replaced by one that names what it used.
    pub fn carry<B>(&self, response: Response<B>) -> (result: Result<
        Response<B>,
        Response<Vec<u8>>,
    >)
        ensures
            match result {
                Ok(carried) => carried == response && unsupported::reported(
                    None,
                    response.status,
                    headers::fields(response.headers),
                ),
                Err(refusal) => exists|report: Unsupported|
                    unsupported::reported(
                        Some(report),
                        response.status,
                        headers::fields(response.headers),
                    ) && unsupported::keeps_value(report) && says(
                        refusal,
                        BAD_GATEWAY,
                        "502 Bad Gateway"@,
                        #[trigger] unsupported::unsupported_text(report),
                    ),
            },
    {
        match unsupported::unsupported(&response) {
            Some(report) => Err(unsupported_response(&report)),
            None => Ok(response),
        }
    }
}

/// What is said is plain text and nothing else: the status line, an empty line
/// and the reason, with a content type and no other header.
pub proof fn law_a_status_is_said_in_plain_text(
    response: Response<Vec<u8>>,
    status: u16,
    line: Seq<char>,
    reason: Seq<char>,
    name: Seq<char>,
)
    requires
        says(response, status, line, reason),
    ensures
        response.status == status,
        response.body@ == encode_utf8(line + "\n\n"@ + reason + "\n"@),
        headers::fields(response.headers).contains_key(name) <==> name == "content-type"@,
        headers::fields(response.headers)["content-type"@] == seq![
            encode_utf8("text/plain; charset=utf-8"@),
        ],
{
}

/// A request is passed on exactly if its address is not a stranger's, and a
/// stranger is answered with a `403` that says the address it asked for.
pub proof fn law_a_stranger_is_forbidden<B>(
    origins: ((Seq<char>, Seq<char>), (Seq<char>, Seq<char>)),
    request: Request<B>,
    result: Result<Request<B>, Response<Vec<u8>>>,
)
    requires
        decides(origins, request, result),
    ensures
        result is Err <==> origin::foreign(origins.1, request.uri@),
        result matches Ok(served) ==> origin::admitted(origins, request, served),
        result matches Err(response) ==> response.status == 403 && (request.uri@.0 matches Some(
            scheme,
        ) ==> response.body@ == encode_utf8(
            "403 Forbidden"@ + "\n\n"@ + ("`"@ + scheme + "://"@ + request.uri@.1->0
                + "` is not the origin this protocol serves"@) + "\n"@,
        )),
{
    if let Err(response) = result {
        let denial = choose|denial: Denial|
            #![trigger origin::refuses(denial, request.uri@)]
            origin::refuses(denial, request.uri@) && says(
                response,
                FORBIDDEN,
                "403 Forbidden"@,
                origin::denial_text(denial),
            );
        origin::law_a_refusal_says_the_address(denial, request.uri@);
    }
}

} // verus!
