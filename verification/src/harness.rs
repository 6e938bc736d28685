//! Requests in the shape a webview delivers them, for tests.
//!
//! The shape is a measured fact rather than a convention: a form post arrives
//! with an `Origin` and a `Referer`, and with no `Host` and no `Cookie`.

use crate::headers;
use crate::message::{Request, Response};
use crate::plugin::DEFAULT_SCHEME;
use crate::text;
use crate::uri;
use crate::uri::Uri;
use vstd::prelude::*;
use vstd::utf8::*;

verus! {

/// The host every window here is on, which the plugin serves under.
pub const HOST: &'static str = "localhost";

/// The content type of a form post.
pub const FORM: &'static str = "application/x-www-form-urlencoded";

/// The target of a window on the default scheme that asks for a path, if that
/// is a path a window could ask for.
pub open spec fn window_target(path: Seq<char>) -> Option<
    (Option<Seq<char>>, Option<Seq<char>>, Option<Seq<char>>),
> {
    uri::http_built(DEFAULT_SCHEME@, HOST@, path)
}

/// Whether a path is plain enough that a window's target is known to be made of
/// it.
pub open spec fn plain_path(path: Seq<char>) -> bool {
    uri::plain_target(path) && path.len() <= 65534
}

/// Where a window on the default scheme asks from, or nothing if `path` is not
/// a path a window could ask for.
pub fn url(path: &str) -> (target: Option<Uri>)
    ensures
        uri::parts(target) == window_target(path@),
        plain_path(path@) ==> uri::parts(target) == Some(
            uri::made_of(DEFAULT_SCHEME@, HOST@, path@),
        ),
{
    proof {
        reveal_strlit("topcoat");
        reveal_strlit("localhost");
    }
    Uri::build(DEFAULT_SCHEME, HOST, path)
}

/// The origin such a window names itself by, as an `Origin` header spells one.
pub fn origin() -> (origin: String)
    ensures
        origin@ == DEFAULT_SCHEME@ + "://"@ + HOST@,
{
    let mut origin = DEFAULT_SCHEME.to_owned();
    origin.append("://");
    origin.append(HOST);
    origin
}

/// Whether a request is a `GET` of a target as a window makes it.
pub open spec fn is_get(
    request: Request<Vec<u8>>,
    target: (Option<Seq<char>>, Option<Seq<char>>, Option<Seq<char>>),
) -> bool {
    &&& request.method@ == "GET"@
    &&& request.uri@ == target
    &&& headers::fields(request.headers) == headers::no_fields()
    &&& request.webview is None
    &&& request.body@.len() == 0
}

/// A `GET` of a target, as a window makes it.
pub fn get_of(target: Uri) -> (request: Request<Vec<u8>>)
    ensures
        is_get(request, target@),
{
    Request {
        method: "GET".to_owned(),
        uri: target,
        headers: headers::empty(),
        webview: None,
        body: Vec::new(),
    }
}

/// A `GET` as a window makes it, or nothing if `path` is not a path.
pub fn get_request(path: &str) -> (request: Option<Request<Vec<u8>>>)
    ensures
        match request {
            Some(request) => window_target(path@) is Some && is_get(
                request,
                window_target(path@)->0,
            ),
            None => window_target(path@) is None,
        },
        plain_path(path@) ==> request is Some && request->0.uri@ == uri::made_of(
            DEFAULT_SCHEME@,
            HOST@,
            path@,
        ),
{
    match url(path) {
        Some(target) => Some(get_of(target)),
        None => None,
    }
}

/// The fields of a form post: what it is, and where it comes from.
pub open spec fn form_fields() -> Map<Seq<char>, Seq<Seq<u8>>> {
    headers::no_fields().insert(headers::CONTENT_TYPE@, seq![encode_utf8(FORM@)]).insert(
        headers::ORIGIN@,
        seq![encode_utf8(DEFAULT_SCHEME@ + "://"@ + HOST@)],
    ).insert(headers::REFERER@, seq![encode_utf8(DEFAULT_SCHEME@ + "://"@ + HOST@ + "/"@)])
}

/// Whether a request is a form post to a target as a window makes it.
pub open spec fn is_submit(
    request: Request<Vec<u8>>,
    target: (Option<Seq<char>>, Option<Seq<char>>, Option<Seq<char>>),
    body: Seq<char>,
) -> bool {
    &&& request.method@ == "POST"@
    &&& request.uri@ == target
    &&& headers::fields(request.headers) == form_fields()
    &&& request.webview is None
    &&& request.body@ == encode_utf8(body)
}

/// A form post to a target, as a window makes it.
///
/// `body` is urlencoded, as a `<form method="post">` sends it.
pub fn submit_of(target: Uri, body: &str) -> (request: Request<Vec<u8>>)
    ensures
        is_submit(request, target@, body@),
{
    proof {
        headers::lemma_names();
        reveal_strlit("application/x-www-form-urlencoded");
        reveal_strlit("topcoat");
        reveal_strlit("://");
        reveal_strlit("localhost");
        reveal_strlit("/");
        headers::lemma_printable(FORM@);
        headers::lemma_printable(DEFAULT_SCHEME@ + "://"@ + HOST@);
        headers::lemma_printable(DEFAULT_SCHEME@ + "://"@ + HOST@ + "/"@);
        let none = headers::no_fields();
        assert(none.dom() =~= Set::<Seq<char>>::empty());
        let one = none.insert(headers::CONTENT_TYPE@, seq![encode_utf8(FORM@)]);
        assert(one.dom() =~= none.dom().insert(headers::CONTENT_TYPE@));
        let two = one.insert(
            headers::ORIGIN@,
            seq![encode_utf8(DEFAULT_SCHEME@ + "://"@ + HOST@)],
        );
        assert(two.dom() =~= one.dom().insert(headers::ORIGIN@));
    }
    let mut map = headers::empty();
    headers::insert(&mut map, headers::CONTENT_TYPE, FORM.as_bytes());
    let own = origin();
    headers::insert(&mut map, headers::ORIGIN, own.as_str().as_bytes());
    let mut page = origin();
    page.append("/");
    headers::insert(&mut map, headers::REFERER, page.as_str().as_bytes());
    Request {
        method: "POST".to_owned(),
        uri: target,
        headers: map,
        webview: None,
        body: body.as_bytes_vec(),
    }
}

/// A form post as a window makes it, or nothing if `path` is not a path.
///
/// `body` is urlencoded, as a `<form method="post">` sends it.
pub fn submit_request(path: &str, body: &str) -> (request: Option<Request<Vec<u8>>>)
    ensures
        match request {
            Some(request) => window_target(path@) is Some && is_submit(
                request,
                window_target(path@)->0,
                body@,
            ),
            None => window_target(path@) is None,
        },
        plain_path(path@) ==> request is Some && request->0.uri@ == uri::made_of(
            DEFAULT_SCHEME@,
            HOST@,
            path@,
        ),
{
    match url(path) {
        Some(target) => Some(submit_of(target, body)),
        None => None,
    }
}

/// The status and body of a response.
pub fn read(response: &Response<Vec<u8>>) -> (result: (u16, String))
    ensures
        result.0 == response.status,
        result.1@ == text::utf8_lossy(response.body@),
        text::keeps_text(response.body@),
{
    (response.status, text::lossy(response.body.as_slice()))
}

/// A form post comes with what it is, where it comes from and the page it was
/// on, and with nothing else: no `Host`, no `Cookie`.
pub proof fn law_a_form_post_comes_from_a_window(
    request: Request<Vec<u8>>,
    target: (Option<Seq<char>>, Option<Seq<char>>, Option<Seq<char>>),
    body: Seq<char>,
    name: Seq<char>,
)
    requires
        is_submit(request, target, body),
    ensures
        request.method@ == "POST"@,
        request.uri@ == target,
        request.webview is None,
        request.body@ == encode_utf8(body),
        ({
            let fields = headers::fields(request.headers);
            &&& fields.contains_key(name) <==> name == "content-type"@ || name == "origin"@ || name
                == "referer"@
            &&& fields["content-type"@] == seq![encode_utf8("application/x-www-form-urlencoded"@)]
            &&& fields["origin"@] == seq![encode_utf8("topcoat://localhost"@)]
            &&& fields["referer"@] == seq![encode_utf8("topcoat://localhost/"@)]
        }),
{
    reveal_strlit("content-type");
    reveal_strlit("origin");
    reveal_strlit("referer");
    reveal_strlit("topcoat");
    reveal_strlit("://");
    reveal_strlit("localhost");
    reveal_strlit("/");
    reveal_strlit("topcoat://localhost");
    reveal_strlit("topcoat://localhost/");
    assert("topcoat"@ + "://"@ + "localhost"@ =~= "topcoat://localhost"@);
    assert("topcoat"@ + "://"@ + "localhost"@ + "/"@ =~= "topcoat://localhost/"@);
    assert("content-type"@.len() == 12 && "origin"@.len() == 6 && "referer"@.len() == 7);
}

/// A window gets a page with no header and no body at all.
pub proof fn law_a_get_says_nothing_of_itself(
    request: Request<Vec<u8>>,
    target: (Option<Seq<char>>, Option<Seq<char>>, Option<Seq<char>>),
    name: Seq<char>,
)
    requires
        is_get(request, target),
    ensures
        request.method@ == "GET"@,
        request.uri@ == target,
        request.webview is None,
        request.body@.len() == 0,
        !headers::fields(request.headers).contains_key(name),
{
}

/// What a window asks for is on its own scheme and host.
pub proof fn law_a_window_asks_its_own_host(path: Seq<char>)
    ensures
        window_target(path) == uri::http_built("topcoat"@, "localhost"@, path),
{
}

} // verus!
