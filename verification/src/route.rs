//! The HTTP surface the page exercises.
//!
//! No route decides what a result means; each one records what it saw and the
//! meaning of that - including the meaning of never being asked at all - lives
//! in the probe table.

use crate::clock;
use crate::clock::{Clock, Clockwork};
use crate::headers;
use crate::message::{Request, Response};
use crate::report;
use crate::report::{Answer, Probe, Report, Sheet, Verdict};
use crate::text;
use crate::tower;
use crate::uri;
use crate::uri::Uri;
use vstd::prelude::*;
use vstd::utf8::*;

verus! {

/// The text of both halves of each pair.
pub open spec fn pair_texts(pairs: Seq<(String, String)>) -> Seq<(Seq<char>, Seq<char>)> {
    pairs.map_values(|pair: (String, String)| (pair.0@, pair.1@))
}

/// What `form_urlencoded::parse` reads bytes as: the decoded pairs of a query,
/// in their order.
pub uninterp spec fn form_pairs(bytes: Seq<u8>) -> Seq<(Seq<char>, Seq<char>)>;

/// Reads the pairs of a query with `form_urlencoded::parse`, as [`form_pairs`]
/// names them.
#[verifier::external_body]
fn parse_form(bytes: &[u8]) -> (pairs: Vec<(String, String)>)
    ensures
        pair_texts(pairs@) == form_pairs(bytes@),
{
    url::form_urlencoded::parse(bytes).into_owned().collect()
}

/// A query as decoded pairs. Of two pairs with one name, the last counts.
#[derive(Debug)]
pub struct Query {
    /// The pairs, in their order.
    pub pairs: Vec<(String, String)>,
}

impl View for Query {
    type V = Seq<(Seq<char>, Seq<char>)>;

    open spec fn view(&self) -> Seq<(Seq<char>, Seq<char>)> {
        pair_texts(self.pairs@)
    }
}

/// The value a query gives a name, if it gives it one.
pub open spec fn lookup(query: Seq<(Seq<char>, Seq<char>)>, name: Seq<char>) -> Option<Seq<char>>
    decreases query.len(),
{
    if query.len() == 0 {
        None
    } else if query.last().0 == name {
        Some(query.last().1)
    } else {
        lookup(query.drop_last(), name)
    }
}

/// The value a query gives a name, where absent and empty are the same answer.
pub open spec fn value_or_empty(
    query: Seq<(Seq<char>, Seq<char>)>,
    name: Seq<char>,
) -> Seq<char> {
    match lookup(query, name) {
        Some(value) => value,
        None => seq![],
    }
}

impl Query {
    /// The value the query gives a name, if it gives it one.
    pub fn get(&self, name: &str) -> (value: Option<&str>)
        ensures
            match value {
                Some(value) => lookup(self@, name@) == Some(value@),
                None => lookup(self@, name@) is None,
            },
    {
        let mut at: usize = self.pairs.len();
        proof {
            assert(self@.take(at as int) =~= self@);
        }
        while at > 0
            invariant
                at <= self.pairs@.len(),
                lookup(self@, name@) == lookup(self@.take(at as int), name@),
            decreases at,
        {
            at = at - 1;
            proof {
                assert(self@.take(at + 1).drop_last() =~= self@.take(at as int));
                assert(self@.take(at + 1).last() == self@[at as int]);
            }
            if text::same(self.pairs[at].0.as_str(), name) {
                return Some(self.pairs[at].1.as_str());
            }
        }
        None
    }
}

/// One query value.
///
/// Absent and empty are the same answer to every reader here.
pub fn param<'q>(query: &'q Query, name: &str) -> (value: &'q str)
    ensures
        value@ == value_or_empty(query@, name@),
{
    match query.get(name) {
        Some(value) => value,
        None => {
            proof {
                reveal_strlit("");
                assert(""@ =~= seq![]);
            }
            ""
        },
    }
}

/// The pairs of a target's query, of which there are none if it has none.
pub open spec fn query_pairs(
    target: (Option<Seq<char>>, Option<Seq<char>>, Option<Seq<char>>),
) -> Seq<(Seq<char>, Seq<char>)> {
    form_pairs(
        encode_utf8(
            match uri::target_query(target) {
                Some(query) => query,
                None => seq![],
            },
        ),
    )
}

/// The query of a target as decoded pairs.
pub fn query(target: &Uri) -> (query: Query)
    ensures
        query@ == query_pairs(target@),
{
    let text = match target.query() {
        Some(text) => text,
        None => {
            let empty = String::new();
            proof {
                assert(empty@ =~= seq![]);
            }
            empty
        },
    };
    Query { pairs: parse_form(text.as_str().as_bytes()) }
}

/// The status of an answer.
pub const OK: u16 = 200;

/// The status of an answer that sends the webview elsewhere.
pub const SEE_OTHER: u16 = 303;

/// The status of a body that could not be read.
pub const BAD_REQUEST: u16 = 400;

/// The status of a route that is not there.
pub const NOT_FOUND: u16 = 404;

/// The content type of values for the page.
pub const JSON: &'static str = "application/json";

/// The fields of an answer that carries a content type and nothing else.
pub open spec fn typed(content_type: Seq<char>) -> Map<Seq<char>, Seq<Seq<u8>>> {
    headers::no_fields().insert(headers::CONTENT_TYPE@, seq![encode_utf8(content_type)])
}

/// Whether a reply is a body with a content type and nothing else.
pub open spec fn is_served(
    reply: Response<Vec<u8>>,
    status: u16,
    body: Seq<u8>,
    content_type: Seq<char>,
) -> bool {
    &&& reply.status == status
    &&& reply.body@ == body
    &&& headers::fields(reply.headers) == typed(content_type)
}

/// Whether a reply is plain text.
pub open spec fn is_text(reply: Response<Vec<u8>>, said: Seq<char>) -> bool {
    is_served(reply, OK, encode_utf8(said), tower::PLAIN_TEXT@)
}

/// Whether a reply is that there is no such route.
pub open spec fn is_not_found(reply: Response<Vec<u8>>) -> bool {
    is_served(reply, NOT_FOUND, encode_utf8("no such route"@), tower::PLAIN_TEXT@)
}

/// Both content types are text that a header may hold.
proof fn lemma_types()
    ensures
        headers::valid_value(encode_utf8(tower::PLAIN_TEXT@)),
        headers::valid_value(encode_utf8(JSON@)),
{
    reveal_strlit("text/plain; charset=utf-8");
    reveal_strlit("application/json");
    headers::lemma_printable(tower::PLAIN_TEXT@);
    headers::lemma_printable(JSON@);
}

/// A body with a content type and nothing else.
fn served(body: Vec<u8>, content_type: &str) -> (reply: Response<Vec<u8>>)
    requires
        headers::valid_value(encode_utf8(content_type@)),
    ensures
        is_served(reply, OK, body@, content_type@),
{
    proof {
        headers::lemma_names();
    }
    let mut map = headers::empty();
    headers::insert(&mut map, headers::CONTENT_TYPE, content_type.as_bytes());
    Response { status: OK, headers: map, body }
}

/// Plain text.
pub fn text(body: &str) -> (reply: Response<Vec<u8>>)
    ensures
        is_text(reply, body@),
{
    proof {
        lemma_types();
    }
    served(body.as_bytes_vec(), tower::PLAIN_TEXT)
}

/// A value for the page, as the bytes it was written as, or an empty object if
/// it could not be.
pub fn json(body: Option<Vec<u8>>) -> (reply: Response<Vec<u8>>)
    ensures
        is_served(
            reply,
            OK,
            match body {
                Some(body) => body@,
                None => encode_utf8("{}"@),
            },
            JSON@,
        ),
{
    proof {
        lemma_types();
    }
    let body = match body {
        Some(body) => body,
        None => "{}".as_bytes_vec(),
    };
    served(body, JSON)
}

/// Plain text with a status that says no.
fn refuse(status: u16, body: &str) -> (reply: Response<Vec<u8>>)
    ensures
        is_served(reply, status, encode_utf8(body@), tower::PLAIN_TEXT@),
{
    let reply = text(body);
    Response { status, headers: reply.headers, body: reply.body }
}

/// There is no such route.
pub fn not_found() -> (reply: Response<Vec<u8>>)
    ensures
        is_not_found(reply),
{
    refuse(NOT_FOUND, "no such route")
}

/// A body this could not read.
pub fn unreadable() -> (reply: Response<Vec<u8>>)
    ensures
        is_served(reply, BAD_REQUEST, encode_utf8("unreadable"@), tower::PLAIN_TEXT@),
{
    refuse(BAD_REQUEST, "unreadable")
}

/// What is said of a body this could not read, out loud rather than left
/// `unknown`.
pub fn unreadable_warning(who: &str, error: &str) -> (warning: String)
    ensures
        warning@ == "[warning] "@ + who@ + " sent something this cannot read: "@ + error@,
{
    let mut warning = "[warning] ".to_owned();
    warning.append(who);
    warning.append(" sent something this cannot read: ");
    warning.append(error);
    warning
}

/// One file of the frontend that is embedded in the application.
#[derive(Debug)]
pub struct Asset {
    /// The file.
    pub bytes: Vec<u8>,
    /// The content type the build worked out for it.
    pub mime_type: String,
}

/// The fields a file is served with: its content type, where a header may hold
/// that.
pub open spec fn asset_fields(found: Option<Asset>) -> Map<Seq<char>, Seq<Seq<u8>>> {
    match found {
        Some(asset) => if headers::valid_value(encode_utf8(asset.mime_type@)) {
            typed(asset.mime_type@)
        } else {
            headers::no_fields()
        },
        None => typed(tower::PLAIN_TEXT@),
    }
}

/// Whether a reply is a file, or that there is none, with these fields.
pub open spec fn is_asset(
    reply: Response<Vec<u8>>,
    found: Option<Asset>,
    fields: Map<Seq<char>, Seq<Seq<u8>>>,
) -> bool {
    &&& reply.status == (if found is Some {
        OK
    } else {
        NOT_FOUND
    })
    &&& reply.body@ == (match found {
        Some(asset) => asset.bytes@,
        None => encode_utf8("no such route"@),
    })
    &&& headers::fields(reply.headers) == fields
}

/// Serves one file of the frontend, with its content type where a header may
/// hold that.
fn asset(found: Option<Asset>) -> (reply: Response<Vec<u8>>)
    ensures
        is_asset(reply, found, asset_fields(found)),
{
    match found {
        Some(asset) => {
            proof {
                headers::lemma_names();
            }
            let mut map = headers::empty();
            if headers::is_value(asset.mime_type.as_str().as_bytes()) {
                headers::insert(
                    &mut map,
                    headers::CONTENT_TYPE,
                    asset.mime_type.as_str().as_bytes(),
                );
            }
            Response { status: OK, headers: map, body: asset.bytes }
        },
        None => not_found(),
    }
}

/// Fields with a policy on top, if there is one.
pub open spec fn policed_fields(
    fields: Map<Seq<char>, Seq<Seq<u8>>>,
    policy: Option<Seq<char>>,
) -> Map<Seq<char>, Seq<Seq<u8>>> {
    match policy {
        Some(policy) => fields.insert(
            headers::CONTENT_SECURITY_POLICY@,
            seq![encode_utf8(policy)],
        ),
        None => fields,
    }
}

/// The policy a document is served with, if any.
#[derive(Debug, Clone, Copy, PartialEq, Eq, Structural)]
pub enum Policy {
    /// None: the page frames a `data:` URL to get an opaque origin, and what
    /// the webview does is to be measured, not what a policy of ours does.
    Unpoliced,
    /// Strict enough that the document's own inline script is forbidden, which
    /// is what makes it measurable.
    Strict,
    /// This origin and nothing else, which is what an application that sets a
    /// policy at all would send.
    SelfOnly,
}

/// The policy in the words of its header.
pub open spec fn policy_text(policy: Policy) -> Option<Seq<char>> {
    match policy {
        Policy::Unpoliced => None,
        Policy::Strict => Some("default-src 'self'; script-src 'none'"@),
        Policy::SelfOnly => Some("default-src 'self'"@),
    }
}

/// Puts a policy on a reply.
fn police(reply: Response<Vec<u8>>, policy: &str) -> (policed: Response<Vec<u8>>)
    requires
        headers::printable(policy@),
        headers::fields(reply.headers).dom().finite(),
        headers::fields(reply.headers).dom().len() <= 1,
    ensures
        policed.status == reply.status,
        policed.body == reply.body,
        headers::fields(policed.headers) == headers::fields(reply.headers).insert(
            headers::CONTENT_SECURITY_POLICY@,
            seq![encode_utf8(policy@)],
        ),
{
    proof {
        headers::lemma_names();
        headers::lemma_printable(policy@);
    }
    let mut map = reply.headers;
    headers::insert(&mut map, headers::CONTENT_SECURITY_POLICY, policy.as_bytes());
    Response { status: reply.status, headers: map, body: reply.body }
}

/// A content type is one name.
proof fn lemma_typed(content_type: Seq<char>)
    ensures
        typed(content_type).dom().finite(),
        typed(content_type).dom().len() == 1,
{
    assert(typed(content_type).dom() =~= set![headers::CONTENT_TYPE@]);
}

/// Serves one file of the frontend, with a policy on top.
pub fn policed(found: Option<Asset>, policy: Policy) -> (reply: Response<Vec<u8>>)
    ensures
        is_asset(reply, found, policed_fields(asset_fields(found), policy_text(policy))),
{
    proof {
        reveal_strlit("default-src 'self'; script-src 'none'");
        reveal_strlit("default-src 'self'");
        lemma_typed(tower::PLAIN_TEXT@);
        if found is Some {
            lemma_typed(found->0.mime_type@);
        }
        assert(headers::no_fields().dom() =~= set![]);
    }
    let plain = asset(found);
    match policy {
        Policy::Unpoliced => plain,
        Policy::Strict => police(plain, "default-src 'self'; script-src 'none'"),
        Policy::SelfOnly => police(plain, "default-src 'self'"),
    }
}

/// What `GzEncoder` makes of bytes at its default level.
pub uninterp spec fn gzipped(bytes: Seq<u8>) -> Seq<u8>;

/// Compresses bytes with `GzEncoder` at its default level, writing to a `Vec`,
/// which cannot fail.
#[verifier::external_body]
fn compress(bytes: &[u8]) -> (compressed: Vec<u8>)
    ensures
        compressed@ == gzipped(bytes@),
{
    let mut encoder = flate2::write::GzEncoder::new(Vec::new(), flate2::Compression::default());
    std::io::Write::write_all(&mut encoder, bytes).expect("writing to a Vec cannot fail");
    encoder.finish().expect("writing to a Vec cannot fail")
}

/// Whether a reply is compressed text, and says so.
pub open spec fn is_gzip(reply: Response<Vec<u8>>, compressed: Seq<u8>) -> bool {
    &&& reply.status == OK
    &&& reply.body@ == compressed
    &&& headers::fields(reply.headers) == typed(tower::PLAIN_TEXT@).insert(
        headers::CONTENT_ENCODING@,
        seq![encode_utf8("gzip"@)],
    )
}

/// Text, compressed.
fn gzip(said: &str) -> (reply: Response<Vec<u8>>)
    ensures
        is_gzip(reply, gzipped(encode_utf8(said@))),
{
    serve_gzip(compress(said.as_bytes()))
}

/// Text that is compressed already, and is said to be.
pub fn serve_gzip(compressed: Vec<u8>) -> (reply: Response<Vec<u8>>)
    ensures
        is_gzip(reply, compressed@),
{
    proof {
        headers::lemma_names();
        lemma_types();
        lemma_typed(tower::PLAIN_TEXT@);
        reveal_strlit("gzip");
        headers::lemma_printable("gzip"@);
    }
    let plain = served(compressed, tower::PLAIN_TEXT);
    let mut map = plain.headers;
    headers::insert(&mut map, headers::CONTENT_ENCODING, "gzip".as_bytes());
    Response { status: plain.status, headers: map, body: plain.body }
}

/// What `form_urlencoded::Serializer` makes of pairs.
pub uninterp spec fn form_encoded(pairs: Seq<(Seq<char>, Seq<char>)>) -> Seq<char>;

/// Writes pairs with `form_urlencoded::Serializer`. What comes out is printable
/// ASCII, and `form_urlencoded::parse` reads the same pairs from it.
#[verifier::external_body]
fn encode_form(pairs: &Vec<(String, String)>) -> (encoded: String)
    ensures
        encoded@ == form_encoded(pair_texts(pairs@)),
        headers::printable(encoded@),
        form_pairs(encode_utf8(encoded@)) == pair_texts(pairs@),
{
    url::form_urlencoded::Serializer::new(String::new()).extend_pairs(pairs).finish()
}

/// Whether a reply sends the webview to a path with a query.
pub open spec fn is_redirect(
    reply: Response<Vec<u8>>,
    path: Seq<char>,
    encoded: Seq<char>,
) -> bool {
    &&& reply.status == SEE_OTHER
    &&& reply.body@.len() == 0
    &&& headers::fields(reply.headers) == headers::no_fields().insert(
        headers::LOCATION@,
        seq![encode_utf8(path + "?"@ + encoded)],
    )
}

/// Whether the pairs a redirect carries are printable ASCII as they are encoded,
/// and are read back where it leads.
pub open spec fn reads_back(pairs: Seq<(Seq<char>, Seq<char>)>) -> bool {
    headers::printable(form_encoded(pairs)) && form_pairs(encode_utf8(form_encoded(pairs))) == pairs
}

/// A `303` to `path`, with `pairs` encoded onto it.
fn see_other(path: &str, pairs: &Vec<(String, String)>) -> (reply: Response<Vec<u8>>)
    requires
        headers::printable(path@),
    ensures
        is_redirect(reply, path@, form_encoded(pair_texts(pairs@))),
        reads_back(pair_texts(pairs@)),
{
    let encoded = encode_form(pairs);
    redirect(path, encoded.as_str())
}

/// A `303` to `path`, with the query `encoded`.
pub fn redirect(path: &str, encoded: &str) -> (reply: Response<Vec<u8>>)
    requires
        headers::printable(path@),
        headers::printable(encoded@),
    ensures
        is_redirect(reply, path@, encoded@),
{
    proof {
        headers::lemma_names();
        reveal_strlit("?");
    }
    let mut location = path.to_owned();
    location.append("?");
    location.append(encoded);
    proof {
        assert(headers::printable(location@));
        headers::lemma_printable(location@);
    }
    let mut map = headers::empty();
    headers::insert(&mut map, headers::LOCATION, location.as_str().as_bytes());
    Response { status: SEE_OTHER, headers: map, body: Vec::new() }
}

/// The text of a header, unless it is absent, not text, or empty.
pub open spec fn present(
    fields: Map<Seq<char>, Seq<Seq<u8>>>,
    name: Seq<char>,
) -> Option<Seq<char>> {
    match headers::header_text(fields, name) {
        Some(text) => if text.len() == 0 {
            None
        } else {
            Some(text)
        },
        None => None,
    }
}

/// The text of a header, unless it is absent, not text, or empty.
fn value(request: &Request<Vec<u8>>, name: &str) -> (value: Option<String>)
    requires
        headers::lower_name(name@),
    ensures
        text::text_or_none(value) == present(headers::fields(request.headers), name@),
{
    let bytes = match headers::get(&request.headers, name) {
        Some(bytes) => bytes,
        None => return None,
    };
    match headers::visible_text(bytes.as_slice()) {
        Some(text) => if text.as_str().is_empty() {
            None
        } else {
            Some(text)
        },
        None => None,
    }
}

/// What `url::Url` finds the scheme of a text to be, or the words in which it
/// says that the text is not a URL.
pub uninterp spec fn url_scheme(text: Seq<char>) -> Result<Seq<char>, Seq<char>>;

/// The text of either half of a result.
pub open spec fn either_text(result: Result<String, String>) -> Result<Seq<char>, Seq<char>> {
    match result {
        Ok(text) => Ok(text@),
        Err(text) => Err(text@),
    }
}

/// Reads a text with `url::Url::parse`, and takes the scheme of what it read or
/// the `Display` of the error, as [`url_scheme`] names them.
#[verifier::external_body]
fn parse_scheme(text: &str) -> (result: Result<String, String>)
    ensures
        either_text(result) == url_scheme(text@),
{
    match url::Url::parse(text) {
        Ok(url) => Ok(url.scheme().to_owned()),
        Err(error) => Err(error.to_string()),
    }
}

/// What is said of a URL: its scheme, or why it is none.
pub open spec fn scheme_text(result: Result<Seq<char>, Seq<char>>) -> Seq<char> {
    match result {
        Ok(scheme) => scheme,
        Err(error) => "not a URL: "@ + error,
    }
}

/// What is said of a URL, given what was found of it: its scheme, or why it is
/// none.
pub fn describe_scheme(result: Result<String, String>) -> (said: String)
    ensures
        said@ == scheme_text(either_text(result)),
{
    match result {
        Ok(scheme) => scheme,
        Err(error) => {
            let mut said = "not a URL: ".to_owned();
            said.append(error.as_str());
            said
        },
    }
}

/// The scheme a URL names.
///
/// A `data:` referer is an entire document, and the only part of it that says
/// anything is the scheme, which is the part that is not ours.
pub fn scheme(url: &str) -> (said: String)
    ensures
        said@ == scheme_text(url_scheme(url@)),
{
    describe_scheme(parse_scheme(url))
}

/// Whether a text lists the names of the headers, in order.
pub open spec fn lists_names(said: Seq<char>, fields: Map<Seq<char>, Seq<Seq<u8>>>) -> bool {
    exists|names: Seq<Seq<char>>|
        text::ascending(names) && names.to_set() == fields.dom() && said == #[trigger] text::joined(
            names,
            ", "@,
        )
}

/// The names of every header the request carried.
///
/// Names, not values: which headers a webview attaches is the question, and the
/// handful of values that matter have probes of their own.
pub fn header_names(request: &Request<Vec<u8>>) -> (said: String)
    ensures
        lists_names(said@, headers::fields(request.headers)),
{
    let names = headers::names(&request.headers);
    proof {
        assert(text::texts(names@).to_set() =~= headers::fields(request.headers).dom());
    }
    let sorted = text::sort(names);
    text::join(&sorted, ", ")
}

/// What a request asks for.
#[derive(Debug, Clone, Copy, PartialEq, Eq, Structural)]
pub enum Route {
    /// One of the documents that try to reach native commands, or what it
    /// found.
    Ipc,
    /// The document the window opens on.
    Index,
    /// A document that needs a policy attached.
    Csp,
    /// The plaintext the page picked, compressed.
    Gzip,
    /// What a fetch posted, back again.
    Echo,
    /// Cookies of every shape a session store emits.
    CookiesSet,
    /// The cookies that came back.
    CookiesEcho,
    /// A redirect, for a fetch or a navigation to follow.
    Redirect,
    /// Where the redirect leads.
    Landed,
    /// What a form posted.
    Form,
    /// A foreign document ran.
    ForeignLoaded,
    /// A foreign document posted.
    Foreign,
    /// A request with a range.
    Range,
    /// The document with a policy rendered.
    CspRendered,
    /// The script that the policy blocks ran.
    CspScript,
    /// The clock in the page header.
    Clock,
    /// The report.
    Report,
    /// The answers the page reached for itself.
    Answers,
    /// The page has stopped learning things.
    Done,
    /// A file of the frontend, by its own path.
    File,
    /// Nothing there is.
    Nothing,
}

/// Where the documents that try to reach native commands live. Everything under
/// it names the probe it is answering as its next path segment.
pub const IPC: &'static str = "/ipc/";

/// The document the window opens on.
pub const INDEX: &'static str = "/index.html";

/// What a method and a path ask for.
pub open spec fn asked(method: Seq<char>, path: Seq<char>) -> Route {
    let get = method == "GET"@;
    let post = method == "POST"@;
    if text::after_prefix(path, IPC@) is Some {
        Route::Ipc
    } else if get && path == "/"@ {
        Route::Index
    } else if get && path == "/csp"@ {
        Route::Csp
    } else if get && path == "/gzip"@ {
        Route::Gzip
    } else if post && path == "/echo"@ {
        Route::Echo
    } else if get && path == "/cookies/set"@ {
        Route::CookiesSet
    } else if get && path == "/cookies/echo"@ {
        Route::CookiesEcho
    } else if get && path == "/redirect/303"@ {
        Route::Redirect
    } else if get && path == "/redirect/landed"@ {
        Route::Landed
    } else if post && path == "/form"@ {
        Route::Form
    } else if get && path == "/foreign/loaded"@ {
        Route::ForeignLoaded
    } else if post && path == "/foreign"@ {
        Route::Foreign
    } else if get && path == "/range"@ {
        Route::Range
    } else if get && path == "/csp/rendered"@ {
        Route::CspRendered
    } else if get && path == "/csp/script"@ {
        Route::CspScript
    } else if get && path == clock::CLOCK@ {
        Route::Clock
    } else if get && path == "/report"@ {
        Route::Report
    } else if post && path == "/answers"@ {
        Route::Answers
    } else if post && path == "/done"@ {
        Route::Done
    } else if get {
        Route::File
    } else {
        Route::Nothing
    }
}

/// What a method and a path ask for.
pub fn find_route(method: &str, path: &str) -> (route: Route)
    ensures
        route == asked(method@, path@),
{
    let get = text::same(method, "GET");
    let post = text::same(method, "POST");
    if text::strip_prefix(path, IPC).is_some() {
        Route::Ipc
    } else if get && text::same(path, "/") {
        Route::Index
    } else if get && text::same(path, "/csp") {
        Route::Csp
    } else if get && text::same(path, "/gzip") {
        Route::Gzip
    } else if post && text::same(path, "/echo") {
        Route::Echo
    } else if get && text::same(path, "/cookies/set") {
        Route::CookiesSet
    } else if get && text::same(path, "/cookies/echo") {
        Route::CookiesEcho
    } else if get && text::same(path, "/redirect/303") {
        Route::Redirect
    } else if get && text::same(path, "/redirect/landed") {
        Route::Landed
    } else if post && text::same(path, "/form") {
        Route::Form
    } else if get && text::same(path, "/foreign/loaded") {
        Route::ForeignLoaded
    } else if post && text::same(path, "/foreign") {
        Route::Foreign
    } else if get && text::same(path, "/range") {
        Route::Range
    } else if get && text::same(path, "/csp/rendered") {
        Route::CspRendered
    } else if get && text::same(path, "/csp/script") {
        Route::CspScript
    } else if get && text::same(path, clock::CLOCK) {
        Route::Clock
    } else if get && text::same(path, "/report") {
        Route::Report
    } else if post && text::same(path, "/answers") {
        Route::Answers
    } else if post && text::same(path, "/done") {
        Route::Done
    } else if get {
        Route::File
    } else {
        Route::Nothing
    }
}

/// Everything one run accumulates, shared by every request.
#[derive(Debug)]
pub struct Run {
    /// What the probe has learned.
    pub report: Report,
    /// What the clock remembers.
    pub clock: Clockwork,
}

/// What answers a request: a reply, or what to make one of.
#[derive(Debug)]
pub enum Action {
    /// The reply.
    Reply(Response<Vec<u8>>),
    /// A file of the frontend, to be found and handed to [`policed`].
    File {
        /// Its path.
        path: String,
        /// The policy it is served with.
        policy: Policy,
    },
    /// The clock, to be written for the page and handed to [`json`].
    Clock(Clock),
    /// The report, to be written for the page and handed to [`json`].
    Sheet(Sheet),
    /// The body holds answers, to be read and handed to [`answers`].
    Answers,
    /// The body holds the answer to a probe, to be read and handed to
    /// [`ipc_answer`].
    IpcAnswer(Probe),
    /// The run is over, and then the reply.
    Finish(Response<Vec<u8>>),
}

/// Cookies covering the shapes a session store emits.
pub open spec fn cookies() -> Seq<Seq<u8>> {
    seq![
        encode_utf8("probe_plain=1; Path=/"@),
        encode_utf8("probe_secure=1; Path=/; Secure"@),
        encode_utf8("__Host-probe=1; Path=/; Secure"@),
        encode_utf8("probe_lax=1; Path=/; SameSite=Lax"@),
    ]
}

/// Whether a reply sets the cookies.
pub open spec fn sets_cookies(reply: Response<Vec<u8>>) -> bool {
    &&& reply.status == OK
    &&& reply.body@ == encode_utf8("the cookies are set"@)
    &&& headers::fields(reply.headers) == typed(tower::PLAIN_TEXT@).insert(
        headers::SET_COOKIE@,
        cookies(),
    )
}

/// Puts one more cookie on a reply.
fn set_cookie(map: &mut http::HeaderMap, cookie: &str)
    requires
        headers::printable(cookie@),
        headers::roomy(headers::fields(*old(map))),
    ensures
        headers::fields(*final(map)) == headers::fields(*old(map)).insert(
            headers::SET_COOKIE@,
            (if headers::fields(*old(map)).contains_key(headers::SET_COOKIE@) {
                headers::fields(*old(map))[headers::SET_COOKIE@]
            } else {
                seq![]
            }).push(encode_utf8(cookie@)),
        ),
{
    proof {
        headers::lemma_names();
        headers::lemma_printable(cookie@);
        assert(Seq::<Seq<u8>>::empty().push(encode_utf8(cookie@)) =~= seq![encode_utf8(cookie@)]);
    }
    headers::append(map, headers::SET_COOKIE, cookie.as_bytes());
}

/// A reply that sets the cookies.
fn set_cookies() -> (reply: Response<Vec<u8>>)
    ensures
        sets_cookies(reply),
{
    let plain = text("the cookies are set");
    let mut map = plain.headers;
    let ghost none = typed(tower::PLAIN_TEXT@);
    proof {
        reveal_strlit("probe_plain=1; Path=/");
        reveal_strlit("probe_secure=1; Path=/; Secure");
        reveal_strlit("__Host-probe=1; Path=/; Secure");
        reveal_strlit("probe_lax=1; Path=/; SameSite=Lax");
        reveal_strlit("set-cookie");
        reveal_strlit("content-type");
        lemma_typed(tower::PLAIN_TEXT@);
        assert(headers::SET_COOKIE@.len() != headers::CONTENT_TYPE@.len());
        assert forall|values: Seq<Seq<u8>>| headers::roomy(
            #[trigger] none.insert(headers::SET_COOKIE@, values),
        ) by {
            assert(none.insert(headers::SET_COOKIE@, values).dom() =~= none.dom().insert(
                headers::SET_COOKIE@,
            ));
        }
    }
    set_cookie(&mut map, "probe_plain=1; Path=/");
    let ghost one = headers::fields(map);
    proof {
        assert(one[headers::SET_COOKIE@] =~= cookies().take(1));
        assert(one =~= none.insert(headers::SET_COOKIE@, cookies().take(1)));
    }
    set_cookie(&mut map, "probe_secure=1; Path=/; Secure");
    let ghost two = headers::fields(map);
    proof {
        assert(two[headers::SET_COOKIE@] =~= cookies().take(2));
        assert(two =~= none.insert(headers::SET_COOKIE@, cookies().take(2)));
    }
    set_cookie(&mut map, "__Host-probe=1; Path=/; Secure");
    let ghost three = headers::fields(map);
    proof {
        assert(three[headers::SET_COOKIE@] =~= cookies().take(3));
        assert(three =~= none.insert(headers::SET_COOKIE@, cookies().take(3)));
    }
    set_cookie(&mut map, "probe_lax=1; Path=/; SameSite=Lax");
    proof {
        assert(headers::fields(map)[headers::SET_COOKIE@] =~= cookies());
        assert(headers::fields(map) =~= none.insert(headers::SET_COOKIE@, cookies()));
    }
    Response { status: plain.status, headers: map, body: plain.body }
}

/// A hexadecimal digit in lower case.
pub open spec fn hex_digit(value: nat) -> char {
    if value < 10 {
        (48 + value) as char
    } else {
        (87 + value) as char
    }
}

/// How a string of JSON writes one character: quotes and backslashes behind a
/// backslash, five of the controls as a letter behind one, the other controls by
/// their number, and everything else as it is.
pub open spec fn json_char(c: char) -> Seq<char> {
    if c == '"' || c == '\\' {
        seq!['\\', c]
    } else if c == '\u{8}' {
        seq!['\\', 'b']
    } else if c == '\t' {
        seq!['\\', 't']
    } else if c == '\n' {
        seq!['\\', 'n']
    } else if c == '\u{c}' {
        seq!['\\', 'f']
    } else if c == '\r' {
        seq!['\\', 'r']
    } else if ' ' <= c {
        seq![c]
    } else {
        seq!['\\', 'u', '0', '0', hex_digit(c as nat / 16), hex_digit(c as nat % 16)]
    }
}

/// The characters of a text as a string of JSON writes them, one after another.
pub open spec fn json_chars(text: Seq<char>) -> Seq<char>
    decreases text.len(),
{
    if text.len() == 0 {
        seq![]
    } else {
        json_chars(text.drop_last()) + json_char(text.last())
    }
}

/// A text as a string of JSON.
pub open spec fn json_string(text: Seq<char>) -> Seq<char> {
    seq!['"'] + json_chars(text) + seq!['"']
}

/// Whether JSON writes a text as it is: without control characters, quotes and
/// backslashes.
pub open spec fn unescaped(text: Seq<char>) -> bool {
    forall|i: int|
        0 <= i < text.len() ==> ' ' <= #[trigger] text[i] && text[i] != '"' && text[i] != '\\'
}

/// A text that needs no escape stands between two quotes as it is.
pub proof fn law_json_keeps_what_needs_no_escape(text: Seq<char>)
    requires
        unescaped(text),
    ensures
        json_string(text) == seq!['"'] + text + seq!['"'],
    decreases text.len(),
{
    if text.len() == 0 {
        assert(json_chars(text) =~= text);
    } else {
        let before = text.drop_last();
        assert(unescaped(before));
        law_json_keeps_what_needs_no_escape(before);
        let written = json_string(before);
        assert(written.subrange(1, written.len() - 1) =~= before);
        assert(written.subrange(1, written.len() - 1) =~= json_chars(before));
        assert(' ' <= text[text.len() - 1]);
        assert(json_chars(text) =~= text);
    }
}

/// Writes a text with `serde_json::to_string`, which does not fail on a text: it
/// stands between two quotes, with each character as [`json_char`] writes it.
#[verifier::external_body]
fn write_json_string(text: &str) -> (written: String)
    ensures
        written@ == json_string(text@),
{
    serde_json::to_string(text).expect("a string is written")
}

/// What a body is echoed as.
pub open spec fn echo_text(written: Seq<char>) -> Seq<char> {
    "{\"body\":"@ + written + "}"@
}

/// The echo of a body that was written as a string of JSON.
pub fn echo(written: &str) -> (reply: Response<Vec<u8>>)
    ensures
        is_served(reply, OK, encode_utf8(echo_text(written@)), JSON@),
{
    let mut body = "{\"body\":".to_owned();
    body.append(written);
    body.append("}");
    json(Some(body.as_str().as_bytes_vec()))
}

/// An answer for a header: what it said, or that it was not there.
pub open spec fn header_answer(
    fields: Map<Seq<char>, Seq<Seq<u8>>>,
    name: Seq<char>,
    missing: Seq<char>,
) -> (Verdict, Seq<char>) {
    match present(fields, name) {
        Some(value) => (Verdict::Yes, value),
        None => (Verdict::No, missing),
    }
}

/// An answer for a header: what it said, or that it was not there.
fn answer_for(request: &Request<Vec<u8>>, name: &str, missing: &str) -> (answer: Answer)
    requires
        headers::lower_name(name@),
    ensures
        answer@ == header_answer(headers::fields(request.headers), name@, missing@),
{
    match value(request, name) {
        Some(value) => Answer::yes(value.as_str()),
        None => Answer::no(missing),
    }
}

/// A report with one answer recorded.
pub open spec fn recorded(
    report: Seq<(Verdict, Seq<char>)>,
    probe: Probe,
    answer: (Verdict, Seq<char>),
) -> Seq<(Verdict, Seq<char>)> {
    report.update(report::index(probe), answer)
}

/// The answer to what scheme a foreign post's `Referer` names.
pub open spec fn referer_answer(fields: Map<Seq<char>, Seq<Seq<u8>>>) -> (Verdict, Seq<char>) {
    match present(fields, headers::REFERER@) {
        Some(referer) => (Verdict::Info, scheme_text(url_scheme(referer))),
        None => (Verdict::No, "no Referer either"@),
    }
}

/// The answer to whether a form post delivers its body.
pub open spec fn body_answer(body: Seq<char>) -> (Verdict, Seq<char>) {
    if body.len() == 0 {
        (Verdict::No, "the form post arrived with an empty body"@)
    } else {
        (Verdict::Yes, body)
    }
}

/// The answer to whether a form post delivers its body.
pub fn answer_for_body(body: &str) -> (answer: Answer)
    ensures
        answer@ == body_answer(body@),
{
    if body.is_empty() {
        Answer::no("the form post arrived with an empty body")
    } else {
        Answer::yes(body)
    }
}

/// Whether one report is what another becomes once a request was routed: what
/// the server saw for itself is recorded, and nothing else changes.
pub open spec fn learned(
    request: Request<Vec<u8>>,
    before: Seq<(Verdict, Seq<char>)>,
    after: Seq<(Verdict, Seq<char>)>,
) -> bool {
    let fields = headers::fields(request.headers);
    let path = uri::target_path(request.uri@);
    let query = query_pairs(request.uri@);
    let body = text::utf8_lossy(request.body@);
    match asked(request.method@, path) {
        Route::Ipc => after == ipc_learned(request.method@, path, before),
        Route::Echo => exists|names: Seq<char>|
            #[trigger] lists_names(names, fields) && after == recorded(
                before,
                Probe::FetchPostHeaders,
                (Verdict::Info, names),
            ),
        Route::CookiesEcho => after == recorded(
            before,
            Probe::SetCookieReturned,
            header_answer(fields, headers::COOKIE@, "no Cookie header came back"@),
        ),
        Route::Landed => after == (if value_or_empty(query, "via"@) == "nav"@ {
            recorded(before, Probe::NavigationFollows303, (Verdict::Yes, ""@))
        } else {
            before
        }),
        Route::Form => exists|names: Seq<char>|
            #[trigger] lists_names(names, fields) && after == recorded(
                recorded(
                    before,
                    Probe::FormPostBody,
                    body_answer(body),
                ),
                Probe::FormPostHeaders,
                (Verdict::Info, names),
            ),
        Route::ForeignLoaded => after == recorded(
            before,
            Probe::ForeignDocumentRan,
            (Verdict::Yes, ""@),
        ),
        Route::Foreign => after == recorded(
            recorded(
                recorded(before, Probe::ForeignPostDelivered, (Verdict::Yes, ""@)),
                Probe::ForeignPostOrigin,
                header_answer(fields, headers::ORIGIN@, "the request arrived with no Origin"@),
            ),
            Probe::ForeignPostReferer,
            referer_answer(fields),
        ),
        Route::Range => after == recorded(
            before,
            Probe::RangeHeaderArrives,
            header_answer(fields, headers::RANGE@, "no Range header arrived"@),
        ),
        Route::CspRendered => after == recorded(
            before,
            Probe::CspDocumentRendered,
            (Verdict::Yes, ""@),
        ),
        Route::CspScript => after == recorded(
            before,
            Probe::CspEnforced,
            (Verdict::No, "the blocked inline script ran"@),
        ),
        _ => after == before,
    }
}

/// The id and the action of a path under [`IPC`].
pub open spec fn ipc_parts(path: Seq<char>) -> (Seq<char>, Seq<char>) {
    text::halves(text::after_prefix(path, IPC@)->0, '/')
}

/// What a request under [`IPC`] has a report become. The record that a document
/// loaded is provisional, and overwritten the moment the document reports for
/// real.
pub open spec fn ipc_learned(
    method: Seq<char>,
    path: Seq<char>,
    before: Seq<(Verdict, Seq<char>)>,
) -> Seq<(Verdict, Seq<char>)> {
    let parts = ipc_parts(path);
    match report::named(parts.0) {
        Some(probe) => if method == "GET"@ && parts.1 == "loaded"@ {
            recorded(
                before,
                probe,
                (Verdict::No, "the document loaded but never reported an answer"@),
            )
        } else {
            before
        },
        None => before,
    }
}

/// Whether an action answers a request under [`IPC`].
pub open spec fn ipc_answers(method: Seq<char>, path: Seq<char>, action: Action) -> bool {
    let parts = ipc_parts(path);
    match report::named(parts.0) {
        None => action matches Action::Reply(reply) && is_not_found(reply),
        Some(probe) => if method == "GET"@ && parts.1.len() == 0 {
            action matches Action::File { path, policy } && path@ == "/ipc.html"@ && policy == (
            if probe == Probe::IpcInvokeUnderCsp {
                Policy::SelfOnly
            } else {
                Policy::Unpoliced
            })
        } else if method == "GET"@ && parts.1 == "loaded"@ {
            action matches Action::Reply(reply) && is_text(reply, "ok"@)
        } else if method == "POST"@ && parts.1 == "result"@ {
            action matches Action::IpcAnswer(answered) && answered == probe
        } else {
            action matches Action::Reply(reply) && is_not_found(reply)
        },
    }
}

/// Whether a clock reads what a clockwork holds after it ticked.
pub open spec fn reads(
    shown: Clock,
    clockwork: Clockwork,
    target: (Option<Seq<char>>, Option<Seq<char>>, Option<Seq<char>>),
    now: u64,
) -> bool {
    let elapsed = clock::since(clockwork.started->0, now);
    &&& shown.coarse@ == clock::coarse_text(elapsed)
    &&& shown.fine@ == clock::fine_text(elapsed)
    &&& clock::readings(shown.stats@) == clock::gauges(clockwork, target)
    &&& clock::readings(shown.breakdown@) == clock::burst_lines(clockwork) + clock::paced_lines(
        clockwork,
    )
}

/// The pairs a redirect carries on.
pub open spec fn carried(query: Seq<(Seq<char>, Seq<char>)>) -> Seq<(Seq<char>, Seq<char>)> {
    seq![
        ("via"@, value_or_empty(query, "via"@)),
        ("echo"@, value_or_empty(query, "echo"@)),
    ]
}

/// Whether an action answers a request, given what the run holds once it was
/// routed.
pub open spec fn answers_to(request: Request<Vec<u8>>, run: Run, now: u64, action: Action) -> bool {
    let path = uri::target_path(request.uri@);
    let query = query_pairs(request.uri@);
    match asked(request.method@, path) {
        Route::Ipc => ipc_answers(request.method@, path, action),
        Route::Index => action matches Action::File { path: file, policy } && file@ == INDEX@
            && policy == Policy::Unpoliced,
        Route::Csp => action matches Action::File { path: file, policy } && file@ == "/csp.html"@
            && policy == Policy::Strict,
        Route::File => action matches Action::File { path: file, policy } && file@ == path
            && policy == Policy::Unpoliced,
        Route::Gzip => action matches Action::Reply(reply) && is_gzip(
            reply,
            gzipped(encode_utf8(value_or_empty(query, "text"@))),
        ),
        Route::Echo => action matches Action::Reply(reply) && is_served(
            reply,
            OK,
            encode_utf8(echo_text(json_string(text::utf8_lossy(request.body@)))),
            JSON@,
        ),
        Route::CookiesSet => action matches Action::Reply(reply) && sets_cookies(reply),
        Route::Redirect => action matches Action::Reply(reply) && is_redirect(
            reply,
            "/redirect/landed"@,
            form_encoded(carried(query)),
        ) && reads_back(carried(query)),
        Route::Landed => action matches Action::Reply(reply) && is_text(
            reply,
            value_or_empty(query, "echo"@),
        ),
        Route::Form => action matches Action::Reply(reply) && is_text(
            reply,
            "the form post arrived"@,
        ),
        Route::CookiesEcho
        | Route::ForeignLoaded
        | Route::Foreign
        | Route::Range
        | Route::CspRendered
        | Route::CspScript => action matches Action::Reply(reply) && is_text(reply, "ok"@),
        Route::Clock => action matches Action::Clock(shown) && reads(
            shown,
            run.clock,
            request.uri@,
            now,
        ),
        Route::Report => action matches Action::Sheet(sheet) && report::are_rows(
            sheet.rows@,
            run.report@,
        ) && sheet.tally@ == report::tally_text(run.report@) && sheet.news@ == report::news_text(
            run.report@,
        ),
        Route::Answers => action matches Action::Answers,
        Route::Done => action matches Action::Finish(reply) && is_text(reply, "ok"@),
        Route::Nothing => action matches Action::Reply(reply) && is_not_found(reply),
    }
}

/// Whether a request asks for the clock.
pub open spec fn asks_the_clock(request: Request<Vec<u8>>) -> bool {
    asked(request.method@, uri::target_path(request.uri@)) == Route::Clock
}

/// What the clock remembers once a request was routed.
pub open spec fn clock_after(request: Request<Vec<u8>>, before: Clockwork, now: u64) -> Clockwork {
    if asks_the_clock(request) {
        clock::ticked(before, query_pairs(request.uri@), now)
    } else {
        before
    }
}

/// Whether 64 bits can count what a request asks the clock to.
pub open spec fn countable(request: Request<Vec<u8>>, before: Clockwork) -> bool {
    asks_the_clock(request) ==> clock::tickable(before, query_pairs(request.uri@))
}

/// Whether a body that is echoed or recorded, if it is text, is read as that
/// text.
pub open spec fn reads_body(request: Request<Vec<u8>>) -> bool {
    let route = asked(request.method@, uri::target_path(request.uri@));
    route == Route::Echo || route == Route::Form ==> text::keeps_text(request.body@)
}

/// Answers one request.
///
/// What only the shell can reach - the frontend embedded in the application,
/// the window that closes itself, the end of the run - it is told of by the
/// action.
pub fn route(request: &Request<Vec<u8>>, run: &mut Run, now: u64) -> (action: Action)
    requires
        countable(*request, old(run).clock),
    ensures
        learned(*request, old(run).report@, final(run).report@),
        final(run).clock == clock_after(*request, old(run).clock, now),
        answers_to(*request, *final(run), now, action),
        reads_body(*request),
{
    proof {
        headers::lemma_names();
        reveal_strlit("/redirect/landed");
    }
    let path = request.uri.path();
    let query = query(&request.uri);
    match find_route(request.method.as_str(), path.as_str()) {
        Route::Ipc => ipc(request.method.as_str(), path.as_str(), run),
        Route::Index => Action::File { path: INDEX.to_owned(), policy: Policy::Unpoliced },
        Route::Csp => Action::File { path: "/csp.html".to_owned(), policy: Policy::Strict },
        Route::Gzip => Action::Reply(gzip(param(&query, "text"))),
        Route::Echo => {
            let names = header_names(request);
            run.report.record(Probe::FetchPostHeaders, Answer::info(names.as_str()));
            let said = text::lossy(request.body.as_slice());
            let written = write_json_string(said.as_str());
            Action::Reply(echo(written.as_str()))
        },
        Route::CookiesSet => Action::Reply(set_cookies()),
        Route::CookiesEcho => {
            let answer = answer_for(request, headers::COOKIE, "no Cookie header came back");
            run.report.record(Probe::SetCookieReturned, answer);
            Action::Reply(text("ok"))
        },
        Route::Redirect => {
            let mut pairs: Vec<(String, String)> = Vec::new();
            pairs.push(("via".to_owned(), param(&query, "via").to_owned()));
            pairs.push(("echo".to_owned(), param(&query, "echo").to_owned()));
            proof {
                assert(pair_texts(pairs@) =~= carried(query@));
            }
            Action::Reply(see_other("/redirect/landed", &pairs))
        },
        Route::Landed => {
            if text::same(param(&query, "via"), "nav") {
                run.report.record(Probe::NavigationFollows303, Answer::yes(""));
            }
            Action::Reply(text(param(&query, "echo")))
        },
        Route::Form => {
            let body = text::lossy(request.body.as_slice());
            run.report.record(Probe::FormPostBody, answer_for_body(body.as_str()));
            let names = header_names(request);
            run.report.record(Probe::FormPostHeaders, Answer::info(names.as_str()));
            Action::Reply(text("the form post arrived"))
        },
        Route::ForeignLoaded => {
            run.report.record(Probe::ForeignDocumentRan, Answer::yes(""));
            Action::Reply(text("ok"))
        },
        Route::Foreign => {
            run.report.record(Probe::ForeignPostDelivered, Answer::yes(""));
            let answer = answer_for(
                request,
                headers::ORIGIN,
                "the request arrived with no Origin",
            );
            run.report.record(Probe::ForeignPostOrigin, answer);
            let answer = match value(request, headers::REFERER) {
                Some(referer) => {
                    let said = scheme(referer.as_str());
                    Answer::info(said.as_str())
                },
                None => Answer::no("no Referer either"),
            };
            run.report.record(Probe::ForeignPostReferer, answer);
            Action::Reply(text("ok"))
        },
        Route::Range => {
            let answer = answer_for(request, headers::RANGE, "no Range header arrived");
            run.report.record(Probe::RangeHeaderArrives, answer);
            Action::Reply(text("ok"))
        },
        Route::CspRendered => {
            run.report.record(Probe::CspDocumentRendered, Answer::yes(""));
            Action::Reply(text("ok"))
        },
        Route::CspScript => {
            run.report.record(Probe::CspEnforced, Answer::no("the blocked inline script ran"));
            Action::Reply(text("ok"))
        },
        Route::Clock => Action::Clock(run.clock.tick(&request.uri, &query, now)),
        Route::Report => Action::Sheet(run.report.sheet()),
        Route::Answers => Action::Answers,
        Route::Done => Action::Finish(text("ok")),
        Route::File => Action::File { path, policy: Policy::Unpoliced },
        Route::Nothing => Action::Reply(not_found()),
    }
}

/// Serves the document that tries to reach native commands, and takes what it
/// found out.
///
/// One document, identical but for the policy it carries under one of its two
/// names. The probe being answered rides in the path rather than in the
/// document.
fn ipc(method: &str, path: &str, run: &mut Run) -> (action: Action)
    requires
        text::after_prefix(path@, IPC@) is Some,
    ensures
        final(run).report@ == ipc_learned(method@, path@, old(run).report@),
        final(run).clock == old(run).clock,
        ipc_answers(method@, path@, action),
{
    let rest = match text::strip_prefix(path, IPC) {
        Some(rest) => rest,
        None => String::new(),
    };
    let (id, action) = text::split_once(rest.as_str(), '/');
    let probe = match Probe::from_id(id.as_str()) {
        Some(probe) => probe,
        None => return Action::Reply(not_found()),
    };
    let get = text::same(method, "GET");
    let post = text::same(method, "POST");
    if get && action.as_str().is_empty() {
        proof {
            reveal_strlit("loaded");
        }
        let policy = if probe == Probe::IpcInvokeUnderCsp {
            Policy::SelfOnly
        } else {
            Policy::Unpoliced
        };
        Action::File { path: "/ipc.html".to_owned(), policy }
    } else if get && text::same(action.as_str(), "loaded") {
        run.report.record(
            probe,
            Answer::no("the document loaded but never reported an answer"),
        );
        Action::Reply(text("ok"))
    } else if post && text::same(action.as_str(), "result") {
        Action::IpcAnswer(probe)
    } else {
        Action::Reply(not_found())
    }
}

/// Takes the answer a document reported, if it could be read. Says whether the
/// policed window has said the one thing it was opened to say, and is to be
/// closed: closed from here and not from the document, because what that window
/// is measuring is whether a policy left it any way to close itself.
pub fn ipc_answer(run: &mut Run, probe: Probe, answer: Option<Answer>) -> (result: (
    Response<Vec<u8>>,
    bool,
))
    ensures
        final(run).clock == old(run).clock,
        match answer {
            Some(answer) => {
                &&& final(run).report@ == recorded(old(run).report@, probe, answer@)
                &&& is_text(result.0, "ok"@)
                &&& result.1 == (probe == Probe::IpcInvokeUnderCsp)
            },
            None => {
                &&& final(run).report@ == old(run).report@
                &&& is_served(
                    result.0,
                    BAD_REQUEST,
                    encode_utf8("unreadable"@),
                    tower::PLAIN_TEXT@,
                )
                &&& !result.1
            },
        },
{
    match answer {
        Some(answer) => {
            run.report.record(probe, answer);
            (text("ok"), probe == Probe::IpcInvokeUnderCsp)
        },
        None => (unreadable(), false),
    }
}

/// A report with each of some answers recorded, one after another.
pub open spec fn all_recorded(
    report: Seq<(Verdict, Seq<char>)>,
    sent: Seq<(Probe, Answer)>,
) -> Seq<(Verdict, Seq<char>)>
    decreases sent.len(),
{
    if sent.len() == 0 {
        report
    } else {
        recorded(all_recorded(report, sent.drop_last()), sent.last().0, sent.last().1@)
    }
}

/// Takes the answers the page reached for itself, if they could be read.
pub fn answers(run: &mut Run, sent: Option<Vec<(Probe, Answer)>>) -> (reply: Response<Vec<u8>>)
    ensures
        final(run).clock == old(run).clock,
        match sent {
            Some(sent) => final(run).report@ == all_recorded(old(run).report@, sent@) && is_text(
                reply,
                "ok"@,
            ),
            None => final(run).report@ == old(run).report@ && is_served(
                reply,
                BAD_REQUEST,
                encode_utf8("unreadable"@),
                tower::PLAIN_TEXT@,
            ),
        },
{
    let sent = match sent {
        Some(sent) => sent,
        None => return unreadable(),
    };
    let ghost before = run.report@;
    let ghost clock = run.clock;
    let mut at: usize = 0;
    while at < sent.len()
        invariant
            at <= sent@.len(),
            run.report@ == all_recorded(before, sent@.take(at as int)),
            run.clock == clock,
        decreases sent.len() - at,
    {
        proof {
            assert(sent@.take(at + 1).drop_last() =~= sent@.take(at as int));
        }
        run.report.record(sent[at].0, sent[at].1.clone());
        at = at + 1;
    }
    proof {
        assert(sent@.take(at as int) =~= sent@);
    }
    text("ok")
}

/// Answers one request, or nothing if 64 bits cannot count what it asks the
/// clock to, and then the run is as it was.
pub fn try_route(request: &Request<Vec<u8>>, run: &mut Run, now: u64) -> (action: Option<Action>)
    ensures
        action is Some <==> countable(*request, old(run).clock),
        match action {
            Some(action) => {
                &&& learned(*request, old(run).report@, final(run).report@)
                &&& final(run).clock == clock_after(*request, old(run).clock, now)
                &&& answers_to(*request, *final(run), now, action)
                &&& reads_body(*request)
            },
            None => *final(run) == *old(run),
        },
{
    let path = request.uri.path();
    let asked = find_route(request.method.as_str(), path.as_str());
    if asked == Route::Clock {
        let query = query(&request.uri);
        if !run.clock.can_tick(&query) {
            return None;
        }
    }
    Some(route(request, run, now))
}

/// Where a redirect leads, the page gets back what it sent with the request
/// that was redirected: the path is the one redirected to, and the `via` and
/// the `echo` are those of the first request.
pub proof fn law_a_redirect_carries_the_echo(
    query: Seq<(Seq<char>, Seq<char>)>,
    landed: (Option<Seq<char>>, Option<Seq<char>>, Option<Seq<char>>),
)
    requires
        reads_back(carried(query)),
        landed.2 == Some("/redirect/landed"@ + "?"@ + form_encoded(carried(query))),
    ensures
        uri::target_path(landed) == "/redirect/landed"@,
        value_or_empty(query_pairs(landed), "via"@) == value_or_empty(query, "via"@),
        value_or_empty(query_pairs(landed), "echo"@) == value_or_empty(query, "echo"@),
{
    reveal_strlit("/redirect/landed");
    reveal_strlit("?");
    reveal_strlit("via");
    reveal_strlit("echo");
    let path = "/redirect/landed"@;
    let encoded = form_encoded(carried(query));
    let location = path + "?"@ + encoded;
    text::lemma_found(location, '?', path.len() as int);
    assert(location.take(path.len() as int) =~= path);
    assert(location.skip(path.len() as int + 1) =~= encoded);
    let pairs = carried(query);
    assert("via"@.len() != "echo"@.len());
    assert(pairs.drop_last() =~= seq![pairs[0]]);
    assert(pairs.last() == pairs[1]);
    assert(lookup(pairs, "echo"@) == Some(pairs[1].1));
    assert(pairs.drop_last().last() == pairs[0]);
    assert(lookup(pairs.drop_last(), "via"@) == Some(pairs[0].1));
    assert(lookup(pairs, "via"@) == Some(pairs[0].1));
}

/// Of two values that a query gives one name, the last counts.
pub proof fn law_the_last_value_counts(
    query: Seq<(Seq<char>, Seq<char>)>,
    name: Seq<char>,
    value: Seq<char>,
    other: Seq<char>,
)
    ensures
        lookup(query.push((name, value)), name) == Some(value),
        other != name ==> lookup(query.push((name, value)), other) == lookup(query, other),
{
    assert(query.push((name, value)).drop_last() =~= query);
}

/// A path built of a probe's id names that probe, and what is asked of it.
pub proof fn law_a_path_names_its_probe(method: Seq<char>, probe: Probe, action: Seq<char>)
    ensures
        asked(method, IPC@ + report::id(probe) + "/"@ + action) == Route::Ipc,
        ipc_parts(IPC@ + report::id(probe) + "/"@ + action) == (report::id(probe), action),
{
    reveal_strlit("/ipc/");
    reveal_strlit("/");
    report::law_ids_are_path_segments(probe);
    let id = report::id(probe);
    let path = IPC@ + id + "/"@ + action;
    let rest = id + "/"@ + action;
    assert(path.take(IPC@.len() as int) =~= IPC@);
    assert(path.skip(IPC@.len() as int) =~= rest);
    assert forall|i: int| 0 <= i < id.len() implies rest[i] != '/' by {
        assert(rest[i] == id[i]);
        assert(id.contains(id[i]));
    }
    text::lemma_found(rest, '/', id.len() as int);
    assert(rest.take(id.len() as int) =~= id);
    assert(rest.skip(id.len() as int + 1) =~= action);
}

/// A number that tells the paths of the routes apart.
spec fn path_mark(path: Seq<char>) -> int {
    path.len() * 1000000 + path.last() as int * 1000 + path[if path.len() > 1 {
        1
    } else {
        0
    }] as int
}

/// Each route is found under its method and its path.
proof fn lemma_routes()
    ensures
        asked("GET"@, "/"@) == Route::Index,
        asked("GET"@, "/csp"@) == Route::Csp,
        asked("GET"@, "/gzip"@) == Route::Gzip,
        asked("GET"@, "/cookies/set"@) == Route::CookiesSet,
        asked("GET"@, "/cookies/echo"@) == Route::CookiesEcho,
        asked("GET"@, "/redirect/303"@) == Route::Redirect,
        asked("GET"@, "/redirect/landed"@) == Route::Landed,
        asked("GET"@, "/foreign/loaded"@) == Route::ForeignLoaded,
        asked("GET"@, "/range"@) == Route::Range,
        asked("GET"@, "/csp/rendered"@) == Route::CspRendered,
        asked("GET"@, "/csp/script"@) == Route::CspScript,
        asked("GET"@, "/clock"@) == Route::Clock,
        asked("GET"@, "/report"@) == Route::Report,
        asked("POST"@, "/echo"@) == Route::Echo,
        asked("POST"@, "/form"@) == Route::Form,
        asked("POST"@, "/foreign"@) == Route::Foreign,
        asked("POST"@, "/answers"@) == Route::Answers,
        asked("POST"@, "/done"@) == Route::Done,
{
    reveal_strlit("GET");
    reveal_strlit("POST");
    reveal_strlit("/ipc/");
    reveal_strlit("/");
    reveal_strlit("/csp");
    reveal_strlit("/gzip");
    reveal_strlit("/cookies/set");
    reveal_strlit("/cookies/echo");
    reveal_strlit("/redirect/303");
    reveal_strlit("/redirect/landed");
    reveal_strlit("/foreign/loaded");
    reveal_strlit("/range");
    reveal_strlit("/csp/rendered");
    reveal_strlit("/csp/script");
    reveal_strlit("/clock");
    reveal_strlit("/report");
    reveal_strlit("/echo");
    reveal_strlit("/form");
    reveal_strlit("/foreign");
    reveal_strlit("/answers");
    reveal_strlit("/done");
    assert("GET"@.len() != "POST"@.len());
    assert(path_mark("/"@) == 1047047);
    assert(path_mark("/csp"@) == 4112099);
    assert(path_mark("/gzip"@) == 5112103);
    assert(path_mark("/cookies/set"@) == 12116099);
    assert(path_mark("/cookies/echo"@) == 13111099);
    assert(path_mark("/redirect/303"@) == 13051114);
    assert(path_mark("/redirect/landed"@) == 16100114);
    assert(path_mark("/foreign/loaded"@) == 15100102);
    assert(path_mark("/range"@) == 6101114);
    assert(path_mark("/csp/rendered"@) == 13100099);
    assert(path_mark("/csp/script"@) == 11116099);
    assert(path_mark("/clock"@) == 6107099);
    assert(path_mark("/report"@) == 7116114);
    assert(path_mark("/echo"@) == 5111101);
    assert(path_mark("/form"@) == 5109102);
    assert(path_mark("/foreign"@) == 8110102);
    assert(path_mark("/answers"@) == 8115097);
    assert(path_mark("/done"@) == 5101100);
    lemma_not_ipc();
}

/// None of the routes' own paths is under [`IPC`].
proof fn lemma_not_ipc()
    ensures
        text::after_prefix("/"@, "/ipc/"@) is None,
        text::after_prefix("/csp"@, "/ipc/"@) is None,
        text::after_prefix("/gzip"@, "/ipc/"@) is None,
        text::after_prefix("/cookies/set"@, "/ipc/"@) is None,
        text::after_prefix("/cookies/echo"@, "/ipc/"@) is None,
        text::after_prefix("/redirect/303"@, "/ipc/"@) is None,
        text::after_prefix("/redirect/landed"@, "/ipc/"@) is None,
        text::after_prefix("/foreign/loaded"@, "/ipc/"@) is None,
        text::after_prefix("/range"@, "/ipc/"@) is None,
        text::after_prefix("/csp/rendered"@, "/ipc/"@) is None,
        text::after_prefix("/csp/script"@, "/ipc/"@) is None,
        text::after_prefix("/clock"@, "/ipc/"@) is None,
        text::after_prefix("/report"@, "/ipc/"@) is None,
        text::after_prefix("/echo"@, "/ipc/"@) is None,
        text::after_prefix("/form"@, "/ipc/"@) is None,
        text::after_prefix("/foreign"@, "/ipc/"@) is None,
        text::after_prefix("/answers"@, "/ipc/"@) is None,
        text::after_prefix("/done"@, "/ipc/"@) is None,
{
    reveal_strlit("/ipc/");
    reveal_strlit("/");
    reveal_strlit("/csp");
    reveal_strlit("/gzip");
    reveal_strlit("/cookies/set");
    reveal_strlit("/cookies/echo");
    reveal_strlit("/redirect/303");
    reveal_strlit("/redirect/landed");
    reveal_strlit("/foreign/loaded");
    reveal_strlit("/range");
    reveal_strlit("/csp/rendered");
    reveal_strlit("/csp/script");
    reveal_strlit("/clock");
    reveal_strlit("/report");
    reveal_strlit("/echo");
    reveal_strlit("/form");
    reveal_strlit("/foreign");
    reveal_strlit("/answers");
    reveal_strlit("/done");
    assert("/ipc/"@[1] == 'i');
    assert("/"@.len() > 5 ==> "/"@.take(5)[1] != 'i');
    assert("/csp"@.len() > 5 ==> "/csp"@.take(5)[1] != 'i');
    assert("/gzip"@.len() > 5 ==> "/gzip"@.take(5)[1] != 'i');
    assert("/cookies/set"@.len() > 5 ==> "/cookies/set"@.take(5)[1] != 'i');
    assert("/cookies/echo"@.len() > 5 ==> "/cookies/echo"@.take(5)[1] != 'i');
    assert("/redirect/303"@.len() > 5 ==> "/redirect/303"@.take(5)[1] != 'i');
    assert("/redirect/landed"@.len() > 5 ==> "/redirect/landed"@.take(5)[1] != 'i');
    assert("/foreign/loaded"@.len() > 5 ==> "/foreign/loaded"@.take(5)[1] != 'i');
    assert("/range"@.len() > 5 ==> "/range"@.take(5)[1] != 'i');
    assert("/csp/rendered"@.len() > 5 ==> "/csp/rendered"@.take(5)[1] != 'i');
    assert("/csp/script"@.len() > 5 ==> "/csp/script"@.take(5)[1] != 'i');
    assert("/clock"@.len() > 5 ==> "/clock"@.take(5)[1] != 'i');
    assert("/report"@.len() > 5 ==> "/report"@.take(5)[1] != 'i');
    assert("/echo"@.len() > 5 ==> "/echo"@.take(5)[1] != 'i');
    assert("/form"@.len() > 5 ==> "/form"@.take(5)[1] != 'i');
    assert("/foreign"@.len() > 5 ==> "/foreign"@.take(5)[1] != 'i');
    assert("/answers"@.len() > 5 ==> "/answers"@.take(5)[1] != 'i');
    assert("/done"@.len() > 5 ==> "/done"@.take(5)[1] != 'i');
}

/// Only `GET` and `POST` are answered. A `GET` of a path that no route has is a
/// file of the frontend by that path, and a `POST` to one is nothing there is.
pub proof fn law_a_get_of_anything_else_is_a_file(method: Seq<char>, path: Seq<char>)
    requires
        forall|rest: Seq<char>| path != #[trigger] ("/ipc/"@ + rest),
        path != "/"@,
        path != "/csp"@,
        path != "/gzip"@,
        path != "/cookies/set"@,
        path != "/cookies/echo"@,
        path != "/redirect/303"@,
        path != "/redirect/landed"@,
        path != "/foreign/loaded"@,
        path != "/range"@,
        path != "/csp/rendered"@,
        path != "/csp/script"@,
        path != "/clock"@,
        path != "/report"@,
        path != "/echo"@,
        path != "/form"@,
        path != "/foreign"@,
        path != "/answers"@,
        path != "/done"@,
    ensures
        method == "GET"@ ==> asked(method, path) == Route::File,
        method != "GET"@ ==> asked(method, path) == Route::Nothing,
{
    reveal_strlit("GET");
    reveal_strlit("POST");
    assert("GET"@.len() != "POST"@.len());
    if text::after_prefix(path, IPC@) is Some {
        let rest = text::after_prefix(path, IPC@)->0;
        text::law_a_prefix_and_the_rest_make_the_text(path, IPC@, rest);
        assert(path == "/ipc/"@ + rest);
    }
}

/// A route answers only under its own method: everything but a `GET` or a `POST`
/// is nothing there is, a `GET` of where a body is posted is a file, and a
/// `POST` to where one is read is nothing.
pub proof fn law_a_route_has_one_method(method: Seq<char>, path: Seq<char>)
    requires
        forall|rest: Seq<char>| path != #[trigger] ("/ipc/"@ + rest),
    ensures
        method != "GET"@ && method != "POST"@ ==> asked(method, path) == Route::Nothing,
        method == "GET"@ ==> asked(method, path) != Route::Nothing && asked(method, path)
            != Route::Echo && asked(method, path) != Route::Form && asked(method, path)
            != Route::Foreign && asked(method, path) != Route::Answers && asked(method, path)
            != Route::Done,
        method == "POST"@ ==> asked(method, path) == Route::Nothing || asked(method, path)
            == Route::Echo || asked(method, path) == Route::Form || asked(method, path)
            == Route::Foreign || asked(method, path) == Route::Answers || asked(method, path)
            == Route::Done,
{
    reveal_strlit("GET");
    reveal_strlit("POST");
    assert("GET"@.len() != "POST"@.len());
    if text::after_prefix(path, IPC@) is Some {
        let rest = text::after_prefix(path, IPC@)->0;
        text::law_a_prefix_and_the_rest_make_the_text(path, IPC@, rest);
        assert(path == "/ipc/"@ + rest);
    }
}

/// A query that says nothing gives no name a value, and an empty value is the
/// same as none.
pub proof fn law_absent_and_empty_are_the_same_answer(
    query: Seq<(Seq<char>, Seq<char>)>,
    name: Seq<char>,
)
    ensures
        lookup(seq![], name) is None,
        lookup(query, name) is None ==> value_or_empty(query, name) == Seq::<char>::empty(),
        lookup(query, name) matches Some(value) ==> value_or_empty(query, name) == value,
        (forall|i: int| 0 <= i < query.len() ==> (#[trigger] query[i]).0 != name) ==> lookup(
            query,
            name,
        ) is None,
    decreases query.len(),
{
    if query.len() > 0 && forall|i: int|
        0 <= i < query.len() ==> (#[trigger] query[i]).0 != name {
        let fewer = query.drop_last();
        assert forall|i: int| 0 <= i < fewer.len() implies (#[trigger] fewer[i]).0 != name by {
            assert(fewer[i] == query[i]);
        }
        law_absent_and_empty_are_the_same_answer(fewer, name);
        assert(query[query.len() - 1].0 != name);
    }
}

/// What is told of a header: its text, or that it was not there, which an empty
/// one and one that is no text are the same as.
pub open spec fn told(
    fields: Map<Seq<char>, Seq<Seq<u8>>>,
    name: Seq<char>,
    missing: Seq<char>,
) -> (Verdict, Seq<char>) {
    if fields.contains_key(name) && headers::visible(fields[name][0]) is Some && headers::visible(
        fields[name][0],
    )->0.len() > 0 {
        (Verdict::Yes, headers::visible(fields[name][0])->0)
    } else {
        (Verdict::No, missing)
    }
}

/// A request teaches nothing but what its own route is there to see: an answer
/// to any other probe stands as it was.
pub proof fn law_a_request_teaches_only_its_own(
    request: Request<Vec<u8>>,
    before: Seq<(Verdict, Seq<char>)>,
    after: Seq<(Verdict, Seq<char>)>,
    probe: Probe,
)
    requires
        learned(request, before, after),
        before.len() == report::COUNT,
        forall|rest: Seq<char>| uri::target_path(request.uri@) != #[trigger] ("/ipc/"@ + rest),
        after[report::index(probe)] != before[report::index(probe)],
    ensures
        ({
            let path = uri::target_path(request.uri@);
            match probe {
                Probe::FetchPostHeaders => request.method@ == "POST"@ && path == "/echo"@,
                Probe::SetCookieReturned => request.method@ == "GET"@ && path == "/cookies/echo"@,
                Probe::NavigationFollows303 => request.method@ == "GET"@ && path
                    == "/redirect/landed"@,
                Probe::FormPostBody | Probe::FormPostHeaders => request.method@ == "POST"@ && path
                    == "/form"@,
                Probe::ForeignDocumentRan => request.method@ == "GET"@ && path
                    == "/foreign/loaded"@,
                Probe::ForeignPostDelivered
                | Probe::ForeignPostOrigin
                | Probe::ForeignPostReferer => request.method@ == "POST"@ && path == "/foreign"@,
                Probe::RangeHeaderArrives => request.method@ == "GET"@ && path == "/range"@,
                Probe::CspDocumentRendered => request.method@ == "GET"@ && path == "/csp/rendered"@,
                Probe::CspEnforced => request.method@ == "GET"@ && path == "/csp/script"@,
                _ => false,
            }
        }),
{
    let path = uri::target_path(request.uri@);
    if text::after_prefix(path, IPC@) is Some {
        let rest = text::after_prefix(path, IPC@)->0;
        text::law_a_prefix_and_the_rest_make_the_text(path, IPC@, rest);
        assert(path == "/ipc/"@ + rest);
    }
    report::lemma_index(probe);
}

/// What the routes that look at a header learn is what is told of it.
pub proof fn law_a_header_is_told_as_it_came(
    request: Request<Vec<u8>>,
    before: Seq<(Verdict, Seq<char>)>,
    after: Seq<(Verdict, Seq<char>)>,
)
    requires
        learned(request, before, after),
        before.len() == report::COUNT,
    ensures
        ({
            let path = uri::target_path(request.uri@);
            let fields = headers::fields(request.headers);
            let get = request.method@ == "GET"@;
            let post = request.method@ == "POST"@;
            &&& get && path == "/cookies/echo"@ ==> after[report::index(Probe::SetCookieReturned)]
                == told(fields, "cookie"@, "no Cookie header came back"@)
            &&& get && path == "/range"@ ==> after[report::index(Probe::RangeHeaderArrives)]
                == told(fields, "range"@, "no Range header arrived"@)
            &&& post && path == "/foreign"@ ==> after[report::index(Probe::ForeignPostOrigin)]
                == told(fields, "origin"@, "the request arrived with no Origin"@)
            &&& post && path == "/foreign"@ ==> after[report::index(Probe::ForeignPostReferer)] == (
            if told(fields, "referer"@, ""@).0 == Verdict::Yes {
                (
                    Verdict::Info,
                    match url_scheme(told(fields, "referer"@, ""@).1) {
                        Ok(scheme) => scheme,
                        Err(error) => "not a URL: "@ + error,
                    },
                )
            } else {
                (Verdict::No, "no Referer either"@)
            })
            &&& post && path == "/foreign"@ ==> after[report::index(Probe::ForeignPostDelivered)]
                == (Verdict::Yes, ""@)
        }),
{
    lemma_routes();
}

/// What arrives is learned to have arrived: the body of a form, the names of the
/// headers, a redirect that a navigation followed, a document that rendered and
/// a script that ran though it was blocked.
pub proof fn law_what_arrives_is_learned(
    request: Request<Vec<u8>>,
    before: Seq<(Verdict, Seq<char>)>,
    after: Seq<(Verdict, Seq<char>)>,
    body: Seq<char>,
)
    requires
        learned(request, before, after),
        reads_body(request),
        before.len() == report::COUNT,
        request.body@ == encode_utf8(body),
    ensures
        ({
            let path = uri::target_path(request.uri@);
            let fields = headers::fields(request.headers);
            let via = lookup(query_pairs(request.uri@), "via"@);
            let get = request.method@ == "GET"@;
            let post = request.method@ == "POST"@;
            &&& post && path == "/form"@ && body.len() > 0 ==> after[report::index(
                Probe::FormPostBody,
            )] == (Verdict::Yes, body)
            &&& post && path == "/form"@ && body.len() == 0 ==> after[report::index(
                Probe::FormPostBody,
            )] == (Verdict::No, "the form post arrived with an empty body"@)
            &&& post && path == "/form"@ ==> after[report::index(Probe::FormPostHeaders)].0
                == Verdict::Info && lists_names(
                after[report::index(Probe::FormPostHeaders)].1,
                fields,
            )
            &&& post && path == "/echo"@ ==> after[report::index(Probe::FetchPostHeaders)].0
                == Verdict::Info && lists_names(
                after[report::index(Probe::FetchPostHeaders)].1,
                fields,
            )
            &&& get && path == "/redirect/landed"@ && via == Some("nav"@) ==> after[report::index(
                Probe::NavigationFollows303,
            )] == (Verdict::Yes, ""@)
            &&& get && path == "/redirect/landed"@ && via != Some("nav"@) ==> after == before
            &&& get && path == "/foreign/loaded"@ ==> after[report::index(
                Probe::ForeignDocumentRan,
            )] == (Verdict::Yes, ""@)
            &&& get && path == "/csp/rendered"@ ==> after[report::index(
                Probe::CspDocumentRendered,
            )] == (Verdict::Yes, ""@)
            &&& get && path == "/csp/script"@ ==> after[report::index(Probe::CspEnforced)] == (
                Verdict::No,
                "the blocked inline script ran"@,
            )
        }),
{
    lemma_routes();
    reveal_strlit("nav");
}

/// A list of names holds each name once, in order.
pub proof fn law_names_are_listed_in_order(
    said: Seq<char>,
    fields: Map<Seq<char>, Seq<Seq<u8>>>,
)
    requires
        lists_names(said, fields),
    ensures
        exists|names: Seq<Seq<char>>|
            #![trigger text::joined(names, ", "@)]
            said == text::joined(names, ", "@) && (forall|name: Seq<char>|
                names.contains(name) <==> fields.contains_key(name)) && (forall|i: int, j: int|
                0 <= i < j < names.len() ==> text::before(#[trigger] names[i], #[trigger] names[j])),
{
    let names = choose|names: Seq<Seq<char>>|
        text::ascending(names) && names.to_set() == fields.dom() && said == #[trigger] text::joined(
            names,
            ", "@,
        );
    assert forall|name: Seq<char>| names.contains(name) <==> fields.contains_key(name) by {
        assert(names.to_set().contains(name) <==> fields.dom().contains(name));
    }
    assert(said == text::joined(names, ", "@));
}

/// A document that tries to reach native commands is served under the id of its
/// probe, with a policy for the one probe that asks about one; that it loaded is
/// held against it until it reports, and what it posts is its answer. A path
/// that names no probe is nothing there is.
pub proof fn law_a_document_answers_for_its_probe(
    method: Seq<char>,
    probe: Probe,
    rest: Seq<char>,
    action: Action,
    before: Seq<(Verdict, Seq<char>)>,
)
    requires
        ipc_answers(method, "/ipc/"@ + report::id(probe) + "/"@ + rest, action),
        before.len() == report::COUNT,
    ensures
        ({
            let path = "/ipc/"@ + report::id(probe) + "/"@ + rest;
            let after = ipc_learned(method, path, before);
            &&& method == "GET"@ && rest.len() == 0 ==> (action matches Action::File {
                path: file,
                policy,
            } && file@ == "/ipc.html"@ && (policy == Policy::SelfOnly <==> probe
                == Probe::IpcInvokeUnderCsp) && policy != Policy::Strict)
            &&& method == "POST"@ && rest == "result"@ ==> (action matches Action::IpcAnswer(
                answered,
            ) && answered == probe)
            &&& method == "GET"@ && rest == "loaded"@ ==> after[report::index(probe)] == (
                Verdict::No,
                "the document loaded but never reported an answer"@,
            )
            &&& !(method == "GET"@ && rest == "loaded"@) ==> after == before
            &&& method == "GET"@ && rest == "loaded"@ ==> (action matches Action::Reply(reply)
                && reply.status == 200 && reply.body@ == encode_utf8("ok"@))
            &&& !(method == "GET"@ && (rest.len() == 0 || rest == "loaded"@)) && !(method
                == "POST"@ && rest == "result"@) ==> (action matches Action::Reply(reply)
                && reply.status == 404 && reply.body@ == encode_utf8("no such route"@))
            &&& forall|other: Probe|
                other != probe ==> after[#[trigger] report::index(other)] == before[report::index(
                    other,
                )]
        }),
{
    law_a_path_names_its_probe(method, probe, rest);
    report::law_an_id_names_its_probe(probe);
    reveal_strlit("GET");
    reveal_strlit("POST");
    reveal_strlit("loaded");
    reveal_strlit("result");
    assert("GET"@.len() != "POST"@.len());
    assert("loaded"@[0] != "result"@[0]);
    report::lemma_index(probe);
    assert forall|other: Probe| other != probe implies ipc_learned(
        method,
        "/ipc/"@ + report::id(probe) + "/"@ + rest,
        before,
    )[#[trigger] report::index(other)] == before[report::index(other)] by {
        report::lemma_index(other);
    }
}

/// A reply is a status, a body and a content type, and no other header.
pub proof fn law_a_reply_has_one_header(
    reply: Response<Vec<u8>>,
    status: u16,
    body: Seq<u8>,
    content_type: Seq<char>,
    name: Seq<char>,
)
    requires
        is_served(reply, status, body, content_type),
    ensures
        reply.status == status,
        reply.body@ == body,
        headers::fields(reply.headers).contains_key(name) <==> name == "content-type"@,
        headers::fields(reply.headers)["content-type"@] == seq![encode_utf8(content_type)],
{
}

/// What the page sends it gets back: the body of a fetch as a string of JSON, and
/// the `echo` of a redirect as plain text; a file is asked for by its own path,
/// without a policy.
pub proof fn law_the_page_gets_back_what_it_sent(
    request: Request<Vec<u8>>,
    run: Run,
    now: u64,
    action: Action,
    body: Seq<char>,
)
    requires
        answers_to(request, run, now, action),
        reads_body(request),
        request.body@ == encode_utf8(body),
    ensures
        ({
            let path = uri::target_path(request.uri@);
            let query = query_pairs(request.uri@);
            let get = request.method@ == "GET"@;
            let post = request.method@ == "POST"@;
            &&& post && path == "/echo"@ ==> (action matches Action::Reply(reply) && reply.status
                == 200 && reply.body@ == encode_utf8(
                "{\"body\":"@ + json_string(body) + "}"@,
            ))
            &&& get && path == "/redirect/landed"@ ==> (action matches Action::Reply(reply)
                && reply.status == 200 && (lookup(query, "echo"@) matches Some(echo) ==> reply.body@
                == encode_utf8(echo)))
            &&& get && path == "/gzip"@ ==> (action matches Action::Reply(reply) && reply.status
                == 200 && (lookup(query, "text"@) matches Some(said) ==> reply.body@ == gzipped(
                encode_utf8(said),
            )) && headers::fields(reply.headers)["content-encoding"@] == seq![
                encode_utf8("gzip"@),
            ])
            &&& get && path == "/redirect/303"@ ==> (action matches Action::Reply(reply)
                && reply.status == 303 && headers::fields(reply.headers).contains_key("location"@))
            &&& asked(request.method@, path) == Route::File ==> (action matches Action::File {
                path: file,
                policy,
            } && file@ == path && policy == Policy::Unpoliced)
        }),
{
    lemma_routes();
}

/// A file is served as it is, with its own content type where a header may hold
/// that, and with a policy exactly if one is asked for; where there is none, that
/// is said with a `404`.
pub proof fn law_a_file_is_served_as_it_is(
    reply: Response<Vec<u8>>,
    found: Option<Asset>,
    policy: Policy,
)
    requires
        is_asset(reply, found, policed_fields(asset_fields(found), policy_text(policy))),
    ensures
        found matches Some(asset) ==> reply.status == 200 && reply.body@ == asset.bytes@ && (
        headers::valid_value(encode_utf8(asset.mime_type@)) ==> headers::fields(
            reply.headers,
        )["content-type"@] == seq![encode_utf8(asset.mime_type@)]),
        found is None ==> reply.status == 404 && reply.body@ == encode_utf8("no such route"@),
        headers::fields(reply.headers).contains_key("content-security-policy"@) <==> policy
            != Policy::Unpoliced,
        policy == Policy::SelfOnly ==> headers::fields(reply.headers)["content-security-policy"@]
            == seq![encode_utf8("default-src 'self'"@)],
        policy == Policy::Strict ==> headers::fields(reply.headers)["content-security-policy"@]
            == seq![encode_utf8("default-src 'self'; script-src 'none'"@)],
{
    reveal_strlit("content-type");
    reveal_strlit("content-security-policy");
    assert("content-type"@.len() != "content-security-policy"@.len());
}

/// Of several answers to one probe the last stands, and a probe that got none
/// keeps the answer it had.
pub proof fn law_the_last_answer_stands(
    report: Seq<(Verdict, Seq<char>)>,
    sent: Seq<(Probe, Answer)>,
    probe: Probe,
    at: int,
)
    requires
        report.len() == report::COUNT,
    ensures
        all_recorded(report, sent).len() == report::COUNT,
        0 <= at < sent.len() && sent[at].0 == probe && (forall|j: int|
            at < j < sent.len() ==> (#[trigger] sent[j]).0 != probe) ==> all_recorded(
            report,
            sent,
        )[report::index(probe)] == sent[at].1@,
        (forall|j: int| 0 <= j < sent.len() ==> (#[trigger] sent[j]).0 != probe) ==> all_recorded(
            report,
            sent,
        )[report::index(probe)] == report[report::index(probe)],
    decreases sent.len(),
{
    report::lemma_index(probe);
    if sent.len() > 0 {
        let fewer = sent.drop_last();
        law_the_last_answer_stands(report, fewer, probe, at);
        report::lemma_index(sent.last().0);
        assert(sent[sent.len() - 1] == sent.last());
        if forall|j: int| 0 <= j < sent.len() ==> (#[trigger] sent[j]).0 != probe {
            assert forall|j: int| 0 <= j < fewer.len() implies (#[trigger] fewer[j]).0 != probe by {
                assert(fewer[j] == sent[j]);
            }
        }
        if 0 <= at < sent.len() && sent[at].0 == probe && forall|j: int|
            at < j < sent.len() ==> (#[trigger] sent[j]).0 != probe {
            assert forall|j: int| at < j < fewer.len() implies (#[trigger] fewer[j]).0 != probe by {
                assert(fewer[j] == sent[j]);
            }
            if at < fewer.len() {
                assert(fewer[at] == sent[at]);
            }
        }
    }
}

/// A redirect is a `303` to a path with a query behind a question mark, with no
/// body and no other header.
pub proof fn law_a_redirect_is_only_where_it_leads(
    reply: Response<Vec<u8>>,
    path: Seq<char>,
    encoded: Seq<char>,
    name: Seq<char>,
)
    requires
        is_redirect(reply, path, encoded),
    ensures
        reply.status == 303,
        reply.body@.len() == 0,
        headers::fields(reply.headers).contains_key(name) <==> name == "location"@,
        headers::fields(reply.headers)["location"@] == seq![encode_utf8(path + "?"@ + encoded)],
{
}

/// A path under a name that is no probe's is nothing there is, and nothing is
/// learned from it.
pub proof fn law_a_stranger_answers_for_nothing(
    method: Seq<char>,
    name: Seq<char>,
    rest: Seq<char>,
    action: Action,
    before: Seq<(Verdict, Seq<char>)>,
)
    requires
        ipc_answers(method, "/ipc/"@ + name + "/"@ + rest, action),
        !name.contains('/'),
        forall|probe: Probe| #[trigger] report::id(probe) != name,
    ensures
        action matches Action::Reply(reply) && reply.status == 404 && reply.body@ == encode_utf8(
            "no such route"@,
        ),
        ipc_learned(method, "/ipc/"@ + name + "/"@ + rest, before) == before,
{
    let path = "/ipc/"@ + name + "/"@ + rest;
    reveal_strlit("/ipc/");
    reveal_strlit("/");
    assert(path.take(5) =~= "/ipc/"@);
    assert(path.skip(5) =~= name.push('/') + rest);
    text::law_a_text_comes_apart_at_the_first(name, '/', rest);
    if report::named(name) is Some {
        let probe = report::named(name)->0;
        report::law_only_an_id_names_a_probe(name, probe);
        assert(report::id(probe) != name);
    }
}

/// What each of the other paths is answered: the documents with their policies,
/// the cookies, the words of the ones that only look, and nothing for the rest.
pub proof fn law_each_path_has_its_answer(
    request: Request<Vec<u8>>,
    run: Run,
    now: u64,
    action: Action,
)
    requires
        answers_to(request, run, now, action),
    ensures
        ({
            let path = uri::target_path(request.uri@);
            let get = request.method@ == "GET"@;
            let post = request.method@ == "POST"@;
            &&& get && path == "/"@ ==> (action matches Action::File { path: file, policy }
                && file@ == "/index.html"@ && policy == Policy::Unpoliced)
            &&& get && path == "/csp"@ ==> (action matches Action::File { path: file, policy }
                && file@ == "/csp.html"@ && policy == Policy::Strict)
            &&& post && path == "/form"@ ==> (action matches Action::Reply(reply) && reply.status
                == 200 && reply.body@ == encode_utf8("the form post arrived"@))
            &&& get && (path == "/cookies/echo"@ || path == "/foreign/loaded"@ || path == "/range"@
                || path == "/csp/rendered"@ || path == "/csp/script"@) ==> (
            action matches Action::Reply(reply) && reply.status == 200 && reply.body@
                == encode_utf8("ok"@))
            &&& post && path == "/foreign"@ ==> (action matches Action::Reply(reply)
                && reply.status == 200 && reply.body@ == encode_utf8("ok"@))
            &&& post && path == "/answers"@ ==> action is Answers
            &&& post && path == "/done"@ ==> (action matches Action::Finish(reply) && reply.status
                == 200 && reply.body@ == encode_utf8("ok"@))
            &&& asked(request.method@, path) == Route::Nothing ==> (action matches Action::Reply(
                reply,
            ) && reply.status == 404 && reply.body@ == encode_utf8("no such route"@)
                && headers::fields(reply.headers)["content-type"@] == seq![
                encode_utf8("text/plain; charset=utf-8"@),
            ])
        }),
{
    lemma_routes();
}

/// The cookies that are set cover the shapes there are: a plain one, a secure
/// one, one that is held to its host and one with a same-site rule.
pub proof fn law_every_shape_of_cookie_is_set(
    request: Request<Vec<u8>>,
    run: Run,
    now: u64,
    action: Action,
    name: Seq<char>,
)
    requires
        answers_to(request, run, now, action),
        request.method@ == "GET"@,
        uri::target_path(request.uri@) == "/cookies/set"@,
    ensures
        action matches Action::Reply(reply) && reply.status == 200 && reply.body@ == encode_utf8(
            "the cookies are set"@,
        ) && headers::fields(reply.headers)["set-cookie"@] == seq![
            encode_utf8("probe_plain=1; Path=/"@),
            encode_utf8("probe_secure=1; Path=/; Secure"@),
            encode_utf8("__Host-probe=1; Path=/; Secure"@),
            encode_utf8("probe_lax=1; Path=/; SameSite=Lax"@),
        ] && (headers::fields(reply.headers).contains_key(name) <==> name == "set-cookie"@ || name
            == "content-type"@),
{
    lemma_routes();
}

/// The clock ticks exactly when the page asks for it, and shows how long it has
/// been since the first time.
pub proof fn law_the_clock_ticks_when_asked(
    request: Request<Vec<u8>>,
    before: Clockwork,
    run: Run,
    now: u64,
    action: Action,
)
    requires
        answers_to(request, run, now, action),
    ensures
        ({
            let ticks = request.method@ == "GET"@ && uri::target_path(request.uri@) == "/clock"@;
            let elapsed = clock::since(run.clock.started->0, now);
            &&& clock_after(request, before, now) == (if ticks {
                clock::ticked(before, query_pairs(request.uri@), now)
            } else {
                before
            })
            &&& ticks ==> (action matches Action::Clock(shown) && shown.coarse@
                == clock::coarse_text(elapsed) && shown.fine@ == clock::fine_text(elapsed)
                && clock::readings(shown.stats@) == clock::gauges(run.clock, request.uri@)
                && clock::readings(shown.breakdown@) == clock::burst_lines(run.clock)
                + clock::paced_lines(run.clock))
        }),
{
    lemma_routes();
}

/// The page is shown the report as it stands: each of its answers, the tally and
/// the news.
pub proof fn law_the_page_is_shown_the_report(
    request: Request<Vec<u8>>,
    run: Run,
    now: u64,
    action: Action,
)
    requires
        answers_to(request, run, now, action),
        request.method@ == "GET"@,
        uri::target_path(request.uri@) == "/report"@,
    ensures
        action matches Action::Sheet(sheet) && report::are_rows(sheet.rows@, run.report@)
            && sheet.tally@ == report::tally_text(run.report@) && sheet.news@ == report::news_text(
            run.report@,
        ),
{
    lemma_routes();
}

/// What a digit of a number in base sixteen is worth.
pub open spec fn worth(digit: char) -> int {
    if '0' <= digit <= '9' {
        digit as int - '0' as int
    } else {
        10 + digit as int - 'a' as int
    }
}

/// JSON writes a control character behind a backslash, by a letter or by its
/// number in four digits, a quote and a backslash behind one, and everything else
/// as it is.
pub proof fn law_json_escapes_what_it_has_to(c: char)
    ensures
        ' ' <= c && c != '"' && c != '\\' ==> json_char(c) == seq![c],
        c == '"' || c == '\\' ==> json_char(c) == seq!['\\', c],
        c == '\n' ==> json_char(c) == seq!['\\', 'n'],
        c == '\r' ==> json_char(c) == seq!['\\', 'r'],
        c == '\t' ==> json_char(c) == seq!['\\', 't'],
        c == '\u{8}' ==> json_char(c) == seq!['\\', 'b'],
        c == '\u{c}' ==> json_char(c) == seq!['\\', 'f'],
        !(' ' <= c) ==> json_char(c)[0] == '\\' && (json_char(c).len() == 2 || json_char(c).len()
            == 6),
        json_char(c).len() == 6 ==> json_char(c)[1] == 'u' && worth(json_char(c)[2]) * 4096 + worth(
            json_char(c)[3],
        ) * 256 + worth(json_char(c)[4]) * 16 + worth(json_char(c)[5]) == c as int,
{
    if !(' ' <= c) {
        assert(c as nat / 16 <= 1);
        assert(c as nat % 16 < 16);
    }
}

} // verus!
