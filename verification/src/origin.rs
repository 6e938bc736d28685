//! Origin normalisation: one origin for the server, whatever the platform gave
//! the webview.
//!
//! A custom protocol is reached as `scheme://localhost` on macOS, iOS and
//! Linux, and as `http://scheme.localhost` on Windows and Android, where the
//! webview cannot register a non-standard scheme. The server always sees
//! `https://scheme.localhost`.

use crate::headers;
use crate::message::Request;
use crate::text;
use crate::uri;
use crate::uri::Uri;
use vstd::prelude::*;
use vstd::utf8::*;

verus! {

/// The URL shape a webview gives a custom protocol.
#[derive(Debug, Clone, Copy, PartialEq, Eq, Structural)]
pub enum Platform {
    /// `<scheme>://localhost/...` - macOS, iOS, Linux.
    Scheme,
    /// `http://<scheme>.localhost/...` - Windows and Android, where the
    /// webview rewrites custom schemes onto http.
    HttpSubdomain,
    /// `https://<scheme>.localhost/...` - as `HttpSubdomain`, for a webview
    /// configured to use https for that rewrite.
    HttpsSubdomain,
}

impl Platform {
    /// The shape the webview of an operating system uses, before any https
    /// override. `os` is the system's name as `std::env::consts::OS` spells it.
    pub fn current(os: &str) -> (platform: Platform)
        ensures
            platform == (if os@ == "windows"@ || os@ == "android"@ {
                Platform::HttpSubdomain
            } else {
                Platform::Scheme
            }),
    {
        if text::same(os, "windows") || text::same(os, "android") {
            Platform::HttpSubdomain
        } else {
            Platform::Scheme
        }
    }
}

/// Whether a target is within an origin, given as its scheme and authority.
pub open spec fn within(
    origin: (Seq<char>, Seq<char>),
    uri: (Option<Seq<char>>, Option<Seq<char>>, Option<Seq<char>>),
) -> bool {
    &&& uri.0 is Some
    &&& uri.1 is Some
    &&& text::alike(uri.0->0, origin.0)
    &&& text::alike(uri.1->0, origin.1)
}

/// Whether a text is a URL within an origin.
pub open spec fn covered(origin: (Seq<char>, Seq<char>), url: Seq<char>) -> bool {
    match uri::http_uri(url) {
        Some(uri) => within(origin, uri),
        None => false,
    }
}

/// An origin as an `Origin` header spells it: no trailing slash.
pub open spec fn origin_text(origin: (Seq<char>, Seq<char>)) -> Seq<char> {
    origin.0 + "://"@ + origin.1
}

/// A `scheme://host` origin, compared without regard to ASCII case.
#[derive(Debug)]
pub struct Origin {
    scheme: String,
    authority: String,
}

impl View for Origin {
    type V = (Seq<char>, Seq<char>);

    closed spec fn view(&self) -> (Seq<char>, Seq<char>) {
        (self.scheme@, self.authority@)
    }
}

impl Clone for Origin {
    fn clone(&self) -> (copy: Origin)
        ensures
            copy@ == self@,
    {
        Origin { scheme: self.scheme.clone(), authority: self.authority.clone() }
    }
}

impl PartialEq for Origin {
    fn eq(&self, other: &Origin) -> (equal: bool) {
        text::is_alike(self.scheme.as_str(), other.scheme.as_str()) && text::is_alike(
            self.authority.as_str(),
            other.authority.as_str(),
        )
    }
}

impl Eq for Origin {

}

impl vstd::std_specs::cmp::PartialEqSpecImpl for Origin {
    open spec fn obeys_eq_spec() -> bool {
        true
    }

    open spec fn eq_spec(&self, other: &Origin) -> bool {
        text::alike(self@.0, other@.0) && text::alike(self@.1, other@.1)
    }
}

impl Origin {
    /// The scheme half.
    pub fn scheme(&self) -> (scheme: &str)
        ensures
            scheme@ == self@.0,
    {
        self.scheme.as_str()
    }

    /// The authority half, which for every origin here is a bare host.
    pub fn authority(&self) -> (authority: &str)
        ensures
            authority@ == self@.1,
    {
        self.authority.as_str()
    }

    /// Whether `url` is a URL within this origin.
    ///
    /// Parsed and not prefix-matched: `topcoat://localhost.evil.example` begins
    /// with `topcoat://localhost` and belongs to somebody else. Anything naming
    /// no origin - a relative reference, a `data:` document - is not in one.
    pub fn covers(&self, url: &str) -> (covers: bool)
        ensures
            covers == covered(self@, url@),
            forall|scheme: Seq<char>, authority: Seq<char>, tail: Seq<char>|
                #[trigger] uri::plain_url(url@, scheme, authority, tail) ==> covers == (text::alike(
                    scheme,
                    self@.0,
                ) && text::alike(authority, self@.1)),
            uri::plain_path(url@) ==> !covers,
    {
        match Uri::parse(url) {
            Some(uri) => self.holds(&uri),
            None => false,
        }
    }

    /// The same question, already parsed.
    pub fn holds(&self, uri: &Uri) -> (holds: bool)
        ensures
            holds == within(self@, uri@),
    {
        match (&uri.scheme, &uri.authority) {
            (Some(scheme), Some(authority)) => text::is_alike(
                scheme.as_str(),
                self.scheme.as_str(),
            ) && text::is_alike(authority.as_str(), self.authority.as_str()),
            _ => false,
        }
    }

    /// This origin with `path_and_query` on the end.
    fn join(&self, path_and_query: String) -> (uri: Uri)
        ensures
            uri@ == (Some(self@.0), Some(self@.1), Some(path_and_query@)),
    {
        Uri {
            scheme: Some(self.scheme.clone()),
            authority: Some(self.authority.clone()),
            path_and_query: Some(path_and_query),
        }
    }

    /// `scheme://host`, as an `Origin` header spells one.
    pub fn text(&self) -> (text: String)
        ensures
            text@ == origin_text(self@),
    {
        let mut text = self.scheme.clone();
        text.append("://");
        text.append(self.authority.as_str());
        text
    }
}

/// The octets a DNS label may be.
///
/// Shorter than the 64 that `http` allows a scheme, so it is the rule both are
/// held to.
pub const MAX_LABEL: usize = 63;

/// A letter or a digit of ASCII.
pub open spec fn alphanumeric(c: char) -> bool {
    'a' <= c <= 'z' || 'A' <= c <= 'Z' || '0' <= c <= '9'
}

/// Whether a name works as both a URL scheme and a DNS label: an ASCII letter,
/// then letters, digits and hyphens, with no hyphen at the end and at most 63
/// of them in all.
pub open spec fn usable_scheme(scheme: Seq<char>) -> bool {
    &&& 1 <= scheme.len() <= MAX_LABEL
    &&& 'a' <= scheme[0] <= 'z' || 'A' <= scheme[0] <= 'Z'
    &&& forall|i: int|
        0 <= i < scheme.len() ==> alphanumeric(#[trigger] scheme[i]) || scheme[i] == '-'
    &&& scheme.last() != '-'
}

/// Whether a name works as both a URL scheme and a DNS label.
pub fn is_usable_scheme(scheme: &str) -> (usable: bool)
    ensures
        usable == usable_scheme(scheme@),
{
    let chars = text::chars_of(scheme);
    if chars.len() == 0 || chars.len() > MAX_LABEL {
        return false;
    }
    let first: char = chars[0];
    if !(('a' <= first && first <= 'z') || ('A' <= first && first <= 'Z')) {
        return false;
    }
    let mut at: usize = 0;
    while at < chars.len()
        invariant
            at <= chars@.len(),
            chars@ == scheme@,
            forall|i: int|
                0 <= i < at ==> alphanumeric(#[trigger] chars@[i]) || chars@[i] == '-',
        decreases chars.len() - at,
    {
        let c: char = chars[at];
        if !(('a' <= c && c <= 'z') || ('A' <= c && c <= 'Z') || ('0' <= c && c <= '9') || c
            == '-') {
            return false;
        }
        at = at + 1;
    }
    chars[chars.len() - 1] != '-'
}

/// The canonical origin of a protocol whose scheme is `label` in lower case:
/// the same on every platform.
pub open spec fn canonical_origin(label: Seq<char>) -> (Seq<char>, Seq<char>) {
    ("https"@, label + ".localhost"@)
}

/// The origin a webview gives a protocol whose scheme is `label` in lower case.
pub open spec fn platform_origin(label: Seq<char>, platform: Platform) -> (Seq<char>, Seq<char>) {
    match platform {
        Platform::Scheme => (label, "localhost"@),
        Platform::HttpSubdomain => ("http"@, label + ".localhost"@),
        Platform::HttpsSubdomain => canonical_origin(label),
    }
}

/// A protocol scheme that could not be turned into an origin pair.
#[derive(Debug, PartialEq, Eq)]
pub enum OriginError {
    /// The scheme name is not usable as both a URL scheme and a DNS label.
    ///
    /// On Windows and Android the scheme becomes the first label of
    /// `<scheme>.localhost`, so it is held to the stricter of the two rules.
    InvalidScheme {
        /// The scheme as given.
        scheme: String,
    },
}

impl Clone for OriginError {
    fn clone(&self) -> (copy: OriginError)
        ensures
            copy == *self,
    {
        match self {
            OriginError::InvalidScheme { scheme } => OriginError::InvalidScheme {
                scheme: scheme.clone(),
            },
        }
    }
}

/// What is wrong with a scheme, and what would be right.
pub open spec fn origin_error_text(error: OriginError) -> Seq<char> {
    "`"@ + error->scheme@
        + "` is not a usable protocol scheme: it must start with an ASCII letter, contain only ASCII letters, digits, and hyphens, and be at most 63 characters"@
}

impl OriginError {
    /// What is wrong with the scheme, and what would be right.
    pub fn message(&self) -> (message: String)
        ensures
            message@ == origin_error_text(*self),
    {
        match self {
            OriginError::InvalidScheme { scheme } => {
                let mut message = "`".to_owned();
                message.append(scheme.as_str());
                message.append(
                    "` is not a usable protocol scheme: it must start with an ASCII letter, contain only ASCII letters, digits, and hyphens, and be at most 63 characters",
                );
                message
            },
        }
    }
}

/// Why a request was refused before the server saw it.
///
/// A refusal becomes a `403` body and a log line, so the fields are an address
/// and nothing else: there is none a path or a query could arrive in. Two
/// addresses are compared without regard to ASCII case.
#[derive(Debug)]
pub enum Denial {
    /// The URL was not for the origin this protocol serves.
    ForeignAuthority {
        /// The scheme, where there was one; a host alone names none.
        scheme: Option<String>,
        /// The authority the request named.
        authority: String,
    },
    /// The canonical URL could not be rebuilt from its validated parts.
    MalformedUri,
}

/// What a refusal says.
pub open spec fn denial_text(denial: Denial) -> Seq<char> {
    match denial {
        Denial::ForeignAuthority { scheme: Some(scheme), authority } => "`"@ + scheme@ + "://"@
            + authority@ + "` is not the origin this protocol serves"@,
        Denial::ForeignAuthority { scheme: None, authority } => "`"@ + authority@
            + "` is not the origin this protocol serves"@,
        Denial::MalformedUri => "the canonical URL could not be built"@,
    }
}

/// Whether two optional texts are both absent, or alike but for their case.
pub open spec fn alike_or_none(left: Option<Seq<char>>, right: Option<Seq<char>>) -> bool {
    match (left, right) {
        (Some(left), Some(right)) => text::alike(left, right),
        (None, None) => true,
        _ => false,
    }
}

impl PartialEq for Denial {
    fn eq(&self, other: &Denial) -> (equal: bool) {
        match (self, other) {
            (
                Denial::ForeignAuthority { scheme, authority },
                Denial::ForeignAuthority { scheme: other_scheme, authority: other_authority },
            ) => {
                let same_scheme = match (scheme, other_scheme) {
                    (Some(scheme), Some(other)) => text::is_alike(scheme.as_str(), other.as_str()),
                    (None, None) => true,
                    _ => false,
                };
                same_scheme && text::is_alike(authority.as_str(), other_authority.as_str())
            },
            (Denial::MalformedUri, Denial::MalformedUri) => true,
            _ => false,
        }
    }
}

impl Eq for Denial {

}

impl vstd::std_specs::cmp::PartialEqSpecImpl for Denial {
    open spec fn obeys_eq_spec() -> bool {
        true
    }

    open spec fn eq_spec(&self, other: &Denial) -> bool {
        match (*self, *other) {
            (
                Denial::ForeignAuthority { scheme, authority },
                Denial::ForeignAuthority { scheme: other_scheme, authority: other_authority },
            ) => alike_or_none(text::text_or_none(scheme), text::text_or_none(other_scheme))
                && text::alike(authority@, other_authority@),
            (Denial::MalformedUri, Denial::MalformedUri) => true,
            _ => false,
        }
    }
}

impl Clone for Denial {
    fn clone(&self) -> (copy: Denial)
        ensures
            copy == *self,
    {
        match self {
            Denial::ForeignAuthority { scheme, authority } => Denial::ForeignAuthority {
                scheme: match scheme {
                    Some(scheme) => Some(scheme.clone()),
                    None => None,
                },
                authority: authority.clone(),
            },
            Denial::MalformedUri => Denial::MalformedUri,
        }
    }
}

impl Denial {
    /// What the refusal says: the address that was asked for, and no more.
    pub fn message(&self) -> (message: String)
        ensures
            message@ == denial_text(*self),
    {
        match self {
            Denial::ForeignAuthority { scheme, authority } => {
                let mut message = "`".to_owned();
                if let Some(scheme) = scheme {
                    message.append(scheme.as_str());
                    message.append("://");
                }
                message.append(authority.as_str());
                message.append("` is not the origin this protocol serves");
                message
            },
            Denial::MalformedUri => "the canonical URL could not be built".to_owned(),
        }
    }
}

/// The pair of origins a custom protocol lives between, and the sole entry
/// point for turning a webview request into one the server may serve.
#[derive(Debug)]
pub struct Origins {
    canonical: Origin,
    platform: Origin,
}

impl View for Origins {
    type V = ((Seq<char>, Seq<char>), (Seq<char>, Seq<char>));

    /// The canonical origin and the platform's.
    closed spec fn view(&self) -> ((Seq<char>, Seq<char>), (Seq<char>, Seq<char>)) {
        (self.canonical@, self.platform@)
    }
}

impl Clone for Origins {
    fn clone(&self) -> (copy: Origins)
        ensures
            copy@ == self@,
    {
        proof {
            use_type_invariant(self);
        }
        Origins { canonical: self.canonical.clone(), platform: self.platform.clone() }
    }
}

/// Whether an origin is made of a plain scheme and a plain host, neither long.
pub open spec fn plain_origin(origin: (Seq<char>, Seq<char>)) -> bool {
    &&& uri::plain_scheme(origin.0)
    &&& uri::plain_host(origin.1)
    &&& origin.1.len() <= 73
}

impl Origins {
    #[verifier::type_invariant]
    spec fn plain(self) -> bool {
        plain_origin(self.canonical@) && plain_origin(self.platform@)
    }

    /// Builds the origin pair for a protocol named `scheme` on `platform`.
    ///
    /// # Errors
    ///
    /// [`OriginError::InvalidScheme`] if the name cannot serve as both a URL
    /// scheme and a DNS label.
    pub fn new(scheme: &str, platform: Platform) -> (result: Result<Origins, OriginError>)
        ensures
            match result {
                Ok(origins) => usable_scheme(scheme@) && origins@ == (
                    canonical_origin(text::lowered(scheme@)),
                    platform_origin(text::lowered(scheme@), platform),
                ),
                Err(error) => !usable_scheme(scheme@) && error->scheme@ == scheme@,
            },
            result matches Ok(origins) ==> {
                let label = text::lowered(scheme@);
                &&& origins@.0 == ("https"@, label + ".localhost"@)
                &&& platform == Platform::Scheme ==> origins@.1 == (label, "localhost"@)
                &&& platform == Platform::HttpSubdomain ==> origins@.1 == (
                    "http"@,
                    label + ".localhost"@,
                )
                &&& platform == Platform::HttpsSubdomain ==> origins@.1 == origins@.0
            },
    {
        match Origins::build(scheme, platform) {
            Some(origins) => Ok(origins),
            None => Err(OriginError::InvalidScheme { scheme: scheme.to_owned() }),
        }
    }

    /// The pair, or nothing for a name that cannot make one.
    fn build(scheme: &str, platform: Platform) -> (origins: Option<Origins>)
        ensures
            origins is Some <==> usable_scheme(scheme@),
            origins is Some ==> origins->0@ == (
                canonical_origin(text::lowered(scheme@)),
                platform_origin(text::lowered(scheme@), platform),
            ),
    {
        if !is_usable_scheme(scheme) {
            return None;
        }
        let label = text::to_lowered(scheme);
        let mut host = label.clone();
        host.append(".localhost");
        proof {
            reveal_strlit("https");
            reveal_strlit("http");
            reveal_strlit("localhost");
            reveal_strlit(".localhost");
            assert forall|i: int| 0 <= i < label@.len() implies 'a' <= #[trigger] label@[i] <= 'z'
                || '0' <= label@[i] <= '9' || label@[i] == '-' by {
                assert(alphanumeric(scheme@[i]) || scheme@[i] == '-');
            }
            assert(label@[0] == text::lower(scheme@[0]));
            assert(uri::plain_scheme(label@));
            assert forall|i: int| 0 <= i < host@.len() implies 'a' <= #[trigger] host@[i] <= 'z'
                || 'A' <= host@[i] <= 'Z' || '0' <= host@[i] <= '9' || host@[i] == '.' || host@[i]
                == '-' by {
                if i < label@.len() {
                    assert(host@[i] == label@[i]);
                } else {
                    assert(host@[i] == ".localhost"@[i - label@.len()]);
                }
            }
        }
        let canonical = Origin { scheme: "https".to_owned(), authority: host.clone() };
        let spoken = match platform {
            Platform::Scheme => Origin { scheme: label, authority: "localhost".to_owned() },
            Platform::HttpSubdomain => Origin { scheme: "http".to_owned(), authority: host },
            Platform::HttpsSubdomain => Origin { scheme: "https".to_owned(), authority: host },
        };
        Some(Origins { canonical, platform: spoken })
    }

    /// The origin the server sees, on every platform.
    pub fn canonical(&self) -> (origin: &Origin)
        ensures
            origin@ == self@.0,
    {
        &self.canonical
    }

    /// The origin the webview speaks on this platform.
    pub fn platform(&self) -> (origin: &Origin)
        ensures
            origin@ == self@.1,
    {
        &self.platform
    }

    /// Whether `url` names the origin this protocol serves.
    ///
    /// The shell uses this to refuse, at startup, an application whose public
    /// base URL is our own canonical origin: absolute URLs built from it would
    /// escape the protocol and be fetched for real.
    pub fn collides_with(&self, url: &str) -> (collides: bool)
        ensures
            collides == (covered(self@.0, url@) || covered(self@.1, url@)),
            forall|scheme: Seq<char>, authority: Seq<char>, tail: Seq<char>|
                #[trigger] uri::plain_url(url@, scheme, authority, tail) ==> collides == (within(
                    self@.0,
                    (Some(scheme), Some(authority), None),
                ) || within(self@.1, (Some(scheme), Some(authority), None))),
    {
        self.canonical.covers(url) || self.platform.covers(url)
    }
}

/// Headers that describe a connection rather than a message. A custom protocol
/// has no connection to describe.
pub open spec fn hop_by_hop(name: Seq<char>) -> bool {
    ||| name == headers::CONNECTION@
    ||| name == headers::PROXY_AUTHENTICATE@
    ||| name == headers::PROXY_AUTHORIZATION@
    ||| name == headers::TE@
    ||| name == headers::TRAILER@
    ||| name == headers::TRANSFER_ENCODING@
    ||| name == headers::UPGRADE@
}

/// Headers a `Connection` may not name away.
///
/// Dropping one is normally fail-safe; for these three it is the opposite,
/// since a request arriving with no `Origin` is one a server passes.
pub open spec fn decides_admission(name: Seq<char>) -> bool {
    name == headers::HOST@ || name == headers::ORIGIN@ || name == headers::REFERER@
}

/// The comma-separated pieces of the values that are text, in their order.
pub open spec fn pieces(values: Seq<Seq<u8>>) -> Seq<Seq<char>>
    decreases values.len(),
{
    if values.len() == 0 {
        seq![]
    } else {
        pieces(values.drop_last()) + match headers::visible(values.last()) {
            Some(text) => text::split(text, ','),
            None => seq![],
        }
    }
}

/// Whether one of the pieces names a header, and not one that decides
/// admission.
pub open spec fn named(pieces: Seq<Seq<char>>, name: Seq<char>) -> bool {
    !decides_admission(name) && exists|i: int|
        0 <= i < pieces.len() && headers::header_name(text::trimmed(#[trigger] pieces[i])) == Some(
            name,
        )
}

/// The values under a name, of which there may be none.
pub open spec fn values(fields: Map<Seq<char>, Seq<Seq<u8>>>, name: Seq<char>) -> Seq<Seq<u8>> {
    if fields.contains_key(name) {
        fields[name]
    } else {
        seq![]
    }
}

/// The headers of one hop: the fixed ones, and those that a `Connection` names.
pub open spec fn of_this_hop(fields: Map<Seq<char>, Seq<Seq<u8>>>, name: Seq<char>) -> bool {
    hop_by_hop(name) || named(pieces(values(fields, headers::CONNECTION@)), name)
}

/// The comma-separated pieces of the values that are text, in their order.
fn to_pieces(values: &Vec<Vec<u8>>) -> (result: Vec<String>)
    ensures
        text::texts(result@) == pieces(values@.map_values(|value: Vec<u8>| value@)),
{
    let mut result: Vec<String> = Vec::new();
    let mut at: usize = 0;
    let ghost all = values@.map_values(|value: Vec<u8>| value@);
    proof {
        assert(text::texts(result@) =~= pieces(all.take(0)));
    }
    while at < values.len()
        invariant
            at <= values@.len(),
            all == values@.map_values(|value: Vec<u8>| value@),
            text::texts(result@) == pieces(all.take(at as int)),
        decreases values.len() - at,
    {
        let ghost before = text::texts(result@);
        proof {
            assert(all.take(at + 1).drop_last() =~= all.take(at as int));
            assert(all.take(at + 1).last() == values@[at as int]@);
        }
        if let Some(text) = headers::visible_text(values[at].as_slice()) {
            let mut more = text::split_at_each(text.as_str(), ',');
            let ghost added = text::texts(more@);
            result.append(&mut more);
            proof {
                assert(text::texts(result@) =~= before + added);
            }
        } else {
            proof {
                assert(before + Seq::<Seq<char>>::empty() =~= before);
            }
        }
        at = at + 1;
    }
    proof {
        assert(all.take(at as int) =~= all);
    }
    result
}

/// Removes the headers that describe a connection rather than a message.
///
/// `Connection` names further ones - RFC 7230 6.1 - so what it names goes with
/// it, less anything that decides admission.
fn remove_hop_by_hop(map: &mut http::HeaderMap)
    ensures
        headers::fields(*final(map)) == headers::fields(*old(map)).remove_keys(
            Set::new(|name: Seq<char>| of_this_hop(headers::fields(*old(map)), name)),
        ),
{
    proof {
        headers::lemma_names();
    }
    let ghost before = headers::fields(*map);
    let listed = headers::get_all(map, headers::CONNECTION);
    let tokens = to_pieces(&listed);
    let ghost all = text::texts(tokens@);
    proof {
        assert(all =~= pieces(values(before, headers::CONNECTION@)));
        assert(before.remove_keys(Set::new(|name: Seq<char>| named(all.take(0), name)))
            =~= before);
    }
    let mut at: usize = 0;
    while at < tokens.len()
        invariant
            at <= tokens@.len(),
            all == text::texts(tokens@),
            headers::fields(*map) == before.remove_keys(
                Set::new(|name: Seq<char>| named(all.take(at as int), name)),
            ),
        decreases tokens.len() - at,
    {
        let trimmed = text::trim(tokens[at].as_str());
        let found = headers::parse_name(trimmed.as_str());
        let ghost earlier = all.take(at as int);
        let ghost now = all.take(at + 1);
        proof {
            assert(now =~= earlier.push(all[at as int]));
            assert(now[at as int] == tokens@[at as int]@);
            assert forall|name: Seq<char>| #[trigger] named(now, name) == (named(earlier, name) || (
            text::text_or_none(found) == Some(name) && !decides_admission(name))) by {
                if named(now, name) {
                    let i = choose|i: int|
                        0 <= i < now.len() && headers::header_name(
                            text::trimmed(#[trigger] now[i]),
                        ) == Some(name);
                    if i < at {
                        assert(earlier[i] == now[i]);
                    }
                }
                if named(earlier, name) {
                    let i = choose|i: int|
                        0 <= i < earlier.len() && headers::header_name(
                            text::trimmed(#[trigger] earlier[i]),
                        ) == Some(name);
                    assert(now[i] == earlier[i]);
                }
            }
        }
        let ghost same = Set::new(|name: Seq<char>| named(earlier, name));
        let ghost more = Set::new(|name: Seq<char>| named(now, name));
        match found {
            Some(name) => {
                if text::same(name.as_str(), headers::HOST) || text::same(
                    name.as_str(),
                    headers::ORIGIN,
                ) || text::same(name.as_str(), headers::REFERER) {
                    proof {
                        assert(same =~= more);
                    }
                } else {
                    proof {
                        headers::lemma_lowered_name(trimmed@);
                    }
                    headers::remove(map, name.as_str());
                    proof {
                        assert(before.remove_keys(same).remove(name@) =~= before.remove_keys(more));
                    }
                }
            },
            None => {
                proof {
                    assert(same =~= more);
                }
            },
        }
        at = at + 1;
    }
    proof {
        assert(all.take(at as int) =~= all);
    }
    headers::remove(map, headers::CONNECTION);
    headers::remove(map, headers::PROXY_AUTHENTICATE);
    headers::remove(map, headers::PROXY_AUTHORIZATION);
    headers::remove(map, headers::TE);
    headers::remove(map, headers::TRAILER);
    headers::remove(map, headers::TRANSFER_ENCODING);
    headers::remove(map, headers::UPGRADE);
    proof {
        assert(headers::fields(*map) =~= before.remove_keys(
            Set::new(|name: Seq<char>| of_this_hop(before, name)),
        ));
    }
}

/// Whether a header value is a URL on the origin the webview speaks.
pub open spec fn ours(platform: (Seq<char>, Seq<char>), value: Option<Seq<u8>>) -> bool {
    match value {
        Some(value) => match headers::visible(value) {
            Some(text) => covered(platform, text),
            None => false,
        },
        None => false,
    }
}

/// A target's path and query on the canonical origin, if a header may hold it.
pub open spec fn on_canonical(
    canonical: (Seq<char>, Seq<char>),
    path_and_query: Option<Seq<char>>,
) -> Option<Seq<u8>> {
    match path_and_query {
        Some(target) => {
            let url = encode_utf8(uri::written((Some(canonical.0), Some(canonical.1), Some(target))));
            if headers::valid_value(url) {
                Some(url)
            } else {
                None
            }
        },
        None => None,
    }
}

/// A URL moved from the platform origin onto the canonical one, or nothing if
/// it was never ours to move.
pub open spec fn rebased(
    canonical: (Seq<char>, Seq<char>),
    platform: (Seq<char>, Seq<char>),
    value: Option<Seq<u8>>,
) -> Option<Seq<u8>> {
    match value {
        Some(value) => match headers::visible(value) {
            Some(text) => match uri::http_uri(text) {
                Some(target) => if within(platform, target) {
                    on_canonical(canonical, target.2)
                } else {
                    None
                },
                None => None,
            },
            None => None,
        },
        None => None,
    }
}

/// The headers an admitted request leaves without: `Accept-Encoding`, the
/// credentials a client attaches by itself, and those of this hop.
///
/// `Authorization` is deliberately not here: a document sets it explicitly and
/// a cross-origin attacker cannot.
pub open spec fn dropped(fields: Map<Seq<char>, Seq<Seq<u8>>>, name: Seq<char>) -> bool {
    ||| name == headers::ACCEPT_ENCODING@
    ||| name == headers::COOKIE@
    ||| of_this_hop(fields, name)
}

/// An `Origin` moved onto the canonical origin where it is ours, and left alone
/// where it is not. It carries no path, so ours is replaced outright.
pub open spec fn moved_origin(
    origins: ((Seq<char>, Seq<char>), (Seq<char>, Seq<char>)),
    value: Seq<u8>,
) -> Seq<u8> {
    if ours(origins.1, Some(value)) {
        encode_utf8(origin_text(origins.0))
    } else {
        value
    }
}

/// A `Referer` moved onto the canonical origin where it is ours, and left alone
/// where it is not.
pub open spec fn moved_referer(
    origins: ((Seq<char>, Seq<char>), (Seq<char>, Seq<char>)),
    value: Seq<u8>,
) -> Seq<u8> {
    match rebased(origins.0, origins.1, Some(value)) {
        Some(url) => url,
        None => value,
    }
}

/// Fields with every value under a name moved, each in its place.
pub open spec fn each_moved(
    fields: Map<Seq<char>, Seq<Seq<u8>>>,
    name: Seq<char>,
    moved: spec_fn(Seq<u8>) -> Seq<u8>,
) -> Map<Seq<char>, Seq<Seq<u8>>> {
    if fields.contains_key(name) {
        fields.insert(name, fields[name].map_values(moved))
    } else {
        fields
    }
}

/// The header fields an admitted request leaves with.
///
/// `Host` is set. Every `Origin` and every `Referer` is moved onto the canonical
/// origin where it was ours to begin with, and is left alone where it was not.
/// What is dropped is gone, and every other field stays as it was.
pub open spec fn rewritten(
    origins: ((Seq<char>, Seq<char>), (Seq<char>, Seq<char>)),
    fields: Map<Seq<char>, Seq<Seq<u8>>>,
) -> Map<Seq<char>, Seq<Seq<u8>>> {
    let hosted = fields.insert(headers::HOST@, seq![encode_utf8(origins.0.1)]);
    let claimed = each_moved(
        hosted,
        headers::ORIGIN@,
        |value: Seq<u8>| moved_origin(origins, value),
    );
    let referred = each_moved(
        claimed,
        headers::REFERER@,
        |value: Seq<u8>| moved_referer(origins, value),
    );
    referred.remove_keys(Set::new(|name: Seq<char>| dropped(fields, name)))
}

/// Whether an `Origin` that is a plain URL was moved onto the canonical origin
/// where its scheme and authority are the platform's, and left alone where they are
/// not.
pub open spec fn moves_origin(
    origins: ((Seq<char>, Seq<char>), (Seq<char>, Seq<char>)),
    before: Seq<u8>,
    after: Seq<u8>,
) -> bool {
    forall|scheme: Seq<char>, authority: Seq<char>, tail: Seq<char>, url: Seq<char>| #[trigger]
        uri::plain_url(url, scheme, authority, tail) && headers::visible(before) == Some(url) ==> after
            == (if text::alike(scheme, origins.1.0) && text::alike(authority, origins.1.1) {
            encode_utf8(origin_text(origins.0))
        } else {
            before
        })
}

/// Whether a `Referer` that is a plain URL was moved onto the canonical origin
/// where its scheme and authority are the platform's, and left alone where they are
/// not.
pub open spec fn moves_referer(
    origins: ((Seq<char>, Seq<char>), (Seq<char>, Seq<char>)),
    before: Seq<u8>,
    after: Seq<u8>,
) -> bool {
    forall|scheme: Seq<char>, authority: Seq<char>, tail: Seq<char>, url: Seq<char>| #[trigger]
        uri::plain_url(url, scheme, authority, tail) && headers::visible(before) == Some(url) ==> after
            == (if text::alike(scheme, origins.1.0) && text::alike(authority, origins.1.1) {
            encode_utf8(origin_text(origins.0) + uri::tail_path(tail))
        } else {
            before
        })
}

/// Whether every `Origin` and every `Referer` that is a plain URL was moved
/// where it is ours and left alone where it is not, each in its place.
pub open spec fn moves_own(
    origins: ((Seq<char>, Seq<char>), (Seq<char>, Seq<char>)),
    before: Map<Seq<char>, Seq<Seq<u8>>>,
    after: Map<Seq<char>, Seq<Seq<u8>>>,
) -> bool {
    &&& values(before, headers::ORIGIN@).len() == values(after, headers::ORIGIN@).len()
    &&& values(before, headers::REFERER@).len() == values(after, headers::REFERER@).len()
    &&& forall|i: int|
        0 <= i < values(before, headers::ORIGIN@).len() ==> #[trigger] moves_origin(
            origins,
            values(before, headers::ORIGIN@)[i],
            values(after, headers::ORIGIN@)[i],
        )
    &&& forall|i: int|
        0 <= i < values(before, headers::REFERER@).len() ==> #[trigger] moves_referer(
            origins,
            values(before, headers::REFERER@)[i],
            values(after, headers::REFERER@)[i],
        )
}

/// The names that decide admission differ from one another and from every name
/// that is dropped.
proof fn lemma_admission(fields: Map<Seq<char>, Seq<Seq<u8>>>)
    ensures
        headers::HOST@ != headers::ORIGIN@,
        headers::HOST@ != headers::REFERER@,
        headers::ORIGIN@ != headers::REFERER@,
        headers::CONNECTION@ != headers::HOST@,
        headers::CONNECTION@ != headers::ORIGIN@,
        headers::CONNECTION@ != headers::REFERER@,
        headers::CONNECTION@ != headers::ACCEPT_ENCODING@,
        headers::CONNECTION@ != headers::COOKIE@,
        forall|name: Seq<char>| decides_admission(name) ==> !#[trigger] dropped(fields, name),
{
    reveal_strlit("host");
    reveal_strlit("origin");
    reveal_strlit("referer");
    reveal_strlit("accept-encoding");
    reveal_strlit("cookie");
    reveal_strlit("connection");
    reveal_strlit("proxy-authenticate");
    reveal_strlit("proxy-authorization");
    reveal_strlit("te");
    reveal_strlit("trailer");
    reveal_strlit("transfer-encoding");
    reveal_strlit("upgrade");
    assert("host"@[0] != "origin"@[0]);
    assert("host"@[0] != "referer"@[0]);
    assert("origin"@[0] != "referer"@[0]);
    assert("referer"@[0] != "trailer"@[0]);
    assert("referer"@[0] != "upgrade"@[0]);
    assert("origin"@[0] != "cookie"@[0]);
    assert("connection"@.len() != "cookie"@.len());
    assert("connection"@.len() != "accept-encoding"@.len());
}

impl Origins {
    /// An `Origin` moved onto the canonical origin where it is ours, and left
    /// alone where it is not.
    fn move_origin(&self, value: &Vec<u8>) -> (moved: Vec<u8>)
        ensures
            moved@ == moved_origin(self@, value@),
            moves_origin(self@, value@, moved@),
            headers::valid_value(value@) ==> headers::valid_value(moved@),
    {
        proof {
            use_type_invariant(self);
            reveal_strlit("://");
            headers::lemma_printable(origin_text(self@.0));
        }
        let ours = match headers::visible_text(value.as_slice()) {
            Some(text) => self.platform.covers(text.as_str()),
            None => false,
        };
        if ours {
            self.canonical.text().as_str().as_bytes_vec()
        } else {
            let kept = value.clone();
            proof {
                assert(kept@ =~= value@);
            }
            kept
        }
    }

    /// A `Referer` moved onto the canonical origin where it is ours, and left
    /// alone where it is not.
    fn move_referer(&self, value: &Vec<u8>) -> (moved: Vec<u8>)
        ensures
            moved@ == moved_referer(self@, value@),
            moves_referer(self@, value@, moved@),
            headers::valid_value(value@) ==> headers::valid_value(moved@),
    {
        match self.rebase(value) {
            Some(url) => url,
            None => {
                let kept = value.clone();
                proof {
                    assert(kept@ =~= value@);
                }
                kept
            },
        }
    }

    /// Moves a URL from the platform origin onto the canonical one, or nothing
    /// if it was never ours to move.
    fn rebase(&self, value: &Vec<u8>) -> (result: Option<Vec<u8>>)
        ensures
            headers::bytes_or_none(result) == rebased(self@.0, self@.1, Some(value@)),
            result is Some ==> headers::valid_value(result->0@),
            forall|scheme: Seq<char>, authority: Seq<char>, tail: Seq<char>, url: Seq<char>|
                headers::visible(value@) == Some(url) && #[trigger] uri::plain_url(
                    url,
                    scheme,
                    authority,
                    tail,
                ) ==> headers::bytes_or_none(result) == (if text::alike(scheme, self@.1.0)
                    && text::alike(authority, self@.1.1) {
                    Some(encode_utf8(origin_text(self@.0) + uri::tail_path(tail)))
                } else {
                    None
                }),
    {
        proof {
            use_type_invariant(self);
            assert forall|scheme: Seq<char>, authority: Seq<char>, tail: Seq<char>, url: Seq<char>|
                #[trigger] uri::plain_url(url, scheme, authority, tail) implies on_canonical(
                self@.0,
                Some(uri::tail_path(tail)),
            ) == Some(encode_utf8(origin_text(self@.0) + uri::tail_path(tail))) by {
                self.lemma_page(scheme, authority, tail, url);
            }
        }
        let text = match headers::visible_text(value.as_slice()) {
            Some(text) => text,
            None => return None,
        };
        match Uri::parse(text.as_str()) {
            Some(target) => self.rebase_target(&target),
            None => None,
        }
    }

    /// The same move, already parsed.
    pub fn rebase_target(&self, target: &Uri) -> (result: Option<Vec<u8>>)
        ensures
            headers::bytes_or_none(result) == (if within(self@.1, target@) {
                on_canonical(self@.0, target@.2)
            } else {
                None
            }),
    {
        if !self.platform.holds(target) {
            return None;
        }
        let path_and_query = match &target.path_and_query {
            Some(path_and_query) => path_and_query.clone(),
            None => return None,
        };
        let moved = self.canonical.join(path_and_query).text();
        let bytes = moved.as_str().as_bytes_vec();
        if headers::is_value(bytes.as_slice()) {
            Some(bytes)
        } else {
            None
        }
    }

    /// The canonical URL of a plain page is a header value: the origin's text
    /// with the page's path on the end.
    proof fn lemma_page(self, scheme: Seq<char>, authority: Seq<char>, tail: Seq<char>, url: Seq<char>)
        requires
            self.plain(),
            uri::plain_url(url, scheme, authority, tail),
        ensures
            on_canonical(self@.0, Some(uri::tail_path(tail))) == Some(
                encode_utf8(origin_text(self@.0) + uri::tail_path(tail)),
            ),
    {
        let path = uri::tail_path(tail);
        uri::lemma_tail_path(tail);
        reveal_strlit("/");
        reveal_strlit("://");
        uri::lemma_written(self@.0.0, self@.0.1, path);
        let page = origin_text(self@.0) + path;
        assert(page =~= self@.0.0 + "://"@ + self@.0.1 + path);
        assert(headers::printable(self@.0.0));
        assert(headers::printable(self@.0.1));
        assert(headers::printable(path));
        assert(headers::printable(page));
        headers::lemma_printable(page);
    }

    /// Moves every `Origin` of a request onto the canonical origin where it is
    /// ours, if the map takes it.
    fn try_move_origins(&self, map: &mut http::HeaderMap) -> (taken: bool)
        ensures
            headers::roomy(headers::fields(*old(map))) ==> taken,
            taken ==> headers::fields(*final(map)) == each_moved(
                headers::fields(*old(map)),
                headers::ORIGIN@,
                |value: Seq<u8>| moved_origin(self@, value),
            ),
            taken ==> forall|i: int|
                0 <= i < values(headers::fields(*old(map)), headers::ORIGIN@).len() ==> #[trigger] moves_origin(
                    self@,
                    values(headers::fields(*old(map)), headers::ORIGIN@)[i],
                    values(headers::fields(*final(map)), headers::ORIGIN@)[i],
                ),
    {
        proof {
            headers::lemma_names();
        }
        let claims = headers::get_all(map, headers::ORIGIN);
        let ghost before = values(headers::fields(*map), headers::ORIGIN@);
        proof {
            assert(headers::bytes_of(claims@) =~= before);
        }
        if claims.len() == 0 {
            return true;
        }
        let mut moved: Vec<Vec<u8>> = Vec::new();
        let mut at: usize = 0;
        while at < claims.len()
            invariant
                at <= claims@.len(),
                moved@.len() == at,
                before == headers::bytes_of(claims@),
                forall|i: int|
                    0 <= i < claims@.len() ==> headers::valid_value(#[trigger] claims@[i]@),
                forall|i: int|
                    0 <= i < at ==> headers::valid_value(#[trigger] moved@[i]@) && moved@[i]@
                        == moved_origin(self@, before[i]) && moves_origin(
                        self@,
                        before[i],
                        moved@[i]@,
                    ),
            decreases claims.len() - at,
        {
            moved.push(self.move_origin(&claims[at]));
            at = at + 1;
        }
        proof {
            assert(headers::bytes_of(moved@) =~= before.map_values(
                |value: Seq<u8>| moved_origin(self@, value),
            ));
        }
        let taken = headers::try_replace(map, headers::ORIGIN, &moved);
        proof {
            if taken {
                assert forall|i: int| 0 <= i < before.len() implies #[trigger] moves_origin(
                    self@,
                    before[i],
                    values(headers::fields(*map), headers::ORIGIN@)[i],
                ) by {
                    assert(moved@[i]@ == values(headers::fields(*map), headers::ORIGIN@)[i]);
                }
            }
        }
        taken
    }

    /// Moves every `Referer` of a request onto the canonical origin where it is
    /// ours, if the map takes it.
    fn try_move_referers(&self, map: &mut http::HeaderMap) -> (taken: bool)
        ensures
            headers::roomy(headers::fields(*old(map))) ==> taken,
            taken ==> headers::fields(*final(map)) == each_moved(
                headers::fields(*old(map)),
                headers::REFERER@,
                |value: Seq<u8>| moved_referer(self@, value),
            ),
            taken ==> forall|i: int|
                0 <= i < values(headers::fields(*old(map)), headers::REFERER@).len() ==> #[trigger] moves_referer(
                    self@,
                    values(headers::fields(*old(map)), headers::REFERER@)[i],
                    values(headers::fields(*final(map)), headers::REFERER@)[i],
                ),
    {
        proof {
            headers::lemma_names();
        }
        let pages = headers::get_all(map, headers::REFERER);
        let ghost before = values(headers::fields(*map), headers::REFERER@);
        proof {
            assert(headers::bytes_of(pages@) =~= before);
        }
        if pages.len() == 0 {
            return true;
        }
        let mut moved: Vec<Vec<u8>> = Vec::new();
        let mut at: usize = 0;
        while at < pages.len()
            invariant
                at <= pages@.len(),
                moved@.len() == at,
                before == headers::bytes_of(pages@),
                forall|i: int|
                    0 <= i < pages@.len() ==> headers::valid_value(#[trigger] pages@[i]@),
                forall|i: int|
                    0 <= i < at ==> headers::valid_value(#[trigger] moved@[i]@) && moved@[i]@
                        == moved_referer(self@, before[i]) && moves_referer(
                        self@,
                        before[i],
                        moved@[i]@,
                    ),
            decreases pages.len() - at,
        {
            moved.push(self.move_referer(&pages[at]));
            at = at + 1;
        }
        proof {
            assert(headers::bytes_of(moved@) =~= before.map_values(
                |value: Seq<u8>| moved_referer(self@, value),
            ));
        }
        let taken = headers::try_replace(map, headers::REFERER, &moved);
        proof {
            if taken {
                assert forall|i: int| 0 <= i < before.len() implies #[trigger] moves_referer(
                    self@,
                    before[i],
                    values(headers::fields(*map), headers::REFERER@)[i],
                ) by {
                    assert(moved@[i]@ == values(headers::fields(*map), headers::REFERER@)[i]);
                }
            }
        }
        taken
    }

    /// Rewrites the headers of an admitted request, if the map takes them.
    fn try_rewrite_headers(&self, map: &mut http::HeaderMap) -> (taken: bool)
        ensures
            headers::roomy(headers::fields(*old(map)).insert(headers::HOST@, seq![])) ==> taken,
            taken ==> headers::fields(*final(map)) == rewritten(self@, headers::fields(*old(map))),
            taken ==> moves_own(self@, headers::fields(*old(map)), headers::fields(*final(map))),
    {
        let ghost before = headers::fields(*map);
        proof {
            use_type_invariant(self);
            headers::lemma_names();
            lemma_admission(before);
            headers::lemma_printable(self@.0.1);
        }
        if !headers::try_set(map, headers::HOST, self.canonical.authority.as_str().as_bytes()) {
            return false;
        }
        let ghost hosted = headers::fields(*map);
        proof {
            assert(hosted.dom() =~= before.insert(headers::HOST@, seq![]).dom());
        }
        if !self.try_move_origins(map) {
            return false;
        }
        let ghost claimed = headers::fields(*map);
        proof {
            assert(claimed.dom() =~= hosted.dom());
        }
        if !self.try_move_referers(map) {
            return false;
        }
        let ghost referred = headers::fields(*map);

        headers::remove(map, headers::ACCEPT_ENCODING);
        headers::remove(map, headers::COOKIE);
        let ghost fewer = headers::fields(*map);
        remove_hop_by_hop(map);
        proof {
            assert(values(fewer, headers::CONNECTION@) == values(before, headers::CONNECTION@));
            let after = headers::fields(*map);
            assert(after =~= referred.remove_keys(
                Set::new(|name: Seq<char>| dropped(before, name)),
            ));
            assert(values(before, headers::ORIGIN@) == values(hosted, headers::ORIGIN@));
            assert(values(after, headers::ORIGIN@) == values(claimed, headers::ORIGIN@));
            assert(values(before, headers::REFERER@) == values(claimed, headers::REFERER@));
            assert(values(after, headers::REFERER@) == values(referred, headers::REFERER@));
        }
        true
    }
}

/// Whether a target is addressed to anything but the origin a webview speaks.
///
/// A target naming no authority is a relative one, which cannot name a foreign
/// origin.
pub open spec fn foreign(
    platform: (Seq<char>, Seq<char>),
    uri: (Option<Seq<char>>, Option<Seq<char>>, Option<Seq<char>>),
) -> bool {
    uri.1 is Some && !within(platform, uri)
}

/// The target an admitted request is served for: its path and query, on the
/// canonical origin.
pub open spec fn canonical_target(
    canonical: (Seq<char>, Seq<char>),
    uri: (Option<Seq<char>>, Option<Seq<char>>, Option<Seq<char>>),
) -> (Option<Seq<char>>, Option<Seq<char>>, Option<Seq<char>>) {
    (
        Some(canonical.0),
        Some(canonical.1),
        Some(
            match uri.2 {
                Some(target) => target,
                None => "/"@,
            },
        ),
    )
}

/// Whether a request is another one as it is admitted: on the canonical origin,
/// with its headers rewritten, and with nothing else about it changed.
pub open spec fn admitted<B>(
    origins: ((Seq<char>, Seq<char>), (Seq<char>, Seq<char>)),
    request: Request<B>,
    served: Request<B>,
) -> bool {
    &&& served.uri@ == canonical_target(origins.0, request.uri@)
    &&& headers::fields(served.headers) == rewritten(origins, headers::fields(request.headers))
    &&& served.method == request.method
    &&& served.webview == request.webview
    &&& served.body == request.body
}

/// Whether a refusal names the address a target asked for.
pub open spec fn refuses(
    denial: Denial,
    uri: (Option<Seq<char>>, Option<Seq<char>>, Option<Seq<char>>),
) -> bool {
    match denial {
        Denial::ForeignAuthority { scheme, authority } => text::text_or_none(scheme) == uri.0
            && Some(authority@) == uri.1,
        Denial::MalformedUri => false,
    }
}

/// A request that has been admitted and rewritten into the canonical origin.
///
/// Constructible only by [`Origins::accept`], so the rewrite cannot be skipped
/// on the way to the server.
#[derive(Debug)]
pub struct CanonicalRequest<B> {
    request: Request<B>,
}

impl<B> CanonicalRequest<B> {
    /// The request inside.
    pub closed spec fn inner(self) -> Request<B> {
        self.request
    }

    /// Borrows the underlying request.
    pub fn get_ref(&self) -> (request: &Request<B>)
        ensures
            *request == self.inner(),
    {
        &self.request
    }

    /// Takes the underlying request, to hand to the server.
    pub fn into_inner(self) -> (request: Request<B>)
        ensures
            request == self.inner(),
    {
        self.request
    }
}

/// What to do with a request the webview delivered.
#[derive(Debug)]
#[must_use]
pub enum Outcome<B> {
    /// Serve it: hand the inner request to the server.
    Serve(CanonicalRequest<B>),
    /// Refuse it, without troubling the server.
    Deny(Denial),
}

/// Whether an outcome is the one a request has: served as it is admitted, or
/// refused for the address it names.
pub open spec fn settles<B>(
    origins: ((Seq<char>, Seq<char>), (Seq<char>, Seq<char>)),
    request: Request<B>,
    outcome: Outcome<B>,
) -> bool {
    match outcome {
        Outcome::Serve(served) => !foreign(origins.1, request.uri@) && admitted(
            origins,
            request,
            served.inner(),
        ) && moves_own(
            origins,
            headers::fields(request.headers),
            headers::fields(served.inner().headers),
        ),
        Outcome::Deny(denial) => foreign(origins.1, request.uri@) && refuses(denial, request.uri@),
    }
}

impl Origins {
    /// Admits a request and rewrites it into the canonical origin.
    ///
    /// Admission is only the question of address: a request naming somebody
    /// else's origin is refused, and everything else is rewritten. Deciding
    /// whether a request may *act* is the server's job.
    ///
    /// A request for somebody else's origin is refused whatever its headers. Of
    /// any other, a header map that could be too full to take a `Host` is ruled
    /// out; see [`headers::has_room_for`] and [`Origins::try_accept`].
    pub fn accept<B>(&self, request: Request<B>) -> (outcome: Outcome<B>)
        requires
            foreign(self@.1, request.uri@) || headers::roomy(
                headers::fields(request.headers).insert(headers::HOST@, seq![]),
            ),
        ensures
            settles(self@, request, outcome),
    {
        self.try_accept(request).unwrap()
    }

    /// As [`Origins::accept`], for a header map of any size: nothing if the map
    /// turned out too full to be rewritten.
    pub fn try_accept<B>(&self, request: Request<B>) -> (outcome: Option<Outcome<B>>)
        ensures
            match outcome {
                Some(outcome) => settles(self@, request, outcome),
                None => !foreign(self@.1, request.uri@) && !headers::roomy(
                    headers::fields(request.headers).insert(headers::HOST@, seq![]),
                ),
            },
    {
        if let Err(denial) = self.check_authority(&request.uri) {
            return Some(Outcome::Deny(denial));
        }
        let path_and_query = match request.uri.path_and_query {
            Some(target) => target,
            None => "/".to_owned(),
        };
        let uri = self.canonical.join(path_and_query);
        let mut map = request.headers;
        if !self.try_rewrite_headers(&mut map) {
            return None;
        }
        Some(
            Outcome::Serve(
                CanonicalRequest {
                    request: Request {
                        method: request.method,
                        uri,
                        headers: map,
                        webview: request.webview,
                        body: request.body,
                    },
                },
            ),
        )
    }

    /// Rejects a request addressed to anything but the origin we serve.
    fn check_authority(&self, uri: &Uri) -> (result: Result<(), Denial>)
        ensures
            match result {
                Ok(()) => !foreign(self@.1, uri@),
                Err(denial) => foreign(self@.1, uri@) && refuses(denial, uri@),
            },
    {
        let authority = match &uri.authority {
            Some(authority) => authority.clone(),
            None => return Ok(()),
        };
        if self.platform.holds(uri) {
            Ok(())
        } else {
            let scheme = match &uri.scheme {
                Some(scheme) => Some(scheme.clone()),
                None => None,
            };
            Err(Denial::ForeignAuthority { scheme, authority })
        }
    }
}

/// Every admitted request leaves with the `Host` of the canonical origin.
pub proof fn law_host_is_set(
    origins: ((Seq<char>, Seq<char>), (Seq<char>, Seq<char>)),
    fields: Map<Seq<char>, Seq<Seq<u8>>>,
)
    ensures
        rewritten(origins, fields).contains_key(headers::HOST@),
        rewritten(origins, fields)[headers::HOST@] == seq![encode_utf8(origins.0.1)],
{
    lemma_admission(fields);
}

/// No request reaches the server with a cookie, an `Accept-Encoding`, a header
/// of one hop, or a header that its `Connection` named, unless that decides
/// admission.
pub proof fn law_dropped_headers_are_gone(
    origins: ((Seq<char>, Seq<char>), (Seq<char>, Seq<char>)),
    fields: Map<Seq<char>, Seq<Seq<u8>>>,
    name: Seq<char>,
)
    requires
        name == headers::COOKIE@ || name == headers::ACCEPT_ENCODING@ || hop_by_hop(name) || named(
            pieces(values(fields, headers::CONNECTION@)),
            name,
        ),
    ensures
        !rewritten(origins, fields).contains_key(name),
{
    lemma_admission(fields);
}

/// A `Connection` cannot name away the evidence against a request: `Origin` and
/// `Referer` are there afterwards exactly where they were there before.
pub proof fn law_evidence_stays(
    origins: ((Seq<char>, Seq<char>), (Seq<char>, Seq<char>)),
    fields: Map<Seq<char>, Seq<Seq<u8>>>,
)
    ensures
        rewritten(origins, fields).contains_key(headers::ORIGIN@) == fields.contains_key(
            headers::ORIGIN@,
        ),
        rewritten(origins, fields).contains_key(headers::REFERER@) == fields.contains_key(
            headers::REFERER@,
        ),
{
    lemma_admission(fields);
}

/// Every `Origin` and every `Referer` has its own place, before and after: each
/// that is ours is moved onto the canonical origin, and each that is not is kept
/// as it was, whatever stands beside it.
pub proof fn law_each_claim_is_judged_alone(
    origins: ((Seq<char>, Seq<char>), (Seq<char>, Seq<char>)),
    fields: Map<Seq<char>, Seq<Seq<u8>>>,
)
    ensures
        ({
            let after = rewritten(origins, fields);
            &&& fields.contains_key(headers::ORIGIN@) ==> after[headers::ORIGIN@].len()
                == fields[headers::ORIGIN@].len() && forall|i: int|
                #![trigger after[headers::ORIGIN@][i]]
                0 <= i < fields[headers::ORIGIN@].len() ==> after[headers::ORIGIN@][i] == (if ours(
                    origins.1,
                    Some(fields[headers::ORIGIN@][i]),
                ) {
                    encode_utf8(origin_text(origins.0))
                } else {
                    fields[headers::ORIGIN@][i]
                })
            &&& fields.contains_key(headers::REFERER@) ==> after[headers::REFERER@].len()
                == fields[headers::REFERER@].len() && forall|i: int|
                #![trigger after[headers::REFERER@][i]]
                0 <= i < fields[headers::REFERER@].len() ==> after[headers::REFERER@][i] == (
                match rebased(origins.0, origins.1, Some(fields[headers::REFERER@][i])) {
                    Some(url) => url,
                    None => fields[headers::REFERER@][i],
                })
        }),
{
    lemma_admission(fields);
}

/// An `Origin` and a `Referer` that are not ours are left alone, so a stranger
/// still looks like one, also behind one that is ours.
pub proof fn law_strangers_are_left_alone(
    origins: ((Seq<char>, Seq<char>), (Seq<char>, Seq<char>)),
    fields: Map<Seq<char>, Seq<Seq<u8>>>,
    i: int,
)
    ensures
        fields.contains_key(headers::ORIGIN@) && 0 <= i < fields[headers::ORIGIN@].len() && !ours(
            origins.1,
            Some(fields[headers::ORIGIN@][i]),
        ) ==> rewritten(origins, fields)[headers::ORIGIN@][i] == fields[headers::ORIGIN@][i],
        fields.contains_key(headers::REFERER@) && 0 <= i < fields[headers::REFERER@].len() && !ours(
            origins.1,
            Some(fields[headers::REFERER@][i]),
        ) ==> rewritten(origins, fields)[headers::REFERER@][i] == fields[headers::REFERER@][i],
{
    lemma_admission(fields);
}

/// An `Origin` that is ours moves together with `Host`: it becomes `https://`
/// and that host, which is what a server compares it against.
pub proof fn law_own_origin_agrees_with_host(
    label: Seq<char>,
    platform: Platform,
    fields: Map<Seq<char>, Seq<Seq<u8>>>,
    i: int,
)
    requires
        fields.contains_key(headers::ORIGIN@),
        0 <= i < fields[headers::ORIGIN@].len(),
        ours(platform_origin(label, platform), Some(fields[headers::ORIGIN@][i])),
    ensures
        ({
            let after = rewritten(
                (canonical_origin(label), platform_origin(label, platform)),
                fields,
            );
            let host = label + ".localhost"@;
            &&& after[headers::HOST@] == seq![encode_utf8(host)]
            &&& after[headers::ORIGIN@][i] == encode_utf8("https"@ + "://"@ + host)
        }),
{
    lemma_admission(fields);
}

/// A header that is neither dropped nor one of the three that decide admission
/// passes through untouched.
pub proof fn law_what_is_not_dropped_is_untouched(
    origins: ((Seq<char>, Seq<char>), (Seq<char>, Seq<char>)),
    fields: Map<Seq<char>, Seq<Seq<u8>>>,
    name: Seq<char>,
)
    requires
        !decides_admission(name),
        !dropped(fields, name),
    ensures
        rewritten(origins, fields).contains_key(name) == fields.contains_key(name),
        fields.contains_key(name) ==> rewritten(origins, fields)[name] == fields[name],
{
}

/// Every header passes through untouched, a `Content-Type`, a `Range` and an
/// `Authorization` among them, but for twelve: the three that are moved,
/// `Accept-Encoding`, `Cookie` and the seven of one hop. What a `Connection`
/// lists goes too, and nothing else.
pub proof fn law_other_headers_pass(
    origins: ((Seq<char>, Seq<char>), (Seq<char>, Seq<char>)),
    fields: Map<Seq<char>, Seq<Seq<u8>>>,
    name: Seq<char>,
)
    requires
        name != "host"@,
        name != "origin"@,
        name != "referer"@,
        name != "accept-encoding"@,
        name != "cookie"@,
        name != "connection"@,
        name != "proxy-authenticate"@,
        name != "proxy-authorization"@,
        name != "te"@,
        name != "trailer"@,
        name != "transfer-encoding"@,
        name != "upgrade"@,
        fields.contains_key("connection"@) ==> forall|i: int|
            0 <= i < fields["connection"@].len() ==> !value_lists(
                #[trigger] fields["connection"@][i],
                name,
            ),
    ensures
        rewritten(origins, fields).contains_key(name) == fields.contains_key(name),
        fields.contains_key(name) ==> rewritten(origins, fields)[name] == fields[name],
{
    if named(pieces(values(fields, headers::CONNECTION@)), name) {
        lemma_named_is_listed(values(fields, headers::CONNECTION@), name);
    }
    law_what_is_not_dropped_is_untouched(origins, fields, name);
}

/// A request without a `Connection` keeps every header but the twelve, whatever
/// they say.
pub proof fn law_without_a_connection_the_rest_passes(
    origins: ((Seq<char>, Seq<char>), (Seq<char>, Seq<char>)),
    fields: Map<Seq<char>, Seq<Seq<u8>>>,
)
    requires
        !fields.contains_key("connection"@),
    ensures
        fields.contains_key("content-type"@) ==> rewritten(origins, fields).contains_key(
            "content-type"@,
        ) && rewritten(origins, fields)["content-type"@] == fields["content-type"@],
        fields.contains_key("authorization"@) ==> rewritten(origins, fields).contains_key(
            "authorization"@,
        ) && rewritten(origins, fields)["authorization"@] == fields["authorization"@],
        fields.contains_key("range"@) ==> rewritten(origins, fields).contains_key("range"@)
            && rewritten(origins, fields)["range"@] == fields["range"@],
{
    lemma_twelve_names("content-type"@);
    lemma_twelve_names("authorization"@);
    lemma_twelve_names("range"@);
    reveal_strlit("content-type");
    reveal_strlit("authorization");
    reveal_strlit("range");
    law_other_headers_pass(origins, fields, "content-type"@);
    law_other_headers_pass(origins, fields, "authorization"@);
    law_other_headers_pass(origins, fields, "range"@);
}

/// A name is none of the twelve unless it is as long as one of them and starts
/// with the same letter.
proof fn lemma_twelve_names(name: Seq<char>)
    ensures
        name.len() > 0 && !(name[0] == 'h' && name.len() == 4) && !(name[0] == 'o' && name.len()
            == 6) && !(name[0] == 'r' && name.len() == 7) && !(name[0] == 'a' && name.len() == 15)
            && !(name[0] == 'c' && (name.len() == 6 || name.len() == 10)) && !(name[0] == 'p' && (
        name.len() == 18 || name.len() == 19)) && !(name[0] == 't' && (name.len() == 2 || name.len()
            == 7 || name.len() == 17)) && !(name[0] == 'u' && name.len() == 7) ==> {
            &&& name != "host"@
            &&& name != "origin"@
            &&& name != "referer"@
            &&& name != "accept-encoding"@
            &&& name != "cookie"@
            &&& name != "connection"@
            &&& name != "proxy-authenticate"@
            &&& name != "proxy-authorization"@
            &&& name != "te"@
            &&& name != "trailer"@
            &&& name != "transfer-encoding"@
            &&& name != "upgrade"@
        },
{
    reveal_strlit("host");
    reveal_strlit("origin");
    reveal_strlit("referer");
    reveal_strlit("accept-encoding");
    reveal_strlit("cookie");
    reveal_strlit("connection");
    reveal_strlit("proxy-authenticate");
    reveal_strlit("proxy-authorization");
    reveal_strlit("te");
    reveal_strlit("trailer");
    reveal_strlit("transfer-encoding");
    reveal_strlit("upgrade");
}

/// Whether the item of a comma-separated list that reaches from `start` to `end`
/// is a name in any case, at `from`, with white space around it.
pub open spec fn item_at(
    list: Seq<char>,
    name: Seq<char>,
    start: int,
    from: int,
    end: int,
) -> bool {
    &&& 0 <= start <= from
    &&& from + name.len() <= end <= list.len()
    &&& start == 0 || list[start - 1] == ','
    &&& end == list.len() || list[end] == ','
    &&& forall|i: int| start <= i < end ==> #[trigger] list[i] != ','
    &&& forall|i: int| start <= i < from ==> text::white(#[trigger] list[i])
    &&& forall|i: int| from + name.len() <= i < end ==> text::white(#[trigger] list[i])
    &&& text::lowered(list.subrange(from, from + name.len())) == name
}

/// Whether a comma-separated list has a name, in any case, as one of its items.
pub open spec fn lists(list: Seq<char>, name: Seq<char>) -> bool {
    exists|start: int, from: int, end: int| #[trigger] item_at(list, name, start, from, end)
}

/// Whether a header value is text that lists a name.
pub open spec fn value_lists(value: Seq<u8>, name: Seq<char>) -> bool {
    headers::visible(value) matches Some(list) && lists(list, name)
}

/// Every piece of a text stands between two separators, or an end of the text.
proof fn lemma_piece_bounds(whole: Seq<char>, c: char, i: int) -> (bounds: (int, int))
    requires
        0 <= i < text::split(whole, c).len(),
    ensures
        0 <= bounds.0 <= bounds.1 <= whole.len(),
        bounds.0 == 0 || whole[bounds.0 - 1] == c,
        bounds.1 == whole.len() || whole[bounds.1] == c,
        forall|k: int| bounds.0 <= k < bounds.1 ==> #[trigger] whole[k] != c,
        text::split(whole, c)[i] == whole.subrange(bounds.0, bounds.1),
    decreases whole.len(),
{
    text::lemma_find(whole, c);
    let at = text::find(whole, c) as int;
    if at >= whole.len() {
        assert(whole.subrange(0, whole.len() as int) =~= whole);
        (0, whole.len() as int)
    } else if i == 0 {
        assert(whole.subrange(0, at) =~= whole.take(at));
        (0, at)
    } else {
        let rest = whole.skip(at + 1);
        let inner = lemma_piece_bounds(rest, c, i - 1);
        assert(text::split(whole, c)[i] == text::split(rest, c)[i - 1]);
        let bounds = (inner.0 + at + 1, inner.1 + at + 1);
        assert(rest.subrange(inner.0, inner.1) =~= whole.subrange(bounds.0, bounds.1));
        if inner.0 > 0 {
            assert(rest[inner.0 - 1] == whole[bounds.0 - 1]);
        }
        if inner.1 < rest.len() {
            assert(rest[inner.1] == whole[bounds.1]);
        }
        assert forall|k: int| bounds.0 <= k < bounds.1 implies #[trigger] whole[k] != c by {
            assert(rest[k - at - 1] == whole[k]);
        }
        bounds
    }
}

/// What stands between two separators is a piece of the text.
proof fn lemma_bounds_piece(whole: Seq<char>, c: char, start: int, end: int)
    requires
        0 <= start <= end <= whole.len(),
        start == 0 || whole[start - 1] == c,
        end == whole.len() || whole[end] == c,
        forall|k: int| start <= k < end ==> #[trigger] whole[k] != c,
    ensures
        text::split(whole, c).contains(whole.subrange(start, end)),
    decreases whole.len(),
{
    text::lemma_find(whole, c);
    let at = text::find(whole, c) as int;
    let all = text::split(whole, c);
    if at >= whole.len() {
        if start > 0 {
            assert(whole.contains(whole[start - 1]));
        }
        if end < whole.len() {
            assert(whole.contains(whole[end]));
        }
        assert(whole.subrange(start, end) =~= whole);
        assert(all[0] == whole);
    } else if start == 0 {
        assert(end == at) by {
            if end > at {
                assert(whole[at] != c);
            }
        }
        assert(whole.subrange(0, at) =~= whole.take(at));
        assert(all[0] == whole.take(at));
    } else {
        assert(start - 1 >= at);
        let rest = whole.skip(at + 1);
        if start - at - 1 > 0 {
            assert(rest[start - at - 2] == whole[start - 1]);
        }
        if end < whole.len() {
            assert(rest[end - at - 1] == whole[end]);
        }
        assert forall|k: int| start - at - 1 <= k < end - at - 1 implies #[trigger] rest[k] != c by {
            assert(rest[k] == whole[k + at + 1]);
        }
        lemma_bounds_piece(rest, c, start - at - 1, end - at - 1);
        assert(rest.subrange(start - at - 1, end - at - 1) =~= whole.subrange(start, end));
        let more = text::split(rest, c);
        let i = choose|i: int| 0 <= i < more.len() && more[i] == whole.subrange(start, end);
        assert(all[i + 1] == more[i]);
    }
}

/// The pieces of some values are the pieces of each that is text.
proof fn lemma_pieces(values: Seq<Seq<u8>>, piece: Seq<char>)
    ensures
        pieces(values).contains(piece) <==> exists|i: int|
            0 <= i < values.len() && headers::visible(#[trigger] values[i]) is Some && text::split(
                headers::visible(values[i])->0,
                ',',
            ).contains(piece),
    decreases values.len(),
{
    if values.len() > 0 {
        let fewer = values.drop_last();
        lemma_pieces(fewer, piece);
        let more = match headers::visible(values.last()) {
            Some(list) => text::split(list, ','),
            None => seq![],
        };
        let all = pieces(fewer) + more;
        assert(pieces(values) == all);
        if all.contains(piece) {
            let at = choose|at: int| 0 <= at < all.len() && all[at] == piece;
            if at < pieces(fewer).len() {
                assert(pieces(fewer)[at] == piece);
                let i = choose|i: int|
                    0 <= i < fewer.len() && headers::visible(#[trigger] fewer[i]) is Some
                        && text::split(headers::visible(fewer[i])->0, ',').contains(piece);
                assert(values[i] == fewer[i]);
            } else {
                assert(more[at - pieces(fewer).len()] == piece);
                assert(values[values.len() - 1] == values.last());
            }
        }
        if exists|i: int|
            0 <= i < values.len() && headers::visible(#[trigger] values[i]) is Some && text::split(
                headers::visible(values[i])->0,
                ',',
            ).contains(piece) {
            let i = choose|i: int|
                0 <= i < values.len() && headers::visible(#[trigger] values[i]) is Some
                    && text::split(headers::visible(values[i])->0, ',').contains(piece);
            if i < fewer.len() {
                assert(fewer[i] == values[i]);
                let at = choose|at: int|
                    0 <= at < pieces(fewer).len() && pieces(fewer)[at] == piece;
                assert(all[at] == piece);
            } else {
                let at = choose|at: int| 0 <= at < more.len() && more[at] == piece;
                assert(all[pieces(fewer).len() + at] == piece);
            }
        }
    }
}

/// A name that the pieces of some values name is an item of one of them.
proof fn lemma_named_is_listed(values: Seq<Seq<u8>>, name: Seq<char>)
    requires
        named(pieces(values), name),
    ensures
        exists|i: int| 0 <= i < values.len() && value_lists(#[trigger] values[i], name),
{
    let all = pieces(values);
    let at = choose|at: int|
        0 <= at < all.len() && headers::header_name(text::trimmed(#[trigger] all[at])) == Some(
            name,
        );
    assert(all.contains(all[at]));
    lemma_pieces(values, all[at]);
    let i = choose|i: int|
        0 <= i < values.len() && headers::visible(#[trigger] values[i]) is Some && text::split(
            headers::visible(values[i])->0,
            ',',
        ).contains(all[at]);
    let list = headers::visible(values[i])->0;
    let cut = text::split(list, ',');
    let k = choose|k: int| 0 <= k < cut.len() && cut[k] == all[at];
    let bounds = lemma_piece_bounds(list, ',', k);
    let piece = all[at];
    text::law_trimming_leaves_no_white_space_at_the_ends(piece);
    let (from, to) = choose|from: int, to: int|
        #![trigger piece.subrange(from, to)]
        0 <= from <= to <= piece.len() && piece.subrange(from, to) == text::trimmed(piece) && (
        forall|i: int| 0 <= i < from ==> text::white(#[trigger] piece[i])) && (forall|i: int|
            to <= i < piece.len() ==> text::white(#[trigger] piece[i]));
    let start = bounds.0;
    let end = bounds.1;
    assert(text::lowered(text::trimmed(piece)) == name);
    assert(text::lowered(text::trimmed(piece)).len() == to - from);
    assert(list.subrange(start + from, start + to) =~= piece.subrange(from, to));
    assert forall|j: int| start <= j < start + from implies text::white(#[trigger] list[j]) by {
        assert(piece[j - start] == list[j]);
    }
    assert forall|j: int| start + to <= j < end implies text::white(#[trigger] list[j]) by {
        assert(piece[j - start] == list[j]);
    }
    assert(item_at(list, name, start, start + from, end));
    assert(lists(list, name));
    assert(value_lists(values[i], name));
}

/// A header name that a value lists is named by its pieces, unless it decides
/// admission.
proof fn lemma_listed_is_named(values: Seq<Seq<u8>>, name: Seq<char>, i: int)
    requires
        headers::lower_name(name),
        !decides_admission(name),
        0 <= i < values.len(),
        value_lists(values[i], name),
    ensures
        named(pieces(values), name),
{
    let list = headers::visible(values[i])->0;
    let (start, from, end) = choose|start: int, from: int, end: int| #[trigger]
        item_at(list, name, start, from, end);
    lemma_bounds_piece(list, ',', start, end);
    let piece = list.subrange(start, end);
    lemma_pieces(values, piece);
    assert(text::split(list, ',').contains(piece));
    assert(pieces(values).contains(piece));
    let to = from + name.len();
    let front = list.subrange(start, from);
    let middle = list.subrange(from, to);
    let back = list.subrange(to, end);
    assert(front + middle + back =~= piece);
    assert(name.len() >= 1);
    assert forall|k: int| 0 <= k < middle.len() implies headers::token(#[trigger] middle[k]) by {
        assert(text::lowered(middle)[k] == name[k]);
        assert(headers::token(name[k]));
    }
    assert(headers::token(middle[0]) && headers::token(middle[middle.len() - 1]));
    text::law_trimming_takes_the_white_space_around(front, middle, back);
    assert(headers::header_name(middle) == Some(name));
    let at = choose|at: int| 0 <= at < pieces(values).len() && pieces(values)[at] == piece;
    assert(headers::header_name(text::trimmed(pieces(values)[at])) == Some(name));
}

/// No cookie, no `Accept-Encoding` and none of the seven headers of one hop gets
/// through, nor one that a `Connection` lists in whatever case, unless it is one
/// of the three that decide admission.
pub proof fn law_the_listed_headers_are_gone(
    origins: ((Seq<char>, Seq<char>), (Seq<char>, Seq<char>)),
    fields: Map<Seq<char>, Seq<Seq<u8>>>,
    name: Seq<char>,
    i: int,
)
    requires
        name == "accept-encoding"@ || name == "cookie"@ || name == "connection"@ || name
            == "proxy-authenticate"@ || name == "proxy-authorization"@ || name == "te"@ || name
            == "trailer"@ || name == "transfer-encoding"@ || name == "upgrade"@ || (
        headers::lower_name(name) && name != "host"@ && name != "origin"@ && name != "referer"@
            && fields.contains_key("connection"@) && 0 <= i < fields["connection"@].len()
            && value_lists(fields["connection"@][i], name)),
    ensures
        !rewritten(origins, fields).contains_key(name),
{
    lemma_admission(fields);
    if headers::lower_name(name) && name != "host"@ && name != "origin"@ && name != "referer"@
        && fields.contains_key("connection"@) && 0 <= i < fields["connection"@].len()
        && value_lists(fields["connection"@][i], name) {
        lemma_listed_is_named(values(fields, headers::CONNECTION@), name, i);
    }
}

/// A page has one canonical URL, whichever platform it was asked for on: two
/// requests for one path and query are served for the same target on any two
/// platforms, and that target is on `https` and the scheme's own host.
pub proof fn law_one_canonical_target(
    label: Seq<char>,
    one: Platform,
    other: Platform,
    left: (Option<Seq<char>>, Option<Seq<char>>, Option<Seq<char>>),
    right: (Option<Seq<char>>, Option<Seq<char>>, Option<Seq<char>>),
)
    requires
        !foreign(platform_origin(label, one), left),
        !foreign(platform_origin(label, other), right),
        left.2 == right.2,
    ensures
        canonical_target(canonical_origin(label), left) == canonical_target(
            canonical_origin(label),
            right,
        ),
        canonical_target(canonical_origin(label), left).0 == Some("https"@),
        canonical_target(canonical_origin(label), left).1 == Some(label + ".localhost"@),
        left.2 is Some ==> canonical_target(canonical_origin(label), left).2 == left.2,
{
}

/// A refusal names an address and nothing further: what it says of two targets
/// with one scheme and one authority is the same, whatever their paths and
/// queries.
pub proof fn law_a_refusal_names_no_path(
    left: Denial,
    right: Denial,
    left_uri: (Option<Seq<char>>, Option<Seq<char>>, Option<Seq<char>>),
    right_uri: (Option<Seq<char>>, Option<Seq<char>>, Option<Seq<char>>),
)
    requires
        refuses(left, left_uri),
        refuses(right, right_uri),
        left_uri.0 == right_uri.0,
        left_uri.1 == right_uri.1,
    ensures
        denial_text(left) == denial_text(right),
{
}

/// An `Origin` is ours exactly if it is text that reads as a URL whose scheme
/// and authority are the platform's in any case. Then it becomes the canonical
/// origin, and otherwise it stays.
pub proof fn law_an_origin_moves_by_its_address(
    origins: ((Seq<char>, Seq<char>), (Seq<char>, Seq<char>)),
    value: Seq<u8>,
)
    ensures
        headers::visible(value) is None ==> moved_origin(origins, value) == value,
        headers::visible(value) matches Some(url) ==> match uri::http_uri(url) {
            Some((Some(scheme), Some(authority), _)) => moved_origin(origins, value) == (
            if text::lowered(scheme) == text::lowered(origins.1.0) && text::lowered(authority)
                == text::lowered(origins.1.1) {
                encode_utf8(origins.0.0 + "://"@ + origins.0.1)
            } else {
                value
            }),
            _ => moved_origin(origins, value) == value,
        },
{
}

/// A `Referer` is ours by the same test, and then keeps its path and query and
/// nothing else of where it was.
pub proof fn law_a_referer_keeps_its_path(
    origins: ((Seq<char>, Seq<char>), (Seq<char>, Seq<char>)),
    value: Seq<u8>,
)
    requires
        headers::printable(origins.0.0),
        headers::printable(origins.0.1),
    ensures
        headers::visible(value) is None ==> moved_referer(origins, value) == value,
        headers::visible(value) matches Some(url) ==> match uri::http_uri(url) {
            Some((Some(scheme), Some(authority), path)) => {
                let ours = text::lowered(scheme) == text::lowered(origins.1.0) && text::lowered(
                    authority,
                ) == text::lowered(origins.1.1);
                &&& !ours ==> moved_referer(origins, value) == value
                &&& ours && path is Some && path->0.len() > 0 && path->0[0] != '?'
                    && headers::printable(path->0) ==> moved_referer(origins, value) == encode_utf8(
                    origins.0.0 + "://"@ + origins.0.1 + path->0,
                )
            },
            _ => moved_referer(origins, value) == value,
        },
{
    reveal_strlit("://");
    if let Some(url) = headers::visible(value) {
        if let Some((Some(scheme), Some(authority), Some(path))) = uri::http_uri(url) {
            if path.len() > 0 && path[0] != '?' && headers::printable(path) {
                uri::lemma_written(origins.0.0, origins.0.1, path);
                let page = origins.0.0 + "://"@ + origins.0.1 + path;
                assert(headers::printable(page));
                headers::lemma_printable(page);
            }
        }
    }
}

/// Only the address decides whether a request is served: one that names an
/// authority is a stranger's unless its scheme and its authority are both the
/// platform's in any case, and one that names none is ours.
pub proof fn law_only_the_address_decides(
    platform: (Seq<char>, Seq<char>),
    uri: (Option<Seq<char>>, Option<Seq<char>>, Option<Seq<char>>),
)
    ensures
        foreign(platform, uri) == (match uri {
            (_, None, _) => false,
            (None, Some(_), _) => true,
            (Some(scheme), Some(authority), _) => text::lowered(scheme) != text::lowered(platform.0)
                || text::lowered(authority) != text::lowered(platform.1),
        }),
{
}

/// A request is admitted with its path and query and nothing else of its target,
/// with the root where it has none, and with its method, its body and the
/// webview it came from as they were.
pub proof fn law_what_is_admitted_is_the_same_request<B>(
    origins: ((Seq<char>, Seq<char>), (Seq<char>, Seq<char>)),
    request: Request<B>,
    served: Request<B>,
)
    requires
        admitted(origins, request, served),
    ensures
        served.method == request.method,
        served.body == request.body,
        served.webview == request.webview,
        served.uri@.0 == Some(origins.0.0),
        served.uri@.1 == Some(origins.0.1),
        request.uri@.2 is Some ==> served.uri@.2 == request.uri@.2,
        request.uri@.2 is None ==> served.uri@.2 == Some("/"@),
        headers::fields(served.headers) == rewritten(origins, headers::fields(request.headers)),
        headers::fields(served.headers).contains_key("host"@),
        headers::fields(served.headers)["host"@] == seq![encode_utf8(origins.0.1)],
{
    lemma_admission(headers::fields(request.headers));
}

/// A refusal says the address that was asked for between two backquotes, with
/// its scheme where it named one.
pub proof fn law_a_refusal_says_the_address(
    denial: Denial,
    uri: (Option<Seq<char>>, Option<Seq<char>>, Option<Seq<char>>),
)
    requires
        refuses(denial, uri),
    ensures
        uri.1 is Some,
        uri.0 is Some ==> denial_text(denial) == "`"@ + uri.0->0 + "://"@ + uri.1->0
            + "` is not the origin this protocol serves"@,
        uri.0 is None ==> denial_text(denial) == "`"@ + uri.1->0
            + "` is not the origin this protocol serves"@,
{
}

/// The server's origin is the same on every platform, and each platform's own is
/// one of the three shapes a webview gives a scheme.
pub proof fn law_each_platform_has_its_shape(label: Seq<char>)
    ensures
        canonical_origin(label) == ("https"@, label + ".localhost"@),
        platform_origin(label, Platform::Scheme) == (label, "localhost"@),
        platform_origin(label, Platform::HttpSubdomain) == ("http"@, label + ".localhost"@),
        platform_origin(label, Platform::HttpsSubdomain) == ("https"@, label + ".localhost"@),
{
}

/// A name is usable exactly if it is a letter, or a letter and then letters,
/// digits and hyphens up to a letter or a digit, of no more than 63 characters.
/// Its case plays no part.
pub proof fn law_a_usable_scheme_is_a_dns_label(scheme: Seq<char>)
    ensures
        usable_scheme(scheme) <==> {
            &&& 0 < scheme.len() < 64
            &&& forall|i: int|
                0 <= i < scheme.len() ==> {
                    let c = text::lower(#[trigger] scheme[i]);
                    'a' <= c <= 'z' || (i > 0 && '0' <= c <= '9') || (0 < i < scheme.len() - 1 && c
                        == '-')
                }
        },
        usable_scheme(text::lowered(scheme)) == usable_scheme(scheme),
{
    let low = text::lowered(scheme);
    if usable_scheme(scheme) {
        assert forall|i: int| 0 <= i < scheme.len() implies {
            let c = text::lower(#[trigger] scheme[i]);
            'a' <= c <= 'z' || (i > 0 && '0' <= c <= '9') || (0 < i < scheme.len() - 1 && c == '-')
        } by {
            assert(alphanumeric(scheme[i]) || scheme[i] == '-');
        }
        assert forall|i: int| 0 <= i < low.len() implies alphanumeric(#[trigger] low[i]) || low[i]
            == '-' by {
            assert(alphanumeric(scheme[i]) || scheme[i] == '-');
        }
        assert(low.last() == text::lower(scheme.last()));
        assert(usable_scheme(low));
    }
    if 0 < scheme.len() < 64 && forall|i: int|
        0 <= i < scheme.len() ==> {
            let c = text::lower(#[trigger] scheme[i]);
            'a' <= c <= 'z' || (i > 0 && '0' <= c <= '9') || (0 < i < scheme.len() - 1 && c == '-')
        } {
        assert(text::lower(scheme[0]) == text::lower(scheme[0]));
        assert(text::lower(scheme[scheme.len() - 1]) == text::lower(scheme[scheme.len() - 1]));
        assert forall|i: int| 0 <= i < scheme.len() implies alphanumeric(#[trigger] scheme[i])
            || scheme[i] == '-' by {
            let c = text::lower(scheme[i]);
        }
        assert(usable_scheme(scheme));
    }
    if usable_scheme(low) {
        assert forall|i: int| 0 <= i < scheme.len() implies alphanumeric(#[trigger] scheme[i])
            || scheme[i] == '-' by {
            assert(alphanumeric(low[i]) || low[i] == '-');
        }
        assert(low[0] == text::lower(scheme[0]));
        assert(low.last() == text::lower(scheme.last()));
        assert(usable_scheme(scheme));
    }
}

/// A request is refused exactly if it is addressed to a stranger, and the
/// refusal names that address; any other is served as it is admitted.
pub proof fn law_a_request_is_served_or_refused<B>(
    origins: ((Seq<char>, Seq<char>), (Seq<char>, Seq<char>)),
    request: Request<B>,
    outcome: Outcome<B>,
)
    requires
        settles(origins, request, outcome),
    ensures
        outcome is Deny <==> foreign(origins.1, request.uri@),
        outcome matches Outcome::Serve(served) ==> admitted(origins, request, served.inner()),
        outcome matches Outcome::Deny(denial) ==> (denial matches Denial::ForeignAuthority {
            scheme,
            authority,
        } && text::text_or_none(scheme) == request.uri@.0 && Some(authority@) == request.uri@.1),
{
}

/// An `Origin` that is a plain URL moves exactly if its scheme and its authority
/// are the platform's in any case, whatever stands beside it, and a `Referer` by
/// the same test keeps its path and query.
pub proof fn law_plain_claims_move_by_their_address(
    origins: ((Seq<char>, Seq<char>), (Seq<char>, Seq<char>)),
    before: Map<Seq<char>, Seq<Seq<u8>>>,
    after: Map<Seq<char>, Seq<Seq<u8>>>,
    i: int,
    url: Seq<char>,
    scheme: Seq<char>,
    authority: Seq<char>,
    tail: Seq<char>,
)
    requires
        moves_own(origins, before, after),
        uri::plain_url(url, scheme, authority, tail),
        after.dom().contains("origin"@) == before.dom().contains("origin"@),
        after.dom().contains("referer"@) == before.dom().contains("referer"@),
    ensures
        ({
            let ours = text::lowered(scheme) == text::lowered(origins.1.0) && text::lowered(
                authority,
            ) == text::lowered(origins.1.1);
            &&& before.contains_key("origin"@) && 0 <= i < before["origin"@].len()
                && headers::visible(before["origin"@][i]) == Some(url) ==> after["origin"@][i] == (
            if ours {
                encode_utf8(origins.0.0 + "://"@ + origins.0.1)
            } else {
                before["origin"@][i]
            })
            &&& before.contains_key("referer"@) && 0 <= i < before["referer"@].len()
                && headers::visible(before["referer"@][i]) == Some(url) ==> after["referer"@][i]
                == (if ours {
                encode_utf8(origins.0.0 + "://"@ + origins.0.1 + uri::tail_path(tail))
            } else {
                before["referer"@][i]
            })
        }),
{
    if before.contains_key("origin"@) && 0 <= i < before["origin"@].len() {
        assert(moves_origin(
            origins,
            values(before, headers::ORIGIN@)[i],
            values(after, headers::ORIGIN@)[i],
        ));
    }
    if before.contains_key("referer"@) && 0 <= i < before["referer"@].len() {
        assert(moves_referer(
            origins,
            values(before, headers::REFERER@)[i],
            values(after, headers::REFERER@)[i],
        ));
    }
}

/// A URL is within an origin exactly if it reads as one with a scheme and an
/// authority, and both are the origin's in any case: what stands behind them
/// plays no part.
pub proof fn law_a_url_is_covered_by_its_address(origin: (Seq<char>, Seq<char>), url: Seq<char>)
    ensures
        covered(origin, url) == (match uri::http_uri(url) {
            Some((Some(scheme), Some(authority), _)) => text::lowered(scheme) == text::lowered(
                origin.0,
            ) && text::lowered(authority) == text::lowered(origin.1),
            _ => false,
        }),
{
}

/// A scheme that will not do is told as it was given, with what would: whichever it
/// is, the words around it are the same.
pub proof fn law_an_unusable_scheme_is_told_what_would_do(one: OriginError, other: OriginError)
    ensures
        ({
            let words = "` is not a usable protocol scheme: it must start with an ASCII letter, contain only ASCII letters, digits, and hyphens, and be at most 63 characters"@;
            &&& origin_error_text(one) == "`"@ + one->scheme@ + words
            &&& one->scheme@ == other->scheme@ <==> origin_error_text(one) == origin_error_text(
                other,
            )
        }),
        denial_text(Denial::MalformedUri) == "the canonical URL could not be built"@,
{
    let words = "` is not a usable protocol scheme: it must start with an ASCII letter, contain only ASCII letters, digits, and hyphens, and be at most 63 characters"@;
    let front = "`"@;
    let (left, right) = (one->scheme@, other->scheme@);
    if origin_error_text(one) == origin_error_text(other) {
        let whole = front + left + words;
        assert(whole == front + right + words);
        assert(left.len() == right.len());
        assert(whole.subrange(front.len() as int, (front.len() + left.len()) as int) =~= left);
        assert(whole.subrange(front.len() as int, (front.len() + left.len()) as int) =~= right);
    }
}

} // verus!
