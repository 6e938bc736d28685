//! Request targets, taken apart.

use crate::text;
use vstd::prelude::*;

verus! {

/// A request target in its parts, each as it is written.
///
/// A target with no authority is a path of this server's own, and one with an
/// authority and nothing else names a host and no path.
#[derive(Debug)]
pub struct Uri {
    /// What stands in front of `://`, if the target names one.
    pub scheme: Option<String>,
    /// The host, with the port and the user where it names them.
    pub authority: Option<String>,
    /// The path, and the query after its question mark.
    pub path_and_query: Option<String>,
}

impl View for Uri {
    type V = (Option<Seq<char>>, Option<Seq<char>>, Option<Seq<char>>);

    open spec fn view(&self) -> (Option<Seq<char>>, Option<Seq<char>>, Option<Seq<char>>) {
        (
            text::text_or_none(self.scheme),
            text::text_or_none(self.authority),
            text::text_or_none(self.path_and_query),
        )
    }
}

/// The parts of an optional target.
pub open spec fn parts(uri: Option<Uri>) -> Option<
    (Option<Seq<char>>, Option<Seq<char>>, Option<Seq<char>>),
> {
    match uri {
        Some(uri) => Some(uri@),
        None => None,
    }
}

/// What `http::Uri` reads a text as: a scheme, an authority, and a path with its
/// query, or nothing if the text is not a target.
pub uninterp spec fn http_uri(text: Seq<char>) -> Option<
    (Option<Seq<char>>, Option<Seq<char>>, Option<Seq<char>>),
>;

/// A scheme of ASCII letters, digits and hyphens, no longer than a DNS label.
pub open spec fn plain_scheme(scheme: Seq<char>) -> bool {
    &&& 1 <= scheme.len() <= 63
    &&& forall|i: int|
        0 <= i < scheme.len() ==> 'a' <= #[trigger] scheme[i] <= 'z' || 'A' <= scheme[i] <= 'Z'
            || '0' <= scheme[i] <= '9' || scheme[i] == '-'
}

/// A host of ASCII letters, digits, dots and hyphens.
pub open spec fn plain_host(host: Seq<char>) -> bool {
    &&& host.len() > 0
    &&& forall|i: int|
        0 <= i < host.len() ==> 'a' <= #[trigger] host[i] <= 'z' || 'A' <= host[i] <= 'Z' || '0'
            <= host[i] <= '9' || host[i] == '.' || host[i] == '-'
}

/// A user of ASCII letters, digits and marks, with a password after a colon
/// where there is one.
pub open spec fn plain_user(user: Seq<char>) -> bool {
    &&& user.len() > 0
    &&& forall|i: int|
        0 <= i < user.len() ==> 'a' <= #[trigger] user[i] <= 'z' || 'A' <= user[i] <= 'Z' || '0'
            <= user[i] <= '9' || user[i] == '.' || user[i] == '-' || user[i] == '_' || user[i]
            == '~' || user[i] == ':'
    &&& forall|i: int, j: int|
        0 <= i < j < user.len() ==> !(#[trigger] user[i] == ':' && #[trigger] user[j] == ':')
}

/// A port of decimal digits.
pub open spec fn plain_port(port: Seq<char>) -> bool {
    port.len() > 0 && forall|i: int| 0 <= i < port.len() ==> '0' <= #[trigger] port[i] <= '9'
}

/// A plain host, with a plain user in front of an at sign and a plain port
/// behind a colon where it names them.
pub open spec fn plain_authority(authority: Seq<char>) -> bool {
    let at = text::find(authority, '@') as int;
    let named = if at < authority.len() {
        authority.skip(at + 1)
    } else {
        authority
    };
    let colon = text::find(named, ':') as int;
    &&& at < authority.len() ==> plain_user(authority.take(at))
    &&& plain_host(named.take(colon))
    &&& colon < named.len() ==> plain_port(named.skip(colon + 1))
}

/// Nothing, or a path from its slash on with the query it may have, of ASCII
/// letters and digits and the marks that need no escape.
pub open spec fn plain_target(target: Seq<char>) -> bool {
    &&& target.len() > 0 ==> target[0] == '/'
    &&& forall|i: int|
        0 <= i < target.len() ==> 'a' <= #[trigger] target[i] <= 'z' || 'A' <= target[i] <= 'Z'
            || '0' <= target[i] <= '9' || target[i] == '/' || target[i] == '-' || target[i] == '.'
            || target[i] == '_' || target[i] == '~' || target[i] == '%' || target[i] == '='
            || target[i] == '&' || target[i] == '?'
}

/// What stands before the fragment of a tail.
pub open spec fn before_fragment(tail: Seq<char>) -> Seq<char> {
    tail.take(text::find(tail, '#') as int)
}

/// A plain path with the query it may have, or nothing, and after it the
/// fragment it may have, which is any ASCII text behind a number sign.
pub open spec fn plain_tail(tail: Seq<char>) -> bool {
    plain_target(before_fragment(tail)) && forall|i: int|
        0 <= i < tail.len() ==> #[trigger] tail[i] <= '\x7f'
}

/// Whether a text is the URL made of these parts, all of them plain.
pub open spec fn plain_url(
    text: Seq<char>,
    scheme: Seq<char>,
    authority: Seq<char>,
    tail: Seq<char>,
) -> bool {
    &&& plain_scheme(scheme)
    &&& plain_authority(authority)
    &&& plain_tail(tail)
    &&& text == scheme + "://"@ + authority + tail
    &&& text.len() <= 65534
}

/// Whether a scheme, a host and a path with its query are plain, and no part of
/// them too long.
pub open spec fn plain_parts(scheme: Seq<char>, host: Seq<char>, target: Seq<char>) -> bool {
    &&& plain_scheme(scheme)
    &&& plain_host(host)
    &&& plain_target(target)
    &&& host.len() <= 65534
    &&& target.len() <= 65534
}

/// The target made of a scheme, a host, and a path with its query.
pub open spec fn made_of(scheme: Seq<char>, host: Seq<char>, target: Seq<char>) -> (
    Option<Seq<char>>,
    Option<Seq<char>>,
    Option<Seq<char>>,
) {
    (Some(scheme), Some(host), Some(or_root(target)))
}

/// Whether a text is a plain path of this server's own, with the query and the
/// fragment it may have.
pub open spec fn plain_path(text: Seq<char>) -> bool {
    0 < text.len() <= 65534 && text[0] == '/' && plain_tail(text)
}

/// The target that a path of this server's own is. The fragment is no part of
/// it.
pub open spec fn own_path(path: Seq<char>) -> (
    Option<Seq<char>>,
    Option<Seq<char>>,
    Option<Seq<char>>,
) {
    (None, None, Some(tail_path(path)))
}

/// Whether a target is the URL made of these parts. Of its scheme only the case
/// may differ.
pub open spec fn is_url(
    target: Option<(Option<Seq<char>>, Option<Seq<char>>, Option<Seq<char>>)>,
    scheme: Seq<char>,
    authority: Seq<char>,
    tail: Seq<char>,
) -> bool {
    match target {
        Some((Some(spelled), Some(named), Some(path_and_query))) => {
            &&& text::alike(spelled, scheme)
            &&& named == authority
            &&& path_and_query == tail_path(tail)
        },
        _ => false,
    }
}

/// A path with its query, which is the root where none is written.
pub open spec fn or_root(target: Seq<char>) -> Seq<char> {
    if target.len() == 0 {
        "/"@
    } else {
        target
    }
}

/// The path and query of a URL that ends in `tail`: a URL has a path, and it is
/// the root where none is written. The fragment is no part of it.
pub open spec fn tail_path(tail: Seq<char>) -> Seq<char> {
    or_root(before_fragment(tail))
}

/// The path and query of a plain tail is a plain one, from its slash on.
pub proof fn lemma_tail_path(tail: Seq<char>)
    requires
        plain_tail(tail),
    ensures
        tail_path(tail).len() > 0,
        tail_path(tail)[0] == '/',
        plain_target(tail_path(tail)),
{
    reveal_strlit("/");
}

/// A URL of plain parts that names no user, no port and no fragment is a plain
/// one, and its path and query are those it was made with.
pub proof fn law_plain_parts_make_a_plain_url(
    scheme: Seq<char>,
    host: Seq<char>,
    target: Seq<char>,
)
    requires
        plain_parts(scheme, host, target),
        scheme.len() + host.len() + target.len() <= 65531,
    ensures
        plain_url(scheme + "://"@ + host + target, scheme, host, target),
        tail_path(target) == or_root(target),
{
    reveal_strlit("://");
    assert forall|i: int| 0 <= i < target.len() implies #[trigger] target[i] != '#' by {}
    text::lemma_found(target, '#', target.len() as int);
    assert(before_fragment(target) =~= target);
    assert forall|i: int| 0 <= i < host.len() implies #[trigger] host[i] != '@' && host[i]
        != ':' by {}
    text::lemma_found(host, '@', host.len() as int);
    text::lemma_found(host, ':', host.len() as int);
    assert(host.take(host.len() as int) =~= host);
}

/// Reads a text with `http::Uri`, and takes what it read apart with `scheme`,
/// `authority` and `path_and_query`. Of a plain URL and of a plain path the
/// contract says what they are, with the user, the port and the fragment they
/// may have; of any other text, that they are what [`http_uri`] names.
#[verifier::external_body]
fn parse(text: &str) -> (uri: Option<Uri>)
    ensures
        parts(uri) == http_uri(text@),
        forall|scheme: Seq<char>, authority: Seq<char>, tail: Seq<char>| #[trigger]
            plain_url(text@, scheme, authority, tail) ==> is_url(
                parts(uri),
                scheme,
                authority,
                tail,
            ),
        plain_path(text@) ==> parts(uri) == Some(own_path(text@)),
{
    let uri = text.parse::<http::Uri>().ok()?;
    Some(Uri {
        scheme: uri.scheme().map(|scheme| scheme.as_str().to_owned()),
        authority: uri.authority().map(|authority| authority.as_str().to_owned()),
        path_and_query: uri.path_and_query().map(|target| target.as_str().to_owned()),
    })
}

/// What `http::uri::Builder` makes of a scheme, an authority, and a path with
/// its query, or nothing if one of them is none.
pub uninterp spec fn http_built(
    scheme: Seq<char>,
    authority: Seq<char>,
    path_and_query: Seq<char>,
) -> Option<(Option<Seq<char>>, Option<Seq<char>>, Option<Seq<char>>)>;

/// Puts a target together with `http::uri::Builder`, and takes it apart as
/// [`parse`] does. Of plain parts the contract says that the target is made of
/// them; of any others, that it is what [`http_built`] names.
#[verifier::external_body]
fn build(scheme: &str, authority: &str, path_and_query: &str) -> (uri: Option<Uri>)
    ensures
        parts(uri) == http_built(scheme@, authority@, path_and_query@),
        plain_parts(scheme@, authority@, path_and_query@) ==> parts(uri) == Some(
            made_of(scheme@, authority@, path_and_query@),
        ),
{
    let builder = http::Uri::builder().scheme(scheme).authority(authority);
    let uri = builder.path_and_query(path_and_query).build().ok()?;
    Some(Uri {
        scheme: uri.scheme().map(|scheme| scheme.as_str().to_owned()),
        authority: uri.authority().map(|authority| authority.as_str().to_owned()),
        path_and_query: uri.path_and_query().map(|target| target.as_str().to_owned()),
    })
}

/// The path of a path and query: what stands before the question mark, and the
/// root where nothing does.
pub open spec fn path_of(path_and_query: Seq<char>) -> Seq<char> {
    let path = path_and_query.take(text::find(path_and_query, '?') as int);
    if path.len() == 0 {
        "/"@
    } else {
        path
    }
}

/// The query of a path and query: what stands after the question mark.
pub open spec fn query_of(path_and_query: Seq<char>) -> Option<Seq<char>> {
    let at = text::find(path_and_query, '?');
    if at < path_and_query.len() {
        Some(path_and_query.skip(at as int + 1))
    } else {
        None
    }
}

/// The path of a target, which is empty where the target is a host alone.
pub open spec fn target_path(
    uri: (Option<Seq<char>>, Option<Seq<char>>, Option<Seq<char>>),
) -> Seq<char> {
    match uri.2 {
        Some(path_and_query) => path_of(path_and_query),
        None => seq![],
    }
}

/// The query of a target, if it has one.
pub open spec fn target_query(
    uri: (Option<Seq<char>>, Option<Seq<char>>, Option<Seq<char>>),
) -> Option<Seq<char>> {
    match uri.2 {
        Some(path_and_query) => query_of(path_and_query),
        None => None,
    }
}

/// A target as it is written: its parts, with what sets them apart.
pub open spec fn written(
    uri: (Option<Seq<char>>, Option<Seq<char>>, Option<Seq<char>>),
) -> Seq<char> {
    let scheme = match uri.0 {
        Some(scheme) => scheme + "://"@,
        None => seq![],
    };
    let authority = match uri.1 {
        Some(authority) => authority,
        None => seq![],
    };
    let query = match target_query(uri) {
        Some(query) => "?"@ + query,
        None => seq![],
    };
    scheme + authority + target_path(uri) + query
}

/// A path and query that starts with its path is written as it is.
pub proof fn lemma_written(scheme: Seq<char>, authority: Seq<char>, path_and_query: Seq<char>)
    requires
        path_and_query.len() > 0,
        path_and_query[0] != '?',
    ensures
        written((Some(scheme), Some(authority), Some(path_and_query))) == scheme + "://"@
            + authority + path_and_query,
{
    text::lemma_find(path_and_query, '?');
    let at = text::find(path_and_query, '?') as int;
    reveal_strlit("?");
    assert(path_and_query.take(at) + (match query_of(path_and_query) {
        Some(query) => "?"@ + query,
        None => seq![],
    }) =~= path_and_query);
    assert(written((Some(scheme), Some(authority), Some(path_and_query))) =~= scheme + "://"@
        + authority + path_and_query);
}

impl Uri {
    /// Reads a target from its text.
    pub fn parse(text: &str) -> (uri: Option<Uri>)
        ensures
            parts(uri) == http_uri(text@),
            forall|scheme: Seq<char>, authority: Seq<char>, tail: Seq<char>| #[trigger]
                plain_url(text@, scheme, authority, tail) ==> is_url(
                    parts(uri),
                    scheme,
                    authority,
                    tail,
                ),
            plain_path(text@) ==> parts(uri) == Some(own_path(text@)),
    {
        parse(text)
    }

    /// Puts a target together from its parts.
    pub fn build(scheme: &str, authority: &str, path_and_query: &str) -> (uri: Option<Uri>)
        ensures
            parts(uri) == http_built(scheme@, authority@, path_and_query@),
            plain_parts(scheme@, authority@, path_and_query@) ==> parts(uri) == Some(
                made_of(scheme@, authority@, path_and_query@),
            ),
    {
        build(scheme, authority, path_and_query)
    }

    /// The path, which is empty where the target is a host alone.
    pub fn path(&self) -> (path: String)
        ensures
            path@ == target_path(self@),
    {
        match &self.path_and_query {
            Some(path_and_query) => {
                let chars = text::chars_of(path_and_query.as_str());
                let at: usize = text::position(&chars, '?', 0);
                proof {
                    assert(chars@.skip(0) =~= chars@);
                    assert(chars@.subrange(0, at as int) =~= path_and_query@.take(at as int));
                }
                if at == 0 {
                    "/".to_owned()
                } else {
                    text::text_of(&chars, 0, at)
                }
            },
            None => {
                let empty = String::new();
                proof {
                    assert(empty@ =~= seq![]);
                }
                empty
            },
        }
    }

    /// The query, if there is one.
    pub fn query(&self) -> (query: Option<String>)
        ensures
            text::text_or_none(query) == target_query(self@),
    {
        match &self.path_and_query {
            Some(path_and_query) => {
                let chars = text::chars_of(path_and_query.as_str());
                let at: usize = text::position(&chars, '?', 0);
                proof {
                    assert(chars@.skip(0) =~= chars@);
                }
                if at < chars.len() {
                    let query = text::text_of(&chars, at + 1, chars.len());
                    proof {
                        assert(query@ =~= path_and_query@.skip(at + 1));
                    }
                    Some(query)
                } else {
                    None
                }
            },
            None => None,
        }
    }

    /// The target as it is written.
    pub fn text(&self) -> (text: String)
        ensures
            text@ == written(self@),
    {
        let mut text = String::new();
        if let Some(scheme) = &self.scheme {
            text.append(scheme.as_str());
            text.append("://");
        }
        if let Some(authority) = &self.authority {
            text.append(authority.as_str());
        }
        let path = self.path();
        text.append(path.as_str());
        if let Some(query) = self.query() {
            text.append("?");
            text.append(query.as_str());
        }
        proof {
            assert(text@ =~= written(self@));
        }
        text
    }
}

/// A path and query comes apart at its first question mark: what stands before
/// it is the path, and the root where nothing does; what stands after it is the
/// query, of which there is none without the mark.
pub proof fn law_the_first_question_mark_ends_the_path(path: Seq<char>, query: Seq<char>)
    requires
        !path.contains('?'),
    ensures
        path.len() > 0 ==> path_of(path.push('?') + query) == path,
        path.len() == 0 ==> path_of(path.push('?') + query) == "/"@,
        query_of(path.push('?') + query) == Some(query),
        path.len() > 0 ==> path_of(path) == path,
        path.len() == 0 ==> path_of(path) == "/"@,
        query_of(path) is None,
{
    let whole = path.push('?') + query;
    text::law_a_text_comes_apart_at_the_first(path, '?', query);
    text::lemma_find(whole, '?');
    text::lemma_find(path, '?');
    assert forall|i: int| 0 <= i < path.len() implies whole[i] != '?' by {
        assert(whole[i] == path[i]);
        assert(path.contains(path[i]));
    }
    text::lemma_found(whole, '?', path.len() as int);
    assert(whole.take(path.len() as int) =~= path);
    assert(whole.skip(path.len() as int + 1) =~= query);
    assert(path.take(path.len() as int) =~= path);
}

/// A target is written as its parts one after another, with `://` behind its
/// scheme; one that names no scheme and no authority is its path and query.
pub proof fn law_a_target_is_written_in_its_parts(
    scheme: Seq<char>,
    authority: Seq<char>,
    path_and_query: Seq<char>,
)
    requires
        path_and_query.len() > 0,
        path_and_query[0] != '?',
    ensures
        written((Some(scheme), Some(authority), Some(path_and_query))) == scheme + "://"@
            + authority + path_and_query,
        written((None, None, Some(path_and_query))) == path_and_query,
        written((None, Some(authority), None)) == authority,
{
    lemma_written(scheme, authority, path_and_query);
    text::lemma_find(path_and_query, '?');
    let at = text::find(path_and_query, '?') as int;
    reveal_strlit("?");
    assert(path_and_query.take(at) + (match query_of(path_and_query) {
        Some(query) => "?"@ + query,
        None => seq![],
    }) =~= path_and_query);
    assert(written((None, None, Some(path_and_query))) =~= path_and_query);
    assert(written((None, Some(authority), None)) =~= authority);
}

/// The path and query of a URL end where its fragment starts, and are the root
/// where nothing stands before that.
pub proof fn law_a_fragment_is_no_part_of_the_target(target: Seq<char>, fragment: Seq<char>)
    requires
        !target.contains('#'),
    ensures
        target.len() > 0 ==> tail_path(target.push('#') + fragment) == target,
        target.len() > 0 ==> tail_path(target) == target,
        target.len() == 0 ==> tail_path(target.push('#') + fragment) == "/"@,
        target.len() == 0 ==> tail_path(target) == "/"@,
{
    let whole = target.push('#') + fragment;
    assert forall|i: int| 0 <= i < target.len() implies target[i] != '#' by {
        assert(target.contains(target[i]));
    }
    assert forall|i: int| 0 <= i < target.len() implies whole[i] != '#' by {
        assert(whole[i] == target[i]);
    }
    text::lemma_found(whole, '#', target.len() as int);
    text::lemma_found(target, '#', target.len() as int);
    assert(whole.take(target.len() as int) =~= target);
    assert(target.take(target.len() as int) =~= target);
}

} // verus!
