//! Header fields: the map the `http` crate keeps them in, and what a name and a
//! value may be.

use crate::text;
use vstd::prelude::*;
use vstd::utf8::*;

verus! {

/// The value of one header field, as the `http` crate holds it.
#[verifier::external_type_specification]
#[verifier::external_body]
pub struct ExHeaderValue(http::HeaderValue);

/// The header fields of a message, as the `http` crate holds them.
#[verifier::external_type_specification]
#[verifier::external_body]
#[verifier::reject_recursive_types(T)]
pub struct ExHeaderMap<T>(http::HeaderMap<T>);

/// What an `http::HeaderMap` holds: under each lower-case name, the bytes of
/// its values in the order they were added.
pub uninterp spec fn fields(map: http::HeaderMap) -> Map<Seq<char>, Seq<Seq<u8>>>;

/// The fields of a map that holds nothing.
pub open spec fn no_fields() -> Map<Seq<char>, Seq<Seq<u8>>> {
    Map::empty()
}

/// The number of names from which on a header map may refuse to take another
/// value. It keeps at most 32768 slots, and asks for twice as many once a fifth
/// of them is in use and too many names fall together.
pub const MAX_NAMES: usize = 6554;

/// Whether a map with these fields takes another value whatever its slots look
/// like.
pub open spec fn roomy(contents: Map<Seq<char>, Seq<Seq<u8>>>) -> bool {
    contents.dom().finite() && contents.dom().len() < MAX_NAMES
}

/// A character that a header name is made of.
pub open spec fn token(c: char) -> bool {
    ||| 'a' <= c <= 'z'
    ||| 'A' <= c <= 'Z'
    ||| '0' <= c <= '9'
    ||| c == '!' || c == '#' || c == '$' || c == '%' || c == '&' || c == '\''
    ||| c == '*' || c == '+' || c == '-' || c == '.' || c == '^' || c == '_'
    ||| c == '`' || c == '|' || c == '~'
}

/// The lower-case name that a text spells, if it spells one.
pub open spec fn header_name(text: Seq<char>) -> Option<Seq<char>> {
    if 1 <= text.len() <= 65535 && (forall|i: int| 0 <= i < text.len() ==> token(#[trigger] text[i])) {
        Some(text::lowered(text))
    } else {
        None
    }
}

/// Whether a text is a header name in the lower case it is looked up by.
pub open spec fn lower_name(text: Seq<char>) -> bool {
    header_name(text) == Some(text)
}

/// Whether bytes may be the value of a header.
pub open spec fn valid_value(bytes: Seq<u8>) -> bool {
    forall|i: int|
        0 <= i < bytes.len() ==> (32 <= #[trigger] bytes[i] && bytes[i] != 127) || bytes[i] == 9
}

/// The text of a header value, if it is visible ASCII, spaces and tabs only.
pub open spec fn visible(bytes: Seq<u8>) -> Option<Seq<char>> {
    if forall|i: int| 0 <= i < bytes.len() ==> 32 <= #[trigger] bytes[i] <= 126 || bytes[i] == 9 {
        Some(bytes.map_values(|byte: u8| byte as char))
    } else {
        None
    }
}

/// The first value under a name, if there is one.
pub open spec fn first(contents: Map<Seq<char>, Seq<Seq<u8>>>, name: Seq<char>) -> Option<Seq<u8>> {
    if contents.contains_key(name) {
        Some(contents[name][0])
    } else {
        None
    }
}

/// The text of the first value under a name, if it is there and is text.
pub open spec fn header_text(
    fields: Map<Seq<char>, Seq<Seq<u8>>>,
    name: Seq<char>,
) -> Option<Seq<char>> {
    match first(fields, name) {
        Some(value) => visible(value),
        None => None,
    }
}

/// The bytes of an optional value.
pub open spec fn bytes_or_none(value: Option<Vec<u8>>) -> Option<Seq<u8>> {
    match value {
        Some(value) => Some(value@),
        None => None,
    }
}

/// `HeaderMap::new`: a map that holds nothing.
#[verifier::external_body]
pub(crate) fn empty() -> (fresh: http::HeaderMap)
    ensures
        fields(fresh) == no_fields(),
{
    http::HeaderMap::new()
}

/// `HeaderMap::get`: the first value under a name, or nothing if the name is
/// not there.
#[verifier::external_body]
pub(crate) fn get(map: &http::HeaderMap, name: &str) -> (value: Option<Vec<u8>>)
    requires
        lower_name(name@),
    ensures
        bytes_or_none(value) == first(fields(*map), name@),
{
    map.get(name).map(|value| value.as_bytes().to_vec())
}

/// `HeaderMap::get_all`: every value under a name, in the order they were
/// added. A name that is there has a value, and what an `http::HeaderValue`
/// holds may be the value of a header.
#[verifier::external_body]
pub(crate) fn get_all(map: &http::HeaderMap, name: &str) -> (values: Vec<Vec<u8>>)
    requires
        lower_name(name@),
    ensures
        values@.map_values(|value: Vec<u8>| value@) == (if fields(*map).contains_key(
            name@,
        ) {
            fields(*map)[name@]
        } else {
            Seq::empty()
        }),
        fields(*map).contains_key(name@) ==> values@.len() > 0,
        forall|i: int| 0 <= i < values@.len() ==> valid_value(#[trigger] values@[i]@),
{
    map.get_all(name).iter().map(|value| value.as_bytes().to_vec()).collect()
}

/// `HeaderMap::contains_key`: whether there is a value under a name.
#[verifier::external_body]
pub(crate) fn contains(map: &http::HeaderMap, name: &str) -> (found: bool)
    requires
        lower_name(name@),
    ensures
        found == fields(*map).contains_key(name@),
{
    map.contains_key(name)
}

/// `HeaderMap::keys`: every name the map holds a value under, each once, in
/// lower case and in no order that may be relied on.
#[verifier::external_body]
pub(crate) fn names(map: &http::HeaderMap) -> (names: Vec<String>)
    ensures
        text::texts(names@).no_duplicates(),
        forall|name: Seq<char>|
            text::texts(names@).contains(name) <==> #[trigger] fields(*map).contains_key(
                name,
            ),
{
    map.keys().map(|name| name.as_str().to_owned()).collect()
}

/// `HeaderMap::try_insert`: the value stands under the name, in place of any
/// that stood there. A map that is too full may refuse it, and is then left as
/// it was; one that is [`roomy`] takes it.
#[verifier::external_body]
fn try_insert(map: &mut http::HeaderMap, name: &str, value: &[u8]) -> (taken: bool)
    requires
        lower_name(name@),
        valid_value(value@),
    ensures
        roomy(fields(*old(map))) ==> taken,
        fields(*final(map)) == (if taken {
            fields(*old(map)).insert(name@, seq![value@])
        } else {
            fields(*old(map))
        }),
{
    let name = http::HeaderName::from_bytes(name.as_bytes()).expect("a header name");
    let value = http::HeaderValue::from_bytes(value).expect("a header value");
    map.try_insert(name, value).is_ok()
}

/// `HeaderMap::try_append`: the value stands under the name, after any that
/// stood there. A map that is too full may refuse it, and is then left as it
/// was; one that is [`roomy`] takes it.
#[verifier::external_body]
fn try_append(map: &mut http::HeaderMap, name: &str, value: &[u8]) -> (taken: bool)
    requires
        lower_name(name@),
        valid_value(value@),
    ensures
        roomy(fields(*old(map))) ==> taken,
        fields(*final(map)) == (if taken {
            with_value(fields(*old(map)), name@, value@)
        } else {
            fields(*old(map))
        }),
{
    let name = http::HeaderName::from_bytes(name.as_bytes()).expect("a header name");
    let value = http::HeaderValue::from_bytes(value).expect("a header value");
    map.try_append(name, value).is_ok()
}

/// Puts a value under a name, in place of any that stood there.
pub(crate) fn insert(map: &mut http::HeaderMap, name: &str, value: &[u8])
    requires
        lower_name(name@),
        valid_value(value@),
        roomy(fields(*old(map))),
    ensures
        fields(*final(map)) == fields(*old(map)).insert(name@, seq![value@]),
{
    let _ = try_insert(map, name, value);
}

/// Puts a value under a name, after any that stood there.
pub(crate) fn append(map: &mut http::HeaderMap, name: &str, value: &[u8])
    requires
        lower_name(name@),
        valid_value(value@),
        roomy(fields(*old(map))),
    ensures
        fields(*final(map)) == with_value(fields(*old(map)), name@, value@),
{
    let _ = try_append(map, name, value);
}

/// Fields with one more value under a name, after any that stood there.
pub open spec fn with_value(
    contents: Map<Seq<char>, Seq<Seq<u8>>>,
    name: Seq<char>,
    value: Seq<u8>,
) -> Map<Seq<char>, Seq<Seq<u8>>> {
    contents.insert(
        name,
        if contents.contains_key(name) {
            contents[name].push(value)
        } else {
            seq![value]
        },
    )
}

/// The bytes of each of some values.
pub open spec fn bytes_of(values: Seq<Vec<u8>>) -> Seq<Seq<u8>> {
    values.map_values(|value: Vec<u8>| value@)
}

/// A map with fewer names than a roomy one is roomy.
pub proof fn lemma_roomy(
    contents: Map<Seq<char>, Seq<Seq<u8>>>,
    larger: Map<Seq<char>, Seq<Seq<u8>>>,
)
    requires
        roomy(larger),
        contents.dom().subset_of(larger.dom()),
    ensures
        roomy(contents),
{
    vstd::set_lib::lemma_len_subset(contents.dom(), larger.dom());
}

/// Puts one value under a name in place of any that stood there, if the map
/// takes it.
pub(crate) fn try_set(map: &mut http::HeaderMap, name: &str, value: &[u8]) -> (taken: bool)
    requires
        lower_name(name@),
        valid_value(value@),
    ensures
        roomy(fields(*old(map)).insert(name@, seq![])) ==> taken,
        taken ==> fields(*final(map)) == fields(*old(map)).insert(name@, seq![value@]),
{
    proof {
        if roomy(fields(*map).insert(name@, seq![])) {
            lemma_roomy(fields(*map), fields(*map).insert(name@, seq![]));
        }
    }
    try_insert(map, name, value)
}

/// Puts values under a name that stands in a map, in their order and in place
/// of those that stood there, if the map takes them.
pub(crate) fn try_replace(
    map: &mut http::HeaderMap,
    name: &str,
    values: &Vec<Vec<u8>>,
) -> (taken: bool)
    requires
        lower_name(name@),
        fields(*old(map)).contains_key(name@),
        values@.len() > 0,
        forall|i: int| 0 <= i < values@.len() ==> valid_value(#[trigger] values@[i]@),
    ensures
        roomy(fields(*old(map))) ==> taken,
        taken ==> fields(*final(map)) == fields(*old(map)).insert(name@, bytes_of(values@)),
{
    let ghost before = fields(*map);
    let ghost all = bytes_of(values@);
    remove(map, name);
    let mut at: usize = 0;
    while at < values.len()
        invariant
            at <= values@.len(),
            lower_name(name@),
            before.contains_key(name@),
            before == fields(*old(map)),
            all == bytes_of(values@),
            forall|i: int| 0 <= i < values@.len() ==> valid_value(#[trigger] values@[i]@),
            fields(*map) == (if at == 0 {
                before.remove(name@)
            } else {
                before.insert(name@, all.take(at as int))
            }),
        decreases values.len() - at,
    {
        proof {
            if roomy(before) {
                lemma_roomy(fields(*map), before);
            }
            assert(all.take(at + 1) =~= all.take(at as int).push(values@[at as int]@));
            assert(at == 0 ==> all.take(at + 1) =~= seq![values@[at as int]@]);
            assert(with_value(fields(*map), name@, values@[at as int]@) =~= before.insert(
                name@,
                all.take(at + 1),
            ));
        }
        if !try_append(map, name, values[at].as_slice()) {
            return false;
        }
        at = at + 1;
    }
    proof {
        assert(all.take(at as int) =~= all);
    }
    true
}

/// `HeaderMap::remove`: nothing stands under the name any more.
#[verifier::external_body]
pub(crate) fn remove(map: &mut http::HeaderMap, name: &str)
    requires
        lower_name(name@),
    ensures
        fields(*final(map)) == fields(*old(map)).remove(name@),
{
    map.remove(name);
}

/// `HeaderName::try_from`: the lower-case name that a text spells, if it spells
/// one.
#[verifier::external_body]
pub(crate) fn parse_name(text: &str) -> (name: Option<String>)
    ensures
        text::text_or_none(name) == header_name(text@),
{
    http::HeaderName::try_from(text).ok().map(|name| name.as_str().to_owned())
}

/// Whether a map takes a value under a name, and then another, whatever its
/// slots look like.
pub fn has_room_for(map: &http::HeaderMap, name: &str) -> (room: bool)
    requires
        lower_name(name@),
    ensures
        room == roomy(fields(*map).insert(name@, seq![])),
{
    let held = names(map);
    let found = contains(map, name);
    proof {
        let held = text::texts(held@);
        assert(held.to_set() =~= fields(*map).dom());
        held.unique_seq_to_set();
        assert(fields(*map).insert(name@, seq![]).dom() =~= fields(*map).dom().insert(name@));
    }
    if found {
        held.len() < MAX_NAMES
    } else {
        held.len() < MAX_NAMES - 1
    }
}

/// Whether bytes may be the value of a header.
pub fn is_value(bytes: &[u8]) -> (valid: bool)
    ensures
        valid == valid_value(bytes@),
{
    let mut at: usize = 0;
    while at < bytes.len()
        invariant
            at <= bytes@.len(),
            forall|i: int|
                0 <= i < at ==> (32 <= #[trigger] bytes@[i] && bytes@[i] != 127) || bytes@[i] == 9,
        decreases bytes.len() - at,
    {
        let byte: u8 = bytes[at];
        if (byte < 32 || byte == 127) && byte != 9 {
            return false;
        }
        at = at + 1;
    }
    true
}

/// The text of a header value, if it is visible ASCII, spaces and tabs only.
pub fn visible_text(bytes: &[u8]) -> (text: Option<String>)
    ensures
        text::text_or_none(text) == visible(bytes@),
{
    let mut text = String::new();
    let mut at: usize = 0;
    while at < bytes.len()
        invariant
            at <= bytes@.len(),
            forall|i: int| 0 <= i < at ==> 32 <= #[trigger] bytes@[i] <= 126 || bytes@[i] == 9,
            text@ == bytes@.take(at as int).map_values(|byte: u8| byte as char),
        decreases bytes.len() - at,
    {
        let byte: u8 = bytes[at];
        if (byte < 32 || byte > 126) && byte != 9 {
            return None;
        }
        text.push(byte as char);
        proof {
            assert(text@ =~= bytes@.take(at + 1).map_values(|byte: u8| byte as char));
        }
        at = at + 1;
    }
    proof {
        assert(bytes@.take(at as int) =~= bytes@);
    }
    Some(text)
}

/// ASCII text that has nothing unprintable in it.
pub open spec fn printable(text: Seq<char>) -> bool {
    forall|i: int| 0 <= i < text.len() ==> ' ' <= #[trigger] text[i] <= '~'
}

/// The lower case of a header name is one in lower case.
pub proof fn lemma_lowered_name(text: Seq<char>)
    requires
        header_name(text) is Some,
    ensures
        lower_name(text::lowered(text)),
{
    let low = text::lowered(text);
    assert forall|i: int| 0 <= i < low.len() implies token(#[trigger] low[i]) && text::lower(low[i])
        == low[i] by {
        assert(token(text[i]));
        assert(low[i] == text::lower(text[i]));
    }
    assert(text::lowered(low) =~= low);
}

/// Printable ASCII text may be a header's value, and reads back as itself.
pub proof fn lemma_printable(text: Seq<char>)
    requires
        printable(text),
    ensures
        valid_value(encode_utf8(text)),
        visible(encode_utf8(text)) == Some(text),
{
    assert(is_ascii_chars(text));
    is_ascii_chars_encode_utf8(text);
    let bytes = encode_utf8(text);
    assert(bytes.len() == text.len());
    assert forall|i: int| 0 <= i < bytes.len() implies 32 <= #[trigger] bytes[i] <= 126 by {
        assert(bytes[i] == text[i] as u8);
    }
    assert(bytes.map_values(|byte: u8| byte as char) =~= text);
}

pub const HOST: &'static str = "host";

pub const ORIGIN: &'static str = "origin";

pub const REFERER: &'static str = "referer";

pub const ACCEPT_ENCODING: &'static str = "accept-encoding";

pub const COOKIE: &'static str = "cookie";

pub const CONNECTION: &'static str = "connection";

pub const PROXY_AUTHENTICATE: &'static str = "proxy-authenticate";

pub const PROXY_AUTHORIZATION: &'static str = "proxy-authorization";

pub const TE: &'static str = "te";

pub const TRAILER: &'static str = "trailer";

pub const TRANSFER_ENCODING: &'static str = "transfer-encoding";

pub const UPGRADE: &'static str = "upgrade";

pub const CONTENT_TYPE: &'static str = "content-type";

pub const CONTENT_ENCODING: &'static str = "content-encoding";

pub const CONTENT_SECURITY_POLICY: &'static str = "content-security-policy";

pub const SET_COOKIE: &'static str = "set-cookie";

pub const LOCATION: &'static str = "location";

pub const RANGE: &'static str = "range";

/// Lower-case letters and hyphens make a header name in lower case.
pub proof fn lemma_letters(text: Seq<char>)
    requires
        1 <= text.len() <= 65535,
        forall|i: int| 0 <= i < text.len() ==> 'a' <= #[trigger] text[i] <= 'z' || text[i] == '-',
    ensures
        lower_name(text),
{
    assert(text::lowered(text) =~= text);
}

/// Every name above is a header name in lower case.
pub proof fn lemma_names()
    ensures
        lower_name(HOST@),
        lower_name(ORIGIN@),
        lower_name(REFERER@),
        lower_name(ACCEPT_ENCODING@),
        lower_name(COOKIE@),
        lower_name(CONNECTION@),
        lower_name(PROXY_AUTHENTICATE@),
        lower_name(PROXY_AUTHORIZATION@),
        lower_name(TE@),
        lower_name(TRAILER@),
        lower_name(TRANSFER_ENCODING@),
        lower_name(UPGRADE@),
        lower_name(CONTENT_TYPE@),
        lower_name(CONTENT_ENCODING@),
        lower_name(CONTENT_SECURITY_POLICY@),
        lower_name(SET_COOKIE@),
        lower_name(LOCATION@),
        lower_name(RANGE@),
{
    reveal_strlit("host");
    lemma_letters(HOST@);
    reveal_strlit("origin");
    lemma_letters(ORIGIN@);
    reveal_strlit("referer");
    lemma_letters(REFERER@);
    reveal_strlit("accept-encoding");
    lemma_letters(ACCEPT_ENCODING@);
    reveal_strlit("cookie");
    lemma_letters(COOKIE@);
    reveal_strlit("connection");
    lemma_letters(CONNECTION@);
    reveal_strlit("proxy-authenticate");
    lemma_letters(PROXY_AUTHENTICATE@);
    reveal_strlit("proxy-authorization");
    lemma_letters(PROXY_AUTHORIZATION@);
    reveal_strlit("te");
    lemma_letters(TE@);
    reveal_strlit("trailer");
    lemma_letters(TRAILER@);
    reveal_strlit("transfer-encoding");
    lemma_letters(TRANSFER_ENCODING@);
    reveal_strlit("upgrade");
    lemma_letters(UPGRADE@);
    reveal_strlit("content-type");
    lemma_letters(CONTENT_TYPE@);
    reveal_strlit("content-encoding");
    lemma_letters(CONTENT_ENCODING@);
    reveal_strlit("content-security-policy");
    lemma_letters(CONTENT_SECURITY_POLICY@);
    reveal_strlit("set-cookie");
    lemma_letters(SET_COOKIE@);
    reveal_strlit("location");
    lemma_letters(LOCATION@);
    reveal_strlit("range");
    lemma_letters(RANGE@);
}

/// A header value is text exactly if each of its bytes is a tab or prints as one
/// ASCII character, and its text is those characters.
pub proof fn law_a_value_is_text_byte_for_byte(bytes: Seq<u8>, text: Seq<char>)
    ensures
        visible(bytes) == Some(text) <==> text.len() == bytes.len() && forall|i: int|
            0 <= i < bytes.len() ==> (32 <= #[trigger] bytes[i] <= 126 || bytes[i] == 9)
                && text[i] as int == bytes[i] as int,
{
    if visible(bytes) == Some(text) {
        assert forall|i: int| 0 <= i < bytes.len() implies (32 <= #[trigger] bytes[i] <= 126
            || bytes[i] == 9) && text[i] as int == bytes[i] as int by {
            assert(bytes.map_values(|byte: u8| byte as char)[i] == text[i]);
        }
    }
    if text.len() == bytes.len() && forall|i: int|
        0 <= i < bytes.len() ==> (32 <= #[trigger] bytes[i] <= 126 || bytes[i] == 9)
            && text[i] as int == bytes[i] as int {
        assert forall|i: int| 0 <= i < bytes.len() implies bytes[i] as char == text[i] by {
            assert(32 <= bytes[i] <= 126 || bytes[i] == 9);
        }
        assert(bytes.map_values(|byte: u8| byte as char) =~= text);
    }
}

/// The first value under a name is what is read where only one is, and only the
/// text of that one.
pub proof fn law_the_first_value_is_read(
    contents: Map<Seq<char>, Seq<Seq<u8>>>,
    name: Seq<char>,
    text: Seq<char>,
)
    ensures
        header_text(contents, name) == Some(text) <==> contents.contains_key(name) && visible(
            contents[name][0],
        ) == Some(text),
        first(contents, name) is Some <==> contents.contains_key(name),
        contents.contains_key(name) ==> first(contents, name) == Some(contents[name][0]),
{
}

/// A value may hold a tab, and every byte from the space on but for the one that
/// deletes.
pub proof fn law_a_value_holds_no_controls(bytes: Seq<u8>, i: int)
    ensures
        0 <= i < bytes.len() && (bytes[i] <= 8 || 10 <= bytes[i] <= 31 || bytes[i] == 127)
            ==> !valid_value(bytes),
        !valid_value(bytes) ==> exists|j: int|
            0 <= j < bytes.len() && (#[trigger] bytes[j] <= 8 || 10 <= bytes[j] <= 31 || bytes[j]
                == 127),
{
}

/// Another value under a name stands behind those before it, and what stands
/// under any other name stays.
pub proof fn law_another_value_stands_behind(
    contents: Map<Seq<char>, Seq<Seq<u8>>>,
    name: Seq<char>,
    value: Seq<u8>,
    other: Seq<char>,
)
    ensures
        with_value(contents, name, value).contains_key(name),
        with_value(contents, name, value)[name].last() == value,
        !contents.contains_key(name) ==> with_value(contents, name, value)[name].len() == 1,
        contents.contains_key(name) ==> with_value(contents, name, value)[name].drop_last()
            == contents[name],
        other != name ==> (with_value(contents, name, value).contains_key(other)
            <==> contents.contains_key(other)),
        other != name && contents.contains_key(other) ==> with_value(contents, name, value)[other]
            == contents[other],
{
}

} // verus!
