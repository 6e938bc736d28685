//! What a custom protocol cannot deliver, recognised in the server's response.
//!
//! A protocol handler answers with one buffered body and no connection. Several
//! ordinary HTTP capabilities therefore have no path to the webview, and a
//! server that was not told so emits them anyway. Each rule below tests a
//! header the server actually set.

use crate::headers;
use crate::message::Response;
use crate::text;
use vstd::prelude::*;
use vstd::utf8::*;

verus! {

/// A capability the server used and this transport cannot carry.
///
/// Each carries the header that gave it away, not a sentence about it.
#[derive(Debug, PartialEq, Eq)]
pub enum Unsupported {
    /// The response body arrives over time rather than all at once.
    Streaming {
        /// The header that gave it away.
        header: String,
        /// What it said.
        value: Vec<u8>,
    },
    /// The body is compressed.
    Compression {
        /// The `Content-Encoding` the server applied.
        encoding: Vec<u8>,
    },
    /// The response sets a cookie.
    SetCookie {
        /// The name of the first cookie the response tried to set.
        name: String,
    },
    /// The response asks to change protocols.
    Upgrade,
}

impl Clone for Unsupported {
    fn clone(&self) -> (copy: Unsupported)
        ensures
            match (*self, copy) {
                (
                    Unsupported::Streaming { header, value },
                    Unsupported::Streaming { header: other_header, value: other_value },
                ) => header == other_header && value@ == other_value@,
                (
                    Unsupported::Compression { encoding },
                    Unsupported::Compression { encoding: other_encoding },
                ) => encoding@ == other_encoding@,
                (
                    Unsupported::SetCookie { name },
                    Unsupported::SetCookie { name: other_name },
                ) => name == other_name,
                (Unsupported::Upgrade, Unsupported::Upgrade) => true,
                _ => false,
            },
    {
        match self {
            Unsupported::Streaming { header, value } => Unsupported::Streaming {
                header: header.clone(),
                value: value.clone(),
            },
            Unsupported::Compression { encoding } => Unsupported::Compression {
                encoding: encoding.clone(),
            },
            Unsupported::SetCookie { name } => Unsupported::SetCookie { name: name.clone() },
            Unsupported::Upgrade => Unsupported::Upgrade,
        }
    }
}

/// The status of a response that changes protocols.
pub const SWITCHING_PROTOCOLS: u16 = 101;

/// The type and the subtype that `mime` reads in a text, in lower case and
/// without the suffix and the parameters that may follow them.
pub uninterp spec fn mime_names(text: Seq<char>) -> Option<(Seq<char>, Seq<char>)>;

/// The text of each name of an optional pair.
pub open spec fn names_or_none(names: Option<(String, String)>) -> Option<(Seq<char>, Seq<char>)> {
    match names {
        Some(names) => Some((names.0@, names.1@)),
        None => None,
    }
}

/// A name of ASCII letters, digits and hyphens.
pub open spec fn plain_name(name: Seq<char>) -> bool {
    &&& name.len() > 0
    &&& forall|i: int|
        0 <= i < name.len() ==> 'a' <= #[trigger] name[i] <= 'z' || 'A' <= name[i] <= 'Z' || '0'
            <= name[i] <= '9' || name[i] == '-'
}

/// The parameters of a media type as they are written: each a name and a value,
/// with a semicolon and a space in front.
pub open spec fn parameters_text(parameters: Seq<(Seq<char>, Seq<char>)>) -> Seq<char>
    decreases parameters.len(),
{
    if parameters.len() == 0 {
        seq![]
    } else {
        parameters_text(parameters.drop_last()) + "; "@ + parameters.last().0 + "="@
            + parameters.last().1
    }
}

/// Whether a text is a media type of two plain names, with the parameters it may
/// have plain too.
pub open spec fn plain_media_type(
    text: Seq<char>,
    kind: Seq<char>,
    subtype: Seq<char>,
    parameters: Seq<(Seq<char>, Seq<char>)>,
) -> bool {
    &&& plain_name(kind)
    &&& plain_name(subtype)
    &&& forall|i: int|
        0 <= i < parameters.len() ==> plain_name(#[trigger] parameters[i].0) && plain_name(
            parameters[i].1,
        )
    &&& text == kind + "/"@ + subtype + parameters_text(parameters)
}

/// Some spaces.
pub open spec fn spaces(count: nat) -> Seq<char> {
    Seq::new(count, |i: int| ' ')
}

/// Whether a text is the value of a parameter as it is written: a plain name, or
/// printable ASCII between two quotes.
pub open spec fn written_value(value: Seq<char>) -> bool {
    ||| plain_name(value)
    ||| {
        &&& value.len() > 2
        &&& value[0] == '"' && value.last() == '"'
        &&& forall|i: int|
            0 < i < value.len() - 1 ==> ' ' <= #[trigger] value[i] <= '~' && value[i] != '"'
    }
}

/// The parameters of a media type as they are written: each behind a semicolon
/// and as many spaces as there are, a name and a value.
pub open spec fn loose_parameters_text(
    parameters: Seq<(nat, Seq<char>, Seq<char>)>,
) -> Seq<char>
    decreases parameters.len(),
{
    if parameters.len() == 0 {
        seq![]
    } else {
        loose_parameters_text(parameters.drop_last()) + ";"@ + spaces(parameters.last().0)
            + parameters.last().1 + "="@ + parameters.last().2
    }
}

/// Whether a text is a media type of two plain names, with the suffix and the
/// parameters it may have.
pub open spec fn written_media_type(
    text: Seq<char>,
    kind: Seq<char>,
    subtype: Seq<char>,
    suffix: Option<Seq<char>>,
    parameters: Seq<(nat, Seq<char>, Seq<char>)>,
) -> bool {
    &&& plain_name(kind)
    &&& plain_name(subtype)
    &&& suffix matches Some(suffix) ==> plain_name(suffix)
    &&& forall|i: int|
        0 <= i < parameters.len() ==> plain_name(#[trigger] parameters[i].1) && written_value(
            parameters[i].2,
        )
    &&& text == kind + "/"@ + subtype + (match suffix {
        Some(suffix) => "+"@ + suffix,
        None => seq![],
    }) + loose_parameters_text(parameters)
}

/// Whether a text opens with two names, in any case and with a slash between
/// them, and goes on with a suffix or with parameters if it goes on.
pub open spec fn opens_with(text: Seq<char>, kind: Seq<char>, subtype: Seq<char>) -> bool {
    let end = (kind.len() + 1 + subtype.len()) as int;
    &&& end <= text.len()
    &&& text::lowered(text.take(end)) == kind + "/"@ + subtype
    &&& end == text.len() || text[end] == ';' || text[end] == '+'
}

/// Whether a text opens with the two names that were read in it, if any were.
pub open spec fn opens_with_names(
    text: Seq<char>,
    names: Option<(Seq<char>, Seq<char>)>,
) -> bool {
    match names {
        Some((kind, subtype)) => opens_with(text, kind, subtype),
        None => true,
    }
}

/// Reads a text with `mime::Mime`, and takes `type_` and `subtype` of what it
/// read. Whatever it read, the text opens with the two names. Of a plain media
/// type the contract says what they are, whatever its suffix and its
/// parameters; of any other text, that they are what [`mime_names`] names.
#[verifier::external_body]
fn parse_mime(text: &str) -> (names: Option<(String, String)>)
    ensures
        names_or_none(names) == mime_names(text@),
        forall|kind: Seq<char>, subtype: Seq<char>, parameters: Seq<(Seq<char>, Seq<char>)>|
            #[trigger] plain_media_type(text@, kind, subtype, parameters) ==> names_or_none(names)
                == Some((text::lowered(kind), text::lowered(subtype))),
        reads_written(text@, names_or_none(names)),
        opens_with_names(text@, names_or_none(names)),
{
    let parsed = text.parse::<mime::Mime>().ok()?;
    Some((parsed.type_().as_str().to_owned(), parsed.subtype().as_str().to_owned()))
}

/// Whether a media type that is written plainly, with any suffix and parameters,
/// was read as its two names in lower case.
pub open spec fn reads_written(text: Seq<char>, names: Option<(Seq<char>, Seq<char>)>) -> bool {
    forall|
        kind: Seq<char>,
        subtype: Seq<char>,
        suffix: Option<Seq<char>>,
        parameters: Seq<(nat, Seq<char>, Seq<char>)>,
    |
        #[trigger] written_media_type(text, kind, subtype, suffix, parameters) ==> names == Some(
            (text::lowered(kind), text::lowered(subtype)),
        )
}

/// The media type a `Content-Type` names. Trimmed first, because a value built
/// in process never went past a parser that would have.
pub open spec fn media_type_of(value: Seq<u8>) -> Option<(Seq<char>, Seq<char>)> {
    match headers::visible(value) {
        Some(text) => mime_names(text::trimmed(text)),
        None => None,
    }
}

/// Whether a `Content-Type` is the only media type whose whole purpose is to
/// stay open.
pub open spec fn event_stream(value: Seq<u8>) -> bool {
    media_type_of(value) == Some(("text"@, "event-stream"@))
}

/// The name a `Set-Cookie` sets, or the whole of it when it has no `=`.
pub open spec fn cookie_name(whole: Seq<char>) -> Seq<char> {
    let at = text::find(whole, '=');
    if at < whole.len() {
        text::trimmed(whole.take(at as int))
    } else {
        whole
    }
}

/// Whether a report is of streaming, on the word of the first value under a
/// header.
pub open spec fn reports_streaming(
    report: Option<Unsupported>,
    fields: Map<Seq<char>, Seq<Seq<u8>>>,
    name: Seq<char>,
) -> bool {
    match report {
        Some(Unsupported::Streaming { header, value }) => header@ == name && Some(value@)
            == headers::first(fields, name),
        _ => false,
    }
}

/// Whether a report is the first capability, in the order they are declared,
/// that a response with this status and these headers uses.
pub open spec fn recognised(
    report: Option<Unsupported>,
    status: u16,
    fields: Map<Seq<char>, Seq<Seq<u8>>>,
) -> bool {
    if fields.contains_key(headers::TRANSFER_ENCODING@) {
        reports_streaming(report, fields, headers::TRANSFER_ENCODING@)
    } else if fields.contains_key(headers::CONTENT_TYPE@) && event_stream(
        fields[headers::CONTENT_TYPE@][0],
    ) {
        reports_streaming(report, fields, headers::CONTENT_TYPE@)
    } else if fields.contains_key(headers::CONTENT_ENCODING@) {
        report matches Some(Unsupported::Compression { encoding }) && encoding@
            == fields[headers::CONTENT_ENCODING@][0]
    } else if fields.contains_key(headers::SET_COOKIE@) {
        report matches Some(Unsupported::SetCookie { name }) && name@ == cookie_name(
            text::utf8_lossy(fields[headers::SET_COOKIE@][0]),
        )
    } else if status == SWITCHING_PROTOCOLS || fields.contains_key(headers::UPGRADE@) {
        report matches Some(Unsupported::Upgrade)
    } else {
        report is None
    }
}

/// Whether a response that streams as server-sent events is reported as that:
/// one with no `Transfer-Encoding`, whose `Content-Type` is a plain media type,
/// is reported for it exactly if its names spell `text/event-stream` in any
/// case, whatever its parameters.
pub open spec fn recognises_event_streams(
    report: Option<Unsupported>,
    fields: Map<Seq<char>, Seq<Seq<u8>>>,
) -> bool {
    forall|
        kind: Seq<char>,
        subtype: Seq<char>,
        parameters: Seq<(Seq<char>, Seq<char>)>,
        whole: Seq<char>,
    |
        headers::header_text(fields, headers::CONTENT_TYPE@) == Some(whole)
            && #[trigger] plain_media_type(text::trimmed(whole), kind, subtype, parameters)
            && !fields.contains_key(headers::TRANSFER_ENCODING@) ==> (reports_streaming(
            report,
            fields,
            headers::CONTENT_TYPE@,
        ) <==> text::alike(kind, "text"@) && text::alike(subtype, "event-stream"@))
}

/// Whether a media type that is written plainly, with any suffix and parameters,
/// is said to stream exactly if its names spell `text/event-stream` in any case.
pub open spec fn streams_as_written(text: Seq<char>, streams: bool) -> bool {
    forall|
        kind: Seq<char>,
        subtype: Seq<char>,
        suffix: Option<Seq<char>>,
        parameters: Seq<(nat, Seq<char>, Seq<char>)>,
    |
        #[trigger] written_media_type(text, kind, subtype, suffix, parameters) ==> streams == (
        text::alike(kind, "text"@) && text::alike(subtype, "event-stream"@))
}

/// Whether a response is reported as streaming for its `Content-Type` only where
/// that opens with `text/event-stream`, and is where it spells that.
pub open spec fn streams_only_as_events(
    report: Option<Unsupported>,
    fields: Map<Seq<char>, Seq<Seq<u8>>>,
) -> bool {
    !fields.contains_key(headers::TRANSFER_ENCODING@) ==> {
        let said = headers::header_text(fields, headers::CONTENT_TYPE@);
        &&& report matches Some(Unsupported::Streaming { .. }) ==> said is Some && opens_with(
            text::trimmed(said->0),
            "text"@,
            "event-stream"@,
        )
        &&& said matches Some(whole) ==> streams_as_written(
            text::trimmed(whole),
            report matches Some(Unsupported::Streaming { .. }),
        )
    }
}

/// Whether a report is the one of a response: the first capability it uses, with
/// server-sent events recognised as such and a cookie's name read as it is
/// written.
pub open spec fn reported(
    report: Option<Unsupported>,
    status: u16,
    fields: Map<Seq<char>, Seq<Seq<u8>>>,
) -> bool {
    &&& recognised(report, status, fields)
    &&& recognises_event_streams(report, fields)
    &&& streams_only_as_events(report, fields)
    &&& report matches Some(Unsupported::SetCookie { .. }) ==> text::keeps_text(
        fields[headers::SET_COOKIE@][0],
    )
}

/// Recognises the first capability in `response` this transport cannot carry.
///
/// Reported in the order declared by [`Unsupported`], most structural first: a
/// response can trip several rules, and being told it streams is more use than
/// being told it also sets a cookie. Fixing one reveals the next.
pub fn unsupported<B>(response: &Response<B>) -> (report: Option<Unsupported>)
    ensures
        reported(report, response.status, headers::fields(response.headers)),
{
    proof {
        headers::lemma_names();
        lemma_event_stream();
    }
    if let Some(value) = headers::get(&response.headers, headers::TRANSFER_ENCODING) {
        return Some(
            Unsupported::Streaming { header: headers::TRANSFER_ENCODING.to_owned(), value },
        );
    }
    if let Some(value) = headers::get(&response.headers, headers::CONTENT_TYPE) {
        if is_event_stream(value.as_slice()) {
            return Some(
                Unsupported::Streaming { header: headers::CONTENT_TYPE.to_owned(), value },
            );
        }
    }
    if let Some(encoding) = headers::get(&response.headers, headers::CONTENT_ENCODING) {
        return Some(Unsupported::Compression { encoding });
    }
    if let Some(value) = headers::get(&response.headers, headers::SET_COOKIE) {
        let whole = text::lossy(value.as_slice());
        return Some(Unsupported::SetCookie { name: name(whole.as_str()) });
    }
    if response.status == SWITCHING_PROTOCOLS || headers::contains(
        &response.headers,
        headers::UPGRADE,
    ) {
        return Some(Unsupported::Upgrade);
    }
    None
}

/// The two names of the streaming media type are in lower case.
proof fn lemma_event_stream()
    ensures
        text::lowered("text"@) == "text"@,
        text::lowered("event-stream"@) == "event-stream"@,
{
    reveal_strlit("text");
    reveal_strlit("event-stream");
    assert(text::lowered("text"@) =~= "text"@);
    assert(text::lowered("event-stream"@) =~= "event-stream"@);
}

/// Whether a `Content-Type` is the media type of server-sent events.
fn is_event_stream(value: &[u8]) -> (streams: bool)
    ensures
        streams == event_stream(value@),
        forall|
            kind: Seq<char>,
            subtype: Seq<char>,
            parameters: Seq<(Seq<char>, Seq<char>)>,
            whole: Seq<char>,
        |
            headers::visible(value@) == Some(whole) && #[trigger] plain_media_type(
                text::trimmed(whole),
                kind,
                subtype,
                parameters,
            ) ==> streams == (text::alike(kind, "text"@) && text::alike(subtype, "event-stream"@)),
        headers::visible(value@) matches Some(whole) ==> streams_as_written(
            text::trimmed(whole),
            streams,
        ),
        streams ==> headers::visible(value@) is Some && opens_with(
            text::trimmed(headers::visible(value@)->0),
            "text"@,
            "event-stream"@,
        ),
{
    proof {
        lemma_event_stream();
    }
    streams(&media_type(value))
}

/// Whether the names of a media type are those of server-sent events.
pub fn streams(names: &Option<(String, String)>) -> (streams: bool)
    ensures
        streams == (names_or_none(*names) == Some(("text"@, "event-stream"@))),
{
    match names {
        Some(names) => text::same(names.0.as_str(), "text") && text::same(
            names.1.as_str(),
            "event-stream",
        ),
        None => false,
    }
}

/// The media type a `Content-Type` names.
fn media_type(value: &[u8]) -> (names: Option<(String, String)>)
    ensures
        names_or_none(names) == media_type_of(value@),
        forall|
            kind: Seq<char>,
            subtype: Seq<char>,
            parameters: Seq<(Seq<char>, Seq<char>)>,
            whole: Seq<char>,
        |
            headers::visible(value@) == Some(whole) && #[trigger] plain_media_type(
                text::trimmed(whole),
                kind,
                subtype,
                parameters,
            ) ==> names_or_none(names) == Some((text::lowered(kind), text::lowered(subtype))),
        headers::visible(value@) matches Some(whole) ==> reads_written(
            text::trimmed(whole),
            names_or_none(names),
        ),
        names is Some ==> headers::visible(value@) is Some && opens_with_names(
            text::trimmed(headers::visible(value@)->0),
            names_or_none(names),
        ),
{
    let whole = match headers::visible_text(value) {
        Some(whole) => whole,
        None => return None,
    };
    let kept = text::trim(whole.as_str());
    parse_mime(kept.as_str())
}

/// The name a `Set-Cookie` sets, or the whole of it when it has no `=`.
pub fn name(whole: &str) -> (name: String)
    ensures
        name@ == cookie_name(whole@),
{
    let chars = text::chars_of(whole);
    let at: usize = text::position(&chars, '=', 0);
    proof {
        assert(chars@.skip(0) =~= chars@);
    }
    if at < chars.len() {
        let before = text::text_of(&chars, 0, at);
        proof {
            assert(before@ =~= whole@.take(at as int));
        }
        text::trim(before.as_str())
    } else {
        whole.to_owned()
    }
}

/// What a report says.
pub open spec fn unsupported_text(report: Unsupported) -> Seq<char> {
    match report {
        Unsupported::Streaming { header, value } => "the response streams (`"@ + header@ + ": "@
            + text::utf8_lossy(value@) + "`), and a custom protocol delivers one buffered body"@,
        Unsupported::Compression { encoding } => "the response is `"@ + text::utf8_lossy(encoding@)
            + "`-encoded, and the webview will not decode what a custom protocol hands it"@,
        Unsupported::SetCookie { name } => "the response sets the cookie `"@ + name@
            + "`, and the webview discards cookies from a custom protocol"@,
        Unsupported::Upgrade =>
            "the response asks to change protocols, and there is no connection here"@,
    }
}

/// Whether the value a report carries, if it is text, is read as that text.
pub open spec fn keeps_value(report: Unsupported) -> bool {
    match report {
        Unsupported::Streaming { value, .. } => text::keeps_text(value@),
        Unsupported::Compression { encoding } => text::keeps_text(encoding@),
        _ => true,
    }
}

impl Unsupported {
    /// What the report says: the capability, by the header that gave it away.
    pub fn message(&self) -> (message: String)
        ensures
            message@ == unsupported_text(*self),
            keeps_value(*self),
    {
        match self {
            Unsupported::Streaming { header, value } => {
                let mut message = "the response streams (`".to_owned();
                message.append(header.as_str());
                message.append(": ");
                let said = text::lossy(value.as_slice());
                message.append(said.as_str());
                message.append("`), and a custom protocol delivers one buffered body");
                message
            },
            Unsupported::Compression { encoding } => {
                let mut message = "the response is `".to_owned();
                let said = text::lossy(encoding.as_slice());
                message.append(said.as_str());
                message.append(
                    "`-encoded, and the webview will not decode what a custom protocol hands it",
                );
                message
            },
            Unsupported::SetCookie { name } => {
                let mut message = "the response sets the cookie `".to_owned();
                message.append(name.as_str());
                message.append("`, and the webview discards cookies from a custom protocol");
                message
            },
            Unsupported::Upgrade =>
            "the response asks to change protocols, and there is no connection here".to_owned(),
        }
    }
}

/// Whether a response uses none of the capabilities this transport cannot carry.
pub open spec fn deliverable(status: u16, fields: Map<Seq<char>, Seq<Seq<u8>>>) -> bool {
    &&& !fields.contains_key(headers::TRANSFER_ENCODING@)
    &&& fields.contains_key(headers::CONTENT_TYPE@) ==> !event_stream(
        fields[headers::CONTENT_TYPE@][0],
    )
    &&& !fields.contains_key(headers::CONTENT_ENCODING@)
    &&& !fields.contains_key(headers::SET_COOKIE@)
    &&& !fields.contains_key(headers::UPGRADE@)
    &&& status != SWITCHING_PROTOCOLS
}

/// Nothing fails quietly: a response is reported exactly if it uses something
/// this transport cannot carry.
pub proof fn law_nothing_fails_quietly(
    report: Option<Unsupported>,
    status: u16,
    fields: Map<Seq<char>, Seq<Seq<u8>>>,
)
    requires
        recognised(report, status, fields),
    ensures
        report is None <==> deliverable(status, fields),
{
}

/// The most structural problem is reported first: a response that streams is
/// reported as streaming, whatever else it uses, and a cookie is reported only
/// of one that neither streams nor is compressed.
pub proof fn law_the_most_structural_comes_first(
    report: Unsupported,
    status: u16,
    fields: Map<Seq<char>, Seq<Seq<u8>>>,
)
    requires
        recognised(Some(report), status, fields),
    ensures
        report is Streaming <==> fields.contains_key(headers::TRANSFER_ENCODING@) || (
        fields.contains_key(headers::CONTENT_TYPE@) && event_stream(
            fields[headers::CONTENT_TYPE@][0],
        )),
        report is SetCookie ==> !fields.contains_key(headers::CONTENT_ENCODING@),
        report is Upgrade ==> !fields.contains_key(headers::CONTENT_ENCODING@)
            && !fields.contains_key(headers::SET_COOKIE@),
{
}

/// Only an event stream is said to stream for its `Content-Type`: one whose
/// text, in lower case and without the white space around it, is
/// `text/event-stream` or goes on from there with a parameter or a suffix. A
/// page, an image or a script is not, however its type is written.
pub proof fn law_only_event_streams_are_said_to_stream(
    report: Option<Unsupported>,
    status: u16,
    fields: Map<Seq<char>, Seq<Seq<u8>>>,
    header: String,
    value: Vec<u8>,
)
    requires
        reported(report, status, fields),
        !fields.contains_key("transfer-encoding"@),
        report == Some(Unsupported::Streaming { header, value }),
    ensures
        header@ == "content-type"@,
        fields.contains_key("content-type"@),
        value@ == fields["content-type"@][0],
        headers::visible(value@) matches Some(whole) && {
            let kept = text::trimmed(whole);
            &&& kept.len() >= 17
            &&& text::lowered(kept.take(17)) == "text/event-stream"@
            &&& kept.len() == 17 || kept[17] == ';' || kept[17] == '+'
        },
{
    reveal_strlit("text");
    reveal_strlit("/");
    reveal_strlit("event-stream");
    reveal_strlit("text/event-stream");
    assert("text"@ + "/"@ + "event-stream"@ =~= "text/event-stream"@);
}

/// A `Content-Type` of two plain names, whatever its suffix and however its
/// parameters are written, is said to stream exactly if the two are `text` and
/// `event-stream` in any case.
pub proof fn law_event_streams_are_recognised(
    report: Option<Unsupported>,
    status: u16,
    fields: Map<Seq<char>, Seq<Seq<u8>>>,
    whole: Seq<char>,
    kind: Seq<char>,
    subtype: Seq<char>,
    suffix: Option<Seq<char>>,
    parameters: Seq<(nat, Seq<char>, Seq<char>)>,
)
    requires
        reported(report, status, fields),
        !fields.contains_key("transfer-encoding"@),
        fields.contains_key("content-type"@),
        headers::visible(fields["content-type"@][0]) == Some(whole),
        written_media_type(text::trimmed(whole), kind, subtype, suffix, parameters),
    ensures
        (report is Some && report->0 is Streaming) <==> text::lowered(kind) == "text"@
            && text::lowered(subtype) == "event-stream"@,
{
    lemma_event_stream();
}

/// What is reported is told by which headers a response has and by its status,
/// the most structural first; one that has none of them, and whose
/// `Content-Type` does not open with `text/event-stream`, passes.
pub proof fn law_each_capability_is_told_by_its_header(
    report: Option<Unsupported>,
    status: u16,
    fields: Map<Seq<char>, Seq<Seq<u8>>>,
)
    requires
        reported(report, status, fields),
    ensures
        fields.contains_key("transfer-encoding"@) ==> (report matches Some(
            Unsupported::Streaming { header, value },
        ) && header@ == "transfer-encoding"@ && value@ == fields["transfer-encoding"@][0]),
        ({
            let whole = headers::header_text(fields, "content-type"@);
            let events = whole is Some && text::trimmed(whole->0).len() >= 17 && text::lowered(
                text::trimmed(whole->0).take(17),
            ) == "text/event-stream"@;
            !fields.contains_key("transfer-encoding"@) && !events ==> {
                &&& fields.contains_key("content-encoding"@) ==> (report matches Some(
                    Unsupported::Compression { encoding },
                ) && encoding@ == fields["content-encoding"@][0])
                &&& !fields.contains_key("content-encoding"@) && fields.contains_key(
                    "set-cookie"@,
                ) ==> report is Some && report->0 is SetCookie
                &&& !fields.contains_key("content-encoding"@) && !fields.contains_key(
                    "set-cookie"@,
                ) ==> {
                    &&& status == 101 || fields.contains_key("upgrade"@) ==> report is Some
                        && report->0 is Upgrade
                    &&& status != 101 && !fields.contains_key("upgrade"@) ==> report is None
                }
            }
        }),
{
    reveal_strlit("text");
    reveal_strlit("/");
    reveal_strlit("event-stream");
    reveal_strlit("text/event-stream");
    assert("text"@ + "/"@ + "event-stream"@ =~= "text/event-stream"@);
}

/// A cookie is named by what stands before the first `=` of its header, without
/// the white space around it; a header with no `=` is the name whole.
pub proof fn law_a_cookie_goes_by_its_name(
    front: Seq<char>,
    name: Seq<char>,
    back: Seq<char>,
    rest: Seq<char>,
)
    requires
        !name.contains('='),
        forall|i: int| 0 <= i < front.len() ==> text::white(#[trigger] front[i]),
        forall|i: int| 0 <= i < back.len() ==> text::white(#[trigger] back[i]),
        name.len() > 0 ==> !text::white(name[0]) && !text::white(name.last()),
    ensures
        cookie_name((front + name + back).push('=') + rest) == name,
        cookie_name(name) == name,
{
    let before = front + name + back;
    let whole = before.push('=') + rest;
    assert forall|i: int| 0 <= i < before.len() implies before[i] != '=' by {
        if i < front.len() {
            assert(before[i] == front[i]);
        } else if i < front.len() + name.len() {
            assert(before[i] == name[i - front.len()]);
            assert(name.contains(name[i - front.len()]));
        } else {
            assert(before[i] == back[i - front.len() - name.len()]);
        }
    }
    assert forall|i: int| 0 <= i < before.len() implies whole[i] != '=' by {
        assert(whole[i] == before[i]);
    }
    text::lemma_found(whole, '=', before.len() as int);
    assert(whole.take(before.len() as int) =~= before);
    text::law_trimming_takes_the_white_space_around(front, name, back);
    text::lemma_find(name, '=');
}

/// A cookie that is reported is the first the response tried to set, by its
/// name as the text of its header has it.
pub proof fn law_the_first_cookie_is_named(
    name: String,
    status: u16,
    fields: Map<Seq<char>, Seq<Seq<u8>>>,
    whole: Seq<char>,
)
    requires
        reported(Some(Unsupported::SetCookie { name }), status, fields),
        fields["set-cookie"@][0] == encode_utf8(whole),
    ensures
        fields.contains_key("set-cookie"@),
        name@ == cookie_name(whole),
{
}

/// A report says the capability in the words of the header that gave it away:
/// what the server sent stands in it between backquotes.
pub proof fn law_a_report_quotes_what_it_saw(
    header: String,
    value: Vec<u8>,
    name: String,
    said: Seq<char>,
)
    requires
        value@ == encode_utf8(said),
        text::keeps_text(value@),
    ensures
        unsupported_text(Unsupported::Streaming { header, value }) == "the response streams (`"@
            + header@ + ": "@ + said + "`), and a custom protocol delivers one buffered body"@,
        unsupported_text(Unsupported::Compression { encoding: value }) == "the response is `"@
            + said + "`-encoded, and the webview will not decode what a custom protocol hands it"@,
        unsupported_text(Unsupported::SetCookie { name }) == "the response sets the cookie `"@
            + name@ + "`, and the webview discards cookies from a custom protocol"@,
{
}

} // verus!
