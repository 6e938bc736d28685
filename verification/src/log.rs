//! What a run says of each request, as the server saw it.

use crate::clock;
use crate::headers;
use crate::message::Request;
use crate::text;
use crate::uri;
use vstd::prelude::*;
use vstd::utf8::*;

verus! {

/// How much of a value is enough to recognise it.
pub const LIMIT: usize = 60;

/// Quits once the report is printed, instead of leaving the windows up.
pub const EXIT: &'static str = "--exit";

/// How many seconds to wait for a page that never says it is finished. A wedged
/// webview still has to tell us what it managed.
pub const DEADLINE_SECONDS: u64 = 90;

/// How many milliseconds are long enough for the page to receive the response
/// to its last request before the process goes away.
pub const GRACE_MILLIS: u64 = 250;

/// Whether one of the arguments asks to quit once the report is printed.
pub fn quits(arguments: &Vec<String>) -> (quits: bool)
    ensures
        quits == text::texts(arguments@).contains(EXIT@),
        quits <==> exists|i: int| 0 <= i < arguments@.len() && (#[trigger] arguments@[i])@ == "--exit"@,
{
    let mut at: usize = 0;
    while at < arguments.len()
        invariant
            at <= arguments@.len(),
            forall|i: int| 0 <= i < at ==> text::texts(arguments@)[i] != EXIT@,
        decreases arguments.len() - at,
    {
        if text::same(arguments[at].as_str(), EXIT) {
            proof {
                assert(text::texts(arguments@)[at as int] == EXIT@);
                assert(arguments@[at as int]@ == EXIT@);
            }
            return true;
        }
        at = at + 1;
    }
    proof {
        assert forall|i: int| 0 <= i < arguments@.len() implies (#[trigger] arguments@[i])@
            != EXIT@ by {
            assert(text::texts(arguments@)[i] == arguments@[i]@);
        }
    }
    false
}

/// How a text is written between quotes by `{:?}`.
pub uninterp spec fn quoted(text: Seq<char>) -> Seq<char>;

/// Writes a text with the `Debug` of `str`. Printable ASCII with no quote and no
/// backslash in it stands between two quotes as it is; any other text is as
/// [`quoted`] names it.
#[verifier::external_body]
fn quote(text: &str) -> (written: String)
    ensures
        written@ == quoted(text@),
        plain_body(text@) ==> written@ == seq!['"'] + text@ + seq!['"'],
{
    format!("{text:?}")
}

/// Enough of a value to recognise it.
pub open spec fn shortened(value: Seq<char>) -> Seq<char> {
    if value.len() > LIMIT {
        value.take(LIMIT as int) + "..."@
    } else {
        value
    }
}

/// Enough of a value to recognise it.
///
/// A `data:` referer is an entire document url-encoded, and a log nobody can
/// read is a log nobody reads.
pub fn short(value: &str) -> (short: String)
    ensures
        short@ == shortened(value@),
{
    let chars = text::chars_of(value);
    if chars.len() > LIMIT {
        let mut short = text::text_of(&chars, 0, LIMIT);
        proof {
            assert(short@ =~= value@.take(LIMIT as int));
        }
        short.append("...");
        short
    } else {
        value.to_owned()
    }
}

/// Request headers worth a line each. The rest are noise, and the ones that
/// carry a verdict have probes of their own.
pub open spec fn logged() -> Seq<Seq<char>> {
    seq![
        headers::ORIGIN@,
        headers::REFERER@,
        headers::HOST@,
        headers::COOKIE@,
        headers::CONTENT_TYPE@,
        headers::RANGE@,
    ]
}

/// What is said of one header, which is nothing if it is not there.
pub open spec fn header_part(fields: Map<Seq<char>, Seq<Seq<u8>>>, name: Seq<char>) -> Seq<char> {
    match headers::first(fields, name) {
        Some(value) => " "@ + name + "="@ + shortened(
            match headers::visible(value) {
                Some(text) => text,
                None => "<not utf-8>"@,
            },
        ),
        None => seq![],
    }
}

/// What is said of some headers, one after another.
pub open spec fn header_parts(
    fields: Map<Seq<char>, Seq<Seq<u8>>>,
    names: Seq<Seq<char>>,
) -> Seq<char>
    decreases names.len(),
{
    if names.len() == 0 {
        seq![]
    } else {
        header_parts(fields, names.drop_last()) + header_part(fields, names.last())
    }
}

/// What is said of a request, given how its body is written.
pub open spec fn log_line(request: Request<Vec<u8>>, body: Option<Seq<char>>) -> Seq<char> {
    "[request] "@ + request.method@ + " "@ + uri::written(request.uri@) + header_parts(
        headers::fields(request.headers),
        logged(),
    ) + (match body {
        Some(body) => " body="@ + body,
        None => seq![],
    })
}

/// How the body of a request is written, if it has one.
pub open spec fn written_body(body: Seq<u8>) -> Option<Seq<char>> {
    if body.len() == 0 {
        None
    } else {
        Some(quoted(shortened(text::utf8_lossy(body))))
    }
}

/// Printable ASCII that stands between quotes as it is.
pub open spec fn plain_body(text: Seq<char>) -> bool {
    headers::printable(text) && !text.contains('"') && !text.contains('\\')
}

/// Says what there is to say of one header.
fn log_header(line: &mut String, map: &http::HeaderMap, name: &str)
    requires
        headers::lower_name(name@),
    ensures
        final(line)@ == old(line)@ + header_part(headers::fields(*map), name@),
{
    let ghost before = line@;
    match headers::get(map, name) {
        Some(value) => {
            let said = match headers::visible_text(value.as_slice()) {
                Some(said) => short(said.as_str()),
                None => short("<not utf-8>"),
            };
            line.append(" ");
            line.append(name);
            line.append("=");
            line.append(said.as_str());
            proof {
                assert(line@ =~= before + (" "@ + name@ + "="@ + said@));
            }
        },
        None => {
            proof {
                assert(before + Seq::<char>::empty() =~= before);
            }
        },
    }
}

/// One request, as the server saw it.
pub fn log(request: &Request<Vec<u8>>) -> (line: String)
    ensures
        line@ == log_line(*request, written_body(request.body@)),
        forall|body: Seq<char>| request.body@ == #[trigger] encode_utf8(body) && body.len() > 0
            && plain_body(shortened(body)) ==> line@ == log_line(
            *request,
            Some(seq!['"'] + shortened(body) + seq!['"']),
        ),
{
    if request.body.len() == 0 {
        return log_with(request, None);
    }
    let body = text::lossy(request.body.as_slice());
    let body = short(body.as_str());
    let body = quote(body.as_str());
    log_with(request, Some(body.as_str()))
}

/// One request, as the server saw it, given how its body is written.
pub fn log_with(request: &Request<Vec<u8>>, body: Option<&str>) -> (line: String)
    ensures
        line@ == log_line(
            *request,
            match body {
                Some(body) => Some(body@),
                None => None,
            },
        ),
{
    proof {
        headers::lemma_names();
    }
    let mut line = "[request] ".to_owned();
    line.append(request.method.as_str());
    line.append(" ");
    let target = request.uri.text();
    line.append(target.as_str());
    let ghost start = line@;
    let ghost fields = headers::fields(request.headers);
    let names: [&str; 6] = [
        headers::ORIGIN,
        headers::REFERER,
        headers::HOST,
        headers::COOKIE,
        headers::CONTENT_TYPE,
        headers::RANGE,
    ];
    let mut at: usize = 0;
    proof {
        assert(start + header_parts(fields, logged().take(0)) =~= start);
    }
    while at < 6
        invariant
            at <= 6,
            names@.len() == 6,
            fields == headers::fields(request.headers),
            forall|i: int| 0 <= i < 6 ==> headers::lower_name(#[trigger] names@[i]@),
            forall|i: int| 0 <= i < 6 ==> #[trigger] names@[i]@ == logged()[i],
            line@ == start + header_parts(fields, logged().take(at as int)),
        decreases 6 - at,
    {
        let ghost so_far = line@;
        proof {
            assert(logged().take(at + 1).drop_last() =~= logged().take(at as int));
            assert(logged().take(at + 1).last() == names@[at as int]@);
        }
        log_header(&mut line, &request.headers, names[at]);
        proof {
            assert(line@ =~= start + header_parts(fields, logged().take(at + 1)));
        }
        at = at + 1;
    }
    proof {
        assert(logged().take(6) =~= logged());
    }
    let ghost headed = line@;
    if let Some(body) = body {
        line.append(" body=");
        line.append(body);
        proof {
            assert(line@ =~= headed + (" body="@ + body@));
        }
    } else {
        proof {
            assert(headed + Seq::<char>::empty() =~= headed);
        }
    }
    line
}

/// Whether a request is logged: every one but for the clock's, which is asked
/// for once a frame and would bury the ones worth reading.
pub fn is_logged(request: &Request<Vec<u8>>) -> (logged: bool)
    ensures
        logged == (uri::target_path(request.uri@) != clock::CLOCK@),
        logged <==> uri::target_path(request.uri@) != "/clock"@,
{
    let path = request.uri.path();
    !text::same(path.as_str(), clock::CLOCK)
}

/// A value of up to sixty characters is said as it is; of a longer one the first
/// sixty are, and three dots stand for the rest.
pub proof fn law_a_long_value_is_cut(value: Seq<char>, i: int)
    ensures
        value.len() <= 60 ==> shortened(value) == value,
        value.len() > 60 ==> shortened(value).len() == 63,
        value.len() > 60 && 0 <= i < 60 ==> shortened(value)[i] == value[i],
        value.len() > 60 && 60 <= i < 63 ==> shortened(value)[i] == '.',
{
    reveal_strlit("...");
}

/// What is said of a header that is there: its name, and enough of its first
/// value.
pub open spec fn said(fields: Map<Seq<char>, Seq<Seq<u8>>>, name: Seq<char>) -> Seq<char> {
    if !fields.contains_key(name) {
        seq![]
    } else if headers::visible(fields[name][0]) is None {
        " "@ + name + "=<not utf-8>"@
    } else {
        " "@ + name + "="@ + shortened(headers::visible(fields[name][0])->0)
    }
}

/// One header more is said behind those before it.
proof fn lemma_one_more(fields: Map<Seq<char>, Seq<Seq<u8>>>, names: Seq<Seq<char>>, i: int)
    requires
        0 <= i < names.len(),
    ensures
        header_parts(fields, names.take(i + 1)) == header_parts(fields, names.take(i)) + said(
            fields,
            names[i],
        ),
{
    reveal_strlit("<not utf-8>");
    reveal_strlit("=<not utf-8>");
    reveal_strlit("=");
    assert("<not utf-8>"@.len() <= LIMIT);
    assert(" "@ + names[i] + "="@ + "<not utf-8>"@ =~= " "@ + names[i] + "=<not utf-8>"@);
    assert(names.take(i + 1).drop_last() =~= names.take(i));
    assert(names.take(i + 1).last() == names[i]);
}

/// A line is the method, the target, each of six headers that is there, in
/// order, and the body if there is one.
pub proof fn law_a_line_says_what_was_seen(request: Request<Vec<u8>>, body: Option<Seq<char>>)
    ensures
        ({
            let fields = headers::fields(request.headers);
            let seen = "[request] "@ + request.method@ + " "@ + uri::written(request.uri@) + said(
                fields,
                "origin"@,
            ) + said(fields, "referer"@) + said(fields, "host"@) + said(fields, "cookie"@) + said(
                fields,
                "content-type"@,
            ) + said(fields, "range"@);
            &&& body is None ==> log_line(request, body) == seen
            &&& body matches Some(body) ==> log_line(request, Some(body)) == seen + " body="@ + body
        }),
{
    let fields = headers::fields(request.headers);
    let names = logged();
    assert(names.take(6) =~= names);
    assert(names.take(0) =~= Seq::<Seq<char>>::empty());
    lemma_one_more(fields, names, 0);
    lemma_one_more(fields, names, 1);
    lemma_one_more(fields, names, 2);
    lemma_one_more(fields, names, 3);
    lemma_one_more(fields, names, 4);
    lemma_one_more(fields, names, 5);
    let parts = said(fields, names[0]) + said(fields, names[1]) + said(fields, names[2]) + said(
        fields,
        names[3],
    ) + said(fields, names[4]) + said(fields, names[5]);
    assert(header_parts(fields, names) =~= parts);
    let start = "[request] "@ + request.method@ + " "@ + uri::written(request.uri@);
    assert(start + parts =~= start + said(fields, names[0]) + said(fields, names[1]) + said(
        fields,
        names[2],
    ) + said(fields, names[3]) + said(fields, names[4]) + said(fields, names[5]));
    assert(start + parts + Seq::<char>::empty() =~= start + parts);
    if body is Some {
        assert(start + parts + (" body="@ + body->0) =~= start + parts + " body="@ + body->0);
    }
}

/// A body is said exactly if there is one, and enough of it is.
pub proof fn law_a_body_is_said_if_there_is_one(body: Seq<u8>)
    ensures
        written_body(body) is Some <==> body.len() > 0,
        written_body(body) matches Some(written) ==> written == quoted(
            shortened(text::utf8_lossy(body)),
        ),
{
}

} // verus!
