use std::io::Read as _;

use http::{header, HeaderMap, HeaderName, HeaderValue};
use tauri_plugin_topcoat::clock::Clockwork;
use tauri_plugin_topcoat::ipc::{policed_url, probe_ipc, POLICED, SCHEME};
use tauri_plugin_topcoat::log::{is_logged, log, log_with, quits, short};
use tauri_plugin_topcoat::message::{Request, Response};
use tauri_plugin_topcoat::report::{Answer, Probe, Report, Verdict};
use tauri_plugin_topcoat::route::{
    answer_for_body, answers, describe_scheme, echo, find_route, header_names, ipc_answer, json,
    not_found, policed, redirect, route, scheme, serve_gzip, text, try_route, unreadable,
    unreadable_warning, Action, Asset, Policy, Route, Run,
};
use tauri_plugin_topcoat::uri::Uri;

fn run() -> Run {
    Run {
        report: Report::new(),
        clock: Clockwork::default(),
    }
}

fn request(method: &str, target: &str, headers: &[(HeaderName, &str)], body: &[u8]) -> Request<Vec<u8>> {
    let mut map = HeaderMap::new();
    for (name, value) in headers {
        map.append(name.clone(), HeaderValue::from_str(value).expect("a header value"));
    }
    Request {
        method: method.to_owned(),
        uri: Uri::parse(target).expect("a target"),
        headers: map,
        webview: None,
        body: body.to_vec(),
    }
}

fn get(target: &str) -> Request<Vec<u8>> {
    request("GET", target, &[], b"")
}

fn reply(action: Action) -> Response<Vec<u8>> {
    match action {
        Action::Reply(reply) => reply,
        other => panic!("not a reply: {other:?}"),
    }
}

fn says(reply: &Response<Vec<u8>>) -> (u16, &str) {
    (reply.status, std::str::from_utf8(&reply.body).expect("text"))
}

fn learned(run: &Run, probe: Probe) -> (Verdict, String) {
    let rows = run.report.rows();
    let row = &rows[probe.index()];
    (row.verdict, row.detail.clone())
}

/// Every probe whose answer is not its silence.
fn changed(run: &Run) -> Vec<Probe> {
    Probe::all()
        .into_iter()
        .filter(|probe| {
            let silence = probe.silence();
            learned(run, *probe) != (silence.verdict, silence.detail)
        })
        .collect()
}

#[test]
fn documents_and_files_are_found_by_path() {
    let mut run = run();
    for (target, file, under) in [
        ("probe://localhost/", "/index.html", Policy::Unpoliced),
        ("probe://localhost", "/index.html", Policy::Unpoliced),
        ("probe://localhost/csp", "/csp.html", Policy::Strict),
        ("/assets/app.js?v=1", "/assets/app.js", Policy::Unpoliced),
        ("/ipc", "/ipc", Policy::Unpoliced),
        ("/ipc/ipc-invoke-in-frame/", "/ipc.html", Policy::Unpoliced),
        ("/ipc/ipc-invoke-in-frame", "/ipc.html", Policy::Unpoliced),
        ("/ipc/ipc-invoke-under-csp/", "/ipc.html", Policy::SelfOnly),
    ] {
        match route(&get(target), &mut run, 0) {
            Action::File { path, policy } => {
                assert_eq!((path.as_str(), policy), (file, under), "{target}");
            }
            other => panic!("{target}: {other:?}"),
        }
    }
    assert!(changed(&run).is_empty());
}

#[test]
fn what_is_not_there_is_not_found() {
    let mut run = run();
    for (method, target) in [
        ("POST", "/"),
        ("POST", "/nowhere"),
        ("PUT", "/echo"),
        ("get", "/"),
        ("GET", "/ipc/no-such-probe/"),
        ("GET", "/ipc/"),
        ("GET", "/ipc/ipc-invoke/other"),
        ("POST", "/ipc/ipc-invoke/loaded"),
        ("GET", "/ipc/ipc-invoke/result"),
        ("POST", "/ipc/ipc-invoke/result/"),
    ] {
        let reply = reply(route(&request(method, target, &[], b""), &mut run, 0));
        assert_eq!(says(&reply), (404, "no such route"), "{method} {target}");
        assert_eq!(reply.headers[header::CONTENT_TYPE], "text/plain; charset=utf-8");
    }
    assert_eq!(says(&not_found()), (404, "no such route"));
    assert!(changed(&run).is_empty());
    assert_eq!(find_route("POST", "/done"), Route::Done);
    assert_eq!(find_route("GET", "/done"), Route::File);
}

#[test]
fn text_comes_compressed() {
    let reply = reply(route(&get("/gzip?text=caf%C3%A9+caf%C3%A9"), &mut run(), 0));
    assert_eq!(reply.status, 200);
    assert_eq!(reply.headers[header::CONTENT_ENCODING], "gzip");
    assert_eq!(reply.headers[header::CONTENT_TYPE], "text/plain; charset=utf-8");
    let mut plain = String::new();
    flate2::read::GzDecoder::new(reply.body.as_slice())
        .read_to_string(&mut plain)
        .expect("it is gzip");
    assert_eq!(plain, "caf\u{e9} caf\u{e9}");
}

#[test]
fn a_fetch_gets_its_body_back() {
    let mut run = run();
    let sent = request(
        "POST",
        "/echo",
        &[
            (header::USER_AGENT, "x"),
            (header::ACCEPT, "*/*"),
            (header::ACCEPT, "text/html"),
            (header::CONTENT_TYPE, "text/plain"),
        ],
        b"a \"quote\"\n\xff",
    );
    let reply = reply(route(&sent, &mut run, 0));
    assert_eq!(
        says(&reply),
        (200, "{\"body\":\"a \\\"quote\\\"\\n\u{fffd}\"}")
    );
    assert_eq!(reply.headers[header::CONTENT_TYPE], "application/json");
    assert_eq!(
        learned(&run, Probe::FetchPostHeaders),
        (Verdict::Info, "accept, content-type, user-agent".to_owned())
    );
    assert_eq!(changed(&run), [Probe::FetchPostHeaders]);
    assert_eq!(header_names(&get("/")), "");
    assert_eq!(says(&echo("1")), (200, "{\"body\":1}"));
}

#[test]
fn an_echoed_body_is_escaped_character_by_character() {
    for (body, written) in [
        ("", ""),
        ("plain / caf\u{e9} \u{7f}\u{1f600}", "plain / caf\u{e9} \u{7f}\u{1f600}"),
        ("\"\\", "\\\"\\\\"),
        ("\u{8}\t\n\u{c}\r", "\\b\\t\\n\\f\\r"),
        ("\0\u{b}\u{1a}\u{1f}", "\\u0000\\u000b\\u001a\\u001f"),
        ("a\nb", "a\\nb"),
    ] {
        let sent = request("POST", "/echo", &[], body.as_bytes());
        let reply = reply(route(&sent, &mut run(), 0));
        assert_eq!(says(&reply), (200, format!("{{\"body\":\"{written}\"}}").as_str()));
    }
}

#[test]
fn cookies_of_every_shape_are_set() {
    let reply = reply(route(&get("/cookies/set"), &mut run(), 0));
    assert_eq!(says(&reply), (200, "the cookies are set"));
    let cookies: Vec<&HeaderValue> = reply.headers.get_all(header::SET_COOKIE).iter().collect();
    assert_eq!(
        cookies,
        [
            "probe_plain=1; Path=/",
            "probe_secure=1; Path=/; Secure",
            "__Host-probe=1; Path=/; Secure",
            "probe_lax=1; Path=/; SameSite=Lax",
        ]
    );
    assert_eq!(reply.headers.len(), 5);
}

#[test]
fn a_header_answers_for_itself() {
    let missing = |target: &str, probe: Probe| {
        let mut run = run();
        assert_eq!(says(&reply(route(&get(target), &mut run, 0))), (200, "ok"));
        learned(&run, probe)
    };
    let given = |target: &str, name: HeaderName, value: &str, probe: Probe| {
        let mut run = run();
        reply(route(&request("GET", target, &[(name, value)], b""), &mut run, 0));
        learned(&run, probe)
    };
    assert_eq!(
        missing("/cookies/echo", Probe::SetCookieReturned),
        (Verdict::No, "no Cookie header came back".to_owned())
    );
    assert_eq!(
        given("/cookies/echo", header::COOKIE, "a=1", Probe::SetCookieReturned),
        (Verdict::Yes, "a=1".to_owned())
    );
    assert_eq!(
        given("/cookies/echo", header::COOKIE, "", Probe::SetCookieReturned).0,
        Verdict::No
    );
    assert_eq!(
        given("/cookies/echo", header::COOKIE, "caf\u{e9}", Probe::SetCookieReturned).0,
        Verdict::No
    );
    assert_eq!(
        missing("/range", Probe::RangeHeaderArrives),
        (Verdict::No, "no Range header arrived".to_owned())
    );
    assert_eq!(
        given("/range", header::RANGE, "bytes=0-1", Probe::RangeHeaderArrives),
        (Verdict::Yes, "bytes=0-1".to_owned())
    );
}

#[test]
fn a_redirect_carries_what_the_page_sent() {
    let mut run = run();
    let sent = get("/redirect/303?via=nav&echo=a%26b%3D%20%C3%A9&other=1");
    let first = reply(route(&sent, &mut run, 0));
    assert_eq!(says(&first), (303, ""));
    assert_eq!(
        first.headers[header::LOCATION],
        "/redirect/landed?via=nav&echo=a%26b%3D+%C3%A9"
    );
    assert_eq!(first.headers.len(), 1);
    assert!(changed(&run).is_empty());

    let location = first.headers[header::LOCATION].to_str().expect("text");
    let second = reply(route(&get(location), &mut run, 0));
    assert_eq!(says(&second), (200, "a&b= \u{e9}"));
    assert_eq!(
        learned(&run, Probe::NavigationFollows303),
        (Verdict::Yes, String::new())
    );

    let mut run = fresh();
    let fetched = reply(route(&get("/redirect/landed?via=fetch&echo=x"), &mut run, 0));
    assert_eq!(says(&fetched), (200, "x"));
    assert!(changed(&run).is_empty());
}

fn fresh() -> Run {
    run()
}

#[test]
fn a_form_post_is_recorded() {
    let mut empty = run();
    let reply_empty = reply(route(&request("POST", "/form", &[], b""), &mut empty, 0));
    assert_eq!(says(&reply_empty), (200, "the form post arrived"));
    assert_eq!(
        learned(&empty, Probe::FormPostBody),
        (Verdict::No, "the form post arrived with an empty body".to_owned())
    );
    let mut full = run();
    let sent = request("POST", "/form", &[(header::ORIGIN, "x"), (header::ACCEPT, "y")], b"a=1");
    reply(route(&sent, &mut full, 0));
    assert_eq!(learned(&full, Probe::FormPostBody), (Verdict::Yes, "a=1".to_owned()));
    assert_eq!(
        learned(&full, Probe::FormPostHeaders),
        (Verdict::Info, "accept, origin".to_owned())
    );
    assert_eq!(changed(&full), [Probe::FormPostBody, Probe::FormPostHeaders]);
}

#[test]
fn a_foreign_document_gives_itself_away_or_not() {
    let mut run = run();
    reply(route(&get("/foreign/loaded"), &mut run, 0));
    assert_eq!(learned(&run, Probe::ForeignDocumentRan), (Verdict::Yes, String::new()));

    reply(route(&request("POST", "/foreign", &[], b""), &mut run, 0));
    assert_eq!(learned(&run, Probe::ForeignPostDelivered), (Verdict::Yes, String::new()));
    assert_eq!(
        learned(&run, Probe::ForeignPostOrigin),
        (Verdict::No, "the request arrived with no Origin".to_owned())
    );
    assert_eq!(
        learned(&run, Probe::ForeignPostReferer),
        (Verdict::No, "no Referer either".to_owned())
    );

    let named = request(
        "POST",
        "/foreign",
        &[(header::ORIGIN, "null"), (header::REFERER, "data:text/html,x")],
        b"",
    );
    reply(route(&named, &mut run, 0));
    assert_eq!(learned(&run, Probe::ForeignPostOrigin), (Verdict::Yes, "null".to_owned()));
    assert_eq!(learned(&run, Probe::ForeignPostReferer), (Verdict::Info, "data".to_owned()));
}

#[test]
fn a_scheme_is_named_or_the_error_is() {
    assert_eq!(scheme("HTTPS://example.com/x"), "https");
    assert_eq!(scheme("data:text/html,x"), "data");
    assert_eq!(scheme("no url"), "not a URL: relative URL without a base");
    assert_eq!(describe_scheme(Ok("x".to_owned())), "x");
    assert_eq!(describe_scheme(Err("why".to_owned())), "not a URL: why");
}

#[test]
fn a_policy_is_enforced_or_it_is_not() {
    let mut run = run();
    reply(route(&get("/csp/rendered"), &mut run, 0));
    assert_eq!(learned(&run, Probe::CspDocumentRendered), (Verdict::Yes, String::new()));
    assert_eq!(learned(&run, Probe::CspEnforced).0, Verdict::Yes);
    reply(route(&get("/csp/script"), &mut run, 0));
    assert_eq!(
        learned(&run, Probe::CspEnforced),
        (Verdict::No, "the blocked inline script ran".to_owned())
    );
}

#[test]
fn the_clock_and_the_report_are_for_the_page() {
    let mut run = run();
    match route(&get("probe://localhost/clock?head=10&body=5"), &mut run, 9) {
        Action::Clock(clock) => {
            assert_eq!(clock.coarse, "0:00.000");
            assert_eq!(clock.breakdown[0].value, "15\u{b5}s");
        }
        other => panic!("{other:?}"),
    }
    assert_eq!(run.clock.frames, 1);
    match route(&get("/report"), &mut run, 9) {
        Action::Sheet(sheet) => assert_eq!(sheet.tally, run.report.sheet().tally),
        other => panic!("{other:?}"),
    }
    match route(&request("POST", "/done", &[], b""), &mut run, 9) {
        Action::Finish(reply) => assert_eq!(says(&reply), (200, "ok")),
        other => panic!("{other:?}"),
    }
    assert_eq!(run.clock.frames, 1);
    assert_eq!(says(&json(Some(b"[1]".to_vec()))), (200, "[1]"));
    assert_eq!(says(&json(None)), (200, "{}"));
    assert_eq!(json(None).headers[header::CONTENT_TYPE], "application/json");
}

#[test]
fn a_clock_that_cannot_count_is_left_alone() {
    let mut run = run();
    let max = u64::MAX;
    let too_much = get(&format!("/clock?head={max}&body={max}"));
    assert!(try_route(&too_much, &mut run, 0).is_none());
    assert_eq!(run.clock.frames, 0);
    assert!(matches!(
        try_route(&get("/clock?head=1&body=1"), &mut run, 0),
        Some(Action::Clock(_))
    ));
    assert!(matches!(
        try_route(&get("/gzip?text=a"), &mut run, 0),
        Some(Action::Reply(_))
    ));
    assert_eq!(run.clock.frames, 1);
}

#[test]
fn the_page_answers_for_itself() {
    let mut run = run();
    assert!(matches!(
        route(&request("POST", "/answers", &[], b"{}"), &mut run, 0),
        Action::Answers
    ));
    let sent = vec![
        (Probe::IndexedDb, Answer::yes("works")),
        (Probe::UserAgent, Answer::info("first")),
        (Probe::UserAgent, Answer::info("second")),
    ];
    assert_eq!(says(&answers(&mut run, Some(sent))), (200, "ok"));
    assert_eq!(learned(&run, Probe::IndexedDb), (Verdict::Yes, "works".to_owned()));
    assert_eq!(learned(&run, Probe::UserAgent), (Verdict::Info, "second".to_owned()));
    assert_eq!(says(&answers(&mut run, None)), (400, "unreadable"));
    assert_eq!(says(&unreadable()), (400, "unreadable"));
    assert_eq!(changed(&run), [Probe::UserAgent, Probe::IndexedDb]);
    assert_eq!(
        unreadable_warning("the page", "no"),
        "[warning] the page sent something this cannot read: no"
    );
}

#[test]
fn a_document_reports_for_its_probe() {
    let mut run = run();
    let loaded = reply(route(&get("/ipc/ipc-invoke-under-csp/loaded"), &mut run, 0));
    assert_eq!(says(&loaded), (200, "ok"));
    assert_eq!(
        learned(&run, Probe::IpcInvokeUnderCsp),
        (Verdict::No, "the document loaded but never reported an answer".to_owned())
    );
    match route(&request("POST", "/ipc/ipc-invoke-under-csp/result", &[], b""), &mut run, 0) {
        Action::IpcAnswer(probe) => {
            let (reply, close) = ipc_answer(&mut run, probe, Some(Answer::yes("token")));
            assert_eq!(says(&reply), (200, "ok"));
            assert!(close);
        }
        other => panic!("{other:?}"),
    }
    assert_eq!(learned(&run, Probe::IpcInvokeUnderCsp), (Verdict::Yes, "token".to_owned()));
    let (_, close) = ipc_answer(&mut run, Probe::IpcInvokeInFrame, Some(Answer::no("x")));
    assert!(!close);
    let (refusal, close) = ipc_answer(&mut run, Probe::IpcInvokeUnderCsp, None);
    assert_eq!(says(&refusal), (400, "unreadable"));
    assert!(!close);
    assert_eq!(learned(&run, Probe::IpcInvokeUnderCsp).0, Verdict::Yes);
}

#[test]
fn a_file_is_served_with_its_type_and_its_policy() {
    let asset = |mime_type: &str| {
        Some(Asset {
            bytes: b"file".to_vec(),
            mime_type: mime_type.to_owned(),
        })
    };
    let plain = policed(asset("text/html"), Policy::Unpoliced);
    assert_eq!(says(&plain), (200, "file"));
    assert_eq!(plain.headers[header::CONTENT_TYPE], "text/html");
    assert_eq!(plain.headers.len(), 1);

    let strict = policed(asset("text/html"), Policy::Strict);
    assert_eq!(
        strict.headers[header::CONTENT_SECURITY_POLICY],
        "default-src 'self'; script-src 'none'"
    );
    let own = policed(asset("bad\ntype"), Policy::SelfOnly);
    assert_eq!(own.headers[header::CONTENT_SECURITY_POLICY], "default-src 'self'");
    assert!(own.headers.get(header::CONTENT_TYPE).is_none());

    let missing = policed(None, Policy::SelfOnly);
    assert_eq!(says(&missing), (404, "no such route"));
    assert_eq!(missing.headers.len(), 2);
    assert_eq!(says(&text("\u{e9}")), (200, "\u{e9}"));
}

#[test]
fn the_policed_window_opens_on_its_own_document() {
    assert_eq!(policed_url(), "probe://localhost/ipc/ipc-invoke-under-csp/");
    assert_eq!(SCHEME, "probe");
    assert_eq!(POLICED, "policed");
    let invoked = probe_ipc("main", "token".to_owned());
    assert_eq!((invoked.echoed.as_str(), invoked.window.as_str()), ("token", "main"));
}

#[test]
fn a_request_is_one_line() {
    let referer = "r".repeat(61);
    let mut sent = request(
        "POST",
        "probe://localhost/echo?a=b",
        &[
            (header::RANGE, "bytes=0-"),
            (header::ACCEPT, "*/*"),
            (header::REFERER, &referer),
            (header::HOST, "x"),
        ],
        "say \"\u{e9}\"\n".as_bytes(),
    );
    sent.headers.insert(
        header::COOKIE,
        HeaderValue::from_bytes(b"\xff").expect("a header value"),
    );
    assert_eq!(
        log(&sent),
        format!(
            "[request] POST probe://localhost/echo?a=b referer={}... host=x cookie=<not utf-8> \
             range=bytes=0- body=\"say \\\"\u{e9}\\\"\\n\"",
            "r".repeat(60)
        )
    );
    assert_eq!(log(&get("/x")), "[request] GET /x");
    assert!(is_logged(&sent));
    assert!(!is_logged(&get("probe://localhost/clock?head=1")));
    assert!(is_logged(&get("/clock/")));
}

#[test]
fn a_long_value_is_cut_short() {
    assert_eq!(short(""), "");
    assert_eq!(short(&"\u{e9}".repeat(60)), "\u{e9}".repeat(60));
    assert_eq!(short(&"\u{e9}".repeat(61)), format!("{}...", "\u{e9}".repeat(60)));
}

#[test]
fn a_run_quits_when_it_is_told_to() {
    let arguments = |words: &[&str]| words.iter().map(|word| word.to_string()).collect();
    assert!(quits(&arguments(&["probe", "--exit"])));
    assert!(!quits(&arguments(&["probe", "--exits"])));
    assert!(!quits(&Vec::new()));
}

#[test]
fn a_body_is_logged_only_when_there_is_one() {
    let sent = get("/x");
    assert_eq!(log_with(&sent, Some("\"b\"")), "[request] GET /x body=\"b\"");
    assert_eq!(log_with(&sent, None), "[request] GET /x");
}

#[test]
fn compressed_text_says_that_it_is() {
    let reply = serve_gzip(vec![31, 139]);
    assert_eq!((reply.status, reply.body.as_slice()), (200, &[31, 139][..]));
    assert_eq!(reply.headers.get(header::CONTENT_ENCODING).expect("an encoding"), "gzip");
    assert_eq!(
        reply.headers.get(header::CONTENT_TYPE).expect("a type"),
        "text/plain; charset=utf-8"
    );
}

#[test]
fn a_redirect_puts_the_query_on_the_path() {
    let reply = redirect("/landed", "via=fetch");
    assert_eq!((reply.status, reply.body.len(), reply.headers.len()), (303, 0, 1));
    assert_eq!(reply.headers.get(header::LOCATION).expect("a location"), "/landed?via=fetch");
}

#[test]
fn an_empty_form_post_is_no_delivery() {
    let empty = answer_for_body("");
    assert_eq!(
        (empty.verdict, empty.detail.as_str()),
        (Verdict::No, "the form post arrived with an empty body")
    );
    let full = answer_for_body("field=value");
    assert_eq!((full.verdict, full.detail.as_str()), (Verdict::Yes, "field=value"));
}
