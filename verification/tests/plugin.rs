use http::{header, HeaderMap, HeaderName, HeaderValue};
use tauri_plugin_topcoat::harness;
use tauri_plugin_topcoat::message::{Request, Response};
use tauri_plugin_topcoat::origin::{OriginError, Origins, Platform};
use tauri_plugin_topcoat::plugin::{
    blocked_navigation, may_navigate, observe_navigation, platform_for, Builder, Error,
    DEFAULT_SCHEME, DISAGREEMENT,
};
use tauri_plugin_topcoat::protocol::{deliver, unavailable, Bridge};
use tauri_plugin_topcoat::session::{Webviews, Withheld};
use tauri_plugin_topcoat::tower::{status_only, CanonicalOriginLayer, RefuseUnsupportedLayer};
use tauri_plugin_topcoat::uri::Uri;

fn origins() -> Origins {
    Origins::new("topcoat", Platform::Scheme).expect("`topcoat` is a valid scheme")
}

fn request(method: &str, uri: &str) -> Request<Vec<u8>> {
    Request {
        method: method.to_owned(),
        uri: Uri::parse(uri).expect("a valid target"),
        headers: HeaderMap::new(),
        webview: None,
        body: b"body".to_vec(),
    }
}

fn response(headers: &[(HeaderName, &'static str)]) -> Response<Vec<u8>> {
    let mut map = HeaderMap::new();
    for (name, value) in headers {
        map.append(name.clone(), HeaderValue::from_static(value));
    }
    Response {
        status: 200,
        headers: map,
        body: b"LANDED".to_vec(),
    }
}

/// What one request comes to in front of a service that answers with
/// `response`, with what the service was asked for.
fn serve(
    response: Response<Vec<u8>>,
    request: Request<Vec<u8>>,
) -> (Vec<String>, Response<Vec<u8>>) {
    let canonical = CanonicalOriginLayer::new(origins()).layer(());
    let refuse = RefuseUnsupportedLayer::new().layer(());
    let mut seen = Vec::new();
    let answer = match canonical.decide(request) {
        Ok(request) => {
            seen.push(request.uri.text());
            match refuse.carry(response) {
                Ok(response) => response,
                Err(refusal) => refusal,
            }
        }
        Err(refusal) => refusal,
    };
    (seen, answer)
}

fn body_of(response: &Response<Vec<u8>>) -> String {
    harness::read(response).1
}

#[test]
fn the_inner_service_sees_one_canonical_origin() {
    let (seen, _) = serve(response(&[]), request("GET", "topcoat://localhost/a?b=c"));
    assert_eq!(seen[0], "https://topcoat.localhost/a?b=c");
}

#[test]
fn a_foreign_authority_is_refused_without_reaching_the_service() {
    let (seen, response) = serve(response(&[]), request("GET", "https://evil.example/"));

    assert_eq!(response.status, 403);
    assert!(seen.is_empty(), "the service ran");
}

#[test]
fn a_set_cookie_becomes_a_502_naming_the_cookie() {
    let (_, response) = serve(
        response(&[(header::SET_COOKIE, "__Host-session=t0ken; Secure")]),
        request("GET", "topcoat://localhost/"),
    );

    assert_eq!(response.status, 502);
    assert!(body_of(&response).contains("__Host-session"));
}

/// A router with the shapes of answers an application gives.
fn routed(request: &Request<Vec<u8>>) -> Response<Vec<u8>> {
    let echo = |name: HeaderName| {
        request
            .headers
            .get(name)
            .and_then(|value| value.to_str().ok())
            .unwrap_or("<none>")
            .to_owned()
    };
    let cookie = (
        header::SET_COOKIE,
        "__Host-session=t0ken; Path=/; Secure; HttpOnly",
    );
    let (status, headers, body) = match (request.method.as_str(), request.uri.path().as_str()) {
        ("GET", "/") => (200, vec![], "hello".to_owned()),
        ("GET", "/login") => (200, vec![cookie], "logged in".to_owned()),
        ("GET", "/events") => (
            200,
            vec![(header::CONTENT_TYPE, "text/event-stream")],
            "data: hello\n\n".to_owned(),
        ),
        ("GET", "/whoami") => (200, vec![], echo(header::COOKIE)),
        ("GET", "/headers") => (
            200,
            vec![],
            format!("{} {}", echo(header::HOST), echo(header::ACCEPT_ENCODING)),
        ),
        ("POST", "/must-not-run") => (418, vec![], String::new()),
        _ => (404, vec![], String::new()),
    };
    let mut response = response(&headers);
    response.status = status;
    response.body = body.into_bytes();
    response
}

/// One request, through the layers and the router.
fn send(method: &str, path: &str, headers: &[(HeaderName, &'static str)]) -> Response<Vec<u8>> {
    let mut asked = request(method, &format!("topcoat://localhost{path}"));
    for (name, value) in headers {
        asked.headers.append(name.clone(), HeaderValue::from_static(value));
    }
    let canonical = CanonicalOriginLayer::new(origins()).layer(());
    match canonical.decide(asked) {
        Ok(served) => match RefuseUnsupportedLayer::new().layer(()).carry(routed(&served)) {
            Ok(response) => response,
            Err(refusal) => refusal,
        },
        Err(refusal) => refusal,
    }
}

#[test]
fn a_page_is_served() {
    let answer = send("GET", "/", &[]);
    assert_eq!(answer.status, 200);
    assert_eq!(body_of(&answer), "hello");
}

#[test]
fn the_router_sees_one_origin_and_no_accept_encoding() {
    let answer = send("GET", "/headers", &[(header::ACCEPT_ENCODING, "gzip, br")]);
    assert_eq!(body_of(&answer), "topcoat.localhost <none>");
}

#[test]
fn a_mutation_with_nothing_attributing_it_reaches_the_route() {
    let answer = send("POST", "/must-not-run", &[]);
    assert_eq!(answer.status, 418, "{}", body_of(&answer));
}

#[test]
fn no_cookie_header_is_attached_to_anything() {
    assert_eq!(body_of(&send("GET", "/whoami", &[])), "<none>");
}

#[test]
fn an_unknown_path_is_the_routers_own_404() {
    assert_eq!(send("GET", "/nope", &[]).status, 404);
}

#[test]
fn protocol_a_request_for_a_foreign_authority_is_refused() {
    let (_, response) = serve(response(&[]), request("GET", "https://evil.example/"));

    assert_eq!(response.status, 403);
    assert_eq!(
        body_of(&response),
        "403 Forbidden\n\n`https://evil.example` is not the origin this protocol serves\n"
    );
    assert_eq!(
        response.headers[header::CONTENT_TYPE],
        "text/plain; charset=utf-8"
    );
    assert_eq!(response.headers.len(), 1);
}

#[test]
fn a_set_cookie_is_refused_with_the_cookie_named() {
    let response = send("GET", "/login", &[]);

    assert_eq!(response.status, 502);
    let body = body_of(&response);
    assert!(body.contains("__Host-session"), "{body}");
    assert!(
        response.headers.get(header::SET_COOKIE).is_none(),
        "the cookie was passed on to a webview that will not keep it"
    );
}

#[test]
fn a_streaming_response_is_refused_with_the_capability_named() {
    let response = send("GET", "/events", &[]);

    assert_eq!(response.status, 502);
    let body = body_of(&response);
    assert!(body.contains("streams"), "{body}");
    assert!(body.starts_with("502 Bad Gateway\n\n"));
}

#[test]
fn a_layer_keeps_the_service_it_is_put_around() {
    let mut canonical = CanonicalOriginLayer::new(origins()).layer(vec![1]);
    canonical.inner_mut().push(2);
    assert_eq!(canonical.inner_mut(), &[1, 2]);
    let mut refuse = RefuseUnsupportedLayer::default().layer(3);
    *refuse.inner_mut() += 1;
    assert_eq!(*refuse.inner_mut(), 4);
}

#[test]
fn every_status_reads_with_its_reason() {
    for (status, line) in [
        (200, "200 OK"),
        (404, "404 Not Found"),
        (500, "500 Internal Server Error"),
        (599, "599 <unknown status code>"),
    ] {
        let response = status_only(status, "why");
        assert_eq!(response.status, status);
        assert_eq!(body_of(&response), format!("{line}\n\nwhy\n"));
    }
}

#[test]
fn a_body_that_cannot_be_read_is_said_to_be() {
    let head = || Response {
        status: 201,
        headers: response(&[(header::LOCATION, "/made")]).headers,
        body: (),
    };
    let delivered = deliver(head(), Some(b"made".to_vec()));
    assert_eq!(delivered.status, 201);
    assert_eq!(delivered.headers[header::LOCATION], "/made");
    assert_eq!(delivered.body, b"made");

    let failed = deliver(head(), None);
    assert_eq!(failed.status, 500);
    assert!(failed.headers.get(header::LOCATION).is_none());
    assert_eq!(
        body_of(&failed),
        "500 Internal Server Error\n\nthe response body could not be read\n"
    );
}

#[test]
fn a_request_before_the_start_is_told_so() {
    let response = unavailable();
    assert_eq!(response.status, 503);
    assert_eq!(
        body_of(&response),
        "503 Service Unavailable\n\nthe topcoat plugin has not finished starting\n"
    );
}

#[test]
fn a_bridge_holds_what_it_was_made_of() {
    let bridge = Bridge::new(origins(), "router");
    assert_eq!(*bridge.router(), "router");
    assert_eq!(bridge.origins().platform().text(), "topcoat://localhost");
}

#[test]
fn a_plugin_is_confined_unless_told_otherwise() {
    let plugin = Builder::new("router", None).build().expect("the default builds");
    assert_eq!(plugin.scheme, DEFAULT_SCHEME);
    assert_eq!(plugin.router, "router");
    assert_eq!(plugin.https_scheme, None);
    assert!(plugin.confined);

    let plugin = Builder::new("router", Some("https://example.com".to_owned()))
        .scheme("notes")
        .use_https_scheme(true)
        .allow_external_navigation(true)
        .build()
        .expect("a public website is no collision");
    assert_eq!(plugin.scheme, "notes");
    assert_eq!(plugin.https_scheme, Some(true));
    assert!(!plugin.confined);
    let bridge = plugin
        .setup(Platform::current("windows"), &vec![false])
        .expect("a usable scheme");
    assert_eq!(bridge.origins().platform().text(), "https://notes.localhost");
    assert_eq!(bridge.origins().canonical().text(), "https://notes.localhost");
}

#[test]
fn an_unusable_scheme_is_a_mistake() {
    let error = Builder::new((), None).scheme("no good").build().unwrap_err();
    assert_eq!(
        error,
        Error::Scheme(OriginError::InvalidScheme {
            scheme: "no good".to_owned()
        })
    );
    assert_eq!(
        error.message(),
        "`no good` is not a usable protocol scheme: it must start with an ASCII letter, contain \
         only ASCII letters, digits, and hyphens, and be at most 63 characters"
    );
    let session = Builder::new((), None).scheme("").session(Platform::Scheme);
    assert!(matches!(session, Err(Error::Scheme(_))));
}

#[test]
fn a_base_url_of_our_own_is_a_mistake() {
    for (base_url, collides) in [
        ("https://topcoat.localhost/app", true),
        ("topcoat://localhost", true),
        ("http://topcoat.localhost/", true),
        ("HTTP://Topcoat.Localhost", true),
        ("https://topcoat.localhost.example.com/", false),
        ("https://localhost/", false),
        ("https://example.com", false),
    ] {
        for platform in [
            Platform::Scheme,
            Platform::HttpSubdomain,
            Platform::HttpsSubdomain,
        ] {
            let result = Builder::new((), Some(base_url.to_owned())).session(platform);
            match result {
                Ok(session) => {
                    assert!(!collides, "{base_url} on {platform:?}");
                    let origins = session.bridge().origins();
                    assert_eq!(origins.canonical().text(), "https://topcoat.localhost");
                }
                Err(error) => {
                    assert!(collides, "{base_url} on {platform:?}");
                    assert_eq!(
                        error.message(),
                        format!(
                            "the router's base URL `{base_url}` is the origin this protocol \
                             serves (`https://topcoat.localhost`); leave it unset, or set it to \
                             the application's public website"
                        )
                    );
                }
            }
        }
        let built = Builder::new((), Some(base_url.to_owned())).build();
        assert_eq!(built.is_err(), collides, "{base_url}");
    }
}

#[test]
fn the_windows_decide_the_shape_unless_the_caller_does() {
    let http = Platform::HttpSubdomain;
    let https = Platform::HttpsSubdomain;
    let none = Vec::new();
    assert_eq!(platform_for(http, &none, None), (http, false));
    assert_eq!(platform_for(http, &vec![true], None), (https, false));
    assert_eq!(platform_for(http, &vec![false, true], None), (https, true));
    assert_eq!(platform_for(http, &vec![false, false], None), (http, false));
    assert_eq!(platform_for(http, &vec![false, true], Some(false)), (http, false));
    assert_eq!(platform_for(https, &none, Some(true)), (https, false));
    assert_eq!(platform_for(https, &none, None), (http, false));
    for windows in [vec![], vec![true], vec![true, true]] {
        assert_eq!(
            platform_for(Platform::Scheme, &windows, None),
            (Platform::Scheme, false)
        );
        assert_eq!(
            platform_for(Platform::Scheme, &windows, Some(true)),
            (Platform::Scheme, false)
        );
    }
    assert!(DISAGREEMENT.contains("windows disagree about `useHttpsScheme`; serving"));
}

#[test]
fn only_a_webview_showing_ours_is_held_to_it() {
    let origins = origins();
    let ours = "topcoat://localhost/a";
    let other = "https://evil.example/";
    let may = |current: Option<&str>, target: &str, confined: bool| {
        may_navigate(Some(&origins), current, target, confined)
    };
    assert!(may(Some(ours), "topcoat://localhost/b", true));
    assert!(!may(Some(ours), other, true));
    assert!(!may(Some(ours), "topcoat://localhost.evil.example/", true));
    assert!(!may(Some(ours), "about:blank", true));
    assert!(may(Some(ours), other, false));
    assert!(may(Some(other), other, true));
    assert!(may(None, other, true));
    assert!(may_navigate(None, Some(ours), other, true));
    assert_eq!(
        blocked_navigation("main", other),
        "tauri-plugin-topcoat: blocked navigation to https://evil.example/ in webview main"
    );
}

#[test]
fn a_form_post_arrives_with_its_origin() {
    let request = harness::submit_request("/todos?x=1", "title=a").expect("a path");
    assert_eq!(request.method, "POST");
    assert_eq!(request.uri.text(), "topcoat://localhost/todos?x=1");
    assert_eq!(request.body, b"title=a");
    assert_eq!(
        request.headers[header::CONTENT_TYPE],
        mime::APPLICATION_WWW_FORM_URLENCODED.as_ref()
    );
    assert_eq!(request.headers[header::ORIGIN], "topcoat://localhost");
    assert_eq!(request.headers[header::REFERER], "topcoat://localhost/");
    assert_eq!(request.headers.len(), 3);

    let canonical = CanonicalOriginLayer::new(origins()).layer(());
    let served = canonical.decide(request).expect("it is our own");
    assert_eq!(served.headers[header::ORIGIN], "https://topcoat.localhost");
    assert_eq!(served.headers[header::REFERER], "https://topcoat.localhost/");
    assert_eq!(served.headers[header::HOST], "topcoat.localhost");
}

#[test]
fn a_window_asks_for_paths_only() {
    let request = harness::get_request("/a#part").expect("a path");
    assert_eq!(request.method, "GET");
    assert_eq!(request.uri.text(), "topcoat://localhost/a");
    assert!(request.headers.is_empty());
    assert!(request.body.is_empty());
    assert!(harness::get_request("a b").is_none());
    assert!(harness::submit_request("no", "").is_none());
    let root = harness::url("").expect("the root");
    assert_eq!(root.text(), "topcoat://localhost/");
    assert_eq!(harness::get_of(root).uri.path(), "/");
    let form = harness::submit_of(Uri::build("https", "a.test", "/b?c").expect("a target"), "d");
    assert_eq!(form.uri.text(), "https://a.test/b?c");
    assert_eq!((form.method.as_str(), form.body.as_slice()), ("POST", &b"d"[..]));
    assert!(Uri::build("https", "a b", "/").is_none());
    assert!(Uri::build("a b", "a", "/").is_none());
    assert_eq!(harness::origin(), "topcoat://localhost");
    assert_eq!(
        harness::read(&Response {
            status: 404,
            headers: HeaderMap::new(),
            body: b"caf\xc3\xa9 \xff".to_vec(),
        }),
        (404, "caf\u{e9} \u{fffd}".to_owned())
    );
}

#[test]
fn a_confined_webview_stays_where_it_is() {
    let pair = origins();
    let mut page = "topcoat://localhost/";
    for target in [
        "topcoat://localhost/a",
        "https://evil.example/",
        "TOPCOAT://LOCALHOST/b",
        "topcoat://localhost.evil.example/",
        "data:text/html,hi",
    ] {
        if may_navigate(Some(&pair), Some(page), target, true) {
            page = target;
        }
        assert!(pair.platform().covers(page), "{page}");
    }
    assert_eq!(page, "TOPCOAT://LOCALHOST/b");
}

#[test]
fn a_webview_that_leaves_is_handed_no_token() {
    let pair = origins();
    let mut webviews = Webviews::new();
    observe_navigation(&mut webviews, &pair, "main", "topcoat://localhost/");
    webviews.write("main", 7, 60, 0);
    assert_eq!(webviews.read("main", 1), Ok(&7));
    observe_navigation(&mut webviews, &pair, "main", "https://evil.example/");
    assert_eq!(webviews.read("main", 1), Err(Withheld::ShowingAnotherOrigin));
    observe_navigation(&mut webviews, &pair, "main", "topcoat://localhost/back");
    assert_eq!(webviews.read("main", 1), Ok(&7));
}

#[test]
fn a_copy_of_a_layer_decides_alike() {
    let layer = CanonicalOriginLayer::new(origins()).clone();
    let service = layer.layer(3).clone();
    let served = service.decide(request("GET", "topcoat://localhost/a")).expect("it is ours");
    assert_eq!(served.uri.text(), "https://topcoat.localhost/a");
    let mut refusing = RefuseUnsupportedLayer::new().layer(4).clone();
    assert_eq!(*refusing.inner_mut(), 4);
    let error = Builder::new((), None).scheme("no good").build().expect_err("a bad scheme");
    assert_eq!(error.clone(), error);
    assert_eq!(error.clone().message(), error.message());
}
