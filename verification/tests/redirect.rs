//! The layers around a follower of redirects, as the shell stacks them.

use bytes::Bytes;
use http::{header, HeaderMap, HeaderName, HeaderValue, Method, StatusCode};
use http_body_util::Full;
use std::convert::Infallible;
use std::future::{ready, Future, Ready};
use std::sync::{Arc, Mutex};
use std::task::{Context, Poll, Wake};
use tauri_plugin_topcoat::message::{Request, Response};
use tauri_plugin_topcoat::origin::{Origins, Platform};
use tauri_plugin_topcoat::tower::{CanonicalOriginLayer, RefuseUnsupportedLayer};
use tauri_plugin_topcoat::uri::Uri;
use tower::{Layer, Service, ServiceExt};
use tower_http::follow_redirect::policy::{clone_body_fn, Limited, PolicyExt, SameOrigin};
use tower_http::follow_redirect::FollowRedirectLayer;

/// The headers a post of a webview arrives with.
const WEBKIT_POST: &[(HeaderName, &str)] = &[(header::REFERER, "topcoat://localhost/")];

struct Idle;

impl Wake for Idle {
    fn wake(self: Arc<Self>) {}
}

/// What a future comes to that waits for nothing but to be asked again.
fn finish<F: Future>(future: F) -> F::Output {
    let waker = Arc::new(Idle).into();
    let mut future = Box::pin(future);
    for _ in 0..100 {
        if let Poll::Ready(output) = future.as_mut().poll(&mut Context::from_waker(&waker)) {
            return output;
        }
    }
    panic!("nothing here follows so many redirects")
}

/// A router whose every answer is held to what a webview can carry.
#[derive(Clone, Default)]
struct Refusing {
    seen: Arc<Mutex<Vec<String>>>,
}

impl Service<http::Request<Full<Bytes>>> for Refusing {
    type Response = http::Response<Vec<u8>>;
    type Error = Infallible;
    type Future = Ready<Result<http::Response<Vec<u8>>, Infallible>>;

    fn poll_ready(&mut self, _: &mut Context<'_>) -> Poll<Result<(), Infallible>> {
        Poll::Ready(Ok(()))
    }

    fn call(&mut self, request: http::Request<Full<Bytes>>) -> Self::Future {
        self.seen
            .lock()
            .expect("no test panics here")
            .push(format!("{} {}", request.method(), request.uri()));
        let refuse = RefuseUnsupportedLayer::new().layer(());
        let carried = match refuse.carry(routed(&request)) {
            Ok(response) => response,
            Err(refusal) => refusal,
        };
        let mut response = http::Response::new(carried.body);
        *response.status_mut() = StatusCode::from_u16(carried.status).expect("a status");
        *response.headers_mut() = carried.headers;
        ready(Ok(response))
    }
}

/// A router with the redirects an application answers with.
fn routed(request: &http::Request<Full<Bytes>>) -> Response<Vec<u8>> {
    let cookie = (
        header::SET_COOKIE,
        "__Host-session=t0ken; Path=/; Secure; HttpOnly",
    );
    let sent = request
        .headers()
        .get(header::COOKIE)
        .and_then(|value| value.to_str().ok())
        .unwrap_or("<none>");
    let (status, fields, body) = match (request.method().as_str(), request.uri().path()) {
        ("GET", "/") => (200, vec![], "hello"),
        ("GET", "/whoami") => (200, vec![], sent),
        ("GET", "/login") => (200, vec![cookie], "logged in"),
        ("POST", "/todos") => (303, vec![(header::LOCATION, "/whoami")], ""),
        ("POST", "/todos-then-login") => (303, vec![(header::LOCATION, "/login")], ""),
        ("POST", "/sign-in-then-home") => (303, vec![(header::LOCATION, "/"), cookie], ""),
        ("POST", "/offsite") => (303, vec![(header::LOCATION, "https://evil.example/")], ""),
        _ => (404, vec![], ""),
    };
    let mut headers = HeaderMap::new();
    for (name, value) in fields {
        headers.insert(name, HeaderValue::from_static(value));
    }
    Response {
        status,
        headers,
        body: body.as_bytes().to_vec(),
    }
}

/// One request through the whole stack, with what the router was asked for.
fn send(
    method: Method,
    path: &str,
    fields: &[(HeaderName, &'static str)],
) -> (u16, String, HeaderMap, Vec<String>) {
    let mut headers = HeaderMap::new();
    for (name, value) in fields {
        headers.append(name.clone(), HeaderValue::from_static(value));
    }
    let asked = Request {
        method: method.as_str().to_owned(),
        uri: Uri::parse(&format!("topcoat://localhost{path}")).expect("a target"),
        headers,
        webview: None,
        body: Full::new(Bytes::from_static(b"body")),
    };
    let origins = Origins::new("topcoat", Platform::Scheme).expect("a usable scheme");
    let canonical = CanonicalOriginLayer::new(origins).layer(());
    let Ok(served) = canonical.decide(asked) else {
        panic!("our own address is served");
    };
    let mut request = http::Request::new(served.body);
    *request.method_mut() = method;
    *request.uri_mut() = served.uri.text().parse().expect("a target");
    *request.headers_mut() = served.headers;

    let router = Refusing::default();
    let seen = router.seen.clone();
    let policy = Limited::default()
        .and::<_, Full<Bytes>, Infallible>(SameOrigin::new())
        .and::<_, Full<Bytes>, Infallible>(clone_body_fn(|body: &Full<Bytes>| Some(body.clone())));
    let follower = FollowRedirectLayer::with_policy(policy).layer(router);
    let answer = match finish(follower.oneshot(request)) {
        Ok(answer) => answer,
        Err(infallible) => match infallible {},
    };
    let (parts, body) = answer.into_parts();
    let seen = seen.lock().expect("no test panics here").clone();
    (
        parts.status.as_u16(),
        String::from_utf8_lossy(&body).into_owned(),
        parts.headers,
        seen,
    )
}

#[test]
fn post_redirect_get_is_followed_in_process() {
    let (status, body, _, seen) = send(Method::POST, "/todos", WEBKIT_POST);

    assert_eq!(status, 200, "the webview was handed a redirect");
    assert_eq!(body, "<none>", "the redirect target was not fetched");
    assert_eq!(
        seen,
        [
            "POST https://topcoat.localhost/todos",
            "GET https://topcoat.localhost/whoami"
        ]
    );
}

#[test]
fn a_redirect_off_our_origin_is_handed_over_unfollowed() {
    let (status, _, headers, _) = send(Method::POST, "/offsite", WEBKIT_POST);
    assert_eq!(status, 303);
    assert_eq!(
        headers.get(header::LOCATION).and_then(|v| v.to_str().ok()),
        Some("https://evil.example/")
    );
}

#[test]
fn a_cookie_on_a_followed_hop_is_refused_not_swallowed() {
    let (status, body, _, seen) = send(Method::POST, "/sign-in-then-home", &[]);

    assert_eq!(status, 502, "the redirect was followed past a Set-Cookie: {body}");
    assert!(body.contains("__Host-session"), "{body}");
    assert_eq!(seen, ["POST https://topcoat.localhost/sign-in-then-home"]);
}

#[test]
fn an_unsupported_redirect_hop_is_refused_rather_than_followed() {
    let (status, body, _, seen) = send(Method::POST, "/todos-then-login", &[]);

    assert_eq!(status, 502);
    assert!(body.contains("__Host-session"), "{body}");
    assert_eq!(seen.len(), 2, "the redirect itself can be carried");
}
