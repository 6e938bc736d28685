use std::time::{Duration, Instant};

use http::HeaderMap;
use tauri_plugin_topcoat::message::Request;
use tauri_plugin_topcoat::origin::{Origins, Platform};
use tauri_plugin_topcoat::plugin::observe_navigation;
use tauri_plugin_topcoat::session::{attach, requesting_webview, Webviews, Withheld};
use tauri_plugin_topcoat::uri::Uri;
use topcoat::session::Token;

const LABEL: &str = "main";

/// The moment the instants here are counted from.
fn start() -> Instant {
    Instant::now()
}

fn nanos(from: Instant, at: Instant) -> u128 {
    at.duration_since(from).as_nanos()
}

fn secs(seconds: u64) -> u128 {
    Duration::from_secs(seconds).as_nanos()
}

fn webviews_showing_ours() -> Webviews<Token> {
    let mut webviews = Webviews::new();
    webviews.observe(LABEL, true);
    webviews
}

fn bytes(token: &Token) -> [u8; 32] {
    *token.dangerous_as_array()
}

#[test]
fn a_written_token_reads_back() {
    let mut webviews = webviews_showing_ours();
    let token = Token::random();
    let from = start();
    let now = nanos(from, Instant::now());
    webviews.write(LABEL, token.clone(), secs(60), now);

    let read = webviews.read(LABEL, now).expect("the token was just written");
    assert_eq!(bytes(read), bytes(&token));
}

/// By name, not by absence: a test checking only for absence passes while
/// the wrong rule does the work.
fn assert_withheld(result: Result<&Token, Withheld>, expected: Withheld) {
    match result {
        Err(actual) => assert_eq!(actual, expected, "the wrong rule declined"),
        Ok(_) => panic!("handed over the token, expected {expected:?}"),
    }
}

#[test]
fn a_webview_with_no_token_reads_none() {
    let webviews = webviews_showing_ours();
    assert_withheld(webviews.read(LABEL, 0), Withheld::NoToken);
}

#[test]
fn one_webviews_token_is_not_anothers() {
    let mut webviews = webviews_showing_ours();
    webviews.observe("second", true);
    let now = 7;
    webviews.write(LABEL, Token::random(), secs(60), now);

    assert_withheld(webviews.read("second", now), Withheld::NoToken);
}

#[test]
fn a_webview_showing_a_foreign_document_is_not_handed_the_token() {
    let mut webviews = webviews_showing_ours();
    let now = 7;
    webviews.write(LABEL, Token::random(), secs(60), now);
    assert!(webviews.read(LABEL, now).is_ok());

    webviews.observe(LABEL, false);
    assert_withheld(webviews.read(LABEL, now), Withheld::ShowingAnotherOrigin);

    webviews.observe(LABEL, true);
    assert!(webviews.read(LABEL, now).is_ok());
}

#[test]
fn a_webview_nobody_has_watched_is_not_handed_the_token() {
    let mut webviews = Webviews::new();
    let now = 7;
    webviews.write(LABEL, Token::random(), secs(60), now);
    assert_withheld(webviews.read(LABEL, now), Withheld::ShowingAnotherOrigin);
}

#[test]
fn an_expired_token_reads_none() {
    let mut webviews = webviews_showing_ours();
    let now = 7;
    webviews.write(LABEL, Token::random(), secs(60), now);

    let later = now + secs(61);
    assert_withheld(webviews.read(LABEL, later), Withheld::Expired);
}

#[test]
fn a_token_expires_at_its_deadline_rather_than_after_it() {
    let mut webviews = webviews_showing_ours();
    let now = 7;
    let lifetime = secs(60);
    webviews.write(LABEL, Token::random(), lifetime, now);

    assert_withheld(webviews.read(LABEL, now + lifetime), Withheld::Expired);
    assert!(webviews.read(LABEL, now + lifetime - 1).is_ok());
}

#[test]
fn deleting_discards_the_token_and_keeps_the_webview() {
    let mut webviews = webviews_showing_ours();
    let now = 7;
    webviews.write(LABEL, Token::random(), secs(60), now);
    webviews.delete(LABEL);

    assert!(webviews.read(LABEL, now).is_err());
    webviews.write(LABEL, Token::random(), secs(60), now);
    assert!(webviews.read(LABEL, now).is_ok());
}

#[test]
fn a_rewrite_replaces_the_previous_token() {
    let mut webviews = webviews_showing_ours();
    let now = 7;
    webviews.write(LABEL, Token::random(), secs(60), now);
    let rotated = Token::random();
    webviews.write(LABEL, rotated.clone(), secs(60), now);

    let read = webviews.read(LABEL, now).expect("a token is held");
    assert_eq!(bytes(read), bytes(&rotated));
}

fn request() -> Request<Vec<u8>> {
    Request {
        method: "GET".to_owned(),
        uri: Uri::parse("topcoat://localhost/").expect("a target"),
        headers: HeaderMap::new(),
        webview: None,
        body: Vec::new(),
    }
}

#[test]
fn attach_overwrites_whatever_was_there() {
    let mut request = request();
    request.webview = Some("forged".to_owned());

    let request = attach(request, LABEL);

    let attached = request.webview.as_deref().expect("attach inserts one");
    assert_eq!(attached, LABEL);
}

#[test]
fn a_request_nobody_named_has_no_session() {
    let mut webviews = webviews_showing_ours();
    let unnamed = request();
    assert_eq!(requesting_webview(&unnamed), None);
    webviews.write_for(requesting_webview(&unnamed), Token::random(), secs(60), 0);
    assert_withheld(webviews.read(LABEL, 0), Withheld::NoToken);

    let named = attach(request(), LABEL);
    assert_eq!(requesting_webview(&named), Some(LABEL));
    let token = Token::random();
    webviews.write_for(requesting_webview(&named), token.clone(), secs(60), 0);
    let read = webviews
        .read_for(requesting_webview(&named), 0)
        .expect("a token is held");
    assert_eq!(bytes(read), bytes(&token));
    assert!(webviews.read_for(requesting_webview(&unnamed), 0).is_none());

    webviews.delete_for(requesting_webview(&unnamed));
    assert!(webviews.read_for(requesting_webview(&named), 0).is_some());
    webviews.delete_for(requesting_webview(&named));
    assert!(webviews.read_for(requesting_webview(&named), 0).is_none());
}

#[test]
fn an_unknown_webview_is_told_apart() {
    let mut webviews: Webviews<u8> = Webviews::new();
    assert_eq!(webviews.read("nobody", 0), Err(Withheld::UnknownWebview));
    webviews.delete("nobody");
    assert_eq!(webviews.read("nobody", 0), Err(Withheld::UnknownWebview));
    webviews.observe("somebody", true);
    webviews.write("somebody", 1, 10, u128::MAX - 5);
    assert_eq!(webviews.read("somebody", u128::MAX), Ok(&1));
    webviews.write("somebody", 2, 5, u128::MAX - 5);
    assert_eq!(webviews.read("somebody", u128::MAX), Err(Withheld::Expired));
}

#[test]
fn each_rule_has_its_words() {
    assert_eq!(Withheld::UnknownWebview.reason(), "unknown webview");
    assert_eq!(Withheld::ShowingAnotherOrigin.reason(), "showing another origin");
    assert_eq!(Withheld::NoToken.reason(), "no token held");
    assert_eq!(Withheld::Expired.reason(), "token expired");
}

#[test]
fn a_webview_seen_elsewhere_stops_being_handed_its_token() {
    let origins = Origins::new("topcoat", Platform::Scheme).expect("a usable scheme");
    let mut webviews: Webviews<u8> = Webviews::new();
    observe_navigation(&mut webviews, &origins, LABEL, "topcoat://localhost/");
    webviews.write(LABEL, 1, 100, 0);
    assert_eq!(webviews.read(LABEL, 0), Ok(&1));
    observe_navigation(&mut webviews, &origins, LABEL, "https://evil.example/");
    assert_eq!(webviews.read(LABEL, 0), Err(Withheld::ShowingAnotherOrigin));
    observe_navigation(&mut webviews, &origins, LABEL, "topcoat://localhost/back");
    assert_eq!(webviews.read(LABEL, 0), Ok(&1));
}

#[test]
fn many_webviews_keep_their_own() {
    let mut webviews: Webviews<usize> = Webviews::new();
    for at in 0..20 {
        webviews.observe(&format!("window {at}"), at % 2 == 0);
        webviews.write(&format!("window {at}"), at, 100, 0);
    }
    webviews.delete("window 4");
    for at in 0..20 {
        let expected = if at % 2 == 1 {
            Err(Withheld::ShowingAnotherOrigin)
        } else if at == 4 {
            Err(Withheld::NoToken)
        } else {
            Ok(&at)
        };
        assert_eq!(webviews.read(&format!("window {at}"), 99), expected);
    }
}
