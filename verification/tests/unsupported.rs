use http::{header, HeaderMap, HeaderName, HeaderValue};
use tauri_plugin_topcoat::message::Response;
use tauri_plugin_topcoat::tower::{unsupported_response, with_line};
use tauri_plugin_topcoat::unsupported::{name, streams, unsupported, Unsupported};

fn response(headers: &[(HeaderName, &str)]) -> Response<()> {
    with_status(200, headers)
}

fn with_status(status: u16, headers: &[(HeaderName, &str)]) -> Response<()> {
    let mut map = HeaderMap::new();
    for (name, value) in headers {
        map.append(name.clone(), HeaderValue::from_str(value).expect("a valid header value"));
    }
    Response {
        status,
        headers: map,
        body: (),
    }
}

#[test]
fn an_ordinary_response_is_supported() {
    let response = response(&[
        (header::CONTENT_TYPE, "text/html; charset=utf-8"),
        (header::CONTENT_LENGTH, "42"),
        (header::CACHE_CONTROL, "no-store"),
    ]);
    assert_eq!(unsupported(&response), None);
}

#[test]
fn chunked_transfer_is_streaming() {
    let response = response(&[(header::TRANSFER_ENCODING, "chunked")]);
    assert_eq!(
        unsupported(&response),
        Some(Unsupported::Streaming {
            header: "transfer-encoding".to_owned(),
            value: b"chunked".to_vec(),
        })
    );
}

#[test]
fn server_sent_events_are_streaming() {
    let plain = response(&[(header::CONTENT_TYPE, "text/event-stream")]);
    assert_eq!(
        unsupported(&plain),
        Some(Unsupported::Streaming {
            header: "content-type".to_owned(),
            value: b"text/event-stream".to_vec(),
        })
    );
    // Parameters and leading whitespace must not hide it.
    let parameterized = response(&[(header::CONTENT_TYPE, " text/event-stream; charset=utf-8")]);
    assert!(matches!(
        unsupported(&parameterized),
        Some(Unsupported::Streaming { .. })
    ));
    // Nor an unusual case, which the grammar says is the same media type.
    let shouted = response(&[(header::CONTENT_TYPE, "TEXT/EVENT-STREAM")]);
    assert!(matches!(
        unsupported(&shouted),
        Some(Unsupported::Streaming { .. })
    ));
}

#[test]
fn a_content_type_that_merely_starts_alike_is_supported() {
    let response = response(&[(header::CONTENT_TYPE, "text/event-streamlined")]);
    assert_eq!(unsupported(&response), None);
}

#[test]
fn a_content_encoding_is_compression() {
    for encoding in ["gzip", "br", "zstd", "deflate"] {
        let response = response(&[(header::CONTENT_ENCODING, encoding)]);
        assert_eq!(
            unsupported(&response),
            Some(Unsupported::Compression {
                encoding: HeaderValue::from_str(encoding)
                    .expect("a valid header value")
                    .as_bytes()
                    .to_vec(),
            })
        );
    }
}

#[test]
fn a_set_cookie_is_named_by_its_cookie() {
    let response = response(&[(
        header::SET_COOKIE,
        "__Host-session=abc123; Path=/; Secure; HttpOnly; SameSite=Lax",
    )]);
    assert_eq!(
        unsupported(&response),
        Some(Unsupported::SetCookie {
            name: "__Host-session".to_owned()
        })
    );
}

#[test]
fn a_set_cookie_without_a_pair_still_reports() {
    let response = response(&[(header::SET_COOKIE, "malformed")]);
    assert_eq!(
        unsupported(&response),
        Some(Unsupported::SetCookie {
            name: "malformed".to_owned()
        })
    );
}

#[test]
fn switching_protocols_is_an_upgrade() {
    let response = with_status(101, &[]);
    assert_eq!(unsupported(&response), Some(Unsupported::Upgrade));
}

#[test]
fn an_upgrade_header_is_an_upgrade() {
    let response = response(&[(header::UPGRADE, "websocket")]);
    assert_eq!(unsupported(&response), Some(Unsupported::Upgrade));
}

#[test]
fn the_most_structural_problem_is_reported_first() {
    let response = response(&[
        (header::CONTENT_TYPE, "text/event-stream"),
        (header::CONTENT_ENCODING, "gzip"),
        (header::SET_COOKIE, "a=b"),
    ]);
    assert!(matches!(
        unsupported(&response),
        Some(Unsupported::Streaming { .. })
    ));
}

#[test]
fn a_redirect_is_not_unsupported_here() {
    let response = with_status(303, &[(header::LOCATION, "/done")]);
    assert_eq!(unsupported(&response), None);
}

#[test]
fn fixing_one_problem_reveals_the_next() {
    let mut response = with_status(
        101,
        &[
            (header::TRANSFER_ENCODING, "chunked"),
            (header::CONTENT_TYPE, "text/event-stream"),
            (header::CONTENT_ENCODING, "gzip"),
            (header::SET_COOKIE, "a=b"),
            (header::UPGRADE, "websocket"),
        ],
    );
    let mut said = Vec::new();
    for name in [
        Some(header::TRANSFER_ENCODING),
        Some(header::CONTENT_TYPE),
        Some(header::CONTENT_ENCODING),
        Some(header::SET_COOKIE),
        None,
    ] {
        said.push(unsupported(&response).expect("there is one more").message());
        if let Some(name) = name {
            response.headers.remove(name);
        }
    }
    assert_eq!(
        said,
        [
            "the response streams (`transfer-encoding: chunked`), and a custom protocol delivers \
             one buffered body",
            "the response streams (`content-type: text/event-stream`), and a custom protocol \
             delivers one buffered body",
            "the response is `gzip`-encoded, and the webview will not decode what a custom \
             protocol hands it",
            "the response sets the cookie `a`, and the webview discards cookies from a custom \
             protocol",
            "the response asks to change protocols, and there is no connection here",
        ]
    );
    response.headers.remove(header::UPGRADE);
    assert_eq!(unsupported(&response), Some(Unsupported::Upgrade));
    response.status = 200;
    assert_eq!(unsupported(&response), None);
}

#[test]
fn a_value_that_is_not_utf8_still_reaches_the_developer() {
    let mut map = HeaderMap::new();
    map.insert(
        header::SET_COOKIE,
        HeaderValue::from_bytes(b"\xe3\x80\x80name\xff \t=v").expect("a header value"),
    );
    let response = Response {
        status: 200,
        headers: map,
        body: (),
    };
    assert_eq!(
        unsupported(&response),
        Some(Unsupported::SetCookie {
            name: "name\u{fffd}".to_owned()
        })
    );
}

#[test]
fn a_suffix_is_not_part_of_the_subtype() {
    let response = response(&[(header::CONTENT_TYPE, "text/event-stream+x")]);
    assert!(matches!(
        unsupported(&response),
        Some(Unsupported::Streaming { .. })
    ));
}

#[test]
fn only_one_media_type_streams() {
    let named = |kind: &str, subtype: &str| Some((kind.to_owned(), subtype.to_owned()));
    assert!(streams(&named("text", "event-stream")));
    assert!(!streams(&named("text", "plain")));
    assert!(!streams(&named("application", "event-stream")));
    assert!(!streams(&None));
}

#[test]
fn a_cookie_is_named_by_what_stands_before_its_value() {
    assert_eq!(name("id=abc; Path=/"), "id");
    assert_eq!(name(" id =abc=d"), "id");
    assert_eq!(name("=abc"), "");
    assert_eq!(name(" bare "), " bare ");
}

#[test]
fn a_refusal_is_a_status_line_and_a_reason() {
    let refusal = unsupported_response(&Unsupported::Upgrade);
    assert_eq!(refusal.status, 502);
    assert_eq!(
        refusal.body,
        b"502 Bad Gateway\n\nthe response asks to change protocols, and there is no connection \
          here\n"
    );
    let other = with_line(418, "418 I'm a teapot", "short and stout");
    assert_eq!(other.body, b"418 I'm a teapot\n\nshort and stout\n");
    assert_eq!(
        other.headers.get(header::CONTENT_TYPE).expect("a type"),
        "text/plain; charset=utf-8"
    );
}

#[test]
fn a_copy_of_a_report_is_the_same_report() {
    for report in [
        Unsupported::Streaming { header: "content-type".to_owned(), value: b"a".to_vec() },
        Unsupported::Compression { encoding: b"gzip".to_vec() },
        Unsupported::SetCookie { name: "id".to_owned() },
        Unsupported::Upgrade,
    ] {
        assert_eq!(report.clone(), report);
    }
}
