use notifiapp_transport::error::TransportError;
use notifiapp_transport::http::client::{
    check_post_status, check_sse_status, check_status, HttpClient, HttpClientConfig,
};
use notifiapp_transport::http::sse::{event_sent, sse_pause, SseParser};
use std::time::Duration;

#[test]
fn test_http_client_endpoint_management() {
    let config = HttpClientConfig::new("");
    let mut client = HttpClient::new(&config).unwrap();

    // Initially empty
    assert!(client.endpoint().is_none());
    assert!(client.resolve("/api").is_err());

    // Set endpoint
    assert!(client.set_endpoint("http://127.0.0.1:8080").is_ok());
    assert_eq!(
        client.endpoint(),
        Some("http://127.0.0.1:8080/".to_string())
    );
    assert_eq!(
        client.resolve("/api/v1").unwrap().to_string(),
        "http://127.0.0.1:8080/api/v1"
    );

    // Clear endpoint
    client.clear_endpoint();
    assert!(client.endpoint().is_none());
    assert!(client.resolve("/api").is_err());
}

#[test]
fn the_defaults_are_set() {
    let config = HttpClientConfig::new("http://h").with_auth_token("t");
    assert_eq!(config.base_url, "http://h");
    assert_eq!(config.request_timeout, Duration::from_secs(30));
    assert_eq!(config.auth_token, Some("t".to_string()));
    let client = HttpClient::new(&config).unwrap();
    assert_eq!(client.authorization(), Some("Bearer t".to_string()));
    assert_eq!(client.endpoint(), Some("http://h/".to_string()));
    assert_eq!(HttpClient::new(&HttpClientConfig::new("")).unwrap().authorization(), None);
}

fn text(e: TransportError) -> String {
    e.message()
}

#[test]
fn bad_configurations_are_refused() {
    let bad_url = HttpClient::new(&HttpClientConfig::new("not a url"));
    assert_eq!(text(bad_url.err().unwrap()), "invalid endpoint URL: not a url");
    let bad_token = HttpClient::new(&HttpClientConfig::new("").with_auth_token("a\nb"));
    assert_eq!(text(bad_token.err().unwrap()), "connection failed: invalid auth token");
    let bad_del = HttpClient::new(&HttpClientConfig::new("").with_auth_token("\u{7f}"));
    assert_eq!(text(bad_del.err().unwrap()), "connection failed: invalid auth token");
    let fine = HttpClient::new(&HttpClientConfig::new("").with_auth_token("a\tbé"));
    assert_eq!(fine.unwrap().authorization(), Some("Bearer a\tbé".to_string()));
}

#[test]
fn bad_addresses_are_refused() {
    let mut client = HttpClient::new(&HttpClientConfig::new("http://h/base/")).unwrap();
    assert_eq!(client.resolve("x?y=1").unwrap(), "http://h/base/x?y=1");
    assert_eq!(text(client.resolve("http://[").unwrap_err()), "invalid endpoint URL: http://[");
    assert_eq!(text(client.set_endpoint("::").unwrap_err()), "invalid endpoint URL: ::");
    assert_eq!(client.endpoint(), Some("http://h/base/".to_string()));
    client.clear_endpoint();
    assert_eq!(text(client.resolve("x").unwrap_err()), "invalid endpoint URL: No endpoint set");
}

#[test]
fn statuses_are_judged() {
    for code in [200, 204, 299] {
        assert!(check_status(code).is_ok());
        assert!(check_post_status(code, None).is_ok());
        assert!(check_sse_status(code, None).is_ok());
    }
    assert_eq!(text(check_status(404).unwrap_err()), "http error: HTTP 404");
    assert_eq!(text(check_status(199).unwrap_err()), "http error: HTTP 199");
    assert_eq!(text(check_status(300).unwrap_err()), "http error: HTTP 300");
    assert_eq!(
        text(check_post_status(404, Some("Not Found")).unwrap_err()),
        "http error: HTTP 404 Not Found"
    );
    assert_eq!(text(check_post_status(599, None).unwrap_err()), "http error: HTTP 599 ");
    assert_eq!(
        text(check_sse_status(503, Some("Service Unavailable")).unwrap_err()),
        "http error: SSE endpoint returned HTTP 503 Service Unavailable"
    );
    assert_eq!(
        text(check_sse_status(599, None).unwrap_err()),
        "http error: SSE endpoint returned HTTP 599 <unknown status code>"
    );
}

fn pair(a: &str, b: &str) -> (String, String) {
    (a.to_string(), b.to_string())
}

#[test]
fn events_are_read() {
    let mut parser = SseParser::new();
    let got = parser.feed(b"event: camera_status_changed\ndata: {\"status\": \"online\"}\n\n");
    assert_eq!(got, vec![pair("camera_status_changed", "{\"status\": \"online\"}")]);
    // The type falls back to the default.
    assert_eq!(parser.feed(b"data: plain\n\n"), vec![pair("message", "plain")]);
}

#[test]
fn data_lines_are_joined_and_other_lines_ignored() {
    let mut parser = SseParser::new();
    let got = parser.feed(b"id: 1\r\nretry: 5\n: comment\ndata:a\r\r\ndata:  b \n\r\n");
    assert_eq!(got, vec![pair("message", "a\nb")]);
    assert_eq!(parser.feed(b"\n\n"), vec![]);
    assert_eq!(parser.feed(b"data\n\n"), vec![]);
    assert_eq!(parser.feed(b"data:\n\n"), vec![pair("message", "")]);
}

#[test]
fn an_event_type_without_data_is_kept() {
    let mut parser = SseParser::new();
    assert_eq!(parser.feed(b"event: kept\n\n"), vec![]);
    assert_eq!(parser.feed(b"data: x\n\n"), vec![pair("kept", "x")]);
}

#[test]
fn chunks_do_not_matter() {
    let text = "event: ä\ndata: one\ndata: two\n\ndata: three\n\n";
    let whole = SseParser::new().feed_text(text);
    assert_eq!(whole, vec![pair("ä", "one\ntwo"), pair("message", "three")]);
    for cut in 0..text.len() {
        if text.is_char_boundary(cut) {
            let mut parser = SseParser::new();
            let mut got = parser.feed(text[..cut].as_bytes());
            got.extend(parser.feed(text[cut..].as_bytes()));
            assert_eq!(got, whole);
        }
    }
}

#[test]
fn broken_text_is_repaired() {
    let mut parser = SseParser::new();
    assert_eq!(parser.feed(b"data: a\xffb\n\n"), vec![pair("message", "a\u{fffd}b")]);
}

#[test]
fn streams_are_renewed_until_cancelled() {
    assert_eq!(sse_pause(false), Some(Duration::from_secs(2)));
    assert_eq!(sse_pause(true), None);
    assert!(event_sent(true).is_ok());
    assert!(matches!(event_sent(false), Err(TransportError::SseStreamClosed)));
}
