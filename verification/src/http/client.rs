//! The HTTP+JSON fallback client: endpoint, headers and what an answer's status means.
use std::time::Duration;
use vstd::prelude::*;
use vstd::string::*;

use crate::address;
use crate::address::{parse_url, resolve_url};
use crate::error::TransportError;
use crate::runtime;
use crate::runtime::seconds;
use crate::text;
use crate::text::{decimal_text, joined};

verus! {

/// Configuration for the HTTP+JSON fallback client.
#[derive(Debug)]
pub struct HttpClientConfig {
    /// Base URL of the API server (e.g., `http://localhost:8080`).
    pub base_url: String,
    /// Request timeout for individual HTTP calls.
    pub request_timeout: Duration,
    /// Bearer token or API key for authentication headers.
    /// The value is sent as `Authorization: Bearer <token>`.
    pub auth_token: Option<String>,
}

impl HttpClientConfig {
    /// The default configuration for a server.
    pub fn new(base_url: &str) -> (r: Self)
        ensures
            r.base_url@ == base_url@,
            runtime::nanos(r.request_timeout) == 30_000_000_000,
            r.auth_token is None,
    {
        HttpClientConfig {
            base_url: base_url.to_owned(),
            request_timeout: seconds(30),
            auth_token: None,
        }
    }

    /// The configuration with a token for the authentication header.
    pub fn with_auth_token(self, token: &str) -> (r: Self)
        ensures
            r.base_url == self.base_url,
            r.request_timeout == self.request_timeout,
            r.auth_token matches Some(t) && t@ == token@,
    {
        HttpClientConfig {
            base_url: self.base_url,
            request_timeout: self.request_timeout,
            auth_token: Some(token.to_owned()),
        }
    }
}

/// Whether a text can be the value of an HTTP header: no control character but the tab.
pub open spec fn is_header_value(s: Seq<char>) -> bool {
    forall|i: int|
        0 <= i < s.len() ==> (s[i] as u32 >= 32 && s[i] as u32 != 127) || #[trigger] s[i] == '\t'
}

/// `HeaderValue::from_str`: takes a text whose bytes are at least 32 and not 127, or a tab. The
/// bytes of a character beyond ASCII are all above 127.
#[verifier::external_body]
fn header_value_taken(text: &str) -> (r: bool)
    ensures
        r == is_header_value(text@),
{
    reqwest::header::HeaderValue::from_str(text).is_ok()
}

/// HTTP+JSON fallback transport client: what it knows of its endpoint, and the authentication
/// header that goes with each request.
///
/// This transport is intended as a **debug / fallback** alternative to the
/// primary WS+postcard transport. It does not support Noise encryption.
pub struct HttpClient {
    endpoint: Option<(String, String)>,
    authorization: Option<String>,
}

/// The model of an `HttpClient`.
#[verifier::ext_equal]
pub struct HttpModel {
    /// The endpoint as it was given.
    pub endpoint: Option<Seq<char>>,
    /// The value of the authentication header.
    pub authorization: Option<Seq<char>>,
}

impl View for HttpClient {
    type V = HttpModel;

    closed spec fn view(&self) -> HttpModel {
        HttpModel {
            endpoint: match self.endpoint {
                Some((given, _)) => Some(given@),
                None => None,
            },
            authorization: match self.authorization {
                Some(text) => Some(text@),
                None => None,
            },
        }
    }
}

impl HttpModel {
    /// The client with another endpoint, or with none.
    pub open spec fn with_endpoint(self, endpoint: Option<Seq<char>>) -> HttpModel {
        HttpModel { endpoint, ..self }
    }

    /// The URL of a path, seen from the endpoint.
    pub open spec fn url_of(self, path: Seq<char>) -> Option<Seq<char>> {
        match self.endpoint {
            Some(given) => address::resolved(given, path),
            None => None,
        }
    }
}

/// The value of the authentication header for a token.
pub open spec fn bearer(token: Seq<char>) -> Seq<char> {
    "Bearer "@ + token
}

impl HttpClient {
    /// The endpoint is a URL, and its normalised form is at hand.
    pub closed spec fn wf(&self) -> bool {
        self.endpoint matches Some((given, normalised)) ==> (address::parsed(given@) matches
            Some(p) && p.0 == normalised@)
    }

    /// The client for a configuration. An empty base URL sets no endpoint.
    pub fn new(config: &HttpClientConfig) -> (r: Result<HttpClient, TransportError>)
        ensures
            match r {
                Ok(client) => {
                    &&& client.wf()
                    &&& client@.endpoint == if config.base_url@.len() == 0 {
                        None
                    } else {
                        Some(config.base_url@)
                    }
                    &&& config.base_url@.len() == 0 || address::parsed(config.base_url@) is Some
                    &&& match config.auth_token {
                        Some(token) => is_header_value(bearer(token@)) && client@.authorization
                            == Some(bearer(token@)),
                        None => client@.authorization is None,
                    }
                },
                Err(TransportError::InvalidUrl(text)) => text@ == config.base_url@
                    && config.base_url@.len() > 0 && address::parsed(config.base_url@) is None,
                Err(TransportError::ConnectionFailed(text)) => {
                    &&& text@ == "invalid auth token"@
                    &&& config.base_url@.len() == 0 || address::parsed(config.base_url@) is Some
                    &&& config.auth_token matches Some(token) && !is_header_value(bearer(token@))
                },
                Err(_) => false,
            },
    {
        let endpoint = if config.base_url.as_str().unicode_len() == 0 {
            None
        } else {
            match parse_url(config.base_url.as_str()) {
                Some((normalised, _)) => Some((config.base_url.clone(), normalised)),
                None => {
                    return Err(TransportError::InvalidUrl(config.base_url.clone()));
                },
            }
        };
        let authorization = match &config.auth_token {
            None => None,
            Some(token) => {
                let value = joined("Bearer ", token.as_str());
                if !header_value_taken(value.as_str()) {
                    return Err(TransportError::ConnectionFailed("invalid auth token".to_owned()));
                }
                Some(value)
            },
        };
        Ok(HttpClient { endpoint, authorization })
    }

    /// The value of the authentication header, if there is one.
    pub fn authorization(&self) -> (r: Option<String>)
        ensures
            match self@.authorization {
                Some(text) => r matches Some(s) && s@ == text,
                None => r is None,
            },
    {
        self.authorization.clone()
    }

    /// Set the endpoint URL.
    pub fn set_endpoint(&mut self, url_str: &str) -> (r: Result<(), TransportError>)
        requires
            old(self).wf(),
        ensures
            final(self).wf(),
            final(self)@ == if address::parsed(url_str@) is Some {
                old(self)@.with_endpoint(Some(url_str@))
            } else {
                old(self)@
            },
            match address::parsed(url_str@) {
                Some(_) => r is Ok && final(self)@ == (HttpModel {
                    endpoint: Some(url_str@),
                    ..old(self)@
                }),
                None => {
                    &&& r matches Err(TransportError::InvalidUrl(text)) && text@ == url_str@
                    &&& final(self)@ == old(self)@
                },
            },
    {
        match parse_url(url_str) {
            Some((normalised, _)) => {
                self.endpoint = Some((url_str.to_owned(), normalised));
                Ok(())
            },
            None => Err(TransportError::InvalidUrl(url_str.to_owned())),
        }
    }

    /// Clear current endpoint.
    pub fn clear_endpoint(&mut self)
        ensures
            final(self).wf(),
            final(self)@ == old(self)@.with_endpoint(None),
            final(self)@ == (HttpModel { endpoint: None, ..old(self)@ }),
    {
        self.endpoint = None;
    }

    /// Retrieve the current endpoint URL if set, in its normalised form.
    pub fn endpoint(&self) -> (r: Option<String>)
        requires
            self.wf(),
        ensures
            match self@.endpoint {
                Some(given) => r matches Some(s) && (address::parsed(given) matches Some(p)
                    && s@ == p.0),
                None => r is None,
            },
    {
        match &self.endpoint {
            Some((_, normalised)) => Some(normalised.clone()),
            None => None,
        }
    }

    /// The URL of a path, seen from the endpoint.
    pub fn resolve(&self, path: &str) -> (r: Result<String, TransportError>)
        ensures
            r is Ok <==> self@.url_of(path@) is Some,
            r matches Ok(s) ==> self@.url_of(path@) == Some(s@),
            match self@.endpoint {
                None => r matches Err(TransportError::InvalidUrl(text)) && text@
                    == "No endpoint set"@,
                Some(given) => match address::resolved(given, path@) {
                    Some(url) => r matches Ok(s) && s@ == url,
                    None => r matches Err(TransportError::InvalidUrl(text)) && text@ == path@,
                },
            },
    {
        match &self.endpoint {
            None => Err(TransportError::InvalidUrl("No endpoint set".to_owned())),
            Some((given, _)) => match resolve_url(given.as_str(), path) {
                Some(url) => Ok(url),
                None => Err(TransportError::InvalidUrl(path.to_owned())),
            },
        }
    }
}

/// Whether an HTTP status means success.
pub open spec fn is_success(code: u16) -> bool {
    200 <= code < 300
}

/// What the status of the answer to a GET, a DELETE or a raw request means.
pub fn check_status(code: u16) -> (r: Result<(), TransportError>)
    ensures
        r is Ok <==> is_success(code),
        r matches Err(e) ==> e matches TransportError::HttpError(text) && text@ == "HTTP "@
            + text::decimal(code as nat),
{
    if 200 <= code && code < 300 {
        return Ok(());
    }
    let number = decimal_text(code as u64);
    Err(TransportError::HttpError(joined("HTTP ", number.as_str())))
}

/// What the status of the answer to a POST means; its reason phrase is shown too.
pub fn check_post_status(code: u16, reason: Option<&str>) -> (r: Result<(), TransportError>)
    ensures
        r is Ok <==> is_success(code),
        r matches Err(e) ==> e matches TransportError::HttpError(text) && text@ == "HTTP "@
            + text::decimal(code as nat) + " "@ + match reason {
            Some(phrase) => phrase@,
            None => ""@,
        },
{
    if 200 <= code && code < 300 {
        return Ok(());
    }
    let number = decimal_text(code as u64);
    let mut text = joined("HTTP ", number.as_str());
    text.append(" ");
    text.append(
        match reason {
            Some(phrase) => phrase,
            None => "",
        },
    );
    Err(TransportError::HttpError(text))
}

/// What the status of an event stream means.
pub fn check_sse_status(code: u16, reason: Option<&str>) -> (r: Result<(), TransportError>)
    ensures
        r is Ok <==> is_success(code),
        r matches Err(e) ==> e matches TransportError::HttpError(text) && text@
            == "SSE endpoint returned HTTP "@ + text::decimal(code as nat) + " "@
            + match reason {
            Some(phrase) => phrase@,
            None => "<unknown status code>"@,
        },
{
    if 200 <= code && code < 300 {
        return Ok(());
    }
    let number = decimal_text(code as u64);
    let mut text = joined("SSE endpoint returned HTTP ", number.as_str());
    text.append(" ");
    text.append(
        match reason {
            Some(phrase) => phrase,
            None => "<unknown status code>",
        },
    );
    Err(TransportError::HttpError(text))
}

/// The status codes of success are those whose hundreds are two.
pub proof fn law_success_is_two_hundred_and_some(code: u16)
    ensures
        is_success(code) <==> code / 100 == 2,
{
}

/// The authentication header holds the token behind its scheme, whole and unchanged, and can be
/// sent exactly where the token has no control character but tabs.
pub proof fn law_token_is_sent_whole(token: Seq<char>, c: char)
    ensures
        bearer(token) == "Bearer "@ + token,
        is_header_value(bearer(token)) <==> is_header_value(token),
        is_header_value(seq![c]) <==> c as u32 == 9 || (c as u32 >= 32 && c as u32 != 127),
{
    reveal_strlit("Bearer ");
    let text = bearer(token);
    let n = "Bearer "@.len() as int;
    if is_header_value(text) {
        assert forall|i: int| 0 <= i < token.len() implies (token[i] as u32 >= 32 && token[i] as u32
            != 127) || #[trigger] token[i] == '\t' by {
            assert(text[n + i] == token[i]);
        }
    }
    if is_header_value(token) {
        assert forall|i: int| 0 <= i < text.len() implies (text[i] as u32 >= 32 && text[i] as u32
            != 127) || #[trigger] text[i] == '\t' by {
            if i >= n {
                assert(text[i] == token[i - n]);
            }
        }
    }
    if is_header_value(seq![c]) {
        assert(seq![c][0] == c);
    }
}

/// Every request is judged by its status in the same way: it succeeds with the codes from 200 to
/// 299 and with no other, and a failure names the code.
pub proof fn law_requests_are_judged_by_their_status(
    code: u16,
    reason: Option<&str>,
    plain: Result<(), TransportError>,
    posted: Result<(), TransportError>,
    streamed: Result<(), TransportError>,
)
    requires
        check_status.ensures((code,), plain),
        check_post_status.ensures((code, reason), posted),
        check_sse_status.ensures((code, reason), streamed),
    ensures
        plain is Ok <==> 200 <= code <= 299,
        posted is Ok <==> 200 <= code <= 299,
        streamed is Ok <==> 200 <= code <= 299,
        plain matches Err(e) ==> e.text() == "http error: "@ + ("HTTP "@ + text::decimal(
            code as nat,
        )),
        posted matches Err(e) ==> (e matches TransportError::HttpError(s) && ("HTTP "@
            + text::decimal(code as nat) + " "@).is_prefix_of(s@)),
        streamed matches Err(e) ==> (e matches TransportError::HttpError(s) && (
        "SSE endpoint returned HTTP "@ + text::decimal(code as nat) + " "@).is_prefix_of(s@)),
{
}

/// Paths are seen from the endpoint that was set last; without one no path has a URL. Setting the
/// endpoint leaves the authentication alone.
pub proof fn law_paths_are_seen_from_the_endpoint(m: HttpModel, url: Seq<char>, path: Seq<char>)
    ensures
        m.with_endpoint(Some(url)).url_of(path) == address::resolved(url, path),
        m.with_endpoint(None).url_of(path) is None,
        m.with_endpoint(None).with_endpoint(Some(url)).url_of(path) == address::resolved(url, path),
        m.with_endpoint(Some(url)).authorization == m.authorization,
        m.with_endpoint(None).authorization == m.authorization,
{
}

/// What `resolve` tells: the URL where there is one; else that no endpoint is set, or the path that
/// cannot be resolved.
pub proof fn law_resolve_tells_what_is_missing(
    client: &HttpClient,
    path: &str,
    r: Result<String, TransportError>,
)
    requires
        HttpClient::resolve.ensures((client, path), r),
    ensures
        r matches Ok(s) ==> client@.endpoint is Some && address::resolved(
            client@.endpoint->Some_0,
            path@,
        ) == Some(s@),
        r matches Err(e) ==> (e matches TransportError::InvalidUrl(text) && text@
            == if client@.endpoint is None {
            "No endpoint set"@
        } else {
            path@
        }),
        client@.endpoint matches Some(given) ==> (address::resolved(given, path@) is Some ==> r
            is Ok),
{
}

} // verus!
