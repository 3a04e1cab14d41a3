use yukikaze::connector::{connect_target, ConnectError};
use yukikaze::content_disposition::{ContentDisposition, Filename};
use yukikaze::body::{collect, calculate_buffer_size, BodyCollector, BodyReadError, Noop, Recorder, DEFAULT_LIMIT};
use yukikaze::client::{add_accept_encoding, apply_headers, default_headers, Config};
use yukikaze::content_encoding::ContentEncoding;
use yukikaze::headers::HeaderMap;
use yukikaze::redirect::RedirectState;
use yukikaze::request::{Method, Request};
use yukikaze::response::{parse_len, Response};
use yukikaze::request::Extensions;
use yukikaze::timed::{FutureResponse, Polled, ResponseError, TimerPoll, WorkPoll};
use yukikaze::websocket::{challenge, WebsocketUpgrade, WebsocketUpgradeError, WebsocketUpgradeOpts};


#[test]
fn redirect_see_other_becomes_get() {
    let req = Request::post("http://orig.example/q").expect("To create request").body(Some(b"data".to_vec()));
    let state = RedirectState::start(&req, 8);
    let next = state.next(303, Some("/other")).expect("To follow");
    assert_eq!(next.method, Method::Get);
    assert!(next.body.is_none());
    assert_eq!(next.uri.path, "/other");
    assert_eq!(next.uri.host.as_deref(), Some("orig.example"));
    assert_eq!(next.remaining, 7);
}

#[test]
fn redirect_keeps_method_on_307() {
    let req = Request::put("http://orig.example/a/b").expect("To create request").body(Some(b"x".to_vec()));
    let state = RedirectState::start(&req, 8);
    let next = state.next(307, Some("/a/c")).expect("To follow");
    assert_eq!(next.method, Method::Put);
    assert_eq!(next.body.as_deref(), Some(&b"x"[..]));
    assert_eq!(next.uri.path, "/a/c");
    assert_eq!(next.uri.scheme.as_deref(), Some("http"));
    let r = next.to_request();
    assert_eq!(r.uri.to_string(), "http://orig.example/a/c");
}

#[test]
fn redirect_scrubs_credentials_on_other_host() {
    let req = Request::get("http://orig.example/q")
        .expect("To create request")
        .set_header("Authorization", "secret")
        .set_header("Cookie", "a=b")
        .set_header("X-Keep", "yes")
        .empty();
    let state = RedirectState::start(&req, 8);
    let next = state.next(301, Some("http://other.example/p")).expect("To follow");
    let r = next.to_request();
    assert!(!r.headers().contains_key("authorization"));
    assert!(!r.headers().contains_key("cookie"));
    assert_eq!(r.headers().get("x-keep"), Some("yes"));
    assert_eq!(r.uri.to_string(), "http://other.example/p");
}

#[test]
fn redirect_keeps_credentials_on_same_host() {
    let req = Request::get("http://orig.example/q")
        .expect("To create request")
        .set_header("Authorization", "secret")
        .empty();
    let state = RedirectState::start(&req, 8);
    let next = state.next(302, Some("https://orig.example/p")).expect("To follow");
    assert_eq!(next.headers.get("authorization"), Some("secret"));
}

#[test]
fn redirect_budget_is_spent() {
    let req = Request::get("http://orig.example/").expect("To create request").empty();
    let mut state = RedirectState::start(&req, 3);
    let mut hops = 0;
    loop {
        match state.next(302, Some("/again")) {
            Some(next) => {
                hops += 1;
                state = next;
            },
            None => break,
        }
    }
    assert_eq!(hops, 2);
}

#[test]
fn redirect_stops_on_other_status_or_no_location() {
    let req = Request::get("http://orig.example/").expect("To create request").empty();
    assert!(RedirectState::start(&req, 8).next(200, Some("/x")).is_none());
    assert!(RedirectState::start(&req, 8).next(301, None).is_none());
    assert!(RedirectState::start(&req, 8).next(304, Some("/x")).is_none());
}

#[test]
fn timeout_token_retries_same_work() {
    let mut fut = FutureResponse::new(42u32, 50);
    match fut.decide(WorkPoll::<u8, ()>::Pending, TimerPoll::<()>::Expired) {
        Polled::Error(ResponseError::Timeout(tok)) => {
            let mut again = tok.retry(30000);
            assert_eq!(again.timeout_ms(), 30000);
            assert_eq!(*again.work_mut(), 42);
            match again.decide(WorkPoll::<u8, ()>::Ready(200), TimerPoll::<()>::Pending) {
                Polled::Ready(v) => assert_eq!(v, 200),
                _ => panic!("Expected response"),
            }
        },
        _ => panic!("Expected timeout"),
    }
}

#[test]
fn zero_deadline_never_expires() {
    let mut fut = FutureResponse::new("work", 0);
    assert!(matches!(fut.decide(WorkPoll::<u8, ()>::Pending, TimerPoll::<()>::Expired), Polled::Pending));
    match fut.decide(WorkPoll::<u8, &str>::Failed("io"), TimerPoll::<()>::Pending) {
        Polled::Error(ResponseError::TransportError(e)) => assert_eq!(e, "io"),
        _ => panic!("Expected transport error"),
    }
}

#[test]
fn timer_error_hands_out_work() {
    let mut fut = FutureResponse::new(7u8, 10);
    match fut.decide(WorkPoll::<u8, ()>::Pending, TimerPoll::Failed("timer")) {
        Polled::Error(ResponseError::TimerError(e, tok)) => {
            assert_eq!(e, "timer");
            assert_eq!(tok.into_inner(), 7);
        },
        _ => panic!("Expected timer error"),
    }
}

#[test]
fn body_within_limit() {
    let chunks = vec![b"ab".to_vec(), b"cd".to_vec()];
    let mut n = Recorder::new();
    let r = collect(&chunks, Some(4), &mut n).expect("To fit");
    assert_eq!(r, b"abcd".to_vec());
    assert_eq!(n.counts(), &vec![2, 2]);
}

#[test]
fn body_overflow_keeps_partial() {
    let chunks = vec![b"ab".to_vec(), b"cde".to_vec(), b"f".to_vec()];
    let mut n = Recorder::new();
    match collect(&chunks, Some(4), &mut n) {
        Err(BodyReadError::Overflow(p)) => assert_eq!(p, b"abcde".to_vec()),
        _ => panic!("Expected overflow"),
    }
    assert_eq!(n.counts(), &vec![2, 3]);
}

#[test]
fn body_collector_and_sizes() {
    assert_eq!(calculate_buffer_size(None), (DEFAULT_LIMIT, 4096));
    assert_eq!(calculate_buffer_size(Some(10)), (10, 10));
    assert_eq!(DEFAULT_LIMIT, 2 * 1024 * 1024);
    let mut c = BodyCollector::new(Some(3));
    c.notify(&mut Noop::new(), 2);
    assert!(c.push(b"ab"));
    assert!(!c.push(b"cd"));
    match c.finish() {
        Err(BodyReadError::Overflow(p)) => assert_eq!(p, b"abcd".to_vec()),
        _ => panic!("Expected overflow"),
    }
    let empty: Vec<Vec<u8>> = Vec::new();
    assert_eq!(collect(&empty, None, &mut Noop::new()).expect("empty"), Vec::<u8>::new());
}

#[test]
fn accept_encoding_only_for_ranges() {
    let mut req = Request::get("http://x.example/").expect("To create request").set_header("Range", "bytes=0-9").empty();
    add_accept_encoding(&mut req, true);
    assert_eq!(req.headers().get("accept-encoding"), Some("gzip, deflate"));

    let mut req = Request::get("http://x.example/").expect("To create request").empty();
    add_accept_encoding(&mut req, true);
    assert!(!req.headers().contains_key("accept-encoding"));

    let mut req = Request::get("http://x.example/").expect("To create request").set_header("Range", "bytes=0-9").empty();
    add_accept_encoding(&mut req, false);
    assert!(!req.headers().contains_key("accept-encoding"));

    let mut req = Request::get("http://x.example/")
        .expect("To create request")
        .set_header("Range", "bytes=0-9")
        .set_header("Accept-Encoding", "identity")
        .empty();
    add_accept_encoding(&mut req, true);
    assert_eq!(req.headers().get("accept-encoding"), Some("identity"));
}

#[test]
fn default_headers_host_and_agent() {
    let mut req = Request::get("http://x.example:8080/").expect("To create request").empty();
    default_headers(&mut req);
    assert_eq!(req.headers().get("host"), Some("x.example:8080"));
    assert_eq!(req.headers().get("user-agent"), Some("Yukikaze/0.1.0"));

    let mut req = Request::get("https://x.example:443/").expect("To create request").set_header("User-Agent", "me").empty();
    apply_headers(&mut req, &Config::new());
    assert_eq!(req.headers().get("host"), Some("x.example"));
    assert_eq!(req.headers().get("user-agent"), Some("me"));
    let cfg = Config::default();
    assert!(cfg.decompress);
    assert_eq!(cfg.timeout_ms, 30000);
    assert_eq!(cfg.max_redirect_num, 8);
}

fn response(status: u16, headers: &[(&str, &str)]) -> Response {
    let mut map = HeaderMap::new();
    for (k, v) in headers {
        map.set(k, v);
    }
    Response { status, headers: map, extensions: Extensions::new() }
}

#[test]
fn status_classes() {
    let r = response(503, &[]);
    assert!(r.is_internal_error());
    assert!(!r.is_client_error());
    assert!(r.is_error());
    let r = response(404, &[]);
    assert!(r.is_client_error());
    assert!(!r.is_internal_error());
    assert!(response(101, &[]).is_upgrade());
    assert!(response(101, &[]).is_info());
    assert!(response(204, &[]).is_success());
    assert!(response(308, &[]).is_redirect());
}

#[test]
fn typed_header_accessors() {
    let r = response(200, &[("Content-Length", "1234"), ("Content-Encoding", "gzip"), ("ETag", "\"t\""), ("Content-Disposition", "inline")]);
    assert_eq!(r.content_len(), Some(1234));
    assert_eq!(r.content_encoding(), ContentEncoding::Gzip);
    assert_eq!(r.etag(), Some("\"t\""));
    assert!(r.last_modified().is_none());
    assert!(matches!(r.content_disposition(), Some(Ok(_))));
    assert_eq!(response(200, &[]).content_encoding(), ContentEncoding::Identity);
    assert_eq!(response(200, &[("content-encoding", "br")]).content_encoding(), ContentEncoding::Brotli);
    assert_eq!(response(200, &[("content-encoding", "zstd")]).content_encoding(), ContentEncoding::Identity);
}

#[test]
fn length_parsing() {
    assert_eq!(parse_len("0"), Some(0));
    assert_eq!(parse_len("+17"), Some(17));
    assert_eq!(parse_len(""), None);
    assert_eq!(parse_len("+"), None);
    assert_eq!(parse_len("1x"), None);
    assert_eq!(parse_len("-1"), None);
    assert_eq!(parse_len("18446744073709551615"), Some(usize::MAX));
    assert_eq!(parse_len("18446744073709551616"), None);
}

#[test]
fn content_encoding_predicates() {
    assert!(!ContentEncoding::Identity.is_compression());
    assert!(ContentEncoding::Brotli.is_compression());
    assert!(ContentEncoding::Gzip.can_decompress());
    assert!(ContentEncoding::Deflate.can_decompress());
    assert!(!ContentEncoding::Brotli.can_decompress());
    assert_eq!(ContentEncoding::Brotli.as_str(), "br");
    assert_eq!(ContentEncoding::Identity.as_str(), "identity");
}

#[test]
fn websocket_challenge_value() {
    // Sample handshake of RFC 6455, section 1.3.
    assert_eq!(challenge("dGhlIHNhbXBsZSBub25jZQ=="), "s3pPLMBiTxaQ9kYGzzhZRbK+xOo=");
}

#[test]
fn websocket_prepare_and_verify() {
    let b = Request::get("http://echo.example/").expect("To create request");
    let req = WebsocketUpgrade::prepare_request_with_key(b, *b"the sample nonce", Some(WebsocketUpgradeOpts { protocols: "chat" }));
    assert_eq!(req.headers().get("sec-websocket-key"), Some("dGhlIHNhbXBsZSBub25jZQ=="));
    assert_eq!(req.headers().get("sec-websocket-version"), Some("13"));
    assert_eq!(req.headers().get("upgrade"), Some("websocket"));
    assert_eq!(req.headers().get("connection"), Some("Upgrade"));
    assert_eq!(req.headers().get("sec-websocket-protocol"), Some("chat"));
    assert_eq!(req.extensions().websocket_key.as_deref(), Some("dGhlIHNhbXBsZSBub25jZQ=="));

    let ok = response(101, &[("Upgrade", "WebSocket"), ("Connection", "upgrade"), ("Sec-WebSocket-Accept", "s3pPLMBiTxaQ9kYGzzhZRbK+xOo=")]);
    assert_eq!(WebsocketUpgrade::verify_response(ok.status, &ok.headers, req.extensions()), Ok(()));

    let bad = response(200, &[]);
    assert_eq!(WebsocketUpgrade::verify_response(bad.status, &bad.headers, req.extensions()), Err(WebsocketUpgradeError::InvalidStatus(200)));
    let bad = response(101, &[("Upgrade", "h2c")]);
    assert_eq!(WebsocketUpgrade::verify_response(bad.status, &bad.headers, req.extensions()), Err(WebsocketUpgradeError::InvalidUpgradeType));
    let bad = response(101, &[("Upgrade", "websocket"), ("Connection", "close")]);
    assert_eq!(WebsocketUpgrade::verify_response(bad.status, &bad.headers, req.extensions()), Err(WebsocketUpgradeError::InvalidConnectionHeader));
    let bad = response(101, &[("Upgrade", "websocket"), ("Connection", "Upgrade")]);
    assert_eq!(WebsocketUpgrade::verify_response(bad.status, &bad.headers, req.extensions()), Err(WebsocketUpgradeError::MissingChallenge));
    let bad = response(101, &[("Upgrade", "websocket"), ("Connection", "Upgrade"), ("Sec-WebSocket-Accept", "nope")]);
    assert_eq!(WebsocketUpgrade::verify_response(bad.status, &bad.headers, req.extensions()), Err(WebsocketUpgradeError::InvalidChallenge));
}

#[test]
fn websocket_random_key() {
    let b = Request::get("http://echo.example/").expect("To create request");
    let req = WebsocketUpgrade::prepare_request(b, None);
    let key = req.headers().get("sec-websocket-key").expect("To have key");
    assert_eq!(key.len(), 24);
    assert_eq!(req.extensions().websocket_key.as_deref(), Some(key));
    assert!(!req.headers().contains_key("sec-websocket-protocol"));
}

#[test]
fn connect_target_ports() {
    let b = Request::get("https://secure.example/x").expect("To create request");
    assert_eq!(connect_target(&b.uri), Ok(("secure.example".to_string(), 443)));
    let b = Request::get("http://plain.example/x").expect("To create request");
    assert_eq!(connect_target(&b.uri), Ok(("plain.example".to_string(), 80)));
    let b = Request::get("http://plain.example:8080/x").expect("To create request");
    assert_eq!(connect_target(&b.uri), Ok(("plain.example".to_string(), 8080)));
    let b = Request::get("/only/path").expect("To create request");
    assert_eq!(connect_target(&b.uri), Err(ConnectError::NoHost));
}

#[test]
fn disposition_round_trips() {
    let d = ContentDisposition::FormData(Some("field name".to_string()), Filename::with_name("my file.txt".to_string()));
    let text = d.to_string();
    assert_eq!(text, "form-data; name=\"field name\"; filename=\"my file.txt\"");
    match ContentDisposition::from_str(&text).expect("To parse") {
        ContentDisposition::FormData(Some(n), Filename::Name(Some(f))) => {
            assert_eq!(n, "field name");
            assert_eq!(f, "my file.txt");
        },
        _ => panic!("Invalid Content Disposition"),
    }
    let d = ContentDisposition::Attachment(Filename::with_name("a b".to_string()));
    match ContentDisposition::from_str(&d.to_string()).expect("To parse") {
        ContentDisposition::Attachment(Filename::Name(Some(f))) => assert_eq!(f, "a b"),
        _ => panic!("Invalid Content Disposition"),
    }
}

#[test]
fn wellformedness_checks() {
    let b = Request::get("http://x.example/").expect("To create request").set_header("a", "1").add_cookie("c".to_string(), "1".to_string());
    assert!(b.is_wf());
    let req = b.empty();
    assert!(req.is_wf());
    assert!(req.headers().is_wf());
}

#[test]
fn app_headers_contract_values() {
    let mut req = Request::get("http://x.example/").expect("To create request").set_header("Range", "bytes=0-1").empty();
    apply_headers(&mut req, &Config::new());
    assert_eq!(req.headers().get("accept-encoding"), Some("gzip, deflate"));
    assert_eq!(req.headers().get("range"), Some("bytes=0-1"));
    assert_eq!(req.headers().get("host"), Some("x.example"));
}
