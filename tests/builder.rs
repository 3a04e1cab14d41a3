use yukikaze::content_disposition::{ContentDisposition, Filename};
use yukikaze::content_encoding::ContentEncoding;
use yukikaze::multipart::Form;
use yukikaze::request::{Method, Request};
use yukikaze::tags::{IfMatch, IfNoneMatch, IfModifiedSince};

const URL: &'static str = "http://google.com";

#[test]
fn builder_empty_body() {
    let req = Request::get(URL).expect("To create request").empty();
    assert!(!req.headers().contains_key("content-length"));

    let req = Request::post(URL).expect("To create request").empty();
    let len = req.headers().get("content-length").expect("To have len in empty POST");
    assert_eq!(len, "0");

    let req = Request::put(URL).expect("To create request").empty();
    let len = req.headers().get("content-length").expect("To have len in empty PUT");
    assert_eq!(len, "0");

    let req = Request::delete(URL).expect("To create request").empty();
    assert!(!req.headers().contains_key("content-length"));
}

#[test]
fn builder_no_override_len() {
    let req = Request::post(URL).expect("To create request").content_len(25).empty();
    let len = req.headers().get("content-length").expect("To have len in empty POST");
    assert_eq!(len, "25");

    let req = Request::put(URL).expect("To create request").content_len(25).empty();
    let len = req.headers().get("content-length").expect("To have len in empty POST");
    assert_eq!(len, "25");

    let req = Request::post(URL).expect("To create request").content_len(25).body(Some(b"Lolka".to_vec()));
    let len = req.headers().get("content-length").expect("To have len in empty POST");
    assert_eq!(len, "25");
}

#[test]
fn builder_empty_body_remove_len() {
    let req = Request::get(URL).expect("To create request").content_len(25).empty();
    assert!(!req.headers().contains_key("content-length"));

    let req = Request::delete(URL).expect("To create request").content_len(25).empty();
    assert!(!req.headers().contains_key("content-length"));
}

#[test]
fn builder_add_len() {
    let req = Request::post(URL).expect("To create request").body(Some(b"Lolka".to_vec()));
    let len = req.headers().get("content-length").expect("To have len in empty POST");
    assert_eq!(len, "5");
}

#[test]
fn basic_auth_header() {
    let req = Request::get("https://example.test").expect("To create request").basic_auth("Lolka", Some("Pass")).empty();
    assert_eq!(req.headers().get("Authorization"), Some("Basic TG9sa2E6UGFzcw=="));

    let req = Request::get("https://example.test").expect("To create request").basic_auth("Lolka", None).empty();
    assert_eq!(req.headers().get("authorization"), Some("Basic TG9sa2E6"));
}

#[test]
fn bearer_auth_header() {
    let req = Request::get("https://example.test").expect("To create request").bearer_auth("tok.en").empty();
    assert_eq!(req.headers().get("authorization"), Some("Bearer tok.en"));
}

#[test]
fn post_empty_has_zero_len() {
    let req = Request::post("https://x").expect("To create request").empty();
    assert_eq!(req.headers().get("content-length"), Some("0"));
    assert_eq!(req.method(), Method::Post);
}

#[test]
fn put_keeps_caller_len() {
    let req = Request::put("https://x").expect("To create request").content_len(25).empty();
    assert_eq!(req.headers().get("content-length"), Some("25"));
}

#[test]
fn invalid_uri_is_rejected() {
    assert!(Request::get("http://exa mple.com/").is_err());
    assert!(Request::get("").is_err());
}

#[test]
fn uri_parts_and_query() {
    let b = Request::get("https://example.test:8443/a/b?x=1").expect("To create request");
    assert_eq!(b.uri.scheme.as_deref(), Some("https"));
    assert_eq!(b.uri.host.as_deref(), Some("example.test"));
    assert_eq!(b.uri.port, Some(8443));
    assert_eq!(b.uri.path, "/a/b");
    assert_eq!(b.uri.query.as_deref(), Some("x=1"));
    let b = b.set_query("y=2&z=3");
    assert_eq!(b.uri.path, "/a/b");
    assert_eq!(b.uri.to_string(), "https://example.test:8443/a/b?y=2&z=3");
}

#[test]
fn set_header_replaces_and_if_none_keeps() {
    let req = Request::get(URL)
        .expect("To create request")
        .set_header("X-Test", "one")
        .set_header("x-test", "two")
        .set_header_if_none("X-TEST", "three")
        .set_header_if_none("x-other", "four")
        .empty();
    assert_eq!(req.headers().get("x-test"), Some("two"));
    assert_eq!(req.headers().get("X-Other"), Some("four"));
    assert_eq!(req.headers().len(), 2);
}

#[test]
fn cookies_are_joined_and_encoded() {
    let req = Request::get(URL)
        .expect("To create request")
        .add_cookie("a".to_string(), "1".to_string())
        .add_cookie("b c".to_string(), "x;y".to_string())
        .add_cookie("a".to_string(), "2".to_string())
        .empty();
    assert_eq!(req.headers().get("cookie"), Some("b%20c=x%3By; a=2"));
}

#[test]
fn cookie_jar_is_merged() {
    let jar = vec![("k".to_string(), "v".to_string()), ("n".to_string(), "m".to_string())];
    let req = Request::get(URL)
        .expect("To create request")
        .add_cookie("k".to_string(), "old".to_string())
        .set_cookie_jar(jar)
        .empty();
    assert_eq!(req.headers().get("cookie"), Some("k=v; n=m"));
}

#[test]
fn etag_is_appended() {
    let req = Request::get(URL)
        .expect("To create request")
        .set_etag("\"abc\"", IfNoneMatch)
        .set_etag("W/\"def\"", IfNoneMatch)
        .set_etag("\"x\"", IfMatch)
        .empty();
    assert_eq!(req.headers().get("if-none-match"), Some("\"abc\", W/\"def\""));
    assert_eq!(req.headers().get("if-match"), Some("\"x\""));
}

#[test]
fn date_is_http_date() {
    let req = Request::get(URL).expect("To create request").set_date(784111777, IfModifiedSince).empty();
    assert_eq!(req.headers().get("if-modified-since"), Some("Sun, 06 Nov 1994 08:49:37 GMT"));
}

#[test]
fn accept_encoding_and_disposition() {
    let disp = ContentDisposition::Attachment(Filename::with_name("a.txt".to_string()));
    let req = Request::get(URL)
        .expect("To create request")
        .accept_encoding(ContentEncoding::Gzip)
        .content_disposition(&disp)
        .empty();
    assert_eq!(req.headers().get("accept-encoding"), Some("gzip"));
    assert_eq!(req.headers().get("content-disposition"), Some("attachment; filename=\"a.txt\""));
}

#[test]
fn form_and_json_bodies() {
    let req = Request::post(URL).expect("To create request").form_text("a=1&b=2".to_string());
    assert_eq!(req.headers().get("content-type"), Some("application/x-www-form-urlencoded"));
    assert_eq!(req.headers().get("content-length"), Some("7"));
    assert_eq!(req.body().map(|b| b.as_slice()), Some(&b"a=1&b=2"[..]));

    let req = Request::post(URL)
        .expect("To create request")
        .set_header("content-type", "application/vnd+json")
        .json_text("{\"a\":1}".to_string());
    assert_eq!(req.headers().get("content-type"), Some("application/vnd+json"));
    assert_eq!(req.headers().get("content-length"), Some("7"));
}

#[test]
fn multipart_body_sets_type() {
    let mut form = Form::new();
    form.add_field("f".to_string(), b"v");
    let req = Request::post(URL).expect("To create request").multipart(form);
    assert_eq!(req.headers().get("content-type"), Some("multipart/form-data; boundary=yuki"));
    let body = req.body().expect("To have body");
    assert_eq!(body.as_slice(), &b"--yuki\r\nContent-Disposition: form-data; name=\"f\"\r\n\r\nv\r\n--yuki--\r\n"[..]);
    assert_eq!(req.headers().get("content-length"), Some(body.len().to_string().as_str()));
}

#[test]
fn decimal_text_values() {
    assert_eq!(yukikaze::request::decimal_text(0), "0");
    assert_eq!(yukikaze::request::decimal_text(7), "7");
    assert_eq!(yukikaze::request::decimal_text(1234567890), "1234567890");
    assert_eq!(yukikaze::request::decimal_text(u64::MAX), "18446744073709551615");
}

#[test]
fn if_some_applies_callback() {
    let b = Request::get(URL).expect("To create request");
    let b = b.if_some(Some("v"), |v, b| b.set_header("x-v", v));
    let b = b.if_some(None::<&str>, |v, b| b.set_header("x-w", v));
    let req = b.empty();
    assert_eq!(req.headers().get("x-v"), Some("v"));
    assert!(!req.headers().contains_key("x-w"));
}
