use yukikaze::body::BodyReadError;
use yukikaze::charset::{charset_label, text_charset, ContentTypeError};
use yukikaze::headers::HeaderMap;
use yukikaze::request::Extensions;
use yukikaze::response::Response;

fn with_type(ct: Option<&str>) -> Response {
    let mut headers = HeaderMap::new();
    if let Some(ct) = ct {
        headers.set("Content-Type", ct);
    }
    Response { status: 200, headers, extensions: Extensions::new() }
}

#[test]
fn charset_from_content_type() {
    let enc = with_type(Some("text/html; charset=shift_jis")).charset_encoding().expect("known charset");
    assert_eq!(enc, "Shift_JIS");
    let enc = with_type(Some("text/plain")).charset_encoding().expect("default charset");
    assert_eq!(enc, "UTF-8");
    let enc = with_type(None).charset_encoding().expect("default charset");
    assert_eq!(enc, "UTF-8");
    assert_eq!(with_type(Some("text/plain; charset=bogus")).charset_encoding().err(), Some(ContentTypeError::UnknownEncoding));
    assert_eq!(with_type(Some("nonsense")).charset_encoding().err(), Some(ContentTypeError::Mime));
}

#[test]
fn charset_label_values() {
    assert_eq!(charset_label("text/html; charset=utf-8"), Ok(Some("utf-8".to_string())));
    assert_eq!(charset_label("text/html"), Ok(None));
    assert_eq!(charset_label("no mime"), Err(ContentTypeError::Mime));
}

#[test]
fn decode_non_utf8_text() {
    let enc = with_type(Some("text/html; charset=shift_jis")).charset_encoding().expect("known charset");
    // "日本" in Shift_JIS.
    let text = text_charset(&[0x93, 0xfa, 0x96, 0x7b], &enc).expect("valid Shift_JIS");
    assert_eq!(text, "日本");
    let utf8 = with_type(None).charset_encoding().expect("default charset");
    assert!(matches!(text_charset(&[0xff, 0xfe, 0x41], &utf8), Err(BodyReadError::EncodingError)));
}

#[test]
fn utf8_text_of_body() {
    assert_eq!(yukikaze::body::text_of(b"hello".to_vec()).expect("utf-8"), "hello");
    assert!(matches!(yukikaze::body::text_of(vec![0xc3]), Err(BodyReadError::EncodingError)));
}

#[test]
fn unknown_label_gives_encoding_error() {
    assert!(matches!(text_charset(b"abc", "no-such-charset"), Err(BodyReadError::EncodingError)));
    assert_eq!(text_charset(b"abc", "latin1").expect("known label"), "abc");
}

#[test]
fn mime_of_response() {
    let m = with_type(Some("text/html; charset=utf-8")).mime().expect("valid").expect("present");
    assert_eq!(m.essence_str(), "text/html");
    assert!(with_type(None).mime().expect("absent").is_none());
    assert_eq!(with_type(Some("nonsense")).mime().err(), Some(ContentTypeError::Mime));
}
