//! Character sets of text bodies, as `Content-Type` names them.

use vstd::prelude::*;
use crate::body::BodyReadError;
use crate::content_disposition::opt_view;
use crate::response::Response;

verus! {

/// The `charset` parameter of a `Content-Type` value as the `mime` crate parses
/// it; `None` when the value is no MIME type.
pub uninterp spec fn charset_param(content_type: Seq<char>) -> Option<Option<Seq<char>>>;

/// View of a parsed `charset` parameter.
pub open spec fn param_view(r: Option<Option<String>>) -> Option<Option<Seq<char>>> {
    match r {
        Some(p) => Some(opt_view(p)),
        None => None,
    }
}

/// Relies on `mime::Mime`'s `FromStr` and on `Mime::get_param(mime::CHARSET)`.
#[verifier::external_body]
fn parse_charset(content_type: &str) -> (r: Option<Option<String>>)
    ensures
        param_view(r) == charset_param(content_type@),
{
    match content_type.parse::<mime::Mime>() {
        Ok(m) => Some(m.get_param(mime::CHARSET).map(|c| String::from(c.as_str()))),
        Err(_) => None,
    }
}

#[verifier::external_type_specification]
#[verifier::external_body]
pub struct ExMime(mime::Mime);

/// Relies on `mime::Mime`'s `FromStr`, the same parse that `charset_param`
/// names: it succeeds exactly when the value is a MIME type.
#[verifier::external_body]
fn parse_mime(content_type: &str) -> (r: Option<mime::Mime>)
    ensures
        r is Some == charset_param(content_type@) is Some,
{
    content_type.parse::<mime::Mime>().ok()
}

/// Name of the encoding that `encoding_rs` finds for a label; `None` when no
/// encoding has that label.
pub uninterp spec fn label_encoding_name(label: Seq<char>) -> Option<Seq<char>>;

/// Relies on `encoding_rs::Encoding::for_label` and `Encoding::name`: the name
/// of the encoding that a label names, if any.
#[verifier::external_body]
fn encoding_name_for(label: &str) -> (r: Option<String>)
    ensures
        opt_view(r) == label_encoding_name(label@),
{
    encoding_rs::Encoding::for_label(label.as_bytes()).map(|e| String::from(e.name()))
}

/// Text that `encoding_rs` decodes from `bytes` in the encoding that `label`
/// names: `None` when no encoding has that label, `Some(None)` when malformed
/// sequences had to be replaced.
pub uninterp spec fn labelled_text(label: Seq<char>, bytes: Seq<u8>) -> Option<Option<Seq<char>>>;

/// Relies on `encoding_rs::Encoding::for_label` and `Encoding::decode`, whose
/// result depends on the encoding and the bytes alone.
#[verifier::external_body]
fn decode_labelled(label: &str, bytes: &[u8]) -> (r: Option<Option<String>>)
    ensures
        param_view(r) == labelled_text(label@, bytes@),
{
    match encoding_rs::Encoding::for_label(label.as_bytes()) {
        Some(encoding) => {
            let (text, _, had_errors) = encoding.decode(bytes);
            Some(if had_errors {
                None
            } else {
                Some(text.into_owned())
            })
        },
        None => None,
    }
}

/// The body text from what the decoder gave: the text, or `EncodingError`.
pub fn text_from_decoded(decoded: Option<String>) -> (r: Result<String, BodyReadError>)
    ensures
        match decoded {
            Some(t) => r matches Ok(s) && s@ == t@,
            None => r matches Err(BodyReadError::EncodingError),
        },
{
    match decoded {
        Some(t) => Ok(t),
        None => Err(BodyReadError::EncodingError),
    }
}

/// Why a `Content-Type` gives no character set.
#[derive(Clone, Copy, Debug, PartialEq, Eq, Structural)]
pub enum ContentTypeError {
    /// The value is no MIME type.
    Mime,
    /// The `charset` names no known encoding.
    UnknownEncoding,
}

/// The `charset` parameter of a `Content-Type` value: `Ok(None)` without one,
/// `Err(Mime)` when the value is no MIME type.
pub fn charset_label(content_type: &str) -> (r: Result<Option<String>, ContentTypeError>)
    ensures
        match charset_param(content_type@) {
            None => r == Err::<Option<String>, ContentTypeError>(ContentTypeError::Mime),
            Some(p) => r matches Ok(l) && opt_view(l) == p,
        },
{
    match parse_charset(content_type) {
        Some(p) => Ok(p),
        None => Err(ContentTypeError::Mime),
    }
}

/// The body as text in the encoding that `encoding` names (a label, such as
/// an encoding's name); `EncodingError` when no encoding has that label or the
/// body is malformed in it.
pub fn text_charset(bytes: &[u8], encoding: &str) -> (r: Result<String, BodyReadError>)
    ensures
        match labelled_text(encoding@, bytes@) {
            Some(Some(t)) => r matches Ok(s) && s@ == t,
            _ => r matches Err(BodyReadError::EncodingError),
        },
{
    match decode_labelled(encoding, bytes) {
        Some(decoded) => text_from_decoded(decoded),
        None => Err(BodyReadError::EncodingError),
    }
}

/// Name of the default encoding.
pub open spec fn utf_8_name() -> Seq<char> {
    "UTF-8"@
}

impl Response {
    /// `Content-Type` as a MIME type, when present; `Err(Mime)` when it is
    /// no MIME type.
    pub fn mime(&self) -> (r: Result<Option<mime::Mime>, ContentTypeError>)
        requires
            self.headers.wf(),
        ensures
            match self.headers.get_spec("content-type"@) {
                None => r matches Ok(None),
                Some(ct) => if charset_param(ct) is Some {
                    r matches Ok(Some(_))
                } else {
                    r matches Err(ContentTypeError::Mime)
                },
            },
    {
        match self.headers.get("content-type") {
            None => Ok(None),
            Some(ct) => match parse_mime(ct) {
                Some(m) => Ok(Some(m)),
                None => Err(ContentTypeError::Mime),
            },
        }
    }

    /// Name of the encoding that `Content-Type` names by its `charset`;
    /// `UTF-8` when there is no header or no `charset`.
    pub fn charset_encoding(&self) -> (r: Result<String, ContentTypeError>)
        requires
            self.headers.wf(),
        ensures
            match self.headers.get_spec("content-type"@) {
                None => r matches Ok(n) && n@ == utf_8_name(),
                Some(ct) => match charset_param(ct) {
                    None => r matches Err(ContentTypeError::Mime),
                    Some(None) => r matches Ok(n) && n@ == utf_8_name(),
                    Some(Some(l)) => match label_encoding_name(l) {
                        Some(name) => r matches Ok(n) && n@ == name,
                        None => r matches Err(ContentTypeError::UnknownEncoding),
                    },
                },
            },
    {
        let ct = match self.headers.get("content-type") {
            Some(ct) => ct,
            None => return Ok(String::from_str("UTF-8")),
        };
        match charset_label(ct) {
            Err(e) => Err(e),
            Ok(None) => Ok(String::from_str("UTF-8")),
            Ok(Some(label)) => match encoding_name_for(label.as_str()) {
                Some(name) => Ok(name),
                None => Err(ContentTypeError::UnknownEncoding),
            },
        }
    }
}

} // verus!
