//! The head of a response: status classes and typed header accessors.

use vstd::prelude::*;
use crate::content_disposition::{ContentDisposition, ParseError, parse_disposition, parsed_view};
use crate::content_encoding::{ContentEncoding, encoding_of};
use crate::headers::HeaderMap;
use crate::request::Extensions;
use crate::text::chars_of;

verus! {

/// Status and headers of a response, with the extensions carried from its request.
#[derive(Debug)]
pub struct Response {
    pub status: u16,
    pub headers: HeaderMap,
    pub extensions: Extensions,
}

/// Value of an ASCII decimal digit.
pub open spec fn digit_value(c: char) -> nat {
    (c as u32 - 48) as nat
}

/// Value of a text of decimal digits.
pub open spec fn digits_value(s: Seq<char>) -> nat
    decreases s.len(),
{
    if s.len() == 0 {
        0
    } else {
        digits_value(s.drop_last()) * 10 + digit_value(s.last())
    }
}

/// Whether every character is an ASCII decimal digit.
pub open spec fn all_digits(d: Seq<char>) -> bool {
    forall|i: int| 0 <= i < d.len() ==> '0' <= #[trigger] d[i] && d[i] <= '9'
}

/// The text without a leading `+`.
pub open spec fn unsigned_part(s: Seq<char>) -> Seq<char> {
    if s.len() > 0 && s[0] == '+' {
        s.drop_first()
    } else {
        s
    }
}

/// What `usize`'s `FromStr` gives: an optional `+`, then one or more decimal
/// digits whose value fits.
pub open spec fn parse_usize(s: Seq<char>) -> Option<usize> {
    let d = unsigned_part(s);
    if d.len() > 0 && all_digits(d) && digits_value(d) <= usize::MAX {
        Some(digits_value(d) as usize)
    } else {
        None
    }
}

proof fn lemma_digits_mono(d: Seq<char>, j: int)
    requires
        0 <= j <= d.len(),
    ensures
        digits_value(d.subrange(0, j)) <= digits_value(d),
    decreases d.len() - j,
{
    if j < d.len() {
        lemma_digits_mono(d, j + 1);
        assert(d.subrange(0, j + 1).drop_last() =~= d.subrange(0, j));
    } else {
        assert(d.subrange(0, j) =~= d);
    }
}

/// Parses a decimal length as `usize`'s `FromStr` does.
pub fn parse_len(text: &str) -> (r: Option<usize>)
    ensures
        r == parse_usize(text@),
{
    let s = chars_of(text);
    let start: usize = if s.len() > 0 && s[0] == '+' {
        1
    } else {
        0
    };
    let ghost d = unsigned_part(s@);
    assert(unsigned_part(text@) == d);
    proof {
        if start == 1 {
            assert(d =~= s@.subrange(1, s@.len() as int));
        } else {
            assert(d =~= s@.subrange(0, s@.len() as int));
        }
    }
    if start == s.len() {
        return None;
    }
    let mut value: usize = 0;
    let mut i = start;
    while i < s.len()
        invariant
            start <= i <= s@.len(),
            d == s@.subrange(start as int, s@.len() as int),
            d == unsigned_part(text@),
            forall|k: int| 0 <= k < i - start ==> '0' <= #[trigger] d[k] && d[k] <= '9',
            value == digits_value(d.subrange(0, i - start)),
        decreases s@.len() - i,
    {
        let c = s[i];
        proof {
            assert(d[i - start] == c);
        }
        if !('0' <= c && c <= '9') {
            proof {
                assert(!all_digits(d));
                assert(!all_digits(unsigned_part(text@)));
            }
            return None;
        }
        let dv = (c as u32 - 48) as usize;
        proof {
            assert(d.subrange(0, i - start + 1).drop_last() =~= d.subrange(0, i - start));
        }
        if value > (usize::MAX - dv) / 10 {
            proof {
                assert(digits_value(d.subrange(0, i - start + 1)) == value * 10 + dv);
                assert(value * 10 + dv > usize::MAX) by (nonlinear_arith)
                    requires
                        value > (usize::MAX - dv) / 10,
                        dv <= 9,
                ;
                lemma_digits_mono(d, i - start + 1);
                assert(digit_value(c) == dv);
                assert(digits_value(d) > usize::MAX);
                assert(parse_usize(text@) is None);
            }
            return None;
        }
        proof {
            assert(value * 10 + dv <= usize::MAX) by (nonlinear_arith)
                requires
                    value <= (usize::MAX - dv) / 10,
                    dv <= 9,
            ;
        }
        value = value * 10 + dv;
        i = i + 1;
    }
    proof {
        assert(d.subrange(0, d.len() as int) =~= d);
    }
    Some(value)
}

impl ContentEncoding {
    /// The encoding that a header value names; unknown values mean identity.
    pub fn from_name(text: &str) -> (r: ContentEncoding)
        ensures
            r == encoding_of(text@),
    {
        let s = chars_of(text);
        let br = vec!['b', 'r'];
        let gzip = vec!['g', 'z', 'i', 'p'];
        let deflate = vec!['d', 'e', 'f', 'l', 'a', 't', 'e'];
        if crate::headers::eq_chars(&s, &br) {
            ContentEncoding::Brotli
        } else if crate::headers::eq_chars(&s, &gzip) {
            ContentEncoding::Gzip
        } else if crate::headers::eq_chars(&s, &deflate) {
            ContentEncoding::Deflate
        } else {
            ContentEncoding::Identity
        }
    }
}

impl Response {
    /// Status 100 to 199.
    pub fn is_info(&self) -> (r: bool)
        ensures
            r == (100 <= self.status <= 199),
    {
        100 <= self.status && self.status <= 199
    }

    /// Status 200 to 299.
    pub fn is_success(&self) -> (r: bool)
        ensures
            r == (200 <= self.status <= 299),
    {
        200 <= self.status && self.status <= 299
    }

    /// Status 300 to 399.
    pub fn is_redirect(&self) -> (r: bool)
        ensures
            r == (300 <= self.status <= 399),
    {
        300 <= self.status && self.status <= 399
    }

    /// Status 400 to 499.
    pub fn is_client_error(&self) -> (r: bool)
        ensures
            r == (400 <= self.status <= 499),
    {
        400 <= self.status && self.status <= 499
    }

    /// Status 500 to 599.
    pub fn is_internal_error(&self) -> (r: bool)
        ensures
            r == (500 <= self.status <= 599),
    {
        500 <= self.status && self.status <= 599
    }

    /// Status 400 to 599.
    pub fn is_error(&self) -> (r: bool)
        ensures
            r == (400 <= self.status <= 599),
    {
        self.is_client_error() || self.is_internal_error()
    }

    /// Status 101, switching protocols.
    pub fn is_upgrade(&self) -> (r: bool)
        ensures
            r == (self.status == 101),
    {
        self.status == 101
    }

    /// `Content-Length`, when present and a valid length.
    pub fn content_len(&self) -> (r: Option<usize>)
        requires
            self.headers.wf(),
        ensures
            r == match self.headers.get_spec("content-length"@) {
                Some(v) => parse_usize(v),
                None => None,
            },
    {
        match self.headers.get("content-length") {
            Some(v) => parse_len(v),
            None => None,
        }
    }

    /// `Content-Encoding`; identity when absent.
    pub fn content_encoding(&self) -> (r: ContentEncoding)
        requires
            self.headers.wf(),
        ensures
            r == match self.headers.get_spec("content-encoding"@) {
                Some(v) => encoding_of(v),
                None => ContentEncoding::Identity,
            },
    {
        match self.headers.get("content-encoding") {
            Some(v) => ContentEncoding::from_name(v),
            None => ContentEncoding::Identity,
        }
    }

    /// `Content-Disposition`, parsed, when present.
    pub fn content_disposition(&self) -> (r: Option<Result<ContentDisposition, ParseError>>)
        requires
            self.headers.wf(),
        ensures
            match self.headers.get_spec("content-disposition"@) {
                Some(v) => r matches Some(p) && parsed_view(p) == parse_disposition(v),
                None => r is None,
            },
    {
        match self.headers.get("content-disposition") {
            Some(v) => Some(ContentDisposition::from_str(v)),
            None => None,
        }
    }

    /// `ETag`, as written.
    pub fn etag(&self) -> (r: Option<&str>)
        requires
            self.headers.wf(),
        ensures
            match r {
                Some(v) => self.headers.get_spec("etag"@) == Some(v@),
                None => self.headers.get_spec("etag"@) is None,
            },
    {
        self.headers.get("etag")
    }

    /// `Last-Modified`, as written.
    pub fn last_modified(&self) -> (r: Option<&str>)
        requires
            self.headers.wf(),
        ensures
            match r {
                Some(v) => self.headers.get_spec("last-modified"@) == Some(v@),
                None => self.headers.get_spec("last-modified"@) is None,
            },
    {
        self.headers.get("last-modified")
    }
}

} // verus!
