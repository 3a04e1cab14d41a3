//! Requests and their builder.

use vstd::prelude::*;
use vstd::string::StringSliceAdditionalSpecFns;
use vstd::utf8::encode_utf8;
use crate::codec::{base64_encode, base64_of, http_date, http_date_of};
use crate::content_disposition::{ContentDisposition, disposition_text};
use crate::content_encoding::{ContentEncoding, encoding_token};
use crate::headers::{HeaderMap, clone_string, lookup, lower_seq, unique_names, valid_header_name, valid_header_value, without};
use crate::multipart::{Form, finished};
use crate::percent::{EncodeSet, percent_encode, percent_encode_into};
use crate::text::{chars_of, push_str, string_of};
use crate::uri::{InvalidUri, Uri, UriView, uri_parts, parts_of};

verus! {

/// Request method.
#[derive(Clone, Copy, Debug, PartialEq, Eq, Structural)]
pub enum Method {
    Get,
    Head,
    Post,
    Put,
    Delete,
    Connect,
    Options,
    Trace,
    Patch,
}

/// The name of a method on the wire.
pub open spec fn method_token(m: Method) -> Seq<char> {
    match m {
        Method::Get => "GET"@,
        Method::Head => "HEAD"@,
        Method::Post => "POST"@,
        Method::Put => "PUT"@,
        Method::Delete => "DELETE"@,
        Method::Connect => "CONNECT"@,
        Method::Options => "OPTIONS"@,
        Method::Trace => "TRACE"@,
        Method::Patch => "PATCH"@,
    }
}

impl Method {
    /// The method's name on the wire.
    pub fn as_str(&self) -> (r: &'static str)
        ensures
            r@ == method_token(*self),
    {
        match self {
            Method::Get => "GET",
            Method::Head => "HEAD",
            Method::Post => "POST",
            Method::Put => "PUT",
            Method::Delete => "DELETE",
            Method::Connect => "CONNECT",
            Method::Options => "OPTIONS",
            Method::Trace => "TRACE",
            Method::Patch => "PATCH",
        }
    }
}

/// Out-of-band data carried with a request to its response.
#[derive(Debug)]
pub struct Extensions {
    /// The `Sec-WebSocket-Key` sent with a Websocket upgrade.
    pub websocket_key: Option<String>,
}

impl Extensions {
    /// No data.
    pub fn new() -> (r: Self)
        ensures
            r.websocket_key is None,
    {
        Extensions { websocket_key: None }
    }
}

/// A finished request.
#[derive(Debug)]
pub struct Request {
    pub method: Method,
    pub uri: Uri,
    pub headers: HeaderMap,
    pub body: Option<Vec<u8>>,
    pub extensions: Extensions,
}

/// Cookies to be sent, as name and value, each name once.
pub type CookieList = Vec<(String, String)>;

/// View of a cookie list.
pub open spec fn cookies_view(c: CookieList) -> Seq<(Seq<char>, Seq<char>)> {
    crate::headers::pairs_view(c@)
}

/// Request builder.
#[derive(Debug)]
pub struct Builder {
    pub method: Method,
    pub uri: Uri,
    pub headers: HeaderMap,
    pub cookies: Option<CookieList>,
    pub extensions: Extensions,
}

pub open spec fn content_length_name() -> Seq<char> {
    "content-length"@
}

pub open spec fn content_type_name() -> Seq<char> {
    "content-type"@
}

pub open spec fn cookie_name() -> Seq<char> {
    "cookie"@
}

pub open spec fn authorization_name() -> Seq<char> {
    "authorization"@
}

/// Decimal digit of `d < 10`.
pub open spec fn digit(d: nat) -> char {
    ((d + 48) as u8) as char
}

/// Decimal text of a number.
pub open spec fn decimal(n: nat) -> Seq<char>
    decreases n,
{
    if n < 10 {
        seq![digit(n)]
    } else {
        decimal(n / 10).push(digit(n % 10))
    }
}

/// Decimal text of a number.
pub fn decimal_text(n: u64) -> (r: String)
    ensures
        r@ == decimal(n as nat),
{
    let mut digits: Vec<char> = Vec::new();
    let mut m = n;
    while m >= 10
        invariant
            decimal(n as nat) == decimal(m as nat) + digits@.reverse(),
        decreases m,
    {
        let d = (m % 10) as u8;
        let ghost before = digits@;
        digits.push((d + 48) as char);
        proof {
            assert(decimal(m as nat) == decimal((m / 10) as nat).push(digit((m % 10) as nat)));
            assert(digits@.reverse() =~= seq![digit((m % 10) as nat)] + before.reverse());
            assert(decimal(m as nat) + before.reverse() =~= decimal((m / 10) as nat)
                + digits@.reverse());
        }
        m = m / 10;
    }
    let mut out: Vec<char> = Vec::new();
    out.push(((m as u8) + 48) as char);
    let mut i = digits.len();
    while i > 0
        invariant
            i <= digits@.len(),
            out@ + digits@.subrange(0, i as int).reverse() == decimal(n as nat),
        decreases i,
    {
        let ghost before = out@;
        out.push(digits[i - 1]);
        proof {
            assert(digits@.subrange(0, i as int).reverse() =~= seq![digits@[i - 1]]
                + digits@.subrange(0, i - 1).reverse());
            assert(out@ + digits@.subrange(0, i - 1).reverse() =~= before + digits@.subrange(
                0,
                i as int,
            ).reverse());
        }
        i = i - 1;
    }
    proof {
        assert(decimal(m as nat) =~= seq![digit(m as nat)]);
        assert(out@ =~= decimal(n as nat));
    }
    string_of(out.as_slice())
}

/// View of an optional cookie list; none is an empty one.
pub open spec fn cookies_or_empty(c: Option<CookieList>) -> Seq<(Seq<char>, Seq<char>)> {
    match c {
        Some(c) => cookies_view(c),
        None => Seq::empty(),
    }
}

/// Cookies `c` with those of `jar` added in order, each replacing an earlier
/// one of the same name.
pub open spec fn merged(c: Seq<(Seq<char>, Seq<char>)>, jar: Seq<(Seq<char>, Seq<char>)>) -> Seq<
    (Seq<char>, Seq<char>),
>
    decreases jar.len(),
{
    if jar.len() == 0 {
        c
    } else {
        without(merged(c, jar.drop_last()), jar.last().0).push(jar.last())
    }
}

/// One cookie as sent: percent-encoded name and value joined by `=`.
pub open spec fn cookie_pair(c: (Seq<char>, Seq<char>)) -> Seq<char> {
    percent_encode(EncodeSet::UserInfo, encode_utf8(c.0)) + "="@ + percent_encode(
        EncodeSet::UserInfo,
        encode_utf8(c.1),
    )
}

/// The `Cookie` header value of a list: pairs joined by `; `.
pub open spec fn cookie_text(c: Seq<(Seq<char>, Seq<char>)>) -> Seq<char>
    decreases c.len(),
{
    if c.len() == 0 {
        Seq::empty()
    } else if c.len() == 1 {
        cookie_pair(c[0])
    } else {
        cookie_text(c.drop_last()) + "; "@ + cookie_pair(c.last())
    }
}

/// The headers once the cookie list is written into them.
pub open spec fn with_cookies(h: Seq<(Seq<char>, Seq<char>)>, cookies: Option<CookieList>) -> Seq<
    (Seq<char>, Seq<char>),
> {
    match cookies {
        Some(c) => if c@.len() > 0 {
            without(h, cookie_name()).push((cookie_name(), cookie_text(cookies_view(c))))
        } else {
            h
        },
        None => h,
    }
}

/// The `Content-Length` that a finished request carries: the caller's own
/// value if set; else `0` for an empty `POST` or `PUT`, the body's length for a
/// body, and none otherwise.
pub open spec fn content_length_of(
    h: Seq<(Seq<char>, Seq<char>)>,
    method: Method,
    body: Option<Seq<u8>>,
) -> Option<Seq<char>> {
    match body {
        None => if method == Method::Post || method == Method::Put {
            match lookup(h, content_length_name()) {
                Some(v) => Some(v),
                None => Some(seq!['0']),
            }
        } else {
            None
        },
        Some(b) => match lookup(h, content_length_name()) {
            Some(v) => Some(v),
            None => Some(decimal(b.len())),
        },
    }
}

/// View of an optional body.
pub open spec fn body_view(b: Option<Vec<u8>>) -> Option<Seq<u8>> {
    match b {
        Some(v) => Some(v@),
        None => None,
    }
}

/// `lower_seq` leaves text without upper-case letters as it is.
pub proof fn lemma_lower_id(s: Seq<char>)
    requires
        forall|i: int| 0 <= i < s.len() ==> !('A' <= #[trigger] s[i] && s[i] <= 'Z'),
    ensures
        lower_seq(s) == s,
{
    assert(lower_seq(s) =~= s);
}

proof fn lemma_names()
    ensures
        lower_seq(content_length_name()) == content_length_name(),
        lower_seq(content_type_name()) == content_type_name(),
        lower_seq(cookie_name()) == cookie_name(),
        lower_seq(authorization_name()) == authorization_name(),
        content_length_name() != cookie_name(),
{
    reveal_strlit("content-length");
    reveal_strlit("content-type");
    reveal_strlit("cookie");
    reveal_strlit("authorization");
    lemma_lower_id(content_length_name());
    lemma_lower_id(content_type_name());
    lemma_lower_id(cookie_name());
    lemma_lower_id(authorization_name());
    assert(content_length_name().len() != cookie_name().len());
}

fn percent_encode_str_into(out: &mut Vec<char>, s: &String)
    ensures
        final(out)@ == old(out)@ + percent_encode(EncodeSet::UserInfo, encode_utf8(s@)),
{
    percent_encode_into(out, s.as_str().as_bytes(), EncodeSet::UserInfo);
}

fn cookie_header(c: &CookieList) -> (r: String)
    ensures
        r@ == cookie_text(cookies_view(*c)),
{
    let mut out: Vec<char> = Vec::new();
    let mut i: usize = 0;
    while i < c.len()
        invariant
            0 <= i <= c@.len(),
            out@ == cookie_text(cookies_view(*c).subrange(0, i as int)),
        decreases c@.len() - i,
    {
        if i > 0 {
            push_str(&mut out, "; ");
        }
        percent_encode_str_into(&mut out, &c[i].0);
        push_str(&mut out, "=");
        percent_encode_str_into(&mut out, &c[i].1);
        proof {
            let t = cookies_view(*c).subrange(0, i + 1);
            assert(t.drop_last() =~= cookies_view(*c).subrange(0, i as int));
            assert(t.last() == (c@[i as int].0@, c@[i as int].1@));
            if i == 0 {
                assert(t.len() == 1);
                assert(cookies_view(*c).subrange(0, 0) =~= Seq::<(Seq<char>, Seq<char>)>::empty());
            }
            assert(out@ =~= cookie_text(t));
        }
        i = i + 1;
    }
    proof {
        assert(cookies_view(*c).subrange(0, c@.len() as int) =~= cookies_view(*c));
    }
    string_of(out.as_slice())
}

impl Request {
    /// Starts a request with the given method; fails when `uri` is no URI.
    pub fn new(method: Method, uri: &str) -> (r: Result<Builder, InvalidUri>)
        ensures
            match r {
                Ok(b) => b.fresh(method) && uri_parts(uri@) == parts_of(Some(b.uri)),
                Err(_) => uri_parts(uri@) is None,
            },
    {
        match Uri::parse(uri) {
            Ok(u) => Ok(Builder::new(u, method)),
            Err(e) => Err(e),
        }
    }

    /// Starts a `HEAD` request.
    pub fn head(uri: &str) -> (r: Result<Builder, InvalidUri>)
        ensures
            match r {
                Ok(b) => b.fresh(Method::Head) && uri_parts(uri@) == parts_of(Some(b.uri)),
                Err(_) => uri_parts(uri@) is None,
            },
    {
        Self::new(Method::Head, uri)
    }

    /// Starts a `GET` request.
    pub fn get(uri: &str) -> (r: Result<Builder, InvalidUri>)
        ensures
            match r {
                Ok(b) => b.fresh(Method::Get) && uri_parts(uri@) == parts_of(Some(b.uri)),
                Err(_) => uri_parts(uri@) is None,
            },
    {
        Self::new(Method::Get, uri)
    }

    /// Starts a `POST` request.
    pub fn post(uri: &str) -> (r: Result<Builder, InvalidUri>)
        ensures
            match r {
                Ok(b) => b.fresh(Method::Post) && uri_parts(uri@) == parts_of(Some(b.uri)),
                Err(_) => uri_parts(uri@) is None,
            },
    {
        Self::new(Method::Post, uri)
    }

    /// Starts a `PUT` request.
    pub fn put(uri: &str) -> (r: Result<Builder, InvalidUri>)
        ensures
            match r {
                Ok(b) => b.fresh(Method::Put) && uri_parts(uri@) == parts_of(Some(b.uri)),
                Err(_) => uri_parts(uri@) is None,
            },
    {
        Self::new(Method::Put, uri)
    }

    /// Starts a `DELETE` request.
    pub fn delete(uri: &str) -> (r: Result<Builder, InvalidUri>)
        ensures
            match r {
                Ok(b) => b.fresh(Method::Delete) && uri_parts(uri@) == parts_of(Some(b.uri)),
                Err(_) => uri_parts(uri@) is None,
            },
    {
        Self::new(Method::Delete, uri)
    }

    /// Well-formedness: header names are unique.
    pub open spec fn wf(&self) -> bool {
        self.headers.wf()
    }

    /// Whether the request is well-formed.
    pub fn is_wf(&self) -> (r: bool)
        ensures
            r == self.wf(),
    {
        self.headers.is_wf()
    }

    /// The method.
    pub fn method(&self) -> (r: Method)
        ensures
            r == self.method,
    {
        self.method
    }

    /// The headers.
    pub fn headers(&self) -> (r: &HeaderMap)
        ensures
            r == &self.headers,
    {
        &self.headers
    }

    /// The target.
    pub fn uri(&self) -> (r: &Uri)
        ensures
            r == &self.uri,
    {
        &self.uri
    }

    /// The body.
    pub fn body(&self) -> (r: Option<&Vec<u8>>)
        ensures
            match r {
                Some(b) => self.body == Some(*b),
                None => self.body is None,
            },
    {
        self.body.as_ref()
    }

    /// The extensions.
    pub fn extensions(&self) -> (r: &Extensions)
        ensures
            r == &self.extensions,
    {
        &self.extensions
    }

    /// Takes the extensions out, leaving empty ones.
    pub fn extract_extensions(&mut self) -> (r: Extensions)
        ensures
            r == old(self).extensions,
            final(self).extensions.websocket_key is None,
            final(self).method == old(self).method,
            final(self).uri == old(self).uri,
            final(self).headers == old(self).headers,
            final(self).body == old(self).body,
    {
        let mut e = Extensions::new();
        std::mem::swap(&mut e, &mut self.extensions);
        e
    }
}

/// What a response takes over from its request: the extensions.
#[derive(Debug)]
pub struct FutureResponseParams {
    pub extensions: Extensions,
}

impl FutureResponseParams {
    /// Takes the extensions out of `request`.
    pub fn from_request(request: &mut Request) -> (r: Self)
        ensures
            r.extensions == old(request).extensions,
            final(request).extensions.websocket_key is None,
            final(request).method == old(request).method,
            final(request).uri == old(request).uri,
            final(request).headers == old(request).headers,
            final(request).body == old(request).body,
    {
        FutureResponseParams { extensions: request.extract_extensions() }
    }

    /// Moves the extensions into a response's, swapping the two.
    pub fn apply(&mut self, extensions: &mut Extensions)
        ensures
            *final(extensions) == old(self).extensions,
            final(self).extensions == *old(extensions),
    {
        std::mem::swap(&mut self.extensions, extensions);
    }
}

impl Builder {
    /// A builder with this method and target, no headers, cookies or extensions.
    pub open spec fn fresh(&self, method: Method) -> bool {
        &&& self.method == method
        &&& self.headers.wf()
        &&& self.headers@.len() == 0
        &&& self.cookies is None
        &&& self.extensions.websocket_key is None
    }

    /// Well-formedness: header names and cookie names are unique.
    pub open spec fn wf(&self) -> bool {
        self.headers.wf() && unique_names(cookies_or_empty(self.cookies))
    }

    /// Whether the builder is well-formed.
    pub fn is_wf(&self) -> (r: bool)
        ensures
            r == self.wf(),
    {
        let cookies_ok = match &self.cookies {
            Some(c) => crate::headers::names_unique(c),
            None => {
                assert(cookies_or_empty(self.cookies) =~= Seq::<(Seq<char>, Seq<char>)>::empty());
                true
            },
        };
        self.headers.is_wf() && cookies_ok
    }

    /// A builder for `method` on `uri`.
    pub fn new(uri: Uri, method: Method) -> (r: Self)
        ensures
            r.fresh(method),
            r.uri == uri,
    {
        Builder {
            method,
            uri,
            headers: HeaderMap::new(),
            cookies: None,
            extensions: Extensions::new(),
        }
    }

    /// The extensions.
    pub fn extensions(&self) -> (r: &Extensions)
        ensures
            r == &self.extensions,
    {
        &self.extensions
    }

    /// The extensions, to change them.
    pub fn extensions_mut(&mut self) -> (r: &mut Extensions)
        ensures
            *r == old(self).extensions,
            final(self).extensions == *final(r),
            final(self).method == old(self).method,
            final(self).uri == old(self).uri,
            final(self).headers == old(self).headers,
            final(self).cookies == old(self).cookies,
    {
        &mut self.extensions
    }

    /// The headers, to change them.
    pub fn headers(&mut self) -> (r: &mut HeaderMap)
        ensures
            *r == old(self).headers,
            final(self).headers == *final(r),
            final(self).method == old(self).method,
            final(self).uri == old(self).uri,
            final(self).cookies == old(self).cookies,
            final(self).extensions == old(self).extensions,
    {
        &mut self.headers
    }

    /// Applies `cb` to `value` and the builder when there is a value.
    pub fn if_some<T, F: FnOnce(T, Self) -> Self>(self, value: Option<T>, cb: F) -> (r: Self)
        requires
            value matches Some(v) ==> cb.requires((v, self)),
        ensures
            match value {
                Some(v) => cb.ensures((v, self), r),
                None => r == self,
            },
    {
        match value {
            Some(v) => cb(v, self),
            None => self,
        }
    }

    /// Sets header `name` to `value`, replacing any earlier value. The name
    /// must be a valid header name and the value a valid header value.
    pub fn set_header(self, name: &str, value: &str) -> (r: Self)
        requires
            self.wf(),
            valid_header_name(name@),
            valid_header_value(value@),
        ensures
            r.wf(),
            r.headers@ == without(self.headers@, lower_seq(name@)).push((lower_seq(name@), value@)),
            r.method == self.method,
            r.uri == self.uri,
            r.cookies == self.cookies,
            r.extensions == self.extensions,
    {
        self.put_header(name, value)
    }

    /// Sets header `name` to `value` unless it is already set. The name must be
    /// a valid header name, and the value, when it is inserted, a valid header
    /// value.
    pub fn set_header_if_none(self, name: &str, value: &str) -> (r: Self)
        requires
            self.wf(),
            valid_header_name(name@),
            lookup(self.headers@, lower_seq(name@)) is None ==> valid_header_value(value@),
        ensures
            r.wf(),
            r.headers@ == (if lookup(self.headers@, lower_seq(name@)) is Some {
                self.headers@
            } else {
                without(self.headers@, lower_seq(name@)).push((lower_seq(name@), value@))
            }),
            r.method == self.method,
            r.uri == self.uri,
            r.cookies == self.cookies,
            r.extensions == self.extensions,
    {
        self.put_header_if_none(name, value)
    }

    /// Sets a header whose value this library made.
    pub(crate) fn put_header(self, name: &str, value: &str) -> (r: Self)
        requires
            self.wf(),
        ensures
            r.wf(),
            r.headers@ == without(self.headers@, lower_seq(name@)).push((lower_seq(name@), value@)),
            r.method == self.method,
            r.uri == self.uri,
            r.cookies == self.cookies,
            r.extensions == self.extensions,
    {
        self.set_header_string(name, value.to_owned())
    }

    fn set_header_string(self, name: &str, value: String) -> (r: Self)
        requires
            self.wf(),
        ensures
            r.wf(),
            r.headers@ == without(self.headers@, lower_seq(name@)).push((lower_seq(name@), value@)),
            r.method == self.method,
            r.uri == self.uri,
            r.cookies == self.cookies,
            r.extensions == self.extensions,
    {
        let mut b = self;
        b.headers.insert(name, value);
        b
    }

    /// Sets a header whose value this library made, unless it is set.
    pub(crate) fn put_header_if_none(self, name: &str, value: &str) -> (r: Self)
        requires
            self.wf(),
        ensures
            r.wf(),
            r.headers@ == (if lookup(self.headers@, lower_seq(name@)) is Some {
                self.headers@
            } else {
                without(self.headers@, lower_seq(name@)).push((lower_seq(name@), value@))
            }),
            r.method == self.method,
            r.uri == self.uri,
            r.cookies == self.cookies,
            r.extensions == self.extensions,
    {
        if self.headers.contains_key(name) {
            self
        } else {
            self.put_header(name, value)
        }
    }

    /// Sets an entity tag under the header that `E` names; an existing value
    /// gets the tag appended after `, `.
    pub fn set_etag<E: crate::tags::EtagMode>(self, etag: &str, mode: E) -> (r: Self)
        requires
            self.wf(),
            valid_header_value(etag@),
        ensures
            r.wf(),
            r.headers@ == without(self.headers@, lower_seq(E::name())).push(
                (
                    lower_seq(E::name()),
                    match lookup(self.headers@, lower_seq(E::name())) {
                        Some(v) => v + ", "@ + etag@,
                        None => etag@,
                    },
                ),
            ),
            r.method == self.method,
            r.uri == self.uri,
            r.cookies == self.cookies,
            r.extensions == self.extensions,
    {
        let name = E::header_name();
        let value = match self.headers.get(name) {
            Some(old) => {
                let mut v: Vec<char> = Vec::new();
                push_str(&mut v, old);
                push_str(&mut v, ", ");
                push_str(&mut v, etag);
                string_of(v.as_slice())
            },
            None => etag.to_owned(),
        };
        self.set_header_string(name, value)
    }

    /// Sets an HTTP-date, given in seconds since the Unix epoch, under the
    /// header that `E` names.
    pub fn set_date<E: crate::tags::DateMode>(self, secs: u64, mode: E) -> (r: Self)
        requires
            self.wf(),
            secs < 253402300800,
        ensures
            r.wf(),
            r.headers@ == without(self.headers@, lower_seq(E::name())).push(
                (lower_seq(E::name()), http_date_of(secs)),
            ),
            r.method == self.method,
            r.uri == self.uri,
            r.cookies == self.cookies,
            r.extensions == self.extensions,
    {
        let value = http_date(secs);
        self.set_header_string(E::header_name(), value)
    }

    /// Adds cookies: those of `jar` replace earlier ones of the same name.
    pub fn set_cookie_jar(self, jar: CookieList) -> (r: Self)
        requires
            self.wf(),
        ensures
            r.wf(),
            r.cookies is Some,
            unique_names(cookies_view(r.cookies->Some_0)),
            cookies_view(r.cookies->Some_0) == merged(
                cookies_or_empty(self.cookies),
                cookies_view(jar),
            ),
            r.method == self.method,
            r.uri == self.uri,
            r.headers == self.headers,
            r.extensions == self.extensions,
    {
        let ghost start = cookies_or_empty(self.cookies);
        let mut b = self;
        let mut i: usize = 0;
        if b.cookies.is_none() {
            let empty: CookieList = Vec::new();
            assert(cookies_view(empty) =~= Seq::<(Seq<char>, Seq<char>)>::empty());
            b.cookies = Some(empty);
        }
        proof {
            assert(cookies_view(jar).subrange(0, 0) =~= Seq::<(Seq<char>, Seq<char>)>::empty());
        }
        while i < jar.len()
            invariant
                0 <= i <= jar@.len(),
                b.cookies is Some,
                b.wf(),
                unique_names(cookies_view(b.cookies->Some_0)),
                cookies_view(b.cookies->Some_0) == merged(
                    start,
                    cookies_view(jar).subrange(0, i as int),
                ),
                b.method == self.method,
                b.uri == self.uri,
                b.headers == self.headers,
                b.extensions == self.extensions,
            decreases jar@.len() - i,
        {
            let n = clone_string(&jar[i].0);
            let v = clone_string(&jar[i].1);
            b = b.add_cookie(n, v);
            proof {
                let t = cookies_view(jar).subrange(0, i + 1);
                assert(t.drop_last() =~= cookies_view(jar).subrange(0, i as int));
                assert(t.last() == (jar@[i as int].0@, jar@[i as int].1@));
            }
            i = i + 1;
        }
        proof {
            assert(cookies_view(jar).subrange(0, jar@.len() as int) =~= cookies_view(jar));
        }
        b
    }

    /// Adds a cookie; one of the same name is replaced.
    pub fn add_cookie(self, name: String, value: String) -> (r: Self)
        requires
            self.wf(),
        ensures
            r.wf(),
            r.cookies is Some,
            unique_names(cookies_view(r.cookies->Some_0)),
            cookies_view(r.cookies->Some_0) == without(cookies_or_empty(self.cookies), name@).push(
                (name@, value@),
            ),
            r.method == self.method,
            r.uri == self.uri,
            r.headers == self.headers,
            r.extensions == self.extensions,
    {
        let mut b = self;
        let mut jar = match b.cookies {
            Some(c) => c,
            None => Vec::new(),
        };
        b.cookies = None;
        let ghost old_view = cookies_view(jar);
        proof {
            if self.cookies is None {
                assert(old_view =~= Seq::<(Seq<char>, Seq<char>)>::empty());
            }
        }
        let key = chars_of(name.as_str());
        let mut kept: CookieList = Vec::new();
        let mut i: usize = 0;
        while i < jar.len()
            invariant
                0 <= i <= jar@.len(),
                old_view == cookies_view(jar),
                key@ == name@,
                cookies_view(kept) == without(old_view.subrange(0, i as int), name@),
            decreases jar@.len() - i,
        {
            let c = chars_of(jar[i].0.as_str());
            let ghost before = cookies_view(kept);
            proof {
                assert(old_view.subrange(0, i + 1).drop_last() =~= old_view.subrange(0, i as int));
                assert(old_view.subrange(0, i + 1).last() == old_view[i as int]);
            }
            if !crate::headers::eq_chars(&c, &key) {
                kept.push((clone_string(&jar[i].0), clone_string(&jar[i].1)));
                proof {
                    assert(cookies_view(kept) =~= before.push(old_view[i as int]));
                }
            }
            i = i + 1;
        }
        proof {
            assert(old_view.subrange(0, jar@.len() as int) =~= old_view);
        }
        let ghost w = cookies_view(kept);
        kept.push((name, value));
        proof {
            assert(cookies_view(kept) =~= w.push((name@, value@)));
            crate::headers::lemma_without_unique(old_view, name@);
            crate::headers::lemma_without(old_view, name@, name@);
            let k2 = cookies_view(kept);
            assert forall|a: int, c: int|
                0 <= a < k2.len() && 0 <= c < k2.len() && a != c implies #[trigger] k2[a].0
                != #[trigger] k2[c].0 by {
                if a < w.len() && c < w.len() {
                    assert(k2[a] == w[a] && k2[c] == w[c]);
                } else if a < w.len() {
                    assert(k2[a] == w[a]);
                } else if c < w.len() {
                    assert(k2[c] == w[c]);
                }
            }
        }
        b.cookies = Some(kept);
        b
    }

    /// Sets `Content-Length`, replacing any earlier value.
    pub fn content_len(self, len: u64) -> (r: Self)
        requires
            self.wf(),
        ensures
            r.wf(),
            lookup(r.headers@, content_length_name()) == Some(decimal(len as nat)),
            forall|k: Seq<char>|
                k != content_length_name() ==> lookup(r.headers@, k) == lookup(self.headers@, k),
            r.method == self.method,
            r.uri == self.uri,
            r.cookies == self.cookies,
            r.extensions == self.extensions,
    {
        let v = decimal_text(len);
        let r = self.set_header_string("content-length", v);
        proof {
            lemma_names();
            assert forall|k: Seq<char>| true implies #[trigger] lookup(r.headers@, k) == (if k
                == content_length_name() {
                Some(decimal(len as nat))
            } else {
                lookup(self.headers@, k)
            }) by {
                crate::headers::lemma_insert_lookup(
                    self.headers@,
                    content_length_name(),
                    decimal(len as nat),
                    k,
                );
            }
        }
        r
    }

    /// Sets `Accept-Encoding`, replacing any earlier value.
    pub fn accept_encoding(self, encoding: ContentEncoding) -> (r: Self)
        requires
            self.wf(),
        ensures
            r.wf(),
            r.headers@ == without(self.headers@, lower_seq("accept-encoding"@)).push(
                (lower_seq("accept-encoding"@), encoding_token(encoding)),
            ),
            r.method == self.method,
            r.uri == self.uri,
            r.cookies == self.cookies,
            r.extensions == self.extensions,
    {
        self.put_header("accept-encoding", encoding.as_str())
    }

    /// Sets `Content-Disposition`, replacing any earlier value.
    pub fn content_disposition(self, disp: &ContentDisposition) -> (r: Self)
        requires
            self.wf(),
            valid_header_value(disposition_text(disp@)),
        ensures
            r.wf(),
            r.headers@ == without(self.headers@, lower_seq("content-disposition"@)).push(
                (lower_seq("content-disposition"@), disposition_text(disp@)),
            ),
            r.method == self.method,
            r.uri == self.uri,
            r.cookies == self.cookies,
            r.extensions == self.extensions,
    {
        let v = disp.to_string();
        self.set_header_string("content-disposition", v)
    }

    /// Sets `Authorization` to `Basic` with the base64 of `user:password`; the
    /// password is empty when absent.
    pub fn basic_auth(self, username: &str, password: Option<&str>) -> (r: Self)
        requires
            self.wf(),
        ensures
            r.wf(),
            r.headers@ == without(self.headers@, authorization_name()).push(
                (
                    authorization_name(),
                    "Basic "@ + base64_of(
                        encode_utf8(
                            username@ + ":"@ + match password {
                                Some(p) => p@,
                                None => Seq::empty(),
                            },
                        ),
                    ),
                ),
            ),
            r.method == self.method,
            r.uri == self.uri,
            r.cookies == self.cookies,
            r.extensions == self.extensions,
    {
        let mut auth: Vec<char> = Vec::new();
        push_str(&mut auth, username);
        push_str(&mut auth, ":");
        match password {
            Some(p) => push_str(&mut auth, p),
            None => {},
        }
        let auth_text = string_of(auth.as_slice());
        let encoded = base64_encode(auth_text.as_str().as_bytes());
        let mut value: Vec<char> = Vec::new();
        push_str(&mut value, "Basic ");
        push_str(&mut value, encoded.as_str());
        let v = string_of(value.as_slice());
        proof {
            lemma_names();
            assert(auth@ =~= username@ + ":"@ + match password {
                Some(p) => p@,
                None => Seq::empty(),
            });
        }
        self.set_header_string("authorization", v)
    }

    /// Sets `Authorization` to `Bearer` with the token as it is.
    pub fn bearer_auth(self, token: &str) -> (r: Self)
        requires
            self.wf(),
            valid_header_value(token@),
        ensures
            r.wf(),
            r.headers@ == without(self.headers@, authorization_name()).push(
                (authorization_name(), "Bearer "@ + token@),
            ),
            r.method == self.method,
            r.uri == self.uri,
            r.cookies == self.cookies,
            r.extensions == self.extensions,
    {
        let mut value: Vec<char> = Vec::new();
        push_str(&mut value, "Bearer ");
        push_str(&mut value, token);
        let v = string_of(value.as_slice());
        proof {
            lemma_names();
        }
        self.set_header_string("authorization", v)
    }

    /// Replaces the query of the target; the path is kept.
    pub fn set_query(self, query: &str) -> (r: Self)
        ensures
            r.uri@ == (UriView { query: Some(query@), ..self.uri@ }),
            r.method == self.method,
            r.headers == self.headers,
            r.cookies == self.cookies,
            r.extensions == self.extensions,
    {
        let mut b = self;
        b.uri.query = Some(query.to_owned());
        b
    }

    /// Finishes the request with an optional body.
    ///
    /// The cookie list, if not empty, becomes the `Cookie` header. Unless the
    /// caller set `Content-Length`, it is set to `0` for an empty `POST` or
    /// `PUT` and to the body's length for a body; without a body any other
    /// method carries none.
    pub fn body(self, body: Option<Vec<u8>>) -> (r: Request)
        requires
            self.wf(),
        ensures
            r.wf(),
            r.method == self.method,
            r.uri == self.uri,
            r.extensions == self.extensions,
            body_view(r.body) == body_view(body),
            lookup(r.headers@, content_length_name()) == content_length_of(
                with_cookies(self.headers@, self.cookies),
                self.method,
                body_view(body),
            ),
            lookup(r.headers@, cookie_name()) == lookup(
                with_cookies(self.headers@, self.cookies),
                cookie_name(),
            ),
            forall|k: Seq<char>|
                k != content_length_name() && k != cookie_name() ==> lookup(r.headers@, k)
                    == lookup(self.headers@, k),
    {
        let Builder { method, uri, headers, cookies, extensions } = self;
        let mut headers = headers;
        proof {
            lemma_names();
        }
        let ghost h0 = headers@;
        match &cookies {
            Some(c) => {
                if c.len() > 0 {
                    let v = cookie_header(c);
                    headers.insert("cookie", v);
                }
            },
            None => {},
        }
        let ghost h1 = headers@;
        proof {
            assert(h1 == with_cookies(h0, cookies));
            assert forall|k: Seq<char>| k != cookie_name() implies #[trigger] lookup(h1, k) == lookup(
                h0,
                k,
            ) by {
                if let Some(c) = cookies {
                    if c@.len() > 0 {
                        crate::headers::lemma_insert_lookup(
                            h0,
                            cookie_name(),
                            cookie_text(cookies_view(c)),
                            k,
                        );
                    }
                }
            }
        }
        match &body {
            None => {
                if method == Method::Post || method == Method::Put {
                    if !headers.contains_key("content-length") {
                        let zero = String::from_str("0");
                        proof {
                            reveal_strlit("0");
                            assert(zero@ =~= seq!['0']);
                        }
                        headers.insert("content-length", zero);
                        proof {
                            assert forall|k: Seq<char>| true implies #[trigger] lookup(headers@, k)
                                == (if k == content_length_name() {
                                Some(seq!['0'])
                            } else {
                                lookup(h1, k)
                            }) by {
                                crate::headers::lemma_insert_lookup(
                                    h1,
                                    content_length_name(),
                                    seq!['0'],
                                    k,
                                );
                            }
                        }
                    }
                } else {
                    headers.remove("content-length");
                    proof {
                        assert forall|k: Seq<char>| true implies #[trigger] lookup(headers@, k) == (
                        if k == content_length_name() {
                            None
                        } else {
                            lookup(h1, k)
                        }) by {
                            crate::headers::lemma_without(h1, content_length_name(), k);
                        }
                    }
                }
            },
            Some(b) => {
                if !headers.contains_key("content-length") {
                    let n = b.len() as u64;
                    let v = decimal_text(n);
                    headers.insert("content-length", v);
                    proof {
                        assert forall|k: Seq<char>| true implies #[trigger] lookup(headers@, k) == (
                        if k == content_length_name() {
                            Some(decimal(b@.len()))
                        } else {
                            lookup(h1, k)
                        }) by {
                            crate::headers::lemma_insert_lookup(
                                h1,
                                content_length_name(),
                                decimal(b@.len()),
                                k,
                            );
                        }
                    }
                }
            },
        }
        Request { method, uri, headers, body, extensions }
    }

    /// Finishes the request without a body.
    pub fn empty(self) -> (r: Request)
        requires
            self.wf(),
        ensures
            r.wf(),
            r.method == self.method,
            r.uri == self.uri,
            r.extensions == self.extensions,
            r.body is None,
            lookup(r.headers@, content_length_name()) == content_length_of(
                with_cookies(self.headers@, self.cookies),
                self.method,
                None,
            ),
            lookup(r.headers@, cookie_name()) == lookup(
                with_cookies(self.headers@, self.cookies),
                cookie_name(),
            ),
            forall|k: Seq<char>|
                k != content_length_name() && k != cookie_name() ==> lookup(r.headers@, k)
                    == lookup(self.headers@, k),
    {
        self.body(None)
    }

    /// Finishes the request with `body`, setting `Content-Type` to
    /// `content_type` unless it is set.
    fn typed_body(self, content_type: &str, body: Vec<u8>) -> (r: Request)
        requires
            self.wf(),
        ensures
            r.wf(),
            r.method == self.method,
            r.uri == self.uri,
            r.extensions == self.extensions,
            body_view(r.body) == Some(body@),
            lookup(r.headers@, content_type_name()) == Some(
                match lookup(self.headers@, content_type_name()) {
                    Some(v) => v,
                    None => content_type@,
                },
            ),
            lookup(r.headers@, content_length_name()) == Some(
                match lookup(self.headers@, content_length_name()) {
                    Some(v) => v,
                    None => decimal(body@.len()),
                },
            ),
            lookup(r.headers@, cookie_name()) == lookup(
                with_cookies(self.headers@, self.cookies),
                cookie_name(),
            ),
            forall|k: Seq<char>|
                k != content_length_name() && k != cookie_name() && k != content_type_name()
                    ==> #[trigger] lookup(r.headers@, k) == lookup(self.headers@, k),
    {
        proof {
            lemma_names();
            reveal_strlit("content-type");
            reveal_strlit("content-length");
            reveal_strlit("cookie");
            assert(content_type_name() != content_length_name());
            assert(content_type_name()[0] != cookie_name()[1]);
            assert(content_type_name() != cookie_name());
        }
        let ghost h0 = self.headers@;
        let b = self.put_header_if_none("content-type", content_type);
        let ghost h1 = b.headers@;
        proof {
            assert forall|k: Seq<char>| k != content_type_name() implies #[trigger] lookup(h1, k)
                == lookup(h0, k) by {
                crate::headers::lemma_insert_lookup(h0, content_type_name(), content_type@, k);
            }
            crate::headers::lemma_insert_lookup(
                h0,
                content_type_name(),
                content_type@,
                content_type_name(),
            );
            if b.cookies is Some && b.cookies->Some_0@.len() > 0 {
                let t = cookie_text(cookies_view(b.cookies->Some_0));
                crate::headers::lemma_insert_lookup(h1, cookie_name(), t, content_length_name());
                crate::headers::lemma_insert_lookup(h1, cookie_name(), t, content_type_name());
                crate::headers::lemma_insert_lookup(h1, cookie_name(), t, cookie_name());
                crate::headers::lemma_insert_lookup(h0, cookie_name(), t, cookie_name());
            }
        }
        b.body(Some(body))
    }

    /// Finishes the request with a URL-encoded form body; `Content-Type`
    /// defaults to `application/x-www-form-urlencoded`.
    pub fn form_text(self, encoded: String) -> (r: Request)
        requires
            self.wf(),
        ensures
            r.wf(),
            r.method == self.method,
            r.uri == self.uri,
            r.extensions == self.extensions,
            body_view(r.body) == Some(encode_utf8(encoded@)),
            lookup(r.headers@, content_type_name()) == Some(
                match lookup(self.headers@, content_type_name()) {
                    Some(v) => v,
                    None => "application/x-www-form-urlencoded"@,
                },
            ),
            lookup(r.headers@, content_length_name()) == Some(
                match lookup(self.headers@, content_length_name()) {
                    Some(v) => v,
                    None => decimal(encode_utf8(encoded@).len()),
                },
            ),
            lookup(r.headers@, cookie_name()) == lookup(
                with_cookies(self.headers@, self.cookies),
                cookie_name(),
            ),
            forall|k: Seq<char>|
                k != content_length_name() && k != cookie_name() && k != content_type_name()
                    ==> #[trigger] lookup(r.headers@, k) == lookup(self.headers@, k),
    {
        let bytes = bytes_of(encoded.as_str());
        self.typed_body("application/x-www-form-urlencoded", bytes)
    }

    /// Finishes the request with a JSON body; `Content-Type` defaults to
    /// `application/json`.
    pub fn json_text(self, encoded: String) -> (r: Request)
        requires
            self.wf(),
        ensures
            r.wf(),
            r.method == self.method,
            r.uri == self.uri,
            r.extensions == self.extensions,
            body_view(r.body) == Some(encode_utf8(encoded@)),
            lookup(r.headers@, content_type_name()) == Some(
                match lookup(self.headers@, content_type_name()) {
                    Some(v) => v,
                    None => "application/json"@,
                },
            ),
            lookup(r.headers@, content_length_name()) == Some(
                match lookup(self.headers@, content_length_name()) {
                    Some(v) => v,
                    None => decimal(encode_utf8(encoded@).len()),
                },
            ),
            lookup(r.headers@, cookie_name()) == lookup(
                with_cookies(self.headers@, self.cookies),
                cookie_name(),
            ),
            forall|k: Seq<char>|
                k != content_length_name() && k != cookie_name() && k != content_type_name()
                    ==> #[trigger] lookup(r.headers@, k) == lookup(self.headers@, k),
    {
        let bytes = bytes_of(encoded.as_str());
        self.typed_body("application/json", bytes)
    }

    /// Finishes the request with a multipart body; `Content-Type` defaults to
    /// `multipart/form-data; boundary=<boundary>`.
    pub fn multipart(self, form: Form) -> (r: Request)
        requires
            self.wf(),
            form.storage().len() + 2 <= u64::MAX,
        ensures
            r.wf(),
            r.method == self.method,
            r.uri == self.uri,
            r.extensions == self.extensions,
            body_view(r.body) == Some(finished(form.storage())),
            lookup(r.headers@, content_type_name()) == Some(
                match lookup(self.headers@, content_type_name()) {
                    Some(v) => v,
                    None => "multipart/form-data; boundary="@ + form.boundary_text(),
                },
            ),
            lookup(r.headers@, content_length_name()) == Some(
                match lookup(self.headers@, content_length_name()) {
                    Some(v) => v,
                    None => decimal(finished(form.storage()).len()),
                },
            ),
            lookup(r.headers@, cookie_name()) == lookup(
                with_cookies(self.headers@, self.cookies),
                cookie_name(),
            ),
            forall|k: Seq<char>|
                k != content_length_name() && k != cookie_name() && k != content_type_name()
                    ==> #[trigger] lookup(r.headers@, k) == lookup(self.headers@, k),
    {
        let mut ct: Vec<char> = Vec::new();
        push_str(&mut ct, "multipart/form-data; boundary=");
        push_str(&mut ct, form.boundary());
        let ct = string_of(ct.as_slice());
        let (_, bytes) = form.finish();
        self.typed_body(ct.as_str(), bytes)
    }
}

/// The UTF-8 bytes of a string.
pub(crate) fn bytes_of(s: &str) -> (r: Vec<u8>)
    ensures
        r@ == s.spec_bytes(),
{
    let b = s.as_bytes();
    let mut v: Vec<u8> = Vec::new();
    let mut i: usize = 0;
    while i < b.len()
        invariant
            0 <= i <= b@.len(),
            v@ == b@.subrange(0, i as int),
        decreases b@.len() - i,
    {
        v.push(b[i]);
        i = i + 1;
        proof {
            assert(v@ =~= b@.subrange(0, i as int));
        }
    }
    proof {
        assert(b@.subrange(0, b@.len() as int) =~= b@);
    }
    v
}

} // verus!
