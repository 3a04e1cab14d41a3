//! Request targets, held as their parsed parts.

use vstd::prelude::*;
use crate::content_disposition::opt_view;
use crate::text::{push_str, string_of};

verus! {

/// A URI split into the parts that this library reads.
#[derive(Debug)]
pub struct Uri {
    /// Scheme, such as `https`.
    pub scheme: Option<String>,
    /// Authority as written: user info, host and port.
    pub authority: Option<String>,
    /// Host of the authority.
    pub host: Option<String>,
    /// Explicit port of the authority.
    pub port: Option<u16>,
    /// Path; may be empty for a bare authority.
    pub path: String,
    /// Query, without its `?`.
    pub query: Option<String>,
}

/// Abstract value of a [`Uri`].
pub struct UriView {
    pub scheme: Option<Seq<char>>,
    pub authority: Option<Seq<char>>,
    pub host: Option<Seq<char>>,
    pub port: Option<u16>,
    pub path: Seq<char>,
    pub query: Option<Seq<char>>,
}

impl View for Uri {
    type V = UriView;

    open spec fn view(&self) -> UriView {
        UriView {
            scheme: opt_view(self.scheme),
            authority: opt_view(self.authority),
            host: opt_view(self.host),
            port: self.port,
            path: self.path@,
            query: opt_view(self.query),
        }
    }
}

/// The parts that the `http` crate's URI parser finds in a text: scheme,
/// authority, host, port, path and query; `None` when it rejects the text.
pub uninterp spec fn uri_parts(s: Seq<char>) -> Option<
    (Option<Seq<char>>, Option<Seq<char>>, Option<Seq<char>>, Option<u16>, Seq<char>, Option<Seq<char>>),
>;

/// Parts of a parsed URI.
pub open spec fn parts_of(r: Option<Uri>) -> Option<
    (Option<Seq<char>>, Option<Seq<char>>, Option<Seq<char>>, Option<u16>, Seq<char>, Option<Seq<char>>),
> {
    match r {
        Some(u) => Some((u@.scheme, u@.authority, u@.host, u@.port, u@.path, u@.query)),
        None => None,
    }
}

/// Relies on `http::Uri`'s `FromStr`, and on its accessors `scheme_str`,
/// `authority`, `host`, `port_u16`, `path` and `query`.
#[verifier::external_body]
fn parse_parts(s: &str) -> (r: Option<Uri>)
    ensures
        parts_of(r) == uri_parts(s@),
{
    match s.parse::<http::Uri>() {
        Ok(u) => Some(Uri {
            scheme: u.scheme_str().map(String::from),
            authority: u.authority().map(|a| String::from(a.as_str())),
            host: u.host().map(String::from),
            port: u.port_u16(),
            path: String::from(u.path()),
            query: u.query().map(String::from),
        }),
        Err(_) => None,
    }
}

/// The text was not a valid URI.
#[derive(Clone, Copy, Debug, PartialEq, Eq, Structural)]
pub struct InvalidUri;

/// Text of a URI: `scheme://authority`, path, then `?query`.
pub open spec fn uri_text(u: UriView) -> Seq<char> {
    (match u.scheme {
        Some(s) => s + "://"@,
        None => Seq::empty(),
    }) + (match u.authority {
        Some(a) => a,
        None => Seq::empty(),
    }) + u.path + (match u.query {
        Some(q) => "?"@ + q,
        None => Seq::empty(),
    })
}

impl Uri {
    /// Parses a URI.
    pub fn parse(s: &str) -> (r: Result<Uri, InvalidUri>)
        ensures
            match r {
                Ok(u) => uri_parts(s@) == parts_of(Some(u)),
                Err(_) => uri_parts(s@) is None,
            },
    {
        match parse_parts(s) {
            Some(u) => Ok(u),
            None => Err(InvalidUri),
        }
    }

    /// A copy of this URI.
    pub fn duplicate(&self) -> (r: Uri)
        ensures
            r@ == self@,
    {
        Uri {
            scheme: clone_opt(&self.scheme),
            authority: clone_opt(&self.authority),
            host: clone_opt(&self.host),
            port: self.port,
            path: crate::headers::clone_string(&self.path),
            query: clone_opt(&self.query),
        }
    }

    /// The URI written out.
    pub fn to_string(&self) -> (r: String)
        ensures
            r@ == uri_text(self@),
    {
        let mut out: Vec<char> = Vec::new();
        match &self.scheme {
            Some(s) => {
                push_str(&mut out, s.as_str());
                push_str(&mut out, "://");
            },
            None => {},
        }
        match &self.authority {
            Some(a) => push_str(&mut out, a.as_str()),
            None => {},
        }
        push_str(&mut out, self.path.as_str());
        match &self.query {
            Some(q) => {
                push_str(&mut out, "?");
                push_str(&mut out, q.as_str());
            },
            None => {},
        }
        proof {
            assert(out@ =~= uri_text(self@));
        }
        string_of(out.as_slice())
    }
}

/// A copy of an optional string.
pub(crate) fn clone_opt(s: &Option<String>) -> (r: Option<String>)
    ensures
        opt_view(r) == opt_view(*s),
{
    match s {
        Some(s) => Some(crate::headers::clone_string(s)),
        None => None,
    }
}

} // verus!
