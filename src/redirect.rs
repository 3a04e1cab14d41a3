//! Decisions of the redirect loop: from the current hop and a response, the
//! next hop or none.

use vstd::prelude::*;
use crate::headers::{HeaderMap, clone_string, lookup, without};
use crate::request::{Extensions, Method, Request, body_view};
use crate::text::{chars_of, push_str, string_of};
use crate::uri::{Uri, UriView, uri_parts};

verus! {

/// Statuses that lead to another hop: 301, 302, 303, 307 and 308.
pub open spec fn is_redirect_status(status: u16) -> bool {
    status == 301 || status == 302 || status == 303 || status == 307 || status == 308
}

/// A path joined onto another as path components: an absolute path replaces,
/// a relative one is appended after a `/`.
pub open spec fn join_path(base: Seq<char>, rel: Seq<char>) -> Seq<char> {
    if rel.len() > 0 && rel[0] == '/' {
        rel
    } else if base.len() == 0 {
        rel
    } else if base.last() == '/' {
        base + rel
    } else {
        base + seq!['/'] + rel
    }
}

/// Headers that carry credentials and do not follow a redirect to another host.
pub open spec fn scrubbed(h: Seq<(Seq<char>, Seq<char>)>) -> Seq<(Seq<char>, Seq<char>)> {
    without(
        without(without(without(h, "authorization"@), "cookie"@), "cookie2"@),
        "www-authenticate"@,
    )
}

/// Whether a redirect keeps to the previous host; with no previous host
/// nothing is compared.
pub open spec fn same_host(prev: Option<Seq<char>>, next: Option<Seq<char>>) -> bool {
    match prev {
        Some(h) => next == Some(h),
        None => true,
    }
}

/// Abstract state of a redirect chain: what the next request is made of and
/// how many redirects may still be taken.
pub struct HopView {
    pub method: Method,
    pub uri: UriView,
    pub headers: Seq<(Seq<char>, Seq<char>)>,
    pub body: Option<Seq<u8>>,
    pub remaining: nat,
}

/// The target after a redirect to a location with these parts.
pub open spec fn next_uri(
    prev: UriView,
    p: (Option<Seq<char>>, Option<Seq<char>>, Option<Seq<char>>, Option<u16>, Seq<char>, Option<Seq<char>>),
) -> UriView {
    if p.0 is Some {
        UriView { scheme: p.0, authority: p.1, host: p.2, port: p.3, path: p.4, query: p.5 }
    } else {
        UriView { path: join_path(prev.path, p.4), query: p.5, ..prev }
    }
}

/// The next hop after a response with `status` and `location`, or `None` when
/// the response is the answer: it is no redirect, the budget is spent, or it
/// has no usable location.
pub open spec fn next_hop(s: HopView, status: u16, location: Option<Seq<char>>) -> Option<HopView> {
    if !is_redirect_status(status) || s.remaining <= 1 {
        None
    } else {
        match location {
            None => None,
            Some(l) => match uri_parts(l) {
                None => None,
                Some(p) => Some(
                    HopView {
                        method: if status == 303 {
                            Method::Get
                        } else {
                            s.method
                        },
                        uri: next_uri(s.uri, p),
                        headers: if p.0 is Some && !same_host(s.uri.host, p.2) {
                            scrubbed(s.headers)
                        } else {
                            s.headers
                        },
                        body: if status == 303 {
                            None
                        } else {
                            s.body
                        },
                        remaining: (s.remaining - 1) as nat,
                    },
                ),
            },
        }
    }
}

/// A `303 See Other` turns the next hop into a `GET` without a body, whatever
/// the method was.
pub proof fn lemma_see_other_is_get(s: HopView, location: Option<Seq<char>>)
    ensures
        next_hop(s, 303, location) matches Some(t) ==> t.method == Method::Get && t.body is None,
{
}

/// Following a location with a scheme to another host drops `authorization`,
/// `cookie`, `cookie2` and `www-authenticate` and keeps every other header; to
/// the same host, all headers are kept.
pub proof fn lemma_scrub_on_host_change(
    s: HopView,
    status: u16,
    location: Seq<char>,
    name: Seq<char>,
)
    requires
        uri_parts(location) matches Some(p) && p.0 is Some,
    ensures
        next_hop(s, status, Some(location)) matches Some(t) ==> {
            let p = uri_parts(location)->Some_0;
            if same_host(s.uri.host, p.2) {
                t.headers == s.headers
            } else if name == "authorization"@ || name == "cookie"@ || name == "cookie2"@ || name
                == "www-authenticate"@ {
                lookup(t.headers, name) is None
            } else {
                lookup(t.headers, name) == lookup(s.headers, name)
            }
        },
{
    let h = s.headers;
    let h1 = without(h, "authorization"@);
    let h2 = without(h1, "cookie"@);
    let h3 = without(h2, "cookie2"@);
    crate::headers::lemma_without(h, "authorization"@, name);
    crate::headers::lemma_without(h1, "cookie"@, name);
    crate::headers::lemma_without(h2, "cookie2"@, name);
    crate::headers::lemma_without(h3, "www-authenticate"@, name);
    if name == "authorization"@ {
        crate::headers::lemma_without(h1, "cookie"@, "authorization"@);
    }
}

/// Each hop taken spends one redirect of the budget, and none is taken once a
/// single one is left: from a budget of `n`, at most `n - 1` hops are taken,
/// and the `n`-th redirect response is the answer.
pub proof fn lemma_redirect_budget(
    hops: Seq<HopView>,
    statuses: Seq<u16>,
    locations: Seq<Option<Seq<char>>>,
)
    requires
        hops.len() >= 1,
        statuses.len() == hops.len(),
        locations.len() == hops.len(),
        forall|i: int|
            0 <= i < hops.len() - 1 ==> next_hop(#[trigger] hops[i], statuses[i], locations[i])
                == Some(hops[i + 1]),
    ensures
        hops.last().remaining + (hops.len() - 1) == hops[0].remaining,
        hops.len() <= hops[0].remaining || hops[0].remaining == 0 && hops.len() == 1,
        hops.last().remaining <= 1 ==> next_hop(hops.last(), statuses.last(), locations.last())
            is None,
    decreases hops.len(),
{
    if hops.len() > 1 {
        let k = hops.len() - 1;
        lemma_redirect_budget(hops.drop_last(), statuses.drop_last(), locations.drop_last());
        assert(next_hop(hops[k - 1], statuses[k - 1], locations[k - 1]) == Some(hops[k]));
        assert(hops.drop_last().last() == hops[k - 1]);
    }
}

/// Current hop of a redirect chain.
#[derive(Debug)]
pub struct RedirectState {
    pub method: Method,
    pub uri: Uri,
    pub headers: HeaderMap,
    pub body: Option<Vec<u8>>,
    pub remaining: usize,
}

impl RedirectState {
    /// Abstract value of the state.
    pub open spec fn view_hop(&self) -> HopView {
        HopView {
            method: self.method,
            uri: self.uri@,
            headers: self.headers@,
            body: body_view(self.body),
            remaining: self.remaining as nat,
        }
    }

    /// The chain that starts with `req` and may take `max_redirects` redirects.
    pub fn start(req: &Request, max_redirects: usize) -> (r: Self)
        requires
            req.wf(),
        ensures
            r.headers.wf(),
            r.view_hop() == (HopView {
                method: req.method,
                uri: req.uri@,
                headers: req.headers@,
                body: body_view(req.body),
                remaining: max_redirects as nat,
            }),
    {
        RedirectState {
            method: req.method,
            uri: req.uri.duplicate(),
            headers: req.headers.duplicate(),
            body: clone_body(&req.body),
            remaining: max_redirects,
        }
    }

    /// The request of this hop.
    pub fn to_request(&self) -> (r: Request)
        requires
            self.headers.wf(),
        ensures
            r.wf(),
            r.method == self.method,
            r.uri@ == self.uri@,
            r.headers@ == self.headers@,
            body_view(r.body) == body_view(self.body),
            r.extensions.websocket_key is None,
    {
        Request {
            method: self.method,
            uri: self.uri.duplicate(),
            headers: self.headers.duplicate(),
            body: clone_body(&self.body),
            extensions: Extensions::new(),
        }
    }

    /// The next hop after a response with `status` and `Location` header
    /// `location`; `None` when the response is to be returned as it is.
    pub fn next(self, status: u16, location: Option<&str>) -> (r: Option<RedirectState>)
        requires
            self.headers.wf(),
        ensures
            match r {
                Some(t) => t.headers.wf() && next_hop(
                    self.view_hop(),
                    status,
                    match location {
                        Some(l) => Some(l@),
                        None => None,
                    },
                ) == Some(t.view_hop()),
                None => next_hop(
                    self.view_hop(),
                    status,
                    match location {
                        Some(l) => Some(l@),
                        None => None,
                    },
                ) is None,
            },
    {
        if !(status == 301 || status == 302 || status == 303 || status == 307 || status == 308) {
            return None;
        }
        if self.remaining <= 1 {
            return None;
        }
        let loc = match location {
            Some(l) => l,
            None => return None,
        };
        let parsed = match Uri::parse(loc) {
            Ok(u) => u,
            Err(_) => return None,
        };
        let RedirectState { method, uri, headers, body, remaining } = self;
        let mut headers = headers;
        let (method, body) = if status == 303 {
            (Method::Get, None)
        } else {
            (method, body)
        };
        let next_uri = if parsed.scheme.is_some() {
            let keep = match &uri.host {
                Some(h) => match &parsed.host {
                    Some(n) => crate::headers::eq_chars(&chars_of(h.as_str()), &chars_of(n.as_str())),
                    None => false,
                },
                None => true,
            };
            if !keep {
                headers.remove("authorization");
                headers.remove("cookie");
                headers.remove("cookie2");
                headers.remove("www-authenticate");
                proof {
                    reveal_strlit("authorization");
                    reveal_strlit("cookie");
                    reveal_strlit("cookie2");
                    reveal_strlit("www-authenticate");
                    crate::request::lemma_lower_id("authorization"@);
                    crate::request::lemma_lower_id("cookie"@);
                    crate::request::lemma_lower_id("cookie2"@);
                    crate::request::lemma_lower_id("www-authenticate"@);
                }
            }
            parsed
        } else {
            let path = join_path_exec(&uri.path, &parsed.path);
            Uri {
                scheme: uri.scheme,
                authority: uri.authority,
                host: uri.host,
                port: uri.port,
                path,
                query: parsed.query,
            }
        };
        Some(RedirectState { method, uri: next_uri, headers, body, remaining: remaining - 1 })
    }
}

fn join_path_exec(base: &String, rel: &String) -> (r: String)
    ensures
        r@ == join_path(base@, rel@),
{
    let b = chars_of(base.as_str());
    let l = chars_of(rel.as_str());
    if l.len() > 0 && l[0] == '/' {
        return clone_string(rel);
    }
    if b.len() == 0 {
        return clone_string(rel);
    }
    let mut out: Vec<char> = Vec::new();
    push_str(&mut out, base.as_str());
    if b[b.len() - 1] != '/' {
        out.push('/');
    }
    push_str(&mut out, rel.as_str());
    proof {
        assert(out@ =~= join_path(base@, rel@));
    }
    string_of(out.as_slice())
}

/// A copy of an optional body.
pub(crate) fn clone_body(b: &Option<Vec<u8>>) -> (r: Option<Vec<u8>>)
    ensures
        body_view(r) == body_view(*b),
{
    match b {
        Some(v) => {
            let mut out: Vec<u8> = Vec::new();
            let mut i: usize = 0;
            while i < v.len()
                invariant
                    0 <= i <= v@.len(),
                    out@ == v@.subrange(0, i as int),
                decreases v@.len() - i,
            {
                out.push(v[i]);
                i = i + 1;
                proof {
                    assert(out@ =~= v@.subrange(0, i as int));
                }
            }
            proof {
                assert(v@.subrange(0, v@.len() as int) =~= v@);
            }
            Some(out)
        },
        None => None,
    }
}

} // verus!
