//! Client configuration and the headers that the client adds to each request.

use vstd::prelude::*;
use crate::headers::{lookup, lower_seq, without};
use crate::request::{Request, decimal, decimal_text};
use crate::text::{push_str, string_of};
use crate::uri::UriView;

verus! {

/// Client configuration.
#[derive(Clone, Copy, Debug)]
pub struct Config {
    /// Whether to ask for compressed ranges that this library can decompress.
    pub decompress: bool,
    /// Deadline of `send` in milliseconds; zero means none.
    pub timeout_ms: u64,
    /// How many redirects a chain may take.
    pub max_redirect_num: usize,
}

impl Config {
    /// Decompression on, a 30 s deadline, 8 redirects.
    pub fn new() -> (r: Self)
        ensures
            r.decompress,
            r.timeout_ms == 30000,
            r.max_redirect_num == 8,
    {
        Config { decompress: true, timeout_ms: 30000, max_redirect_num: 8 }
    }
}

impl Default for Config {
    fn default() -> (r: Self)
        ensures
            r.decompress,
            r.timeout_ms == 30000,
            r.max_redirect_num == 8,
    {
        Config::new()
    }
}

/// `Accept-Encoding` value that the client adds.
pub open spec fn default_compress() -> Seq<char> {
    "gzip, deflate"@
}

/// `User-Agent` value that the client adds.
pub open spec fn default_user_agent() -> Seq<char> {
    "Yukikaze/0.1.0"@
}

/// The `Host` value of a target: the host, with `:port` unless the port is
/// absent, 80 or 443; none without a host.
pub open spec fn host_value(u: UriView) -> Option<Seq<char>> {
    match u.host {
        None => None,
        Some(h) => match u.port {
            Some(p) => if p == 80 || p == 443 {
                Some(h)
            } else {
                Some(h + ":"@ + decimal(p as nat))
            },
            None => Some(h),
        },
    }
}

/// Adds `Accept-Encoding` when decompression is on, a `Range` is asked for and
/// no `Accept-Encoding` is set, so that a partial response is not
/// decompressed unawares.
pub fn add_accept_encoding(req: &mut Request, decompress: bool)
    requires
        old(req).wf(),
    ensures
        final(req).wf(),
        final(req).method == old(req).method,
        final(req).uri == old(req).uri,
        final(req).body == old(req).body,
        final(req).extensions == old(req).extensions,
        final(req).headers@ == (if decompress && old(req).headers.get_spec("range"@) is Some
            && old(req).headers.get_spec("accept-encoding"@) is None {
            without(old(req).headers@, lower_seq("accept-encoding"@)).push(
                (lower_seq("accept-encoding"@), default_compress()),
            )
        } else {
            old(req).headers@
        }),
{
    if decompress {
        if !req.headers.contains_key("accept-encoding") && req.headers.contains_key("range") {
            req.headers.insert("accept-encoding", String::from_str("gzip, deflate"));
        }
    }
}

/// `Accept-Encoding` is added exactly when decompression is on, `Range` is
/// present and `Accept-Encoding` is absent; every other header stays.
pub proof fn lemma_accept_encoding_injection(
    h: Seq<(Seq<char>, Seq<char>)>,
    decompress: bool,
    name: Seq<char>,
)
    ensures
        ({
            let added = decompress && lookup(h, lower_seq("range"@)) is Some && lookup(
                h,
                lower_seq("accept-encoding"@),
            ) is None;
            let after = if added {
                without(h, lower_seq("accept-encoding"@)).push(
                    (lower_seq("accept-encoding"@), default_compress()),
                )
            } else {
                h
            };
            &&& lookup(after, lower_seq("accept-encoding"@)) == if added {
                Some(default_compress())
            } else {
                lookup(h, lower_seq("accept-encoding"@))
            }
            &&& name != lower_seq("accept-encoding"@) ==> lookup(after, name) == lookup(h, name)
        }),
{
    crate::headers::lemma_insert_lookup(h, lower_seq("accept-encoding"@), default_compress(), name);
    crate::headers::lemma_insert_lookup(
        h,
        lower_seq("accept-encoding"@),
        default_compress(),
        lower_seq("accept-encoding"@),
    );
}

/// Adds `User-Agent` and `Host` when they are not set.
pub fn default_headers(req: &mut Request)
    requires
        old(req).wf(),
    ensures
        final(req).wf(),
        final(req).method == old(req).method,
        final(req).uri == old(req).uri,
        final(req).body == old(req).body,
        final(req).extensions == old(req).extensions,
        final(req).headers.get_spec("user-agent"@) == Some(
            match old(req).headers.get_spec("user-agent"@) {
                Some(v) => v,
                None => default_user_agent(),
            },
        ),
        final(req).headers.get_spec("host"@) == match old(req).headers.get_spec("host"@) {
            Some(v) => Some(v),
            None => host_value(old(req).uri@),
        },
        forall|k: Seq<char>|
            k != lower_seq("user-agent"@) && k != lower_seq("host"@) ==> #[trigger] lookup(
                final(req).headers@,
                k,
            ) == lookup(old(req).headers@, k),
{
    let ghost h0 = req.headers@;
    if !req.headers.contains_key("user-agent") {
        req.headers.insert("user-agent", String::from_str("Yukikaze/0.1.0"));
    }
    let ghost h1 = req.headers@;
    proof {
        reveal_strlit("user-agent");
        reveal_strlit("host");
        let ua = lower_seq("user-agent"@);
        let ho = lower_seq("host"@);
        assert(ua.len() != ho.len());
        crate::headers::lemma_insert_lookup(h0, ua, default_user_agent(), ho);
        crate::headers::lemma_insert_lookup(h0, ua, default_user_agent(), ua);
        assert forall|k: Seq<char>| k != ua implies #[trigger] lookup(h1, k) == lookup(h0, k) by {
            crate::headers::lemma_insert_lookup(h0, ua, default_user_agent(), k);
        }
    }
    if !req.headers.contains_key("host") {
        let value = match &req.uri.host {
            None => None,
            Some(h) => match req.uri.port {
                Some(p) => if p == 80 || p == 443 {
                    Some(crate::headers::clone_string(h))
                } else {
                    let mut v: Vec<char> = Vec::new();
                    push_str(&mut v, h.as_str());
                    push_str(&mut v, ":");
                    let digits = decimal_text(p as u64);
                    push_str(&mut v, digits.as_str());
                    Some(string_of(v.as_slice()))
                },
                None => Some(crate::headers::clone_string(h)),
            },
        };
        match value {
            Some(v) => {
                let ghost vv = v@;
                req.headers.insert("host", v);
                proof {
                    let ua = lower_seq("user-agent"@);
                    let ho = lower_seq("host"@);
                    crate::headers::lemma_insert_lookup(h1, ho, vv, ua);
                    crate::headers::lemma_insert_lookup(h1, ho, vv, ho);
                    assert forall|k: Seq<char>| k != ho implies #[trigger] lookup(req.headers@, k)
                        == lookup(h1, k) by {
                        crate::headers::lemma_insert_lookup(h1, ho, vv, k);
                    }
                }
            },
            None => {},
        }
    }
}

/// The headers that the client adds before sending: defaults, then
/// `Accept-Encoding` for ranges.
pub fn apply_headers(req: &mut Request, config: &Config)
    requires
        old(req).wf(),
    ensures
        final(req).wf(),
        final(req).method == old(req).method,
        final(req).uri == old(req).uri,
        final(req).body == old(req).body,
        final(req).extensions == old(req).extensions,
        final(req).headers.get_spec("user-agent"@) == Some(
            match old(req).headers.get_spec("user-agent"@) {
                Some(v) => v,
                None => default_user_agent(),
            },
        ),
        final(req).headers.get_spec("host"@) == match old(req).headers.get_spec("host"@) {
            Some(v) => Some(v),
            None => host_value(old(req).uri@),
        },
        final(req).headers.get_spec("accept-encoding"@) == if config.decompress
            && old(req).headers.get_spec("range"@) is Some && old(req).headers.get_spec(
            "accept-encoding"@,
        ) is None {
            Some(default_compress())
        } else {
            old(req).headers.get_spec("accept-encoding"@)
        },
        forall|k: Seq<char>|
            k != lower_seq("user-agent"@) && k != lower_seq("host"@) && k != lower_seq(
                "accept-encoding"@,
            ) ==> #[trigger] lookup(final(req).headers@, k) == lookup(old(req).headers@, k),
{
    let ghost h0 = req.headers@;
    default_headers(req);
    let ghost h1 = req.headers@;
    add_accept_encoding(req, config.decompress);
    proof {
        reveal_strlit("user-agent");
        reveal_strlit("host");
        reveal_strlit("accept-encoding");
        reveal_strlit("range");
        let ua = lower_seq("user-agent"@);
        let ho = lower_seq("host"@);
        let ae = lower_seq("accept-encoding"@);
        let ra = lower_seq("range"@);
        assert(ae.len() != ua.len() && ae.len() != ho.len() && ra.len() != ua.len() && ra.len()
            != ho.len());
        assert(lookup(h1, ae) == lookup(h0, ae));
        assert(lookup(h1, ra) == lookup(h0, ra));
        assert forall|k: Seq<char>| k != ae implies #[trigger] lookup(req.headers@, k) == lookup(
            h1,
            k,
        ) by {
            crate::headers::lemma_insert_lookup(h1, ae, default_compress(), k);
        }
        crate::headers::lemma_insert_lookup(h1, ae, default_compress(), ae);
        assert(lookup(req.headers@, ua) == lookup(h1, ua));
        assert(lookup(req.headers@, ho) == lookup(h1, ho));
    }
}

} // verus!
