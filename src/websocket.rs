//! The Websocket upgrade: request preparation and response verification.

use vstd::prelude::*;
use vstd::utf8::encode_utf8;
use crate::codec::{base64_encode, base64_of, random_key, sha1, sha1_of};
use crate::headers::{HeaderMap, lookup, lower_seq, valid_header_value, without};
use crate::request::{Builder, Extensions, Request};
use crate::text::{chars_of, eq_ignore_case, eq_ignore_case_in};

verus! {

/// The GUID that RFC 6455 appends to the key before hashing.
pub open spec fn guid() -> Seq<char> {
    "258EAFA5-E914-47DA-95CA-C5AB0DC85B11"@
}

/// The `Sec-WebSocket-Accept` value that answers a `Sec-WebSocket-Key`.
pub open spec fn challenge_of(key: Seq<char>) -> Seq<char> {
    base64_of(sha1_of(encode_utf8(key) + encode_utf8(guid())))
}

/// Why a response does not complete a Websocket upgrade.
#[derive(Clone, Copy, Debug, PartialEq, Eq, Structural)]
pub enum WebsocketUpgradeError {
    /// The status is not 101.
    InvalidStatus(u16),
    /// `Upgrade` is not `websocket`.
    InvalidUpgradeType,
    /// `Connection` is not `Upgrade`.
    InvalidConnectionHeader,
    /// `Sec-WebSocket-Accept` is missing.
    MissingChallenge,
    /// `Sec-WebSocket-Accept` does not answer the key.
    InvalidChallenge,
}

/// What verification of a response gives, from its status and headers and the
/// key that was sent.
pub open spec fn verdict(status: u16, h: Seq<(Seq<char>, Seq<char>)>, key: Seq<char>) -> Result<
    (),
    WebsocketUpgradeError,
> {
    if status != 101 {
        Err(WebsocketUpgradeError::InvalidStatus(status))
    } else if !(lookup(h, lower_seq("upgrade"@)) matches Some(v) && eq_ignore_case(
        v,
        "websocket"@,
    )) {
        Err(WebsocketUpgradeError::InvalidUpgradeType)
    } else if !(lookup(h, lower_seq("connection"@)) matches Some(v) && eq_ignore_case(
        v,
        "Upgrade"@,
    )) {
        Err(WebsocketUpgradeError::InvalidConnectionHeader)
    } else {
        match lookup(h, lower_seq("sec-websocket-accept"@)) {
            None => Err(WebsocketUpgradeError::MissingChallenge),
            Some(a) => if a == challenge_of(key) {
                Ok(())
            } else {
                Err(WebsocketUpgradeError::InvalidChallenge)
            },
        }
    }
}

/// A server that answers the key `base64(k)` of any 16 bytes `k` with
/// `base64(SHA1(base64(k) ++ GUID))`, status 101 and the two upgrade headers,
/// passes verification.
pub proof fn lemma_compliant_server_accepted(k: Seq<u8>, h: Seq<(Seq<char>, Seq<char>)>)
    requires
        k.len() == 16,
        lookup(h, lower_seq("upgrade"@)) == Some("websocket"@),
        lookup(h, lower_seq("connection"@)) == Some("Upgrade"@),
        lookup(h, lower_seq("sec-websocket-accept"@)) == Some(
            base64_of(sha1_of(encode_utf8(base64_of(k)) + encode_utf8(guid()))),
        ),
    ensures
        verdict(101, h, base64_of(k)) == Ok::<(), WebsocketUpgradeError>(()),
{
}

/// Options of a Websocket upgrade.
pub struct WebsocketUpgradeOpts {
    /// Value of `Sec-WebSocket-Protocol`.
    pub protocols: &'static str,
}

impl WebsocketUpgradeOpts {
    /// Sets `Sec-WebSocket-Protocol` unless it is set.
    pub fn apply(self, req: Builder) -> (r: Builder)
        requires
            req.wf(),
            valid_header_value(self.protocols@),
        ensures
            r.wf(),
            r.headers@ == (if lookup(req.headers@, lower_seq("sec-websocket-protocol"@)) is Some {
                req.headers@
            } else {
                without(req.headers@, lower_seq("sec-websocket-protocol"@)).push(
                    (lower_seq("sec-websocket-protocol"@), self.protocols@),
                )
            }),
            r.method == req.method,
            r.uri == req.uri,
            r.cookies == req.cookies,
            r.extensions == req.extensions,
    {
        req.put_header_if_none("sec-websocket-protocol", self.protocols)
    }
}

/// Whether the protocols of the options, if any, are a valid header value.
pub open spec fn options_valid(options: Option<WebsocketUpgradeOpts>) -> bool {
    options matches Some(o) ==> valid_header_value(o.protocols@)
}

/// Header value after a set-if-absent.
pub open spec fn defaulted(h: Seq<(Seq<char>, Seq<char>)>, name: Seq<char>, v: Seq<char>) -> Seq<char> {
    match lookup(h, lower_seq(name)) {
        Some(old) => old,
        None => v,
    }
}

/// The Websocket upgrade mechanism.
pub struct WebsocketUpgrade;

impl WebsocketUpgrade {
    /// Prepares `req` for an upgrade with the key made of `key`: sets `Upgrade`
    /// and `Connection` unless set, the version `13`, the base64 key, and the
    /// protocols of `options` unless set; the key is kept in the extensions.
    pub fn prepare_request_with_key(
        req: Builder,
        key: [u8; 16],
        options: Option<WebsocketUpgradeOpts>,
    ) -> (r: Request)
        requires
            req.wf(),
            options_valid(options),
        ensures
            r.wf(),
            r.body is None,
            r.method == req.method,
            r.uri == req.uri,
            r.extensions.websocket_key matches Some(k) && k@ == base64_of(key@),
            lookup(r.headers@, lower_seq("sec-websocket-key"@)) == Some(base64_of(key@)),
            lookup(r.headers@, lower_seq("sec-websocket-version"@)) == Some("13"@),
            lookup(r.headers@, lower_seq("upgrade"@)) == Some(
                defaulted(req.headers@, "upgrade"@, "websocket"@),
            ),
            lookup(r.headers@, lower_seq("connection"@)) == Some(
                defaulted(req.headers@, "connection"@, "Upgrade"@),
            ),
            options matches Some(o) ==> lookup(r.headers@, lower_seq("sec-websocket-protocol"@))
                == Some(defaulted(req.headers@, "sec-websocket-protocol"@, o.protocols@)),
    {
        let encoded = base64_encode(&key);
        let stash = crate::headers::clone_string(&encoded);
        let mut b = req;
        b.extensions = Extensions { websocket_key: Some(stash) };
        let ghost h0 = b.headers@;
        let b = b.put_header_if_none("upgrade", "websocket");
        let ghost h1 = b.headers@;
        let b = b.put_header_if_none("connection", "Upgrade");
        let ghost h2 = b.headers@;
        let b = b.put_header("sec-websocket-version", "13");
        let ghost h3 = b.headers@;
        let b = b.put_header("sec-websocket-key", encoded.as_str());
        let ghost h4 = b.headers@;
        let b = match options {
            Some(o) => o.apply(b),
            None => b,
        };
        let ghost h5 = b.headers@;
        proof {
            reveal_strlit("upgrade");
            reveal_strlit("connection");
            reveal_strlit("sec-websocket-version");
            reveal_strlit("sec-websocket-key");
            reveal_strlit("sec-websocket-protocol");
            reveal_strlit("content-length");
            reveal_strlit("cookie");
            let up = lower_seq("upgrade"@);
            let co = lower_seq("connection"@);
            let ve = lower_seq("sec-websocket-version"@);
            let ke = lower_seq("sec-websocket-key"@);
            let pr = lower_seq("sec-websocket-protocol"@);
            assert(up.len() == 7 && co.len() == 10 && ve.len() == 21 && ke.len() == 17 && pr.len()
                == 22);
            assert(up[0] == 'u' && co[0] == 'c' && ve[0] == 's');
            assert(ve[14] == 'v' && ke[14] == 'k' && pr[14] == 'p');
            assert forall|n: Seq<char>| true implies lookup(h5, #[trigger] lower_seq(n)) == (if lower_seq(n) == pr {
                match options {
                    Some(o) => Some(defaulted(h4, "sec-websocket-protocol"@, o.protocols@)),
                    None => lookup(h4, pr),
                }
            } else {
                lookup(h4, lower_seq(n))
            }) by {
                match options {
                    Some(o) => {
                        if lookup(h4, pr) is None {
                            crate::headers::lemma_insert_lookup(h4, pr, o.protocols@, lower_seq(n));
                        }
                    },
                    None => {},
                }
            }
            crate::headers::lemma_insert_lookup(h0, up, "websocket"@, up);
            crate::headers::lemma_insert_lookup(h0, up, "websocket"@, co);
            crate::headers::lemma_insert_lookup(h1, co, "Upgrade"@, co);
            crate::headers::lemma_insert_lookup(h1, co, "Upgrade"@, up);
            crate::headers::lemma_insert_lookup(h2, ve, "13"@, ve);
            crate::headers::lemma_insert_lookup(h2, ve, "13"@, up);
            crate::headers::lemma_insert_lookup(h2, ve, "13"@, co);
            crate::headers::lemma_insert_lookup(h3, ke, encoded@, ke);
            crate::headers::lemma_insert_lookup(h3, ke, encoded@, ve);
            crate::headers::lemma_insert_lookup(h3, ke, encoded@, up);
            crate::headers::lemma_insert_lookup(h3, ke, encoded@, co);
            crate::headers::lemma_insert_lookup(h0, up, "websocket"@, pr);
            crate::headers::lemma_insert_lookup(h1, co, "Upgrade"@, pr);
            crate::headers::lemma_insert_lookup(h2, ve, "13"@, pr);
            crate::headers::lemma_insert_lookup(h3, ke, encoded@, pr);
            assert(lookup(h5, lower_seq("upgrade"@)) == lookup(h4, up));
            assert(lookup(h5, lower_seq("connection"@)) == lookup(h4, co));
            assert(lookup(h5, lower_seq("sec-websocket-version"@)) == lookup(h4, ve));
            assert(lookup(h5, lower_seq("sec-websocket-key"@)) == lookup(h4, ke));
            assert(lookup(h5, lower_seq("sec-websocket-protocol"@)) == if pr == pr {
                match options {
                    Some(o) => Some(defaulted(h4, "sec-websocket-protocol"@, o.protocols@)),
                    None => lookup(h4, pr),
                }
            } else {
                lookup(h4, pr)
            });
        }
        let r = b.empty();
        proof {
            reveal_strlit("content-length");
            reveal_strlit("cookie");
            let up = lower_seq("upgrade"@);
            let co = lower_seq("connection"@);
            let ve = lower_seq("sec-websocket-version"@);
            let ke = lower_seq("sec-websocket-key"@);
            let pr = lower_seq("sec-websocket-protocol"@);
            let cl = crate::request::content_length_name();
            let ck = crate::request::cookie_name();
            assert(up != cl && up != ck && co != cl && co != ck);
            assert(ve != cl && ve != ck && ke != cl && ke != ck && pr != cl && pr != ck);
        }
        r
    }

    /// Prepares `req` for an upgrade with a fresh random key.
    pub fn prepare_request(req: Builder, options: Option<WebsocketUpgradeOpts>) -> (r: Request)
        requires
            req.wf(),
            options_valid(options),
        ensures
            r.wf(),
            r.body is None,
            exists|key: Seq<u8>|
                key.len() == 16 && (r.extensions.websocket_key matches Some(k) && k@ == base64_of(
                    key,
                )) && lookup(r.headers@, lower_seq("sec-websocket-key"@)) == Some(
                    #[trigger] base64_of(key),
                ),
            lookup(r.headers@, lower_seq("sec-websocket-version"@)) == Some("13"@),
            lookup(r.headers@, lower_seq("upgrade"@)) == Some(
                defaulted(req.headers@, "upgrade"@, "websocket"@),
            ),
            lookup(r.headers@, lower_seq("connection"@)) == Some(
                defaulted(req.headers@, "connection"@, "Upgrade"@),
            ),
            options matches Some(o) ==> lookup(r.headers@, lower_seq("sec-websocket-protocol"@))
                == Some(defaulted(req.headers@, "sec-websocket-protocol"@, o.protocols@)),
            r.method == req.method,
            r.uri == req.uri,
    {
        let key = random_key();
        let r = Self::prepare_request_with_key(req, key, options);
        assert(key@.len() == 16);
        r
    }

    /// Checks a response against the key kept in the request's extensions.
    pub fn verify_response(status: u16, headers: &HeaderMap, extensions: &Extensions) -> (r: Result<
        (),
        WebsocketUpgradeError,
    >)
        requires
            headers.wf(),
            extensions.websocket_key is Some,
        ensures
            r == verdict(status, headers@, extensions.websocket_key->Some_0@),
    {
        if status != 101 {
            return Err(WebsocketUpgradeError::InvalidStatus(status));
        }
        let websocket = vec!['w', 'e', 'b', 's', 'o', 'c', 'k', 'e', 't'];
        let upgrade_tok = vec!['U', 'p', 'g', 'r', 'a', 'd', 'e'];
        proof {
            reveal_strlit("websocket");
            reveal_strlit("Upgrade");
            assert(websocket@ =~= "websocket"@);
            assert(upgrade_tok@ =~= "Upgrade"@);
        }
        match headers.get("upgrade") {
            Some(v) => {
                let c = chars_of(v);
                if !eq_ignore_case_in(&c, 0, c.len(), &websocket) {
                    proof {
                        assert(c@.subrange(0, c@.len() as int) =~= c@);
                    }
                    return Err(WebsocketUpgradeError::InvalidUpgradeType);
                }
                proof {
                    assert(c@.subrange(0, c@.len() as int) =~= c@);
                }
            },
            None => return Err(WebsocketUpgradeError::InvalidUpgradeType),
        }
        match headers.get("connection") {
            Some(v) => {
                let c = chars_of(v);
                if !eq_ignore_case_in(&c, 0, c.len(), &upgrade_tok) {
                    proof {
                        assert(c@.subrange(0, c@.len() as int) =~= c@);
                    }
                    return Err(WebsocketUpgradeError::InvalidConnectionHeader);
                }
                proof {
                    assert(c@.subrange(0, c@.len() as int) =~= c@);
                }
            },
            None => return Err(WebsocketUpgradeError::InvalidConnectionHeader),
        }
        let key = match &extensions.websocket_key {
            Some(k) => k,
            None => return Err(WebsocketUpgradeError::MissingChallenge),
        };
        match headers.get("sec-websocket-accept") {
            None => Err(WebsocketUpgradeError::MissingChallenge),
            Some(accept) => {
                let expected = challenge(key.as_str());
                let a = chars_of(accept);
                let e = chars_of(expected.as_str());
                if crate::headers::eq_chars(&a, &e) {
                    Ok(())
                } else {
                    Err(WebsocketUpgradeError::InvalidChallenge)
                }
            },
        }
    }
}

/// The accept value that answers `key`.
pub fn challenge(key: &str) -> (r: String)
    ensures
        r@ == challenge_of(key@),
{
    let mut data = crate::request::bytes_of(key);
    let g = crate::request::bytes_of("258EAFA5-E914-47DA-95CA-C5AB0DC85B11");
    let mut i: usize = 0;
    let ghost start = data@;
    while i < g.len()
        invariant
            0 <= i <= g@.len(),
            data@ == start + g@.subrange(0, i as int),
        decreases g@.len() - i,
    {
        data.push(g[i]);
        i = i + 1;
        proof {
            assert(data@ =~= start + g@.subrange(0, i as int));
        }
    }
    proof {
        assert(g@.subrange(0, g@.len() as int) =~= g@);
    }
    let digest = sha1(data.as_slice());
    base64_encode(digest.as_slice())
}

/// A protocol that a request can be upgraded to.
pub trait Upgrade {
    /// Options of the upgrade.
    type Options;

    /// Whether the options can be applied.
    spec fn options_ok(options: Self::Options) -> bool;

    /// Prepares the request for the upgrade.
    fn prepare_request(req: Builder, options: Self::Options) -> (r: Request)
        requires
            req.wf(),
            Self::options_ok(options),
        ensures
            r.wf(),
    ;
}

impl Upgrade for WebsocketUpgrade {
    type Options = Option<WebsocketUpgradeOpts>;

    open spec fn options_ok(options: Self::Options) -> bool {
        options_valid(options)
    }

    fn prepare_request(req: Builder, options: Self::Options) -> (r: Request) {
        WebsocketUpgrade::prepare_request(req, options)
    }
}

} // verus!
