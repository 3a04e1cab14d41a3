//! Where a connector dials for a target.

use vstd::prelude::*;
use crate::headers::clone_string;
use crate::text::chars_of;
use crate::uri::{Uri, UriView};

verus! {

/// Plain TCP connector.
#[derive(Clone, Copy, Debug, Default)]
pub struct HttpConnector;

/// Why a target cannot be dialled.
#[derive(Clone, Copy, Debug, PartialEq, Eq, Structural)]
pub enum ConnectError {
    /// The target has no host.
    NoHost,
}

/// The port dialled for a target: its own, else 443 for `https` and 80 otherwise.
pub open spec fn port_of(u: UriView) -> u16 {
    match u.port {
        Some(p) => p,
        None => if u.scheme == Some("https"@) {
            443
        } else {
            80
        },
    }
}

/// Host and port to dial for `uri`.
pub fn connect_target(uri: &Uri) -> (r: Result<(String, u16), ConnectError>)
    ensures
        match uri@.host {
            None => r == Err::<(String, u16), ConnectError>(ConnectError::NoHost),
            Some(h) => r matches Ok(t) && t.0@ == h && t.1 == port_of(uri@),
        },
{
    let host = match &uri.host {
        Some(h) => clone_string(h),
        None => return Err(ConnectError::NoHost),
    };
    let port = match uri.port {
        Some(p) => p,
        None => match &uri.scheme {
            Some(s) => {
                let c = chars_of(s.as_str());
                let https = vec!['h', 't', 't', 'p', 's'];
                proof {
                    reveal_strlit("https");
                    assert(https@ =~= "https"@);
                }
                if crate::headers::eq_chars(&c, &https) {
                    443
                } else {
                    80
                }
            },
            None => 80,
        },
    };
    Ok((host, port))
}

} // verus!
