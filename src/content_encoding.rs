//! The `Content-Encoding` header.

use vstd::prelude::*;

verus! {

/// Value of the `Content-Encoding` header.
#[derive(Clone, Copy, Debug, PartialEq, Eq, Structural)]
pub enum ContentEncoding {
    /// No compression.
    Identity,
    /// Gzip compression.
    Gzip,
    /// Zlib-wrapped deflate compression.
    Deflate,
    /// Brotli compression.
    Brotli,
}

/// Textual token of an encoding.
pub open spec fn encoding_token(e: ContentEncoding) -> Seq<char> {
    match e {
        ContentEncoding::Identity => seq!['i', 'd', 'e', 'n', 't', 'i', 't', 'y'],
        ContentEncoding::Gzip => seq!['g', 'z', 'i', 'p'],
        ContentEncoding::Deflate => seq!['d', 'e', 'f', 'l', 'a', 't', 'e'],
        ContentEncoding::Brotli => seq!['b', 'r'],
    }
}

/// The encoding that a header value names; unknown values mean identity.
pub open spec fn encoding_of(text: Seq<char>) -> ContentEncoding {
    if text == encoding_token(ContentEncoding::Brotli) {
        ContentEncoding::Brotli
    } else if text == encoding_token(ContentEncoding::Gzip) {
        ContentEncoding::Gzip
    } else if text == encoding_token(ContentEncoding::Deflate) {
        ContentEncoding::Deflate
    } else {
        ContentEncoding::Identity
    }
}

impl ContentEncoding {
    /// Whether the encoding compresses the payload.
    pub fn is_compression(&self) -> (r: bool)
        ensures
            r == (*self != ContentEncoding::Identity),
    {
        match *self {
            ContentEncoding::Identity => false,
            _ => true,
        }
    }

    /// Whether this library can decompress the encoding (gzip and deflate).
    pub fn can_decompress(&self) -> (r: bool)
        ensures
            r == (*self == ContentEncoding::Gzip || *self == ContentEncoding::Deflate),
    {
        match *self {
            ContentEncoding::Gzip => true,
            ContentEncoding::Deflate => true,
            _ => false,
        }
    }

    /// Textual representation of the encoding.
    pub fn as_str(&self) -> (r: &'static str)
        ensures
            r@ == encoding_token(*self),
    {
        proof {
            reveal_strlit("identity");
            reveal_strlit("gzip");
            reveal_strlit("deflate");
            reveal_strlit("br");
        }
        match *self {
            ContentEncoding::Identity => "identity",
            ContentEncoding::Gzip => "gzip",
            ContentEncoding::Deflate => "deflate",
            ContentEncoding::Brotli => "br",
        }
    }
}

} // verus!
