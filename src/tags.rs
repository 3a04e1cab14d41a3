//! Which header a conditional request tag goes into.

use vstd::prelude::*;

verus! {

/// Header that an entity tag is set into.
pub trait EtagMode {
    /// Name of the header.
    spec fn name() -> Seq<char>;

    /// Name of the header.
    fn header_name() -> (r: &'static str)
        ensures
            r@ == Self::name();
}

/// Sets the tag into `If-None-Match`.
pub struct IfNoneMatch;

impl EtagMode for IfNoneMatch {
    open spec fn name() -> Seq<char> {
        "if-none-match"@
    }

    fn header_name() -> (r: &'static str) {
        "if-none-match"
    }
}

/// Sets the tag into `If-Match`.
pub struct IfMatch;

impl EtagMode for IfMatch {
    open spec fn name() -> Seq<char> {
        "if-match"@
    }

    fn header_name() -> (r: &'static str) {
        "if-match"
    }
}

/// Header that an HTTP-date is set into.
pub trait DateMode {
    /// Name of the header.
    spec fn name() -> Seq<char>;

    /// Name of the header.
    fn header_name() -> (r: &'static str)
        ensures
            r@ == Self::name();
}

/// Sets the date into `If-Modified-Since`.
pub struct IfModifiedSince;

impl DateMode for IfModifiedSince {
    open spec fn name() -> Seq<char> {
        "if-modified-since"@
    }

    fn header_name() -> (r: &'static str) {
        "if-modified-since"
    }
}

/// Sets the date into `If-Unmodified-Since`.
pub struct IfUnmodifiedSince;

impl DateMode for IfUnmodifiedSince {
    open spec fn name() -> Seq<char> {
        "if-unmodified-since"@
    }

    fn header_name() -> (r: &'static str) {
        "if-unmodified-since"
    }
}

} // verus!
