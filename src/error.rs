use vstd::prelude::*;

verus! {

/// Why a buffer could not be decoded.
#[derive(Debug, Clone, Copy, PartialEq, Eq, Structural)]
pub enum ParseError {
    /// A fixed field or a declared length runs past the end of the bytes supplied.
    Truncated,
    /// More entries than a bounded list holds (cipher suites, extensions,
    /// compression methods).
    CapacityExceeded,
    /// A record whose content type this decoder does not handle.
    UnsupportedContentType(u8),
}

} // verus!
