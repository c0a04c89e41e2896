//! The ClientHello body: fixed fields, session id, cipher suites,
//! compression methods and extensions, in wire order.
use vstd::prelude::*;
use vstd::slice::slice_subrange;

use crate::cipher_suite::{spec_cipher_suites, CipherSuites, CipherSuitesModel};
use crate::error::ParseError;
use crate::extensions::{spec_extensions, EntryModel, Extensions};
use crate::wire::{be16, be24, copy_array, read_u16, read_u24};

verus! {

/// Bytes of the handshake header: the type and the 3-byte body length.
pub const HANDSHAKE_HEADER_LEN: usize = 4;

/// Offset of the session-id length: it follows the header, the version and
/// the 32 bytes of random value.
pub const SESSION_ID_LENGTH_AT: usize = 38;

/// Most compression methods one ClientHello may offer.
pub const MAX_COMPRESSION_METHODS: usize = 10;

/// A decoded ClientHello. Variable-length parts borrow the input.
#[derive(Debug)]
pub struct Handshake<'a> {
    pub handshake_type: u8,
    pub length: [u8; 3],
    pub version: [u8; 2],
    pub random_time: [u8; 4],
    pub random_bytes: [u8; 28],
    pub session_id_length: u8,
    pub session_id: &'a [u8],
    pub cipher_suites_length: u16,
    pub cipher_suites: CipherSuites,
    pub compression_methods_length: u8,
    pub compression_methods: &'a [u8],
    pub extensions_length: u16,
    pub extensions: Extensions<'a>,
}

/// What a decoded ClientHello holds.
pub struct HandshakeModel {
    pub handshake_type: u8,
    pub length: Seq<u8>,
    pub version: Seq<u8>,
    pub random_time: Seq<u8>,
    pub random_bytes: Seq<u8>,
    pub session_id_length: u8,
    pub session_id: Seq<u8>,
    pub cipher_suites_length: u16,
    pub cipher_suites: CipherSuitesModel,
    pub compression_methods_length: u8,
    pub compression_methods: Seq<u8>,
    pub extensions_length: u16,
    pub extensions: Seq<EntryModel>,
}

impl<'a> View for Handshake<'a> {
    type V = HandshakeModel;

    open spec fn view(&self) -> HandshakeModel {
        HandshakeModel {
            handshake_type: self.handshake_type,
            length: self.length@,
            version: self.version@,
            random_time: self.random_time@,
            random_bytes: self.random_bytes@,
            session_id_length: self.session_id_length,
            session_id: self.session_id@,
            cipher_suites_length: self.cipher_suites_length,
            cipher_suites: self.cipher_suites@,
            compression_methods_length: self.compression_methods_length,
            compression_methods: self.compression_methods@,
            extensions_length: self.extensions_length,
            extensions: self.extensions@,
        }
    }
}

/// The body length that the handshake header declares.
pub open spec fn declared_length(m: HandshakeModel) -> int {
    (m.length[0] as int) * 65536 + (m.length[1] as int) * 256 + (m.length[2] as int)
}

/// Offset just past the session id of ClientHello `b`.
pub open spec fn session_id_end(b: Seq<u8>) -> int {
    SESSION_ID_LENGTH_AT + 1 + b[SESSION_ID_LENGTH_AT as int]
}

/// Offset just past the cipher-suite list of ClientHello `b`.
pub open spec fn cipher_suites_end(b: Seq<u8>) -> int {
    session_id_end(b) + 2 + be16(b, session_id_end(b))
}

/// Offset just past the compression methods of ClientHello `b`.
pub open spec fn compression_methods_end(b: Seq<u8>) -> int {
    cipher_suites_end(b) + 1 + b[cipher_suites_end(b)]
}

/// Offset just past the extension list of ClientHello `b`: where its fields,
/// read in wire order, end.
pub open spec fn extensions_end(b: Seq<u8>) -> int {
    compression_methods_end(b) + 2 + be16(b, compression_methods_end(b))
}

/// The decoding of the extensions length and extension list of ClientHello
/// `b`, which start at `at`.
pub open spec fn spec_extensions_tail(b: Seq<u8>, at: int) -> Result<(u16, Seq<EntryModel>), ParseError> {
    if b.len() < at + 2 || b.len() < at + 2 + be16(b, at) {
        Err(ParseError::Truncated)
    } else {
        match spec_extensions(b.subrange(at + 2, at + 2 + be16(b, at))) {
            Ok(x) => Ok((be16(b, at), x)),
            Err(e) => Err(e),
        }
    }
}

/// The decoding of a ClientHello `b`. Its declared body length must fit in
/// `b`, and so must every field, read in wire order; bytes after the
/// extension list are not read.
pub open spec fn spec_handshake(b: Seq<u8>) -> Result<HandshakeModel, ParseError> {
    if b.len() < HANDSHAKE_HEADER_LEN || b.len() < HANDSHAKE_HEADER_LEN + be24(b, 1) {
        Err(ParseError::Truncated)
    } else if b.len() < SESSION_ID_LENGTH_AT + 1 || b.len() < session_id_end(b) + 2 || b.len()
        < cipher_suites_end(b) {
        Err(ParseError::Truncated)
    } else {
        let sid_end = session_id_end(b);
        let cs_end = cipher_suites_end(b);
        match spec_cipher_suites(b.subrange(sid_end + 2, cs_end)) {
            Err(e) => Err(e),
            Ok(cs) => if b.len() < cs_end + 1 {
                Err(ParseError::Truncated)
            } else if b[cs_end] > MAX_COMPRESSION_METHODS {
                Err(ParseError::CapacityExceeded)
            } else if b.len() < compression_methods_end(b) {
                Err(ParseError::Truncated)
            } else {
                let cm_end = compression_methods_end(b);
                match spec_extensions_tail(b, cm_end) {
                    Err(e) => Err(e),
                    Ok((ext_len, ext)) => Ok(
                        HandshakeModel {
                            handshake_type: b[0],
                            length: b.subrange(1, 4),
                            version: b.subrange(4, 6),
                            random_time: b.subrange(6, 10),
                            random_bytes: b.subrange(10, 38),
                            session_id_length: b[SESSION_ID_LENGTH_AT as int],
                            session_id: b.subrange(SESSION_ID_LENGTH_AT + 1, sid_end),
                            cipher_suites_length: be16(b, sid_end),
                            cipher_suites: cs,
                            compression_methods_length: b[cs_end],
                            compression_methods: b.subrange(cs_end + 1, cm_end),
                            extensions_length: ext_len,
                            extensions: ext,
                        },
                    ),
                }
            },
        }
    }
}

impl<'a> Handshake<'a> {
    /// Decodes a ClientHello from the payload of a handshake record.
    pub fn parse(bytes: &'a [u8]) -> (r: Result<Handshake<'a>, ParseError>)
        ensures
            match (r, spec_handshake(bytes@)) {
                (Ok(h), Ok(m)) => h@ == m,
                (Err(e), Err(f)) => e == f,
                _ => false,
            },
    {
        if bytes.len() < HANDSHAKE_HEADER_LEN {
            return Err(ParseError::Truncated);
        }
        let declared = read_u24(bytes, 1) as usize;
        if bytes.len() - HANDSHAKE_HEADER_LEN < declared {
            return Err(ParseError::Truncated);
        }
        let end = bytes.len();
        if end < SESSION_ID_LENGTH_AT + 1 {
            return Err(ParseError::Truncated);
        }
        let handshake_type = bytes[0];
        let length = copy_array::<3>(bytes, 1);
        let version = copy_array::<2>(bytes, 4);
        let random_time = copy_array::<4>(bytes, 6);
        let random_bytes = copy_array::<28>(bytes, 10);
        let session_id_length = bytes[SESSION_ID_LENGTH_AT];
        let sid_end = SESSION_ID_LENGTH_AT + 1 + session_id_length as usize;
        if end < sid_end || end - sid_end < 2 {
            return Err(ParseError::Truncated);
        }
        let session_id = slice_subrange(bytes, SESSION_ID_LENGTH_AT + 1, sid_end);
        let cipher_suites_length = read_u16(bytes, sid_end);
        if end - sid_end - 2 < cipher_suites_length as usize {
            return Err(ParseError::Truncated);
        }
        let cs_end = sid_end + 2 + cipher_suites_length as usize;
        let cipher_suites = match CipherSuites::parse(slice_subrange(bytes, sid_end + 2, cs_end)) {
            Ok(c) => c,
            Err(e) => return Err(e),
        };
        if end - cs_end < 1 {
            return Err(ParseError::Truncated);
        }
        let compression_methods_length = bytes[cs_end];
        if compression_methods_length as usize > MAX_COMPRESSION_METHODS {
            return Err(ParseError::CapacityExceeded);
        }
        if end - cs_end - 1 < compression_methods_length as usize {
            return Err(ParseError::Truncated);
        }
        let cm_end = cs_end + 1 + compression_methods_length as usize;
        let compression_methods = slice_subrange(bytes, cs_end + 1, cm_end);
        if end - cm_end < 2 {
            return Err(ParseError::Truncated);
        }
        let extensions_length = read_u16(bytes, cm_end);
        if end - cm_end - 2 < extensions_length as usize {
            return Err(ParseError::Truncated);
        }
        let ext_end = cm_end + 2 + extensions_length as usize;
        let extensions = match Extensions::parse(slice_subrange(bytes, cm_end + 2, ext_end)) {
            Ok(x) => x,
            Err(e) => return Err(e),
        };
        Ok(
            Handshake {
                handshake_type,
                length,
                version,
                random_time,
                random_bytes,
                session_id_length,
                session_id,
                cipher_suites_length,
                cipher_suites,
                compression_methods_length,
                compression_methods,
                extensions_length,
                extensions,
            },
        )
    }
}

} // verus!
