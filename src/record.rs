//! The outer TLS record: its 5-byte header and the dispatch on content type.
use vstd::prelude::*;
use vstd::slice::slice_subrange;

use crate::error::ParseError;
use crate::handshake::{spec_handshake, Handshake, HandshakeModel};
use crate::wire::{be16, copy_array, read_u16};

verus! {

/// Bytes of the record header: content type, version and payload length.
pub const RECORD_HEADER_LEN: usize = 5;

/// The content type of a handshake record.
pub const HANDSHAKE: u8 = 22;

/// The payload of a record, by content type. Only handshake records are
/// decoded; alerts are named but never produced.
#[derive(Debug)]
pub enum Record<'a> {
    ClientHello(Handshake<'a>),
    Alert,
}

/// What a decoded record payload holds.
pub enum RecordModel {
    ClientHello(HandshakeModel),
    Alert,
}

impl<'a> View for Record<'a> {
    type V = RecordModel;

    open spec fn view(&self) -> RecordModel {
        match self {
            Record::ClientHello(h) => RecordModel::ClientHello(h@),
            Record::Alert => RecordModel::Alert,
        }
    }
}

/// The decoding of record payload `data` of content type `content_type`.
pub open spec fn spec_record(data: Seq<u8>, content_type: u8) -> Result<RecordModel, ParseError> {
    if content_type == HANDSHAKE {
        match spec_handshake(data) {
            Ok(h) => Ok(RecordModel::ClientHello(h)),
            Err(e) => Err(e),
        }
    } else {
        Err(ParseError::UnsupportedContentType(content_type))
    }
}

impl<'a> Record<'a> {
    /// Decodes a record payload by its content type; any type but handshake
    /// is refused.
    pub fn parse(data: &'a [u8], content_type: u8) -> (r: Result<Record<'a>, ParseError>)
        ensures
            match (r, spec_record(data@, content_type)) {
                (Ok(x), Ok(m)) => x@ == m,
                (Err(e), Err(f)) => e == f,
                _ => false,
            },
    {
        if content_type == HANDSHAKE {
            match Handshake::parse(data) {
                Ok(h) => Ok(Record::ClientHello(h)),
                Err(e) => Err(e),
            }
        } else {
            Err(ParseError::UnsupportedContentType(content_type))
        }
    }
}

/// One decoded TLS record. Bytes after its declared length are not read.
#[derive(Debug)]
pub struct Tls<'a> {
    pub content_type: u8,
    pub version: [u8; 2],
    pub length: u16,
    pub record: Record<'a>,
}

/// What a decoded TLS record holds.
pub struct TlsModel {
    pub content_type: u8,
    pub version: Seq<u8>,
    pub length: u16,
    pub record: RecordModel,
}

impl<'a> View for Tls<'a> {
    type V = TlsModel;

    open spec fn view(&self) -> TlsModel {
        TlsModel {
            content_type: self.content_type,
            version: self.version@,
            length: self.length,
            record: self.record@,
        }
    }
}

/// The decoding of buffer `b`: the record header, then exactly the declared
/// length of payload, which must be present.
pub open spec fn spec_tls(b: Seq<u8>) -> Result<TlsModel, ParseError> {
    if b.len() < RECORD_HEADER_LEN || b.len() < RECORD_HEADER_LEN + be16(b, 3) {
        Err(ParseError::Truncated)
    } else {
        match spec_record(b.subrange(5, 5 + be16(b, 3)), b[0]) {
            Ok(r) => Ok(TlsModel { content_type: b[0], version: b.subrange(1, 3), length: be16(b, 3), record: r }),
            Err(e) => Err(e),
        }
    }
}

impl<'a> Tls<'a> {
    /// Decodes one TLS record from the start of `data`.
    pub fn parse(data: &'a [u8]) -> (r: Result<Tls<'a>, ParseError>)
        ensures
            match (r, spec_tls(data@)) {
                (Ok(t), Ok(m)) => t@ == m,
                (Err(e), Err(f)) => e == f,
                _ => false,
            },
    {
        if data.len() < RECORD_HEADER_LEN {
            return Err(ParseError::Truncated);
        }
        let content_type = data[0];
        let version = copy_array::<2>(data, 1);
        let length = read_u16(data, 3);
        if data.len() - RECORD_HEADER_LEN < length as usize {
            return Err(ParseError::Truncated);
        }
        let payload = slice_subrange(data, RECORD_HEADER_LEN, RECORD_HEADER_LEN + length as usize);
        match Record::parse(payload, content_type) {
            Ok(record) => Ok(Tls { content_type, version, length, record }),
            Err(e) => Err(e),
        }
    }
}

} // verus!
