//! Offered cipher suites: the closed set of recognized codes and the
//! length-delimited list that carries them.
use vstd::prelude::*;

use crate::error::ParseError;
use crate::wire::{be16, read_u16};

verus! {

/// Most cipher suites one list may offer.
pub const MAX_CIPHER_SUITES: usize = 256;

/// A cipher suite this decoder recognizes, named after its IANA identifier.
#[derive(Debug, Clone, Copy, PartialEq, Eq, Structural)]
pub enum CipherSuite {
    TlsEcdheEcdsaWithAes256GcmSha384,
    TlsEcdheEcdsaWithAes128GcmSha256,
    TlsEcdheRsaWithAes256GcmSha384,
    TlsEcdheRsaWithAes128GcmSha256,
    TlsDheRsaWithAes256GcmSha384,
    TlsDheRsaWithAes128GcmSha256,
    TlsEcdheEcdsaWithAes256CbcSha384,
    TlsEcdheEcdsaWithAes128CbcSha256,
    TlsEcdheRsaWithAes256CbcSha384,
    TlsEcdheRsaWithAes128CbcSha256,
    TlsEcdheEcdsaWithAes256CbcSha,
    TlsEcdheEcdsaWithAes128CbcSha,
    TlsEcdheRsaWithAes256CbcSha,
    TlsEcdheRsaWithAes128CbcSha,
    TlsRsaWithAes256GcmSha384,
    TlsRsaWithAes128GcmSha256,
    TlsRsaWithAes256CbcSha256,
    TlsRsaWithAes128CbcSha256,
    TlsRsaWithAes256CbcSha,
    TlsRsaWithAes128CbcSha,
    TlsRsaWith3desEdeCbcSha,
}

/// The suite that a two-byte wire code names, or `None` for a code outside
/// the recognized set.
pub open spec fn suite_of(code: u16) -> Option<CipherSuite> {
    match code {
        0xc02c => Some(CipherSuite::TlsEcdheEcdsaWithAes256GcmSha384),
        0xc02b => Some(CipherSuite::TlsEcdheEcdsaWithAes128GcmSha256),
        0xc030 => Some(CipherSuite::TlsEcdheRsaWithAes256GcmSha384),
        0xc02f => Some(CipherSuite::TlsEcdheRsaWithAes128GcmSha256),
        0x009f => Some(CipherSuite::TlsDheRsaWithAes256GcmSha384),
        0x009e => Some(CipherSuite::TlsDheRsaWithAes128GcmSha256),
        0xc024 => Some(CipherSuite::TlsEcdheEcdsaWithAes256CbcSha384),
        0xc023 => Some(CipherSuite::TlsEcdheEcdsaWithAes128CbcSha256),
        0xc028 => Some(CipherSuite::TlsEcdheRsaWithAes256CbcSha384),
        0xc027 => Some(CipherSuite::TlsEcdheRsaWithAes128CbcSha256),
        0xc00a => Some(CipherSuite::TlsEcdheEcdsaWithAes256CbcSha),
        0xc009 => Some(CipherSuite::TlsEcdheEcdsaWithAes128CbcSha),
        0xc014 => Some(CipherSuite::TlsEcdheRsaWithAes256CbcSha),
        0xc013 => Some(CipherSuite::TlsEcdheRsaWithAes128CbcSha),
        0x009d => Some(CipherSuite::TlsRsaWithAes256GcmSha384),
        0x009c => Some(CipherSuite::TlsRsaWithAes128GcmSha256),
        0x003d => Some(CipherSuite::TlsRsaWithAes256CbcSha256),
        0x003c => Some(CipherSuite::TlsRsaWithAes128CbcSha256),
        0x0035 => Some(CipherSuite::TlsRsaWithAes256CbcSha),
        0x002f => Some(CipherSuite::TlsRsaWithAes128CbcSha),
        0x000a => Some(CipherSuite::TlsRsaWith3desEdeCbcSha),
        _ => None,
    }
}

impl CipherSuite {
    /// Decodes one wire code; `None` reports a code outside the recognized set.
    pub fn parse(code: u16) -> (r: Option<CipherSuite>)
        ensures
            r == suite_of(code),
    {
        match code {
            0xc02c => Some(CipherSuite::TlsEcdheEcdsaWithAes256GcmSha384),
            0xc02b => Some(CipherSuite::TlsEcdheEcdsaWithAes128GcmSha256),
            0xc030 => Some(CipherSuite::TlsEcdheRsaWithAes256GcmSha384),
            0xc02f => Some(CipherSuite::TlsEcdheRsaWithAes128GcmSha256),
            0x009f => Some(CipherSuite::TlsDheRsaWithAes256GcmSha384),
            0x009e => Some(CipherSuite::TlsDheRsaWithAes128GcmSha256),
            0xc024 => Some(CipherSuite::TlsEcdheEcdsaWithAes256CbcSha384),
            0xc023 => Some(CipherSuite::TlsEcdheEcdsaWithAes128CbcSha256),
            0xc028 => Some(CipherSuite::TlsEcdheRsaWithAes256CbcSha384),
            0xc027 => Some(CipherSuite::TlsEcdheRsaWithAes128CbcSha256),
            0xc00a => Some(CipherSuite::TlsEcdheEcdsaWithAes256CbcSha),
            0xc009 => Some(CipherSuite::TlsEcdheEcdsaWithAes128CbcSha),
            0xc014 => Some(CipherSuite::TlsEcdheRsaWithAes256CbcSha),
            0xc013 => Some(CipherSuite::TlsEcdheRsaWithAes128CbcSha),
            0x009d => Some(CipherSuite::TlsRsaWithAes256GcmSha384),
            0x009c => Some(CipherSuite::TlsRsaWithAes128GcmSha256),
            0x003d => Some(CipherSuite::TlsRsaWithAes256CbcSha256),
            0x003c => Some(CipherSuite::TlsRsaWithAes128CbcSha256),
            0x0035 => Some(CipherSuite::TlsRsaWithAes256CbcSha),
            0x002f => Some(CipherSuite::TlsRsaWithAes128CbcSha),
            0x000a => Some(CipherSuite::TlsRsaWith3desEdeCbcSha),
            _ => None,
        }
    }
}

/// The wire codes of a cipher-suite list, two bytes each, in order.
pub open spec fn suite_codes(b: Seq<u8>) -> Seq<u16> {
    Seq::new(b.len() / 2, |i: int| be16(b, 2 * i))
}

/// The recognized suites among `codes`, in order.
pub open spec fn recognized(codes: Seq<u16>) -> Seq<CipherSuite>
    decreases codes.len(),
{
    if codes.len() == 0 {
        Seq::empty()
    } else {
        let rest = recognized(codes.drop_last());
        match suite_of(codes.last()) {
            Some(s) => rest.push(s),
            None => rest,
        }
    }
}

/// The codes among `codes` that are outside the recognized set, in order.
pub open spec fn unrecognized(codes: Seq<u16>) -> Seq<u16>
    decreases codes.len(),
{
    if codes.len() == 0 {
        Seq::empty()
    } else {
        let rest = unrecognized(codes.drop_last());
        match suite_of(codes.last()) {
            Some(_) => rest,
            None => rest.push(codes.last()),
        }
    }
}

/// A decoded cipher-suite list: the recognized suites, and the codes that
/// were skipped because they are not recognized.
#[derive(Debug)]
pub struct CipherSuites {
    pub suites: Vec<CipherSuite>,
    pub unrecognized: Vec<u16>,
}

/// What a decoded cipher-suite list holds.
pub struct CipherSuitesModel {
    pub suites: Seq<CipherSuite>,
    pub unrecognized: Seq<u16>,
}

impl View for CipherSuites {
    type V = CipherSuitesModel;

    open spec fn view(&self) -> CipherSuitesModel {
        CipherSuitesModel { suites: self.suites@, unrecognized: self.unrecognized@ }
    }
}

/// The decoding of the cipher-suite payload `b`: more than the capacity of
/// codes is refused, an odd length ends in half a code.
pub open spec fn spec_cipher_suites(b: Seq<u8>) -> Result<CipherSuitesModel, ParseError> {
    if b.len() > 2 * MAX_CIPHER_SUITES {
        Err(ParseError::CapacityExceeded)
    } else if b.len() % 2 != 0 {
        Err(ParseError::Truncated)
    } else {
        Ok(
            CipherSuitesModel {
                suites: recognized(suite_codes(b)),
                unrecognized: unrecognized(suite_codes(b)),
            },
        )
    }
}

impl CipherSuites {
    /// Decodes exactly the bytes of a cipher-suite list.
    pub fn parse(bytes: &[u8]) -> (r: Result<CipherSuites, ParseError>)
        ensures
            match (r, spec_cipher_suites(bytes@)) {
                (Ok(l), Ok(m)) => l@ == m,
                (Err(e), Err(f)) => e == f,
                _ => false,
            },
    {
        if bytes.len() > 2 * MAX_CIPHER_SUITES {
            return Err(ParseError::CapacityExceeded);
        }
        if bytes.len() % 2 != 0 {
            return Err(ParseError::Truncated);
        }
        let ghost codes = suite_codes(bytes@);
        let mut suites: Vec<CipherSuite> = Vec::new();
        let mut skipped: Vec<u16> = Vec::new();
        let mut i: usize = 0;
        while i < bytes.len()
            invariant
                i % 2 == 0,
                i <= bytes@.len(),
                bytes@.len() % 2 == 0,
                codes == suite_codes(bytes@),
                suites@ == recognized(codes.take((i / 2) as int)),
                skipped@ == unrecognized(codes.take((i / 2) as int)),
            decreases bytes@.len() - i,
        {
            let code = read_u16(bytes, i);
            let ghost k: int = (i / 2) as int;
            assert(codes.take(k + 1).drop_last() =~= codes.take(k));
            assert(codes.take(k + 1).last() == code);
            match CipherSuite::parse(code) {
                Some(s) => suites.push(s),
                None => skipped.push(code),
            }
            i = i + 2;
        }
        assert(codes.take((i / 2) as int) =~= codes);
        Ok(CipherSuites { suites, unrecognized: skipped })
    }
}

} // verus!
