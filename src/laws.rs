//! Properties of the decoder, stated over the decoding functions that the
//! executable parsers are proved to follow.
use vstd::prelude::*;

use crate::cipher_suite::{
    recognized, spec_cipher_suites, suite_codes, suite_of, unrecognized, MAX_CIPHER_SUITES,
};
use crate::error::ParseError;
use crate::extensions::{
    entry_size, spec_extension, spec_extension_entries, spec_extensions, EntryModel,
    MAX_EXTENSIONS,
};
use crate::handshake::{
    compression_methods_end, declared_length, extensions_end, session_id_end,
    cipher_suites_end, spec_handshake, HandshakeModel, MAX_COMPRESSION_METHODS,
    SESSION_ID_LENGTH_AT,
};
use crate::record::{spec_tls, HANDSHAKE, RECORD_HEADER_LEN};
use crate::wire::{be16, be24};

verus! {

/// Total wire size of a run of extension entries.
pub open spec fn total_size(s: Seq<EntryModel>) -> nat
    decreases s.len(),
{
    if s.len() == 0 {
        0
    } else {
        entry_size(s[0]) + total_size(s.skip(1))
    }
}

/// Bytes of a ClientHello body that its fields take: version, random value,
/// session id with its length, cipher suites, compression methods and
/// extensions, each with its length field.
pub open spec fn body_size(m: HandshakeModel) -> int {
    m.version.len() + m.random_time.len() + m.random_bytes.len() + 1 + m.session_id.len() + 2
        + m.cipher_suites_length + 1 + m.compression_methods.len() + 2 + m.extensions_length
}

/// The bytes that the entries of a decoded extension list take add up to the
/// whole list, whether or not their types are recognized.
pub proof fn extension_list_consumes_all(b: Seq<u8>, room: nat)
    ensures
        match spec_extension_entries(b, room) {
            Ok(s) => total_size(s) == b.len() && s.len() <= room,
            Err(_) => true,
        },
    decreases b.len(),
{
    if b.len() > 0 && room > 0 {
        if let Ok(m) = spec_extension(b) {
            if entry_size(m) <= b.len() {
                let rest = b.skip(entry_size(m) as int);
                extension_list_consumes_all(rest, (room - 1) as nat);
                if let Ok(t) = spec_extension_entries(rest, (room - 1) as nat) {
                    assert((seq![m] + t).skip(1) =~= t);
                }
            }
        }
    }
}

/// The whole extension list is consumed by the decoded entries, and no more
/// entries than the capacity come back.
pub proof fn extensions_consume_declared_length(b: Seq<u8>)
    ensures
        match spec_extensions(b) {
            Ok(s) => total_size(s) == b.len() && s.len() <= MAX_EXTENSIONS,
            Err(_) => true,
        },
{
    extension_list_consumes_all(b, MAX_EXTENSIONS as nat);
}

/// Every code of a list of even length within capacity is either decoded or
/// reported as unrecognized; an unrecognized code never aborts the list.
pub proof fn unrecognized_codes_are_reported(b: Seq<u8>)
    requires
        b.len() % 2 == 0,
        b.len() <= 2 * MAX_CIPHER_SUITES,
    ensures
        match spec_cipher_suites(b) {
            Ok(m) => m.suites.len() + m.unrecognized.len() == b.len() / 2 && forall|i: int|
                0 <= i < b.len() / 2 && #[trigger] suite_of(be16(b, 2 * i)) is None
                    ==> m.unrecognized.contains(be16(b, 2 * i)),
            Err(_) => false,
        },
{
    let codes = suite_codes(b);
    codes_are_kept_or_reported(codes);
    assert forall|i: int| 0 <= i < b.len() / 2 && #[trigger] suite_of(be16(b, 2 * i)) is None implies
        unrecognized(codes).contains(be16(b, 2 * i)) by {
        assert(codes[i] == be16(b, 2 * i));
    }
}

/// Each code of `codes` is kept as a suite or reported as unrecognized.
proof fn codes_are_kept_or_reported(codes: Seq<u16>)
    ensures
        recognized(codes).len() + unrecognized(codes).len() == codes.len(),
        forall|i: int|
            0 <= i < codes.len() && suite_of(#[trigger] codes[i]) is None ==> unrecognized(
                codes,
            ).contains(codes[i]),
    decreases codes.len(),
{
    if codes.len() > 0 {
        let init = codes.drop_last();
        codes_are_kept_or_reported(init);
        assert forall|i: int|
            0 <= i < codes.len() && suite_of(#[trigger] codes[i]) is None implies unrecognized(
                codes,
            ).contains(codes[i]) by {
            if i < codes.len() - 1 {
                assert(init[i] == codes[i]);
                let j = choose|j: int| 0 <= j < unrecognized(init).len() && unrecognized(init)[j] == init[i];
                assert(unrecognized(codes)[j] == codes[i]);
            } else {
                assert(unrecognized(codes).last() == codes[i]);
            }
        }
    }
}

/// Decoding is a function of the bytes alone: the same buffer decodes to the
/// same result every time.
pub proof fn decoding_is_deterministic(a: Seq<u8>, b: Seq<u8>)
    requires
        a == b,
    ensures
        spec_tls(a) == spec_tls(b),
{
}

/// A cipher-suite list of more codes than the capacity is refused with a
/// capacity error.
pub proof fn too_many_cipher_suites_refused(b: Seq<u8>)
    requires
        b.len() > 2 * MAX_CIPHER_SUITES,
    ensures
        spec_cipher_suites(b) is Err,
        spec_cipher_suites(b)->Err_0 == ParseError::CapacityExceeded,
{
}

/// The Server Name Indication payload `p` holds its header and its whole name.
pub open spec fn server_name_fits(p: Seq<u8>) -> bool {
    p.len() >= 5 && p.len() >= 5 + be16(p, 3)
}

/// Bytes that the extension at the start of `b` declares for itself: its
/// header and its payload.
pub open spec fn declared_size(b: Seq<u8>) -> int {
    4 + be16(b, 2)
}

/// The extension at the start of `b` has its header and its declared payload
/// inside `b`, and a Server Name Indication payload holds its whole name.
pub open spec fn extension_well_formed(b: Seq<u8>) -> bool {
    &&& b.len() >= 4
    &&& b.len() >= declared_size(b)
    &&& be16(b, 0) == 0 ==> server_name_fits(b.subrange(4, declared_size(b)))
}

/// The extension headers tile `b` exactly, with at most `room` extensions,
/// each well formed, of recognized types or not.
pub open spec fn extensions_tile(b: Seq<u8>, room: nat) -> bool
    decreases b.len(),
{
    if b.len() == 0 {
        true
    } else if room == 0 || !extension_well_formed(b) {
        false
    } else {
        extensions_tile(b.skip(declared_size(b)), (room - 1) as nat)
    }
}

/// Following the extension headers from the start of `b`, one of the first
/// `room` runs past the end of `b`, by its header or by its declared payload.
pub open spec fn header_chain_overruns(b: Seq<u8>, room: nat) -> bool
    decreases b.len(),
{
    if b.len() == 0 || room == 0 {
        false
    } else if b.len() < 4 || b.len() < declared_size(b) {
        true
    } else {
        header_chain_overruns(b.skip(declared_size(b)), (room - 1) as nat)
    }
}

/// The first `k` extensions of `b` are well formed, and bytes follow them.
pub open spec fn well_formed_then_more(b: Seq<u8>, k: nat) -> bool
    decreases k,
{
    if k == 0 {
        b.len() > 0
    } else {
        extension_well_formed(b) && well_formed_then_more(b.skip(declared_size(b)), (k - 1) as nat)
    }
}

/// A ClientHello whose declared body length fits in `b`, whose fields, read
/// in wire order, all lie inside `b`, with an even cipher-suite list within
/// capacity, compression methods within capacity, and an extension list that
/// its headers tile exactly with at most the capacity of well-formed
/// extensions.
pub open spec fn client_hello_well_formed(b: Seq<u8>) -> bool {
    &&& b.len() >= SESSION_ID_LENGTH_AT + 1
    &&& b.len() >= 4 + be24(b, 1)
    &&& b.len() >= session_id_end(b) + 2
    &&& b.len() >= cipher_suites_end(b) + 1
    &&& be16(b, session_id_end(b)) % 2 == 0
    &&& be16(b, session_id_end(b)) <= 2 * MAX_CIPHER_SUITES
    &&& b[cipher_suites_end(b)] <= MAX_COMPRESSION_METHODS
    &&& b.len() >= compression_methods_end(b) + 2
    &&& b.len() >= extensions_end(b)
    &&& extensions_tile(
        b.subrange(compression_methods_end(b) + 2, extensions_end(b)),
        MAX_EXTENSIONS as nat,
    )
}

/// A record of the handshake content type whose declared payload is present
/// and is a well-formed ClientHello.
pub open spec fn client_hello_record_well_formed(b: Seq<u8>) -> bool {
    &&& b.len() >= RECORD_HEADER_LEN
    &&& b[0] == HANDSHAKE
    &&& b.len() >= RECORD_HEADER_LEN + be16(b, 3)
    &&& client_hello_well_formed(b.subrange(5, 5 + be16(b, 3)))
}

/// An extension list that its headers tile exactly within the capacity
/// decodes, whatever the types of its extensions.
pub proof fn tiled_extensions_decode(b: Seq<u8>, room: nat)
    requires
        extensions_tile(b, room),
    ensures
        spec_extension_entries(b, room) is Ok,
    decreases b.len(),
{
    if b.len() > 0 {
        let n = declared_size(b);
        assert(spec_extension(b) is Ok);
        assert(entry_size(spec_extension(b)->Ok_0) == n);
        tiled_extensions_decode(b.skip(n), (room - 1) as nat);
    }
}

/// Every well-formed ClientHello record decodes, and a decoded record is of
/// the handshake content type.
pub proof fn well_formed_client_hello_decodes(b: Seq<u8>)
    ensures
        client_hello_record_well_formed(b) ==> spec_tls(b) is Ok,
        spec_tls(b) is Ok ==> spec_tls(b)->Ok_0.content_type == HANDSHAKE,
{
    if client_hello_record_well_formed(b) {
        client_hello_body_decodes(b.subrange(5, 5 + be16(b, 3)));
    }
}

/// Every well-formed ClientHello decodes.
pub proof fn client_hello_body_decodes(b: Seq<u8>)
    requires
        client_hello_well_formed(b),
    ensures
        spec_handshake(b) is Ok,
{
    let cm_end = compression_methods_end(b);
    tiled_extensions_decode(b.subrange(cm_end + 2, extensions_end(b)), MAX_EXTENSIONS as nat);
}

/// In a well-formed ClientHello whose fields end exactly at its declared
/// body length, the fields take exactly that length, and the extension
/// entries take exactly the extensions length.
pub proof fn handshake_fields_fill_declared_length(b: Seq<u8>)
    requires
        client_hello_well_formed(b),
        extensions_end(b) == 4 + be24(b, 1),
    ensures
        spec_handshake(b) is Ok,
        body_size(spec_handshake(b)->Ok_0) == declared_length(spec_handshake(b)->Ok_0),
        total_size(spec_handshake(b)->Ok_0.extensions) == spec_handshake(b)->Ok_0.extensions_length,
{
    client_hello_body_decodes(b);
    let cm_end = compression_methods_end(b);
    extensions_consume_declared_length(b.subrange(cm_end + 2, extensions_end(b)));
}

/// An extension list in which, following the headers, an extension before
/// the capacity runs past the end is refused as truncated, never read out of
/// range.
pub proof fn extension_overrun_is_truncated(b: Seq<u8>, room: nat)
    requires
        header_chain_overruns(b, room),
    ensures
        spec_extension_entries(b, room) == Err::<Seq<EntryModel>, ParseError>(ParseError::Truncated),
    decreases b.len(),
{
    if b.len() >= 4 && b.len() >= declared_size(b) {
        if let Ok(m) = spec_extension(b) {
            assert(entry_size(m) == declared_size(b));
            extension_overrun_is_truncated(b.skip(declared_size(b)), (room - 1) as nat);
        }
    }
}

/// Once as many well-formed extensions as the room allows have been read,
/// any further bytes are refused with a capacity error rather than dropped,
/// whatever the types of the extensions.
pub proof fn extension_past_capacity_refused(b: Seq<u8>, room: nat)
    requires
        well_formed_then_more(b, room),
    ensures
        spec_extension_entries(b, room) == Err::<Seq<EntryModel>, ParseError>(ParseError::CapacityExceeded),
    decreases room,
{
    if room > 0 {
        let n = declared_size(b);
        assert(spec_extension(b) is Ok);
        assert(entry_size(spec_extension(b)->Ok_0) == n);
        extension_past_capacity_refused(b.skip(n), (room - 1) as nat);
    }
}

} // verus!
