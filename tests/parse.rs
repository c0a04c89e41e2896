use tls_hello::{
    CipherSuite, CipherSuites, Extension, ExtensionEntry, Extensions, ParseError, Record,
    ServerName, Tls,
};

const PACKET_BYTES: [u8; 195] = [
    0x16, 0x03, 0x03, 0x00, 0xbe, 0x01, 0x00, 0x00, 0xba, 0x03, 0x03, 0x64, 0xd6, 0xa0, 0xbf,
    0x15, 0xf4, 0xe9, 0x44, 0x66, 0x2b, 0x07, 0x09, 0x61, 0x14, 0x57, 0x6f, 0x07, 0xb3, 0xa7,
    0x4f, 0x82, 0xa6, 0xa2, 0xd4, 0x36, 0x3e, 0xc4, 0x10, 0x37, 0xc2, 0x60, 0xdf, 0x00, 0x00,
    0x2a, 0xc0, 0x2c, 0xc0, 0x2b, 0xc0, 0x30, 0xc0, 0x2f, 0x00, 0x9f, 0x00, 0x9e, 0xc0, 0x24,
    0xc0, 0x23, 0xc0, 0x28, 0xc0, 0x27, 0xc0, 0x0a, 0xc0, 0x09, 0xc0, 0x14, 0xc0, 0x13, 0x00,
    0x9d, 0x00, 0x9c, 0x00, 0x3d, 0x00, 0x3c, 0x00, 0x35, 0x00, 0x2f, 0x00, 0x0a, 0x01, 0x00,
    0x00, 0x67, 0x00, 0x00, 0x00, 0x0e, 0x00, 0x0c, 0x00, 0x00, 0x09, 0x6c, 0x6f, 0x63, 0x61,
    0x6c, 0x68, 0x6f, 0x73, 0x74, 0x00, 0x05, 0x00, 0x05, 0x01, 0x00, 0x00, 0x00, 0x00, 0x00,
    0x0a, 0x00, 0x08, 0x00, 0x06, 0x00, 0x1d, 0x00, 0x17, 0x00, 0x18, 0x00, 0x0b, 0x00, 0x02,
    0x01, 0x00, 0x00, 0x0d, 0x00, 0x1a, 0x00, 0x18, 0x08, 0x04, 0x08, 0x05, 0x08, 0x06, 0x04,
    0x01, 0x05, 0x01, 0x02, 0x01, 0x04, 0x03, 0x05, 0x03, 0x02, 0x03, 0x02, 0x02, 0x06, 0x01,
    0x06, 0x03, 0x00, 0x23, 0x00, 0x00, 0x00, 0x10, 0x00, 0x0b, 0x00, 0x09, 0x08, 0x68, 0x74,
    0x74, 0x70, 0x2f, 0x31, 0x2e, 0x30, 0x00, 0x17, 0x00, 0x00, 0xff, 0x01, 0x00, 0x01, 0x00,
];

/// Builds one handshake record around a ClientHello with the given parts.
fn hello(session_id: &[u8], suites: &[u8], compression: &[u8], extensions: &[u8]) -> Vec<u8> {
    let mut body = vec![0x03, 0x03];
    body.extend_from_slice(&[0xab; 32]);
    body.push(session_id.len() as u8);
    body.extend_from_slice(session_id);
    body.extend_from_slice(&(suites.len() as u16).to_be_bytes());
    body.extend_from_slice(suites);
    body.push(compression.len() as u8);
    body.extend_from_slice(compression);
    body.extend_from_slice(&(extensions.len() as u16).to_be_bytes());
    body.extend_from_slice(extensions);
    let mut handshake = vec![0x01];
    handshake.extend_from_slice(&(body.len() as u32).to_be_bytes()[1..]);
    handshake.extend_from_slice(&body);
    let mut record = vec![0x16, 0x03, 0x01];
    record.extend_from_slice(&(handshake.len() as u16).to_be_bytes());
    record.extend_from_slice(&handshake);
    record
}

fn extension(type_code: u16, payload: &[u8]) -> Vec<u8> {
    let mut e = type_code.to_be_bytes().to_vec();
    e.extend_from_slice(&(payload.len() as u16).to_be_bytes());
    e.extend_from_slice(payload);
    e
}

#[test]
fn parse_good_hello() {
    Tls::parse(&PACKET_BYTES).unwrap();
}

#[test]
fn captured_hello_fields() {
    let tls = Tls::parse(&PACKET_BYTES).unwrap();
    assert_eq!(tls.content_type, 0x16);
    assert_eq!(tls.version, [0x03, 0x03]);
    assert_eq!(tls.length, 0x00be);
    let h = match &tls.record {
        Record::ClientHello(h) => h,
        Record::Alert => panic!("expected a ClientHello"),
    };
    assert_eq!(h.handshake_type, 0x01);
    assert_eq!(h.length, [0x00, 0x00, 0xba]);
    assert_eq!(h.version, [0x03, 0x03]);
    assert_eq!(h.random_time, [0x64, 0xd6, 0xa0, 0xbf]);
    assert_eq!(h.random_bytes[27], 0xdf);
    assert_eq!(h.session_id_length, 0);
    assert!(h.session_id.is_empty());
    assert_eq!(h.cipher_suites_length, 0x002a);
    assert_eq!(h.cipher_suites.suites.len(), 21);
    assert!(h.cipher_suites.unrecognized.is_empty());
    assert_eq!(h.cipher_suites.suites[0], CipherSuite::TlsEcdheEcdsaWithAes256GcmSha384);
    assert_eq!(h.cipher_suites.suites[20], CipherSuite::TlsRsaWith3desEdeCbcSha);
    assert_eq!(h.compression_methods_length, 1);
    assert_eq!(h.compression_methods, &[0x00]);
    assert_eq!(h.extensions_length, 0x0067);

    let codes: Vec<u16> = h.extensions.entries.iter().map(|e| e.type_code).collect();
    assert_eq!(codes, vec![0x0000, 0x0005, 0x000a, 0x000b, 0x000d, 0x0023, 0x0010, 0x0017, 0xff01]);
    assert!(h.extensions.entries.iter().all(|e| e.extension.is_some()));
    match &h.extensions.entries[0].extension {
        Some(Extension::ServerName(sn)) => {
            assert_eq!(sn.list_length, 0x000c);
            assert_eq!(sn.name_type, 0);
            assert_eq!(sn.name_length, 9);
            assert_eq!(sn.name, b"localhost");
        }
        other => panic!("expected a server name, got {:?}", other),
    }
    assert!(matches!(h.extensions.entries[6].extension, Some(Extension::Alpn)));
    assert!(matches!(h.extensions.entries[8].extension, Some(Extension::RenegotiationInfo)));
}

#[test]
fn captured_hello_lengths_add_up() {
    let tls = Tls::parse(&PACKET_BYTES).unwrap();
    let h = match &tls.record {
        Record::ClientHello(h) => h,
        Record::Alert => panic!("expected a ClientHello"),
    };
    let declared = u32::from_be_bytes([0, h.length[0], h.length[1], h.length[2]]) as usize;
    let fields = 2 + 4 + 28 + 1 + h.session_id.len() + 2 + h.cipher_suites_length as usize + 1
        + h.compression_methods.len() + 2 + h.extensions_length as usize;
    assert_eq!(fields, declared);
    let entries: usize = h.extensions.entries.iter().map(|e| 4 + e.length as usize).sum();
    assert_eq!(entries, h.extensions_length as usize);
}

#[test]
fn parsing_twice_gives_the_same_result() {
    let a = Tls::parse(&PACKET_BYTES);
    let b = Tls::parse(&PACKET_BYTES);
    assert_eq!(format!("{:?}", a), format!("{:?}", b));
    let bad = [0x15, 0x03, 0x03, 0x00, 0x00];
    assert_eq!(format!("{:?}", Tls::parse(&bad)), format!("{:?}", Tls::parse(&bad)));
}

#[test]
fn cipher_suite_codes() {
    assert_eq!(CipherSuite::parse(0xc02c), Some(CipherSuite::TlsEcdheEcdsaWithAes256GcmSha384));
    assert_eq!(CipherSuite::parse(0x000a), Some(CipherSuite::TlsRsaWith3desEdeCbcSha));
    assert_eq!(CipherSuite::parse(0x009c), Some(CipherSuite::TlsRsaWithAes128GcmSha256));
    assert_eq!(CipherSuite::parse(0x1301), None);
    assert_eq!(CipherSuite::parse(0x0000), None);
}

#[test]
fn unrecognized_cipher_suites_are_reported_and_skipped() {
    let list = CipherSuites::parse(&[0x13, 0x01, 0xc0, 0x2c, 0x00, 0xff, 0x00, 0x2f]).unwrap();
    assert_eq!(
        list.suites,
        vec![CipherSuite::TlsEcdheEcdsaWithAes256GcmSha384, CipherSuite::TlsRsaWithAes128CbcSha]
    );
    assert_eq!(list.unrecognized, vec![0x1301, 0x00ff]);
}

#[test]
fn empty_cipher_suite_list() {
    let list = CipherSuites::parse(&[]).unwrap();
    assert!(list.suites.is_empty());
    assert!(list.unrecognized.is_empty());
}

#[test]
fn odd_cipher_suite_list_is_truncated() {
    assert_eq!(CipherSuites::parse(&[0xc0, 0x2c, 0xc0]).unwrap_err(), ParseError::Truncated);
}

#[test]
fn cipher_suite_capacity() {
    let full: Vec<u8> = (0..256).flat_map(|_| [0xc0, 0x2c]).collect();
    assert_eq!(CipherSuites::parse(&full).unwrap().suites.len(), 256);
    let over: Vec<u8> = (0..257).flat_map(|_| [0xc0, 0x2c]).collect();
    assert_eq!(CipherSuites::parse(&over).unwrap_err(), ParseError::CapacityExceeded);
}

#[test]
fn server_name_payload() {
    let payload = [0x00, 0x06, 0x00, 0x00, 0x03, b'a', b'b', b'c'];
    let sn = ServerName::parse(&payload).unwrap();
    assert_eq!(sn.list_length, 6);
    assert_eq!(sn.name_type, 0);
    assert_eq!(sn.name_length, 3);
    assert_eq!(sn.name, b"abc");
}

#[test]
fn server_name_past_payload_is_truncated() {
    let payload = [0x00, 0x06, 0x00, 0x00, 0x04, b'a', b'b', b'c'];
    assert_eq!(ServerName::parse(&payload).unwrap_err(), ParseError::Truncated);
    assert_eq!(ServerName::parse(&[0x00, 0x06, 0x00, 0x00]).unwrap_err(), ParseError::Truncated);
}

#[test]
fn single_extension_reports_its_size() {
    let bytes = [0x00, 0x17, 0x00, 0x00, 0xff, 0x01, 0x00, 0x01, 0x00];
    let (entry, n): (ExtensionEntry, usize) = Extension::parse(&bytes).unwrap();
    assert_eq!(n, 4);
    assert_eq!(entry.type_code, 0x0017);
    assert!(matches!(entry.extension, Some(Extension::ExtendedMasterSecret)));
}

#[test]
fn unknown_extensions_keep_the_cursor_in_step() {
    let mut bytes = extension(0x1234, &[9, 9, 9]);
    bytes.extend(extension(0x0010, &[0, 3, 2, b'h', b'2']));
    bytes.extend(extension(0xfe0d, &[]));
    bytes.extend(extension(0x000b, &[1, 0]));
    let list = Extensions::parse(&bytes).unwrap();
    let codes: Vec<u16> = list.entries.iter().map(|e| e.type_code).collect();
    assert_eq!(codes, vec![0x1234, 0x0010, 0xfe0d, 0x000b]);
    assert!(list.entries[0].extension.is_none());
    assert!(matches!(list.entries[1].extension, Some(Extension::Alpn)));
    assert!(list.entries[2].extension.is_none());
    assert!(matches!(list.entries[3].extension, Some(Extension::EcPointFormats)));
    let consumed: usize = list.entries.iter().map(|e| 4 + e.length as usize).sum();
    assert_eq!(consumed, bytes.len());
}

#[test]
fn empty_extension_list() {
    assert!(Extensions::parse(&[]).unwrap().entries.is_empty());
}

#[test]
fn extension_past_end_is_truncated() {
    assert_eq!(Extensions::parse(&[0x00, 0x05, 0x00, 0x0a, 0x01, 0x02]).unwrap_err(), ParseError::Truncated);
    let mut bytes = extension(0x0017, &[]);
    bytes.extend_from_slice(&[0x00, 0x0a, 0x00, 0x03, 0x00]);
    assert_eq!(Extensions::parse(&bytes).unwrap_err(), ParseError::Truncated);
    assert_eq!(Extensions::parse(&[0x00, 0x05, 0x00]).unwrap_err(), ParseError::Truncated);
    let mut late: Vec<u8> = (0..5).flat_map(|_| extension(0x1234, &[1, 2])).collect();
    late.extend_from_slice(&[0xff, 0x01, 0x00, 0x09, 0x00]);
    assert_eq!(Extensions::parse(&late).unwrap_err(), ParseError::Truncated);
}

#[test]
fn extension_capacity() {
    let full: Vec<u8> = (0..20).flat_map(|_| extension(0x0017, &[])).collect();
    assert_eq!(Extensions::parse(&full).unwrap().entries.len(), 20);
    let over: Vec<u8> = (0..21).flat_map(|_| extension(0x0017, &[])).collect();
    assert_eq!(Extensions::parse(&over).unwrap_err(), ParseError::CapacityExceeded);
}

#[test]
fn session_id_is_skipped() {
    let sid = [7u8; 32];
    let exts = extension(0x0000, &[0x00, 0x04, 0x00, 0x00, 0x01, b'x']);
    let record = hello(&sid, &[0xc0, 0x2f, 0x13, 0x02], &[0], &exts);
    let tls = Tls::parse(&record).unwrap();
    let h = match &tls.record {
        Record::ClientHello(h) => h,
        Record::Alert => panic!("expected a ClientHello"),
    };
    assert_eq!(h.session_id_length, 32);
    assert_eq!(h.session_id, &sid);
    assert_eq!(h.cipher_suites.suites, vec![CipherSuite::TlsEcdheRsaWithAes128GcmSha256]);
    assert_eq!(h.cipher_suites.unrecognized, vec![0x1302]);
    match &h.extensions.entries[0].extension {
        Some(Extension::ServerName(sn)) => assert_eq!(sn.name, b"x"),
        other => panic!("expected a server name, got {:?}", other),
    }
}

#[test]
fn short_record_is_truncated() {
    assert_eq!(Tls::parse(&[0x16, 0x03, 0x03, 0x00]).unwrap_err(), ParseError::Truncated);
    assert_eq!(Tls::parse(&PACKET_BYTES[..194]).unwrap_err(), ParseError::Truncated);
    assert_eq!(Tls::parse(&[]).unwrap_err(), ParseError::Truncated);
}

#[test]
fn non_handshake_record_is_refused() {
    let mut bytes = PACKET_BYTES;
    bytes[0] = 0x15;
    assert_eq!(Tls::parse(&bytes).unwrap_err(), ParseError::UnsupportedContentType(0x15));
}

#[test]
fn bytes_after_extensions_are_not_read() {
    let mut record = hello(&[], &[0xc0, 0x2f], &[0], &[]);
    // One byte more in the record and in the handshake's declared length.
    record.push(0x00);
    record[4] += 1;
    record[8] += 1;
    let tls = Tls::parse(&record).unwrap();
    let h = match &tls.record {
        Record::ClientHello(h) => h,
        Record::Alert => panic!("expected a ClientHello"),
    };
    assert_eq!(h.length, [0x00, 0x00, 0x2c]);
    assert_eq!(h.extensions_length, 0);
    assert!(h.extensions.entries.is_empty());
}

#[test]
fn short_declared_handshake_length_still_decodes() {
    let mut record = hello(&[], &[0xc0, 0x2f], &[0], &extension(0x0017, &[]));
    record[8] -= 5;
    let tls = Tls::parse(&record).unwrap();
    match &tls.record {
        Record::ClientHello(h) => assert_eq!(h.extensions.entries.len(), 1),
        Record::Alert => panic!("expected a ClientHello"),
    }
}

#[test]
fn handshake_with_too_many_extensions_is_refused() {
    let exts: Vec<u8> = (0..21).flat_map(|_| extension(0x0017, &[])).collect();
    let mut record = hello(&[], &[0xc0, 0x2f], &[0], &exts);
    record.push(0x00);
    record[4] += 1;
    record[8] += 1;
    assert_eq!(Tls::parse(&record).unwrap_err(), ParseError::CapacityExceeded);
}

#[test]
fn handshake_with_too_many_cipher_suites_is_refused() {
    let suites: Vec<u8> = (0..257).flat_map(|_| [0x00, 0x2f]).collect();
    let record = hello(&[], &suites, &[0], &[]);
    assert_eq!(Tls::parse(&record).unwrap_err(), ParseError::CapacityExceeded);
}

#[test]
fn handshake_shorter_than_declared_is_truncated() {
    let mut bytes = PACKET_BYTES;
    bytes[8] = 0xbb;
    assert_eq!(Tls::parse(&bytes).unwrap_err(), ParseError::Truncated);
}

#[test]
fn too_many_compression_methods() {
    let record = hello(&[], &[0xc0, 0x2f], &[0; 11], &[]);
    assert_eq!(Tls::parse(&record).unwrap_err(), ParseError::CapacityExceeded);
    let record = hello(&[], &[0xc0, 0x2f], &[0; 10], &[]);
    assert!(Tls::parse(&record).is_ok());
}

#[test]
fn trailing_bytes_after_record_are_ignored() {
    let mut bytes = PACKET_BYTES.to_vec();
    bytes.extend_from_slice(&[0x17, 0x03, 0x03]);
    assert!(Tls::parse(&bytes).is_ok());
}
