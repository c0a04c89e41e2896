//! Offered extensions: one entry's header and payload, the Server Name
//! Indication payload, and the bounded list of entries.
use vstd::prelude::*;
use vstd::slice::slice_subrange;

use crate::error::ParseError;
use crate::wire::{be16, read_u16};

verus! {

/// Most extensions one list may offer.
pub const MAX_EXTENSIONS: usize = 20;

/// Bytes of an extension's header: a type code and a payload length.
pub const EXTENSION_HEADER_LEN: usize = 4;

/// Bytes of the Server Name Indication payload ahead of the name itself.
pub const SERVER_NAME_HEADER_LEN: usize = 5;

/// The Server Name Indication payload. `name` borrows the bytes of the name,
/// which are not checked to be a legal host name.
#[derive(Debug)]
pub struct ServerName<'a> {
    pub list_length: u16,
    pub name_type: u8,
    pub name_length: u16,
    pub name: &'a [u8],
}

/// What a Server Name Indication payload holds.
pub struct ServerNameModel {
    pub list_length: u16,
    pub name_type: u8,
    pub name_length: u16,
    pub name: Seq<u8>,
}

impl<'a> View for ServerName<'a> {
    type V = ServerNameModel;

    open spec fn view(&self) -> ServerNameModel {
        ServerNameModel {
            list_length: self.list_length,
            name_type: self.name_type,
            name_length: self.name_length,
            name: self.name@,
        }
    }
}

/// The decoding of a Server Name Indication payload `p`: list length, name
/// type, name length, then exactly that many bytes of name inside `p`.
pub open spec fn spec_server_name(p: Seq<u8>) -> Result<ServerNameModel, ParseError> {
    if p.len() < SERVER_NAME_HEADER_LEN {
        Err(ParseError::Truncated)
    } else if p.len() < SERVER_NAME_HEADER_LEN + be16(p, 3) {
        Err(ParseError::Truncated)
    } else {
        Ok(
            ServerNameModel {
                list_length: be16(p, 0),
                name_type: p[2],
                name_length: be16(p, 3),
                name: p.subrange(5, 5 + be16(p, 3)),
            },
        )
    }
}

impl<'a> ServerName<'a> {
    /// Decodes the payload of a Server Name Indication extension.
    pub fn parse(bytes: &'a [u8]) -> (r: Result<ServerName<'a>, ParseError>)
        ensures
            match (r, spec_server_name(bytes@)) {
                (Ok(s), Ok(m)) => s@ == m,
                (Err(e), Err(f)) => e == f,
                _ => false,
            },
    {
        if bytes.len() < SERVER_NAME_HEADER_LEN {
            return Err(ParseError::Truncated);
        }
        let list_length = read_u16(bytes, 0);
        let name_type = bytes[2];
        let name_length = read_u16(bytes, 3);
        if bytes.len() - SERVER_NAME_HEADER_LEN < name_length as usize {
            return Err(ParseError::Truncated);
        }
        let name = slice_subrange(bytes, SERVER_NAME_HEADER_LEN, SERVER_NAME_HEADER_LEN + name_length as usize);
        Ok(ServerName { list_length, name_type, name_length, name })
    }
}

/// An extension of a recognized type. Only Server Name Indication has its
/// payload decoded; the others record that the type was offered.
#[derive(Debug)]
pub enum Extension<'a> {
    ServerName(ServerName<'a>),
    StatusRequest,
    SupportedGroups,
    EcPointFormats,
    SignatureAlgorithms,
    SessionTicket,
    Alpn,
    ExtendedMasterSecret,
    RenegotiationInfo,
}

/// What a recognized extension holds.
pub enum ExtensionModel {
    ServerName(ServerNameModel),
    StatusRequest,
    SupportedGroups,
    EcPointFormats,
    SignatureAlgorithms,
    SessionTicket,
    Alpn,
    ExtendedMasterSecret,
    RenegotiationInfo,
}

impl<'a> View for Extension<'a> {
    type V = ExtensionModel;

    open spec fn view(&self) -> ExtensionModel {
        match self {
            Extension::ServerName(s) => ExtensionModel::ServerName(s@),
            Extension::StatusRequest => ExtensionModel::StatusRequest,
            Extension::SupportedGroups => ExtensionModel::SupportedGroups,
            Extension::EcPointFormats => ExtensionModel::EcPointFormats,
            Extension::SignatureAlgorithms => ExtensionModel::SignatureAlgorithms,
            Extension::SessionTicket => ExtensionModel::SessionTicket,
            Extension::Alpn => ExtensionModel::Alpn,
            Extension::ExtendedMasterSecret => ExtensionModel::ExtendedMasterSecret,
            Extension::RenegotiationInfo => ExtensionModel::RenegotiationInfo,
        }
    }
}

/// The decoding of payload `p` of an extension with type code `ty`: `None`
/// for a type outside the recognized set.
pub open spec fn spec_extension_kind(ty: u16, p: Seq<u8>) -> Result<Option<ExtensionModel>, ParseError> {
    match ty {
        0x0000 => match spec_server_name(p) {
            Ok(s) => Ok(Some(ExtensionModel::ServerName(s))),
            Err(e) => Err(e),
        },
        0x0005 => Ok(Some(ExtensionModel::StatusRequest)),
        0x000a => Ok(Some(ExtensionModel::SupportedGroups)),
        0x000b => Ok(Some(ExtensionModel::EcPointFormats)),
        0x000d => Ok(Some(ExtensionModel::SignatureAlgorithms)),
        0x0023 => Ok(Some(ExtensionModel::SessionTicket)),
        0x0010 => Ok(Some(ExtensionModel::Alpn)),
        0x0017 => Ok(Some(ExtensionModel::ExtendedMasterSecret)),
        0xff01 => Ok(Some(ExtensionModel::RenegotiationInfo)),
        _ => Ok(None),
    }
}

/// One entry of an extension list: its header, and the decoded extension,
/// or `None` where the type code is not recognized.
#[derive(Debug)]
pub struct ExtensionEntry<'a> {
    pub type_code: u16,
    pub length: u16,
    pub extension: Option<Extension<'a>>,
}

/// What one entry of an extension list holds.
pub struct EntryModel {
    pub type_code: u16,
    pub length: u16,
    pub extension: Option<ExtensionModel>,
}

impl<'a> View for ExtensionEntry<'a> {
    type V = EntryModel;

    open spec fn view(&self) -> EntryModel {
        EntryModel {
            type_code: self.type_code,
            length: self.length,
            extension: match self.extension {
                Some(e) => Some(e@),
                None => None,
            },
        }
    }
}

/// Bytes that an entry takes on the wire: its header and its payload.
pub open spec fn entry_size(m: EntryModel) -> nat {
    (EXTENSION_HEADER_LEN + m.length) as nat
}

/// The decoding of the one extension that starts `b`: its header, then
/// exactly the declared length of payload, which must lie inside `b`.
pub open spec fn spec_extension(b: Seq<u8>) -> Result<EntryModel, ParseError> {
    if b.len() < EXTENSION_HEADER_LEN {
        Err(ParseError::Truncated)
    } else if b.len() < EXTENSION_HEADER_LEN + be16(b, 2) {
        Err(ParseError::Truncated)
    } else {
        match spec_extension_kind(be16(b, 0), b.subrange(4, 4 + be16(b, 2))) {
            Ok(k) => Ok(EntryModel { type_code: be16(b, 0), length: be16(b, 2), extension: k }),
            Err(e) => Err(e),
        }
    }
}

/// `r` with `prefix` in front of what it holds, or the same error.
pub open spec fn prepend_ok<T>(prefix: Seq<T>, r: Result<Seq<T>, ParseError>) -> Result<Seq<T>, ParseError> {
    match r {
        Ok(s) => Ok(prefix + s),
        Err(e) => Err(e),
    }
}

/// The decoding of an extension list `b` into at most `room` entries, each
/// taking its header and declared payload, until `b` is used up.
pub open spec fn spec_extension_entries(b: Seq<u8>, room: nat) -> Result<Seq<EntryModel>, ParseError>
    decreases b.len(),
{
    if b.len() == 0 {
        Ok(Seq::empty())
    } else if room == 0 {
        Err(ParseError::CapacityExceeded)
    } else {
        match spec_extension(b) {
            Err(e) => Err(e),
            Ok(m) => if entry_size(m) <= b.len() {
                prepend_ok(seq![m], spec_extension_entries(b.skip(entry_size(m) as int), (room - 1) as nat))
            } else {
                Err(ParseError::Truncated)
            },
        }
    }
}

/// The decoding of a whole extension list.
pub open spec fn spec_extensions(b: Seq<u8>) -> Result<Seq<EntryModel>, ParseError> {
    spec_extension_entries(b, MAX_EXTENSIONS as nat)
}

/// The models of a run of entries.
pub open spec fn entry_models<'a>(s: Seq<ExtensionEntry<'a>>) -> Seq<EntryModel> {
    s.map_values(|e: ExtensionEntry<'a>| e@)
}

impl<'a> Extension<'a> {
    /// Decodes the extension that starts `bytes`, and says how many bytes it
    /// takes: its header and its whole declared payload, whether or not its
    /// type is recognized.
    pub fn parse(bytes: &'a [u8]) -> (r: Result<(ExtensionEntry<'a>, usize), ParseError>)
        ensures
            match (r, spec_extension(bytes@)) {
                (Ok((e, n)), Ok(m)) => e@ == m && n == entry_size(m),
                (Err(e), Err(f)) => e == f,
                _ => false,
            },
    {
        if bytes.len() < EXTENSION_HEADER_LEN {
            return Err(ParseError::Truncated);
        }
        let type_code = read_u16(bytes, 0);
        let length = read_u16(bytes, 2);
        if bytes.len() - EXTENSION_HEADER_LEN < length as usize {
            return Err(ParseError::Truncated);
        }
        let end = EXTENSION_HEADER_LEN + length as usize;
        let payload = slice_subrange(bytes, EXTENSION_HEADER_LEN, end);
        let extension = match type_code {
            0x0000 => match ServerName::parse(payload) {
                Ok(s) => Some(Extension::ServerName(s)),
                Err(e) => return Err(e),
            },
            0x0005 => Some(Extension::StatusRequest),
            0x000a => Some(Extension::SupportedGroups),
            0x000b => Some(Extension::EcPointFormats),
            0x000d => Some(Extension::SignatureAlgorithms),
            0x0023 => Some(Extension::SessionTicket),
            0x0010 => Some(Extension::Alpn),
            0x0017 => Some(Extension::ExtendedMasterSecret),
            0xff01 => Some(Extension::RenegotiationInfo),
            _ => None,
        };
        Ok((ExtensionEntry { type_code, length, extension }, end))
    }
}

/// A decoded extension list: one entry per extension, in wire order.
#[derive(Debug)]
pub struct Extensions<'a> {
    pub entries: Vec<ExtensionEntry<'a>>,
}

impl<'a> View for Extensions<'a> {
    type V = Seq<EntryModel>;

    open spec fn view(&self) -> Seq<EntryModel> {
        entry_models(self.entries@)
    }
}

impl<'a> Extensions<'a> {
    /// Decodes exactly the bytes of an extension list.
    pub fn parse(bytes: &'a [u8]) -> (r: Result<Extensions<'a>, ParseError>)
        ensures
            match (r, spec_extensions(bytes@)) {
                (Ok(l), Ok(m)) => l@ == m,
                (Err(e), Err(f)) => e == f,
                _ => false,
            },
    {
        let mut entries: Vec<ExtensionEntry<'a>> = Vec::new();
        let mut ptr: usize = 0;
        assert(bytes@.skip(0) =~= bytes@);
        assert(entry_models(entries@) + Seq::<EntryModel>::empty() =~= Seq::<EntryModel>::empty());
        while ptr < bytes.len()
            invariant
                ptr <= bytes@.len(),
                entries@.len() <= MAX_EXTENSIONS,
                spec_extensions(bytes@) == prepend_ok(
                    entry_models(entries@),
                    spec_extension_entries(bytes@.skip(ptr as int), (MAX_EXTENSIONS - entries@.len()) as nat),
                ),
            decreases bytes@.len() - ptr,
        {
            let ghost room = (MAX_EXTENSIONS - entries@.len()) as nat;
            if entries.len() == MAX_EXTENSIONS {
                return Err(ParseError::CapacityExceeded);
            }
            let rest = slice_subrange(bytes, ptr, bytes.len());
            assert(rest@ =~= bytes@.skip(ptr as int));
            match Extension::parse(rest) {
                Err(e) => {
                    return Err(e);
                },
                Ok((entry, n)) => {
                    let ghost m = entry@;
                    let ghost old_models = entry_models(entries@);
                    let ghost tail = spec_extension_entries(rest@.skip(n as int), (room - 1) as nat);
                    assert(rest@.skip(n as int) =~= bytes@.skip(ptr + n));
                    entries.push(entry);
                    assert(entry_models(entries@) =~= old_models.push(m));
                    proof {
                        if let Ok(s) = tail {
                            assert(old_models + (seq![m] + s) =~= old_models.push(m) + s);
                        }
                    }
                    ptr = ptr + n;
                },
            }
        }
        assert(bytes@.skip(ptr as int) =~= Seq::<u8>::empty());
        assert(entry_models(entries@) + Seq::<EntryModel>::empty() =~= entry_models(entries@));
        Ok(Extensions { entries })
    }
}

} // verus!
