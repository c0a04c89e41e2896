//! Decoder for the wire format of a TLS ClientHello: record header, handshake
//! body, offered cipher suites and offered extensions.
//!
//! Each layer consumes a prefix of its input, reports how much it took, and
//! hands the rest on. Every executable parser is proved to return exactly what
//! a decoding function over the input bytes describes, and never to read past
//! the end of its input.
pub mod cipher_suite;
pub mod error;
pub mod extensions;
pub mod handshake;
pub mod laws;
pub mod record;
pub mod wire;

pub use cipher_suite::{CipherSuite, CipherSuites};
pub use error::ParseError;
pub use extensions::{Extension, ExtensionEntry, Extensions, ServerName};
pub use handshake::Handshake;
pub use record::{Record, Tls};
