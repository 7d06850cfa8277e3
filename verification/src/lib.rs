//! DNS request messages in wire format (RFC 1035), built and proved with
//! Verus.
//!
//! The crate builds the one message that a simple resolver client sends: a
//! recursive query for the address of a host. Each function states in its
//! contract which bytes it produces, over the models that the modules define.
//!
//! - [`wire`]: 16-bit values in network byte order.
//! - [`flags`]: the flags field of the header.
//! - [`header`]: the 12-byte header.
//! - [`record`]: record types and classes, and their codes.
//! - [`name`]: a domain name as length-prefixed labels.
//! - [`text`]: the labels of a name as text and as bytes.
//! - [`query`]: the complete request.
//! - [`hexdump`]: a buffer shown as hexadecimal text.

pub mod flags;
pub mod header;
pub mod hexdump;
pub mod name;
pub mod query;
pub mod record;
pub mod text;
pub mod wire;
