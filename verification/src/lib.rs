//! A small peer-to-peer chat core: a binary wire codec for chat messages and a
//! model of the dual-threaded multicast transport that carries them.
//!
//! The wire format puts a one-byte content tag first, then a big-endian
//! `u32` message identifier, a big-endian eight-byte username length, the
//! username's UTF-8 bytes, and finally the content payload of the tagged
//! variant.

pub mod message;
pub mod message_errors;
pub mod message_header;
pub mod net_address;
pub mod specific_message_contents;
pub mod transport;
pub mod wire;
