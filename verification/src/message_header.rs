//! Identity and provenance metadata carried by every message.

use vstd::prelude::*;

use crate::net_address::IpAddress;
use crate::net_address::spec_ipv4_text;

verus! {

/// The header of a message: a sender-local sequence number, the sender's
/// display name, and — only on messages reconstructed from a received
/// datagram — the sender's address as reported by the socket. The address is
/// never transmitted; the receiving transport stamps it on.
#[derive(PartialEq, Eq, Debug)]
pub struct MessageHeader {
    pub message_id: u32,
    pub username: String,
    pub ip_address: Option<IpAddress>,
}

/// The mathematical image of a header.
pub ghost struct HeaderModel {
    pub message_id: u32,
    pub username: Seq<char>,
    pub ip_address: Option<IpAddress>,
}

impl View for MessageHeader {
    type V = HeaderModel;

    open spec fn view(&self) -> HeaderModel {
        HeaderModel {
            message_id: self.message_id,
            username: self.username@,
            ip_address: self.ip_address,
        }
    }
}

impl MessageHeader {
    /// Builds the header of a message reconstructed from a received datagram,
    /// stamping the sender address the socket reported.
    pub fn new_with_ip(message_id: u32, username: String, ip_address: IpAddress) -> (r: Self)
        ensures
            r@ == (HeaderModel {
                message_id,
                username: username@,
                ip_address: Some(ip_address),
            }),
    {
        Self { message_id, username, ip_address: Some(ip_address) }
    }

    /// Builds the header of an outbound message; the sender has no view of
    /// its own address, so none is recorded.
    pub fn new(message_id: u32, username: String) -> (r: Self)
        ensures
            r@ == (HeaderModel { message_id, username: username@, ip_address: None }),
    {
        Self { message_id, username, ip_address: None }
    }

    /// The sender-local sequence number.
    pub fn message_id(&self) -> (r: u32)
        ensures
            r == self@.message_id,
    {
        self.message_id
    }

    /// The sender's display name.
    pub fn username(&self) -> (r: &String)
        ensures
            r@ == self@.username,
    {
        &self.username
    }

    /// The stamped sender address as dotted-decimal text, when one is there.
    pub fn ip_address(&self) -> (r: Option<String>)
        ensures
            match (r, self@.ip_address) {
                (Some(s), Some(ip)) => s@ == spec_ipv4_text(ip),
                (None, None) => true,
                _ => false,
            },
    {
        match &self.ip_address {
            Some(ip) => Some(ip.to_text()),
            None => None,
        }
    }
}

} // verus!
