//! Errors of the frame codec.

use vstd::prelude::*;

verus! {

/// Why a byte buffer failed to decode into a message.
///
/// An empty buffer or an unrecognized leading tag byte is an invalid frame;
/// a recognized frame whose fixed fields or length-prefixed regions reach
/// past the end of the buffer is a truncated one. Both are recoverable: the
/// transport drops such a datagram and carries on.
#[derive(Clone, Copy, PartialEq, Eq, Structural, Debug)]
pub enum MessageErrors {
    InvalidFrame,
    Truncated,
}

impl MessageErrors {
    /// A short text describing the error.
    pub fn to_text(&self) -> (r: &'static str)
        ensures
            *self is InvalidFrame ==> r@ == "InvalidFrame"@,
            *self is Truncated ==> r@ == "Truncated"@,
    {
        match self {
            MessageErrors::InvalidFrame => "InvalidFrame",
            MessageErrors::Truncated => "Truncated",
        }
    }
}

} // verus!
