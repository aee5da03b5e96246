//! The sender address stamped onto received messages.
//!
//! The transport works over IPv4 multicast, so an address is four octets.
//! Formatting as dotted-decimal text is verified against a character-level
//! specification.

use vstd::prelude::*;
use vstd::utf8::decode_utf8;
use vstd::utf8::encode_utf8;
use vstd::utf8::encode_utf8_decode_utf8;
use vstd::utf8::encode_utf8_valid_utf8;
use vstd::utf8::is_ascii_chars;
use vstd::utf8::is_ascii_chars_encode_utf8;
use vstd::utf8::valid_utf8;

use crate::wire::from_utf8_lossy;

verus! {

/// An IPv4 address, held as its four octets in network order.
#[derive(Clone, Copy, PartialEq, Eq, Structural, Debug)]
pub struct IpAddress {
    pub octet0: u8,
    pub octet1: u8,
    pub octet2: u8,
    pub octet3: u8,
}

/// The character for one decimal digit value.
pub open spec fn spec_digit_char(d: u8) -> char
    recommends
        d < 10,
{
    if d == 0 {
        '0'
    } else if d == 1 {
        '1'
    } else if d == 2 {
        '2'
    } else if d == 3 {
        '3'
    } else if d == 4 {
        '4'
    } else if d == 5 {
        '5'
    } else if d == 6 {
        '6'
    } else if d == 7 {
        '7'
    } else if d == 8 {
        '8'
    } else {
        '9'
    }
}

/// Decimal text of an octet, without leading zeros.
pub open spec fn spec_decimal(x: u8) -> Seq<char> {
    if x < 10 {
        seq![spec_digit_char(x)]
    } else if x < 100 {
        seq![spec_digit_char(x / 10), spec_digit_char(x % 10)]
    } else {
        seq![spec_digit_char(x / 100), spec_digit_char((x / 10) % 10), spec_digit_char(x % 10)]
    }
}

/// Dotted-decimal text of an IPv4 address.
pub open spec fn spec_ipv4_text(ip: IpAddress) -> Seq<char> {
    spec_decimal(ip.octet0) + seq!['.'] + spec_decimal(ip.octet1) + seq!['.'] + spec_decimal(
        ip.octet2,
    ) + seq!['.'] + spec_decimal(ip.octet3)
}

/// The ASCII byte of each character in a sequence.
pub open spec fn spec_ascii_bytes(chars: Seq<char>) -> Seq<u8> {
    Seq::new(chars.len(), |i: int| chars[i] as u8)
}

proof fn lemma_digit_char_ascii(d: u8)
    requires
        d < 10,
    ensures
        '\0' <= spec_digit_char(d) <= '\u{7f}',
        spec_digit_char(d) as u8 == 48 + d,
{
}

proof fn lemma_decimal_ascii(x: u8)
    ensures
        is_ascii_chars(spec_decimal(x)),
{
    assert forall|i| 0 <= i < spec_decimal(x).len() implies '\0' <= #[trigger] spec_decimal(
        x,
    )[i] <= '\u{7f}' by {
        if x < 10 {
            lemma_digit_char_ascii(x);
        } else if x < 100 {
            lemma_digit_char_ascii(x / 10);
            lemma_digit_char_ascii(x % 10);
        } else {
            lemma_digit_char_ascii(x / 100);
            lemma_digit_char_ascii((x / 10) % 10);
            lemma_digit_char_ascii(x % 10);
        }
    }
}

proof fn lemma_ipv4_text_ascii(ip: IpAddress)
    ensures
        is_ascii_chars(spec_ipv4_text(ip)),
{
    lemma_decimal_ascii(ip.octet0);
    lemma_decimal_ascii(ip.octet1);
    lemma_decimal_ascii(ip.octet2);
    lemma_decimal_ascii(ip.octet3);
    let t = spec_ipv4_text(ip);
    assert forall|i| 0 <= i < t.len() implies '\0' <= #[trigger] t[i] <= '\u{7f}' by {}
}

/// Appends the decimal ASCII digits of an octet to a byte buffer.
fn push_decimal(out: &mut Vec<u8>, x: u8)
    ensures
        final(out)@ == old(out)@ + spec_ascii_bytes(spec_decimal(x)),
{
    if x < 10 {
        out.push(48 + x);
    } else if x < 100 {
        out.push(48 + x / 10);
        out.push(48 + x % 10);
    } else {
        out.push(48 + x / 100);
        out.push(48 + (x / 10) % 10);
        out.push(48 + x % 10);
    }
    proof {
        assert(out@ =~= old(out)@ + spec_ascii_bytes(spec_decimal(x)));
    }
}

impl IpAddress {
    /// Builds an address from its four octets.
    pub fn new(octet0: u8, octet1: u8, octet2: u8, octet3: u8) -> (r: IpAddress)
        ensures
            r == (IpAddress { octet0, octet1, octet2, octet3 }),
    {
        IpAddress { octet0, octet1, octet2, octet3 }
    }

    /// Formats the address as dotted-decimal text.
    pub fn to_text(&self) -> (r: String)
        ensures
            r@ == spec_ipv4_text(*self),
    {
        let mut bytes: Vec<u8> = Vec::new();
        push_decimal(&mut bytes, self.octet0);
        bytes.push(46);
        push_decimal(&mut bytes, self.octet1);
        bytes.push(46);
        push_decimal(&mut bytes, self.octet2);
        bytes.push(46);
        push_decimal(&mut bytes, self.octet3);
        proof {
            let t = spec_ipv4_text(*self);
            assert(bytes@ =~= spec_ascii_bytes(t));
            lemma_ipv4_text_ascii(*self);
            is_ascii_chars_encode_utf8(t);
            assert(encode_utf8(t) =~= bytes@);
            encode_utf8_valid_utf8(t);
            encode_utf8_decode_utf8(t);
        }
        from_utf8_lossy(bytes.as_slice())
    }
}

} // verus!
