//! The unit exchanged over the wire, and the frame codec that maps it to and
//! from a byte buffer.

use vstd::prelude::*;
use vstd::utf8::encode_utf8;
use vstd::utf8::encode_utf8_decode_utf8;
use vstd::utf8::encode_utf8_valid_utf8;

use crate::message_errors::MessageErrors;
use crate::message_header::HeaderModel;
use crate::message_header::MessageHeader;
use crate::net_address::IpAddress;
use crate::net_address::spec_ipv4_text;
use crate::specific_message_contents::ContentModel;
use crate::specific_message_contents::SpecificMessageContents;
use crate::specific_message_contents::lemma_content_round_trip;
use crate::specific_message_contents::spec_parse_content;
use crate::specific_message_contents::spec_valid_tag;
use crate::wire::MAX_FRAME_SIZE;
use crate::wire::from_utf8_lossy;
use crate::wire::spec_text_decode;
use crate::wire::push_u32_be;
use crate::wire::push_u64_be;
use crate::wire::lemma_u32_be_bytes_roundtrip;
use crate::wire::lemma_u64_be_bytes_roundtrip;
use crate::wire::read_u32_be;
use crate::wire::read_u64_be;
use crate::wire::spec_u32_from_be_bytes;
use crate::wire::spec_u32_to_be_bytes;
use crate::wire::spec_u64_from_be_bytes;
use crate::wire::spec_u64_to_be_bytes;

verus! {

/// A chat message: a header and one payload variant. Values are built fresh
/// per send or per successful decode and are immutable afterwards.
#[derive(PartialEq, Eq, Debug)]
pub struct Message {
    pub header: MessageHeader,
    pub contents: SpecificMessageContents,
}

/// The mathematical image of a message.
pub ghost struct MessageModel {
    pub header: HeaderModel,
    pub contents: ContentModel,
}

impl View for Message {
    type V = MessageModel;

    open spec fn view(&self) -> MessageModel {
        MessageModel { header: self.header@, contents: self.contents@ }
    }
}

/// The byte image of a message: the content tag, the big-endian message
/// identifier, the big-endian byte count of the username's UTF-8 encoding,
/// that encoding itself, and finally the payload region of the content
/// variant.
pub open spec fn spec_wire(m: MessageModel) -> Seq<u8> {
    seq![m.contents.tag()] + spec_u32_to_be_bytes(m.header.message_id) + spec_u64_to_be_bytes(
        encode_utf8(m.header.username).len() as u64,
    ) + encode_utf8(m.header.username) + m.contents.wire()
}

/// What decoding a byte buffer yields. An empty buffer or an unrecognized
/// leading tag is an invalid frame; fixed fields or claimed regions reaching
/// past the end of the buffer make a truncated one; otherwise the header
/// fields are read back, text is decoded lossily, and no sender address is
/// stamped.
pub open spec fn spec_parse_frame(b: Seq<u8>) -> Result<MessageModel, MessageErrors> {
    if b.len() == 0 || !spec_valid_tag(b[0]) {
        Err(MessageErrors::InvalidFrame)
    } else if b.len() < 13 {
        Err(MessageErrors::Truncated)
    } else {
        let n = spec_u64_from_be_bytes(b.subrange(5, 13)) as int;
        if n > b.len() - 13 {
            Err(MessageErrors::Truncated)
        } else {
            match spec_parse_content(b[0], b.subrange(13 + n, b.len() as int)) {
                Ok(c) => Ok(
                    MessageModel {
                        header: HeaderModel {
                            message_id: spec_u32_from_be_bytes(b.subrange(1, 5)),
                            username: spec_text_decode(b.subrange(13, 13 + n)),
                            ip_address: None,
                        },
                        contents: c,
                    },
                ),
                Err(e) => Err(e),
            }
        }
    }
}

/// A decoded message with the reported sender address stamped on.
pub open spec fn spec_stamp(m: MessageModel, ip: IpAddress) -> MessageModel {
    MessageModel { header: HeaderModel { ip_address: Some(ip), ..m.header }, ..m }
}

/// A received datagram as the reader sees it: the receive buffer is zeroed
/// and has the fixed maximum frame size, so short datagrams arrive padded
/// with trailing zero bytes.
pub open spec fn spec_padded(b: Seq<u8>) -> Seq<u8> {
    if b.len() >= MAX_FRAME_SIZE {
        b
    } else {
        b + Seq::new((MAX_FRAME_SIZE - b.len()) as nat, |i: int| 0u8)
    }
}

impl Message {
    /// Encodes the message as one frame.
    pub fn to_bytes(&self) -> (r: Vec<u8>)
        ensures
            r@ == spec_wire(self@),
    {
        let mut out: Vec<u8> = Vec::new();
        out.push(self.contents.get_message_type());
        push_u32_be(&mut out, self.header.message_id);
        let username_bytes: &[u8] = self.header.username.as_str().as_bytes();
        push_u64_be(&mut out, username_bytes.len() as u64);
        out.extend_from_slice(username_bytes);
        let mut content_bytes = self.contents.to_bytes();
        out.append(&mut content_bytes);
        proof {
            assert(out@ =~= spec_wire(self@));
        }
        out
    }

    /// Decodes a frame, leaving the sender address unset; the transport
    /// reader stamps it afterwards from the socket's reported peer.
    pub fn decode(bytes: &[u8]) -> (r: Result<Self, MessageErrors>)
        ensures
            match r {
                Ok(m) => spec_parse_frame(bytes@) == Ok::<MessageModel, MessageErrors>(m@),
                Err(e) => spec_parse_frame(bytes@) == Err::<MessageModel, MessageErrors>(e),
            },
    {
        if bytes.len() == 0 {
            return Err(MessageErrors::InvalidFrame);
        }
        let tag = bytes[0];
        if !SpecificMessageContents::is_valid_message_type(tag) {
            return Err(MessageErrors::InvalidFrame);
        }
        if bytes.len() < 13 {
            return Err(MessageErrors::Truncated);
        }
        let message_id = read_u32_be(bytes, 1);
        let n = read_u64_be(bytes, 5);
        let available = (bytes.len() - 13) as u64;
        if n > available {
            return Err(MessageErrors::Truncated);
        }
        let n_count = n as usize;
        let username_bytes: &[u8] = &bytes[13..13 + n_count];
        let username = from_utf8_lossy(username_bytes);
        let content_region: &[u8] = &bytes[13 + n_count..bytes.len()];
        match SpecificMessageContents::from_bytes(tag, content_region) {
            Ok(contents) => Ok(Self { header: MessageHeader::new(message_id, username), contents }),
            Err(e) => Err(e),
        }
    }

    /// Decodes a frame and stamps the reported sender address into the
    /// returned header.
    pub fn from_bytes(ip_address: IpAddress, bytes: &[u8]) -> (r: Result<Self, MessageErrors>)
        ensures
            match r {
                Ok(m) => spec_parse_frame(bytes@) is Ok && m@ == spec_stamp(
                    spec_parse_frame(bytes@)->Ok_0,
                    ip_address,
                ),
                Err(e) => spec_parse_frame(bytes@) == Err::<MessageModel, MessageErrors>(e),
            },
    {
        match Self::decode(bytes) {
            Ok(mut m) => {
                m.header.ip_address = Some(ip_address);
                Ok(m)
            },
            Err(e) => Err(e),
        }
    }

    /// Decodes a received datagram the way the reader loop sees it: in a
    /// zeroed receive buffer of the maximum frame size, so anything shorter
    /// is padded with trailing zero bytes before decoding.
    pub fn decode_datagram(ip_address: IpAddress, data: &[u8]) -> (r: Result<Self, MessageErrors>)
        ensures
            match r {
                Ok(m) => spec_parse_frame(spec_padded(data@)) is Ok && m@ == spec_stamp(
                    spec_parse_frame(spec_padded(data@))->Ok_0,
                    ip_address,
                ),
                Err(e) => spec_parse_frame(spec_padded(data@)) == Err::<
                    MessageModel,
                    MessageErrors,
                >(e),
            },
    {
        if data.len() >= MAX_FRAME_SIZE {
            proof {
                assert(spec_padded(data@) == data@);
            }
            Self::from_bytes(ip_address, data)
        } else {
            let mut buf: Vec<u8> = Vec::with_capacity(MAX_FRAME_SIZE);
            buf.extend_from_slice(data);
            while buf.len() < MAX_FRAME_SIZE
                invariant
                    data@.len() <= buf@.len() <= MAX_FRAME_SIZE,
                    buf@.subrange(0, data@.len() as int) == data@,
                    forall|i: int| data@.len() <= i < buf@.len() ==> buf@[i] == 0u8,
                decreases MAX_FRAME_SIZE - buf@.len(),
            {
                buf.push(0);
                proof {
                    assert(buf@.subrange(0, data@.len() as int) =~= data@);
                }
            }
            proof {
                assert(buf@ =~= spec_padded(data@));
            }
            Self::from_bytes(ip_address, buf.as_slice())
        }
    }

    /// The sender's display name.
    pub fn username(&self) -> (r: &String)
        ensures
            r@ == self@.header.username,
    {
        self.header.username()
    }

    /// The stamped sender address as dotted-decimal text, when one is there.
    pub fn ip_address(&self) -> (r: Option<String>)
        ensures
            match (r, self@.header.ip_address) {
                (Some(s), Some(ip)) => s@ == spec_ipv4_text(ip),
                (None, None) => true,
                _ => false,
            },
    {
        self.header.ip_address()
    }

    /// The chat text, when this message carries any.
    pub fn message_contents(&self) -> (r: Option<&String>)
        ensures
            match r {
                Some(s) => self@.contents matches ContentModel::Text(t) && s@ == t,
                None => !(self@.contents is Text),
            },
    {
        match &self.contents {
            SpecificMessageContents::Message(msg) => Some(msg),
            _ => None,
        }
    }

    /// Builds an outbound chat-text message.
    pub fn new_message(header: MessageHeader, contents: String) -> (r: Self)
        ensures
            r@ == (MessageModel { header: header@, contents: ContentModel::Text(contents@) }),
    {
        Self { header, contents: SpecificMessageContents::Message(contents) }
    }
}

/// True when a message fits the wire's 64-bit length fields: the UTF-8
/// encodings of its username and of its text, if it carries any, each count
/// at most `u64::MAX` bytes. Every message an execution can build satisfies
/// this; the bound only matters for the quantified laws below.
pub open spec fn spec_encodable(m: MessageModel) -> bool {
    &&& encode_utf8(m.header.username).len() <= u64::MAX
    &&& (m.contents matches ContentModel::Text(t) ==> encode_utf8(t).len() <= u64::MAX)
}

/// Round trip: decoding the encoding of any outbound message — one without
/// a stamped sender address — yields that message back, field for field.
pub proof fn lemma_round_trip(m: MessageModel)
    requires
        spec_encodable(m),
        m.header.ip_address is None,
    ensures
        spec_parse_frame(spec_wire(m)) == Ok::<MessageModel, MessageErrors>(m),
{
    let w = spec_wire(m);
    let u = encode_utf8(m.header.username);
    let ulen = u.len() as int;
    let c = m.contents.wire();
    assert(w.len() == 13 + ulen + c.len());
    assert(w[0] == m.contents.tag());
    lemma_u32_be_bytes_roundtrip(m.header.message_id);
    lemma_u64_be_bytes_roundtrip(u.len() as u64);
    assert(w.subrange(1, 5) =~= spec_u32_to_be_bytes(m.header.message_id));
    assert(w.subrange(5, 13) =~= spec_u64_to_be_bytes(u.len() as u64));
    let n = spec_u64_from_be_bytes(w.subrange(5, 13)) as int;
    assert(n == ulen);
    assert(w.subrange(13, 13 + n) =~= u);
    encode_utf8_valid_utf8(m.header.username);
    encode_utf8_decode_utf8(m.header.username);
    assert(w.subrange(13 + n, w.len() as int) =~= c);
    lemma_content_round_trip(m.contents);
    assert(spec_parse_frame(w) == Ok::<MessageModel, MessageErrors>(m));
}

/// Round trip through the address-stamping decode path: the decoded message
/// agrees with the original on every field, and carries the stamped peer
/// address in place of the original's empty one.
pub proof fn lemma_round_trip_stamped(m: MessageModel, ip: IpAddress)
    requires
        spec_encodable(m),
        m.header.ip_address is None,
    ensures
        spec_parse_frame(spec_wire(m)) is Ok,
        spec_stamp(spec_parse_frame(spec_wire(m))->Ok_0, ip) == spec_stamp(m, ip),
{
    lemma_round_trip(m);
}

/// Truncation safety: cutting the encoding of any message short at any
/// byte offset makes decoding fail — an empty cut is an invalid frame, any
/// longer one a truncated frame — rather than read past the end.
pub proof fn lemma_truncation(m: MessageModel, cut: int)
    requires
        spec_encodable(m),
        0 <= cut < spec_wire(m).len(),
    ensures
        cut == 0 ==> spec_parse_frame(spec_wire(m).subrange(0, cut)) == Err::<
            MessageModel,
            MessageErrors,
        >(MessageErrors::InvalidFrame),
        cut > 0 ==> spec_parse_frame(spec_wire(m).subrange(0, cut)) == Err::<
            MessageModel,
            MessageErrors,
        >(MessageErrors::Truncated),
{
    let w = spec_wire(m);
    let p = w.subrange(0, cut);
    let u = encode_utf8(m.header.username);
    let ulen = u.len() as int;
    let c = m.contents.wire();
    assert(w.len() == 13 + ulen + c.len());
    if cut == 0 {
    } else {
        assert(p[0] == m.contents.tag());
        if cut < 13 {
        } else {
            assert(p.subrange(5, 13) =~= spec_u64_to_be_bytes(u.len() as u64));
            lemma_u64_be_bytes_roundtrip(u.len() as u64);
            let n = spec_u64_from_be_bytes(p.subrange(5, 13)) as int;
            assert(n == ulen);
            if cut < 13 + ulen {
                assert(n > p.len() - 13);
            } else {
                assert(c.len() > 0);
                match m.contents {
                    ContentModel::Text(t) => {
                        let tl = encode_utf8(t).len() as int;
                        assert(c.len() == 8 + tl);
                        let rest = p.subrange(13 + n, p.len() as int);
                        assert(rest.len() == cut - 13 - ulen);
                        if rest.len() < 8 {
                        } else {
                            assert(rest.subrange(0, 8) =~= spec_u64_to_be_bytes(
                                encode_utf8(t).len() as u64,
                            ));
                            lemma_u64_be_bytes_roundtrip(encode_utf8(t).len() as u64);
                            let n2 = spec_u64_from_be_bytes(rest.subrange(0, 8)) as int;
                            assert(n2 == tl);
                            assert(n2 > rest.len() - 8);
                        }
                    },
                    ContentModel::Connected => {
                        assert(false);
                    },
                    ContentModel::Disconnected => {
                        assert(false);
                    },
                }
            }
        }
    }
}

/// Tag rejection: an empty buffer, or any buffer whose first byte is not a
/// recognized tag, decodes to an invalid frame whatever the remaining bytes
/// hold.
pub proof fn lemma_tag_rejection(b: Seq<u8>)
    requires
        b.len() == 0 || !spec_valid_tag(b[0]),
    ensures
        spec_parse_frame(b) == Err::<MessageModel, MessageErrors>(MessageErrors::InvalidFrame),
{
}

} // verus!
