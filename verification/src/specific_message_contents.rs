//! The tagged payload carried inside a frame, and its wire encoding.

use vstd::prelude::*;
use vstd::utf8::encode_utf8;
use vstd::utf8::encode_utf8_decode_utf8;
use vstd::utf8::encode_utf8_valid_utf8;

use crate::wire::lemma_u64_be_bytes_roundtrip;
use crate::message_errors::MessageErrors;
use crate::wire::from_utf8_lossy;
use crate::wire::spec_text_decode;
use crate::wire::push_u64_be;
use crate::wire::read_u64_be;
use crate::wire::spec_u64_from_be_bytes;
use crate::wire::spec_u64_to_be_bytes;

verus! {

/// One variant of the payload: chat text, a presence announcement, or a
/// presence withdrawal.
#[derive(PartialEq, Eq, Debug)]
pub enum SpecificMessageContents {
    Message(String),
    Connected,
    Disconnected,
}

/// The mathematical image of a payload: text is a character sequence, the
/// presence variants carry nothing.
pub ghost enum ContentModel {
    Text(Seq<char>),
    Connected,
    Disconnected,
}

impl View for SpecificMessageContents {
    type V = ContentModel;

    open spec fn view(&self) -> ContentModel {
        match self {
            SpecificMessageContents::Message(msg) => ContentModel::Text(msg@),
            SpecificMessageContents::Connected => ContentModel::Connected,
            SpecificMessageContents::Disconnected => ContentModel::Disconnected,
        }
    }
}

/// True for the tag bytes the wire format recognizes.
pub open spec fn spec_valid_tag(b: u8) -> bool {
    1 <= b && b <= 3
}

impl ContentModel {
    /// The tag byte that leads a frame carrying this variant.
    pub open spec fn tag(self) -> u8 {
        match self {
            ContentModel::Text(_) => 1,
            ContentModel::Connected => 2,
            ContentModel::Disconnected => 3,
        }
    }

    /// The payload bytes that follow the frame header: text is sent as an
    /// eight-byte big-endian length followed by its UTF-8 bytes, the
    /// presence variants send nothing.
    pub open spec fn wire(self) -> Seq<u8> {
        match self {
            ContentModel::Text(t) => spec_u64_to_be_bytes(encode_utf8(t).len() as u64)
                + encode_utf8(t),
            ContentModel::Connected => Seq::<u8>::empty(),
            ContentModel::Disconnected => Seq::<u8>::empty(),
        }
    }
}

/// What decoding a payload region yields for a recognized tag: for text, the
/// eight-byte length prefix must fit and claim no more bytes than remain, and
/// the claimed bytes are decoded lossily; the presence variants ignore any
/// trailing bytes.
pub open spec fn spec_parse_content(tag: u8, b: Seq<u8>) -> Result<ContentModel, MessageErrors>
    recommends
        spec_valid_tag(tag),
{
    if tag == 1 {
        if b.len() < 8 {
            Err(MessageErrors::Truncated)
        } else {
            let n = spec_u64_from_be_bytes(b.subrange(0, 8)) as int;
            if n > b.len() - 8 {
                Err(MessageErrors::Truncated)
            } else {
                Ok(ContentModel::Text(spec_text_decode(b.subrange(8, 8 + n))))
            }
        }
    } else if tag == 2 {
        Ok(ContentModel::Connected)
    } else {
        Ok(ContentModel::Disconnected)
    }
}

/// Parsing back the encoded payload region of a variant, under its own tag,
/// recovers the variant.
pub proof fn lemma_content_round_trip(c: ContentModel)
    requires
        c matches ContentModel::Text(t) ==> encode_utf8(t).len() <= u64::MAX,
    ensures
        spec_parse_content(c.tag(), c.wire()) == Ok::<ContentModel, MessageErrors>(c),
{
    match c {
        ContentModel::Text(t) => {
            let u = encode_utf8(t);
            let w = c.wire();
            lemma_u64_be_bytes_roundtrip(u.len() as u64);
            assert(w.subrange(0, 8) =~= spec_u64_to_be_bytes(u.len() as u64));
            let n = spec_u64_from_be_bytes(w.subrange(0, 8)) as int;
            assert(n == u.len());
            assert(w.subrange(8, 8 + n) =~= u);
            encode_utf8_valid_utf8(t);
            encode_utf8_decode_utf8(t);
        },
        ContentModel::Connected => {},
        ContentModel::Disconnected => {},
    }
}

impl SpecificMessageContents {
    /// The tag byte identifying this variant on the wire.
    pub fn get_message_type(&self) -> (r: u8)
        ensures
            r == self@.tag(),
    {
        match self {
            SpecificMessageContents::Message(_) => 1,
            SpecificMessageContents::Connected => 2,
            SpecificMessageContents::Disconnected => 3,
        }
    }

    /// True when a tag byte names one of the recognized variants.
    pub fn is_valid_message_type(b: u8) -> (r: bool)
        ensures
            r == spec_valid_tag(b),
    {
        b >= 1 && b <= 3
    }

    /// Wraps chat text as a payload.
    pub fn message(message: String) -> (r: Self)
        ensures
            r@ == ContentModel::Text(message@),
    {
        Self::Message(message)
    }

    /// Encodes the payload region of a frame.
    pub fn to_bytes(&self) -> (r: Vec<u8>)
        ensures
            r@ == self@.wire(),
    {
        match self {
            SpecificMessageContents::Message(msg) => {
                let message_bytes: &[u8] = msg.as_str().as_bytes();
                let mut out: Vec<u8> = Vec::new();
                push_u64_be(&mut out, message_bytes.len() as u64);
                out.extend_from_slice(message_bytes);
                proof {
                    assert(out@ =~= self@.wire());
                }
                out
            },
            SpecificMessageContents::Connected => Vec::new(),
            SpecificMessageContents::Disconnected => Vec::new(),
        }
    }

    /// Decodes the payload region of a frame whose tag byte has already been
    /// recognized; an unrecognized tag must have been rejected before this
    /// point.
    pub fn from_bytes(message_type: u8, bytes: &[u8]) -> (r: Result<Self, MessageErrors>)
        requires
            spec_valid_tag(message_type),
        ensures
            match r {
                Ok(c) => spec_parse_content(message_type, bytes@) == Ok::<
                    ContentModel,
                    MessageErrors,
                >(c@),
                Err(e) => spec_parse_content(message_type, bytes@) == Err::<
                    ContentModel,
                    MessageErrors,
                >(e),
            },
    {
        if message_type == 1 {
            if bytes.len() < 8 {
                return Err(MessageErrors::Truncated);
            }
            let n = read_u64_be(bytes, 0);
            let available = (bytes.len() - 8) as u64;
            if n > available {
                return Err(MessageErrors::Truncated);
            }
            let n_count = n as usize;
            let text_bytes: &[u8] = &bytes[8..8 + n_count];
            Ok(SpecificMessageContents::Message(from_utf8_lossy(text_bytes)))
        } else if message_type == 2 {
            Ok(SpecificMessageContents::Connected)
        } else {
            Ok(SpecificMessageContents::Disconnected)
        }
    }
}

} // verus!
