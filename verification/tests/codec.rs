use uchat::message::Message;
use uchat::message_errors::MessageErrors;
use uchat::message_header::MessageHeader;
use uchat::net_address::IpAddress;
use uchat::specific_message_contents::SpecificMessageContents;
use uchat::wire::push_u32_be;
use uchat::wire::push_u64_be;
use uchat::wire::read_u32_be;
use uchat::wire::read_u64_be;

fn check_deserialised_message(expected: Message, actual: Message, expected_ip: String) {
    assert_eq!(expected.contents, actual.contents);
    assert_eq!(expected.header.message_id(), actual.header.message_id());
    assert_eq!(expected.header.username(), actual.header.username());
    assert_eq!(Some(expected_ip), actual.header.ip_address());
}

#[test]
fn simple_round_trip() {
    let message = Message::new_message(
        MessageHeader::new(9001, "jackma".to_owned()),
        "This is a test message".to_owned(),
    );

    let bytes = message.to_bytes();
    let new_message =
        Message::from_bytes(IpAddress::new(192, 168, 1, 0), bytes.as_slice()).unwrap();

    check_deserialised_message(message, new_message, "192.168.1.0".to_owned());
}

#[test]
fn encode_text_concrete_bytes() {
    let message =
        Message::new_message(MessageHeader::new(9001, "jackma".to_owned()), "hi".to_owned());
    let bytes = message.to_bytes();

    let mut expected: Vec<u8> = vec![1];
    expected.extend_from_slice(&[0x00, 0x00, 0x23, 0x29]);
    expected.extend_from_slice(&[0, 0, 0, 0, 0, 0, 0, 6]);
    expected.extend_from_slice(&b"jackma"[..]);
    expected.extend_from_slice(&[0, 0, 0, 0, 0, 0, 0, 2]);
    expected.extend_from_slice(&b"hi"[..]);
    assert_eq!(bytes, expected);

    let decoded = Message::decode(bytes.as_slice()).unwrap();
    assert_eq!(decoded.header.message_id(), 9001);
    assert_eq!(decoded.header.username().as_str(), "jackma");
    assert_eq!(decoded.header.ip_address(), None);
    assert_eq!(decoded.message_contents(), Some(&"hi".to_owned()));
}

#[test]
fn multibyte_round_trip() {
    let message =
        Message::new_message(MessageHeader::new(3, "\u{142}ukasz".to_owned()), "gr\u{fc}\u{df}e \u{1f980}".to_owned());
    let bytes = message.to_bytes();
    let back = Message::decode(bytes.as_slice()).unwrap();
    assert_eq!(back, message);
}

#[test]
fn decode_empty_and_bare_connected() {
    let empty: Vec<u8> = vec![];
    assert_eq!(Message::decode(empty.as_slice()), Err(MessageErrors::InvalidFrame));

    let datagram = [2u8];
    let m = Message::decode_datagram(IpAddress::new(10, 0, 0, 1), &datagram).unwrap();
    assert_eq!(m.header.message_id(), 0);
    assert_eq!(m.header.username().as_str(), "");
    assert_eq!(m.header.ip_address(), Some("10.0.0.1".to_owned()));
    assert_eq!(m.contents, SpecificMessageContents::Connected);
}

#[test]
fn rejects_unknown_tags() {
    for tag in [0u8, 4, 200, 255] {
        let mut buf = vec![tag];
        assert_eq!(Message::decode(buf.as_slice()), Err(MessageErrors::InvalidFrame));
        buf.extend_from_slice(&[0; 24]);
        assert_eq!(Message::decode(buf.as_slice()), Err(MessageErrors::InvalidFrame));
    }
}

#[test]
fn truncated_text_frames_fail_cleanly() {
    let message =
        Message::new_message(MessageHeader::new(77, "ann".to_owned()), "hello".to_owned());
    let bytes = message.to_bytes();
    for cut in 0..bytes.len() {
        let r = Message::decode(&bytes[..cut]);
        if cut == 0 {
            assert_eq!(r, Err(MessageErrors::InvalidFrame));
        } else {
            assert_eq!(r, Err(MessageErrors::Truncated));
        }
    }
}

#[test]
fn truncated_presence_frames_fail_cleanly() {
    let message = Message {
        header: MessageHeader::new(8, "bob".to_owned()),
        contents: SpecificMessageContents::Disconnected,
    };
    let bytes = message.to_bytes();
    for cut in 0..bytes.len() {
        let r = Message::decode(&bytes[..cut]);
        if cut == 0 {
            assert_eq!(r, Err(MessageErrors::InvalidFrame));
        } else {
            assert_eq!(r, Err(MessageErrors::Truncated));
        }
    }
}

#[test]
fn overlong_text_length_is_truncated() {
    let mut buf = vec![1u8];
    buf.extend_from_slice(&[0, 0, 0, 1]);
    buf.extend_from_slice(&[0; 8]);
    buf.extend_from_slice(&[0, 0, 0, 0, 0, 0, 0, 5]);
    buf.extend_from_slice(&b"hi"[..]);
    assert_eq!(Message::decode(buf.as_slice()), Err(MessageErrors::Truncated));
}

#[test]
fn overlong_username_length_is_truncated() {
    let mut buf = vec![2u8];
    buf.extend_from_slice(&[0, 0, 0, 1]);
    buf.extend_from_slice(&[0, 0, 0, 0, 0, 0, 0, 9]);
    buf.extend_from_slice(&b"abc"[..]);
    assert_eq!(Message::decode(buf.as_slice()), Err(MessageErrors::Truncated));
}

#[test]
fn invalid_utf8_username_is_replaced() {
    let mut buf = vec![2u8];
    buf.extend_from_slice(&[0, 0, 0, 7]);
    buf.extend_from_slice(&[0, 0, 0, 0, 0, 0, 0, 1]);
    buf.push(0xFF);
    let m = Message::decode(buf.as_slice()).unwrap();
    assert_eq!(m.header.username().as_str(), "\u{FFFD}");
    assert_eq!(m.contents, SpecificMessageContents::Connected);
}

#[test]
fn content_tags_and_validity() {
    assert_eq!(SpecificMessageContents::Message("x".to_owned()).get_message_type(), 1);
    assert_eq!(SpecificMessageContents::Connected.get_message_type(), 2);
    assert_eq!(SpecificMessageContents::Disconnected.get_message_type(), 3);
    assert!(!SpecificMessageContents::is_valid_message_type(0));
    assert!(SpecificMessageContents::is_valid_message_type(1));
    assert!(SpecificMessageContents::is_valid_message_type(2));
    assert!(SpecificMessageContents::is_valid_message_type(3));
    assert!(!SpecificMessageContents::is_valid_message_type(4));
}

#[test]
fn content_round_trip() {
    let c = SpecificMessageContents::message("h\u{e9}llo".to_owned());
    let bytes = c.to_bytes();
    let back = SpecificMessageContents::from_bytes(1, bytes.as_slice()).unwrap();
    assert_eq!(back, c);

    let none: [u8; 0] = [];
    assert_eq!(
        SpecificMessageContents::from_bytes(2, &none).unwrap(),
        SpecificMessageContents::Connected
    );
    assert_eq!(
        SpecificMessageContents::from_bytes(3, &[9, 9]).unwrap(),
        SpecificMessageContents::Disconnected
    );
}

#[test]
fn presence_content_encodes_empty() {
    assert_eq!(SpecificMessageContents::Connected.to_bytes(), Vec::<u8>::new());
    assert_eq!(SpecificMessageContents::Disconnected.to_bytes(), Vec::<u8>::new());
}

#[test]
fn content_length_prefix_must_fit() {
    assert_eq!(
        SpecificMessageContents::from_bytes(1, &[0, 0, 0]),
        Err(MessageErrors::Truncated)
    );
    assert_eq!(
        SpecificMessageContents::from_bytes(1, &[0, 0, 0, 0, 0, 0, 0, 3, 65]),
        Err(MessageErrors::Truncated)
    );
}

#[test]
fn header_accessors() {
    let h = MessageHeader::new(5, "amy".to_owned());
    assert_eq!(h.message_id(), 5);
    assert_eq!(h.username().as_str(), "amy");
    assert_eq!(h.ip_address(), None);

    let h2 = MessageHeader::new_with_ip(6, "bob".to_owned(), IpAddress::new(203, 0, 113, 7));
    assert_eq!(h2.message_id(), 6);
    assert_eq!(h2.ip_address(), Some("203.0.113.7".to_owned()));
}

#[test]
fn ip_text_edges() {
    assert_eq!(IpAddress::new(0, 0, 0, 0).to_text(), "0.0.0.0");
    assert_eq!(IpAddress::new(255, 255, 255, 255).to_text(), "255.255.255.255");
    assert_eq!(IpAddress::new(1, 10, 100, 250).to_text(), "1.10.100.250");
}

#[test]
fn error_text() {
    assert_eq!(MessageErrors::InvalidFrame.to_text(), "InvalidFrame");
    assert_eq!(MessageErrors::Truncated.to_text(), "Truncated");
}

#[test]
fn be_bytes_exact() {
    let mut v: Vec<u8> = Vec::new();
    push_u32_be(&mut v, 0x01020304);
    assert_eq!(v, vec![1, 2, 3, 4]);
    assert_eq!(read_u32_be(v.as_slice(), 0), 0x01020304);

    let mut w: Vec<u8> = Vec::new();
    push_u64_be(&mut w, 0x0102030405060708);
    assert_eq!(w, vec![1, 2, 3, 4, 5, 6, 7, 8]);
    assert_eq!(read_u64_be(w.as_slice(), 0), 0x0102030405060708);
}
