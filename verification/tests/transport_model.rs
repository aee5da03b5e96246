use uchat::message::Message;
use uchat::message_header::MessageHeader;
use uchat::net_address::IpAddress;
use uchat::transport::MessageQueue;
use uchat::transport::ReaderAction;
use uchat::transport::SendError;
use uchat::transport::Transport;
use uchat::transport::WriterAction;
use uchat::transport::reader_step;
use uchat::transport::writer_step;

fn text_message(id: u32, username: &str, text: &str) -> Message {
    Message::new_message(MessageHeader::new(id, username.to_owned()), text.to_owned())
}

#[test]
fn queue_preserves_send_order() {
    let mut t = Transport::new();
    for i in 0..3u32 {
        let m = text_message(i, "amy", &format!("message {}", i));
        t.send(m).unwrap();
    }
    let frames = t.flush_outbound();
    assert_eq!(frames.len(), 3);
    for i in 0..3u32 {
        let expected = text_message(i, "amy", &format!("message {}", i)).to_bytes();
        assert_eq!(frames[i as usize], expected);
    }
}

#[test]
fn send_after_shutdown_fails() {
    let mut t = Transport::new();
    t.begin_shutdown();
    let m = text_message(0, "amy", "late");
    assert_eq!(t.send(m), Err(SendError::TransportClosed));
}

#[test]
fn shutdown_twice_is_harmless() {
    let mut t = Transport::new();
    t.accept_inbound(text_message(1, "zoe", "kept"));
    t.shutdown();
    assert!(t.shutdown && t.reader_stopped && t.writer_stopped);
    t.shutdown();
    assert!(t.shutdown && t.reader_stopped && t.writer_stopped);
    assert_eq!(t.inbound.len(), 1);
    assert_eq!(t.outbound.len(), 0);
}

#[test]
fn try_receive_is_fifo() {
    let mut t = Transport::new();
    t.accept_inbound(text_message(0, "a", "first"));
    t.accept_inbound(text_message(1, "a", "second"));
    let first = t.try_receive().unwrap();
    assert_eq!(first.message_contents(), Some(&"first".to_owned()));
    let second = t.try_receive().unwrap();
    assert_eq!(second.message_contents(), Some(&"second".to_owned()));
    assert_eq!(t.try_receive(), None);
}

#[test]
fn reader_step_decisions() {
    let peer = IpAddress::new(192, 0, 2, 9);
    assert_eq!(reader_step(true, None), ReaderAction::Stop);
    assert_eq!(reader_step(true, Some((&[2u8][..], peer))), ReaderAction::Stop);
    assert_eq!(reader_step(false, None), ReaderAction::Skip);
    assert_eq!(reader_step(false, Some((&[9u8][..], peer))), ReaderAction::Skip);

    let m = text_message(4, "zoe", "hey");
    let bytes = m.to_bytes();
    match reader_step(false, Some((bytes.as_slice(), peer))) {
        ReaderAction::Deliver(got) => {
            assert_eq!(got.header.message_id(), 4);
            assert_eq!(got.ip_address(), Some("192.0.2.9".to_owned()));
            assert_eq!(got.message_contents(), Some(&"hey".to_owned()));
        }
        other => panic!("unexpected reader action: {:?}", other),
    }
}

#[test]
fn writer_step_decisions() {
    assert!(matches!(writer_step(true, None), WriterAction::Stop));
    assert!(matches!(writer_step(true, Some(text_message(0, "a", "x"))), WriterAction::Stop));
    assert!(matches!(writer_step(false, None), WriterAction::Idle));

    let expected = text_message(1, "al", "yo").to_bytes();
    match writer_step(false, Some(text_message(1, "al", "yo"))) {
        WriterAction::Transmit(b) => assert_eq!(b, expected),
        other => panic!("unexpected writer action: {:?}", other),
    }
}

#[test]
fn message_queue_is_fifo() {
    let mut q = MessageQueue::new();
    assert!(q.is_empty());
    assert_eq!(q.pop_front(), None);
    q.push_back(text_message(0, "a", "one"));
    q.push_back(text_message(1, "a", "two"));
    assert_eq!(q.len(), 2);
    assert_eq!(q.pop_front().unwrap().message_contents(), Some(&"one".to_owned()));
    assert_eq!(q.pop_front().unwrap().message_contents(), Some(&"two".to_owned()));
    assert!(q.is_empty());
}
