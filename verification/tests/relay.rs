use dhcproto::v4::bulk_query::Code;
use dhcproto::v4::{DhcpOption, DhcpOptions, Message, OptionCode};
use dhcproto::{Decodable, Decoder, Encodable};
use middle_sock::packet::{can_write_texts, check_options, DHCPMessage};
use middle_sock::socket::{
    default_runtime_address, receiver_endpoint, sender_endpoint, DropReason, Endpoint, Relay,
    RelayAction, DATAGRAM_SIZE, QUEUE_CAPACITY,
};
use middle_sock::subnet::Ipv4;

fn offer() -> Vec<u8> {
    let mut bytes = vec![
        0x02, 0x01, 0x06, 0x00, 0x00, 0x00, 0x15, 0x5c, 0x00, 0x00, 0x80, 0x00, 0x00, 0x00, 0x00,
        0x00, 0xc0, 0xa8, 0x00, 0x03, 0x00, 0x00, 0x00, 0x00, 0x00, 0x00, 0x00, 0x00, 0xcc, 0x00,
        0x0a, 0xc4,
    ];
    bytes.extend(vec![0u8; 204]);
    bytes.extend(vec![
        0x63, 0x82, 0x53, 0x63, 0x35, 0x01, 0x02, 0x36, 0x04, 0xc0, 0xa8, 0x00, 0x01, 0x33, 0x04,
        0x00, 0x00, 0x00, 0x3c, 0x3a, 0x04, 0x00, 0x00, 0x00, 0x1e, 0x3b, 0x04, 0x00, 0x00, 0x00,
        0x34, 0x01, 0x04, 0xff, 0xff, 0xff, 0x00, 0x03, 0x04, 0xc0, 0xa8, 0x00, 0x01, 0x06, 0x08,
        0xc0, 0xa8, 0x00, 0x01, 0xc0, 0xa8, 0x01, 0x01, 0xff, 0x00, 0x00, 0x00, 0x00, 0x00, 0x00,
        0x00, 0x00, 0x00, 0x00,
    ]);
    bytes
}

fn relay() -> Relay {
    Relay::new(default_runtime_address(), Endpoint { ip: Ipv4::new(192, 0, 2, 53), port: 67 })
}

#[test]
fn well_formed_datagram_is_decoded() {
    let bytes = offer();
    let message = DHCPMessage::decode(&bytes).unwrap();
    let expected = Message::decode(&mut Decoder::new(&bytes)).unwrap();
    assert_eq!(message.raw(), expected);
    assert_eq!(message.raw().xid(), 0x155c);
}

#[test]
fn malformed_datagram_is_passed_over() {
    assert!(DHCPMessage::decode(&[]).is_none());
    assert!(DHCPMessage::decode(&[1, 2, 3]).is_none());
    assert!(DHCPMessage::decode(&offer()[..100]).is_none());
    assert!(relay().receive(&[0u8; 10]).is_none());
    assert!(matches!(
        relay().relay(&[0u8; 10], Some(default_runtime_address())),
        RelayAction::Drop(DropReason::NotRead)
    ));
    assert!(matches!(relay().relay(&[0u8; 10], None), RelayAction::Drop(DropReason::NotRead)));
}

#[test]
fn encoding_writes_the_message_out_again() {
    let bytes = offer();
    let message = DHCPMessage::decode(&bytes).unwrap();
    let written = message.encode().unwrap();
    let expected = Message::decode(&mut Decoder::new(&bytes)).unwrap().to_vec().unwrap();
    assert_eq!(written, expected);
    assert!(!written.is_empty());
    assert_ne!(written, Vec::<u8>::new());
    let again = DHCPMessage::decode(&written).unwrap();
    assert_eq!(again.raw(), message.raw());
    assert_eq!(again.encode().unwrap(), written);
}

#[test]
fn message_made_from_a_codec_message() {
    let inner = Message::decode(&mut Decoder::new(&offer())).unwrap();
    let message = DHCPMessage::from(inner.clone());
    assert_eq!(message.raw(), inner);
    assert_eq!(message.encode().unwrap(), inner.to_vec().unwrap());
}

#[test]
fn datagram_from_the_runtime_address_is_forwarded_to_the_server() {
    let bytes = offer();
    let r = relay();
    match r.relay(&bytes, Some(Ipv4::new(172, 17, 0, 1))) {
        RelayAction::Forward { payload, to } => {
            assert_eq!(payload, DHCPMessage::decode(&bytes).unwrap().encode().unwrap());
            assert_eq!(to, Endpoint { ip: Ipv4::new(192, 0, 2, 53), port: 67 });
            let sent = Message::decode(&mut Decoder::new(&payload)).unwrap();
            let received = Message::decode(&mut Decoder::new(&bytes)).unwrap();
            assert_eq!(sent, received);
        }
        RelayAction::Drop(reason) => panic!("dropped: {:?}", reason),
    }
}

#[test]
fn datagram_from_another_source_is_not_forwarded() {
    let bytes = offer();
    let r = relay();
    let other = RelayAction::Drop(DropReason::OtherSource);
    assert!(matches!(r.relay(&bytes, Some(Ipv4::new(172, 17, 0, 2))), RelayAction::Drop(DropReason::OtherSource)));
    assert!(matches!(r.relay(&bytes, Some(Ipv4::new(1, 0, 17, 172))), RelayAction::Drop(DropReason::OtherSource)));
    assert!(matches!(r.relay(&bytes, None), RelayAction::Drop(DropReason::OtherSource)));
    assert!(matches!(other, RelayAction::Drop(_)));
    let message = r.receive(&bytes).unwrap();
    assert!(matches!(
        r.send(&message, Some(Ipv4::new(10, 0, 0, 1))),
        RelayAction::Drop(DropReason::OtherSource)
    ));
    assert!(matches!(r.send(&message, Some(Ipv4::new(172, 17, 0, 1))), RelayAction::Forward { .. }));
}

#[test]
fn admission_is_by_source_address_alone() {
    let r = relay();
    assert!(r.admits(Some(Ipv4::new(172, 17, 0, 1))));
    assert!(!r.admits(Some(Ipv4::new(172, 17, 0, 0))));
    assert!(!r.admits(None));
    match r.forward(vec![1, 2, 3], Some(Ipv4::new(172, 17, 0, 1))) {
        RelayAction::Forward { payload, to } => {
            assert_eq!(payload, vec![1, 2, 3]);
            assert_eq!(to, r.server);
        }
        RelayAction::Drop(reason) => panic!("dropped: {:?}", reason),
    }
    assert!(matches!(r.forward(vec![1, 2, 3], None), RelayAction::Drop(DropReason::OtherSource)));
}

#[test]
fn endpoints_and_sizes() {
    assert_eq!(receiver_endpoint(), Endpoint { ip: Ipv4::new(0, 0, 0, 0), port: 67 });
    assert_eq!(sender_endpoint(), Endpoint { ip: Ipv4::new(0, 0, 0, 0), port: 68 });
    assert_eq!(u16::from(receiver_endpoint().port), dhcproto::v4::SERVER_PORT);
    assert_eq!(u16::from(sender_endpoint().port), dhcproto::v4::CLIENT_PORT);
    assert_eq!(default_runtime_address(), Ipv4::new(172, 17, 0, 1));
    assert_eq!(QUEUE_CAPACITY, 1024);
    assert_eq!(DATAGRAM_SIZE, 1024);
}

fn with_options(options: &[u8]) -> Vec<u8> {
    let mut bytes = offer()[..240].to_vec();
    bytes.extend_from_slice(options);
    bytes
}

#[test]
fn option_lengths_are_checked_before_decoding() {
    assert!(check_options(&offer()));
    assert!(check_options(&[]));
    assert!(check_options(&offer()[..100]));
    assert!(check_options(&with_options(&[])));
    assert!(check_options(&with_options(&[53, 1, 2, 80, 0, 255])));
    assert!(!check_options(&with_options(&[53, 1, 2, 80, 1, 0, 255])));
    assert!(!check_options(&with_options(&[80, 1, 0])));
    assert!(!check_options(&with_options(&[81, 2, 0, 0, 255])));
    assert!(check_options(&with_options(&[81, 3, 0, 0, 0, 255])));
    assert!(!check_options(&with_options(&[94, 2, 1, 2, 255])));
    assert!(check_options(&with_options(&[94, 3, 1, 2, 3, 255])));
    for code in 152u8..=155 {
        assert!(check_options(&with_options(&[code, 4, 0, 0, 0, 1, 255])));
        assert!(!check_options(&with_options(&[code, 3, 0, 0, 1, 255])));
        assert!(!check_options(&with_options(&[code, 5, 0, 0, 0, 0, 1])));
    }
    assert!(check_options(&with_options(&[151, 0, 156, 0, 255])));
}

#[test]
fn pieces_of_one_option_are_measured_together() {
    assert!(check_options(&with_options(&[94, 1, 7, 94, 2, 8, 9, 255])));
    assert!(!check_options(&with_options(&[94, 1, 7, 0, 94, 2, 8, 9, 255])));
    assert!(!check_options(&with_options(&[94, 3, 7, 8, 9, 94, 0, 94, 1, 1])));
    assert!(check_options(&with_options(&[94, 3, 7, 8, 9, 53, 1, 2, 94, 3, 1, 2, 3])));
    assert!(!check_options(&with_options(&[53, 1, 2, 94, 3, 7, 8, 9, 94, 3, 1, 2, 3, 255])));
    // what follows the end code is not read
    assert!(check_options(&with_options(&[53, 1, 2, 255, 80, 1, 0])));
    // a cut-off option ends the reading
    assert!(check_options(&with_options(&[53, 1, 2, 80, 9, 0])));
    assert!(check_options(&with_options(&[53, 1, 2, 80])));
}

#[test]
fn datagram_with_misfit_option_is_passed_over() {
    let bad = with_options(&[53, 1, 2, 80, 1, 0, 255]);
    assert!(DHCPMessage::decode(&bad).is_none());
    assert!(matches!(
        relay().relay(&bad, Some(default_runtime_address())),
        RelayAction::Drop(DropReason::NotRead)
    ));
    let good = with_options(&[53, 1, 2, 80, 0, 255]);
    let message = DHCPMessage::decode(&good).unwrap();
    assert_eq!(message.raw(), Message::decode(&mut Decoder::new(&good)).unwrap());
    assert!(matches!(
        relay().relay(&good, Some(default_runtime_address())),
        RelayAction::Forward { .. }
    ));
}

#[test]
fn checked_datagrams_decode_without_incident() {
    let cases: [&[u8]; 8] = [
        &[94, 1, 7, 94, 2, 8, 9, 255],
        &[81, 3, 0, 0, 0, 255],
        &[152, 4, 0, 0, 0, 1, 153, 4, 0, 0, 0, 2, 154, 4, 0, 0, 0, 3, 155, 4, 0, 0, 0, 4, 255],
        &[53, 1, 2, 80, 9, 0],
        &[151, 0, 255],
        &[121, 5, 24, 10, 0, 0, 1, 255],
        &[82, 2, 1, 0, 255],
        &[0, 0, 0, 255],
    ];
    for options in cases {
        let bytes = with_options(options);
        assert!(check_options(&bytes));
        let message = DHCPMessage::decode(&bytes).unwrap();
        assert!(message.encode().is_some());
    }
}

#[test]
fn options_after_one_that_cannot_be_read_are_not_measured() {
    // the subnet mask has three bytes: the codec stops there and never
    // reaches the rapid commit option behind it
    let bytes = with_options(&[1, 3, 1, 2, 3, 80, 1, 0, 255]);
    assert!(check_options(&bytes));
    let message = DHCPMessage::decode(&bytes).unwrap();
    assert_eq!(message.raw(), Message::decode(&mut Decoder::new(&bytes)).unwrap());
    match relay().relay(&bytes, Some(default_runtime_address())) {
        RelayAction::Forward { payload, to } => {
            assert_eq!(payload, message.encode().unwrap());
            assert_eq!(to, relay().server);
        }
        RelayAction::Drop(reason) => panic!("dropped: {:?}", reason),
    }
    // the same option in front of the unreadable one is measured
    assert!(!check_options(&with_options(&[80, 1, 0, 1, 3, 1, 2, 3, 255])));
}

#[test]
fn run_closed_by_a_cut_off_piece_of_its_code_is_not_measured() {
    let bytes = with_options(&[80, 1, 0, 80, 5, 1]);
    assert!(check_options(&bytes));
    assert!(check_options(&with_options(&[80, 1, 0, 80])));
    assert!(check_options(&with_options(&[94, 1, 7, 94, 1, 8, 94, 9])));
    let message = DHCPMessage::decode(&bytes).unwrap();
    assert_eq!(message.raw(), Message::decode(&mut Decoder::new(&bytes)).unwrap());
    // closed by a cut-off piece of another code, the run is measured
    assert!(!check_options(&with_options(&[80, 1, 0, 53, 5, 1])));
    assert!(!check_options(&with_options(&[80, 1, 0, 53])));
}

fn status_option(text_len: usize) -> Vec<u8> {
    // option 151: one byte of status code, then the text, in pieces of at
    // most 255 bytes of value
    let mut value = vec![0u8];
    value.extend(vec![b'a'; text_len]);
    let mut options = vec![53, 1, 2];
    for piece in value.chunks(255) {
        options.push(151);
        options.push(piece.len() as u8);
        options.extend_from_slice(piece);
    }
    options.push(255);
    options
}

#[test]
fn message_that_the_codec_cannot_write_is_not_written() {
    for text_len in [255usize, 511] {
        let bytes = with_options(&status_option(text_len));
        assert!(check_options(&bytes));
        let message = DHCPMessage::decode(&bytes).unwrap();
        assert!(message.encode().is_none());
        assert!(DHCPMessage::from(message.raw()).encode().is_none());
        assert!(matches!(
            relay().send(&message, Some(default_runtime_address())),
            RelayAction::Drop(DropReason::NotWritable)
        ));
        assert!(matches!(
            relay().relay(&bytes, Some(default_runtime_address())),
            RelayAction::Drop(DropReason::NotWritable)
        ));
        // the source is looked at first
        assert!(matches!(relay().relay(&bytes, None), RelayAction::Drop(DropReason::OtherSource)));
    }
}

fn holding(code: OptionCode, text_len: usize) -> DHCPMessage {
    let mut inner = DHCPMessage::decode(&offer()).unwrap().raw();
    let status = DhcpOption::BulkLeaseQueryStatusCode(Code::Success, "a".repeat(text_len));
    let message_type = inner.opts().get(OptionCode::MessageType).unwrap().clone();
    let held: DhcpOptions =
        vec![(OptionCode::MessageType, message_type), (code, status)].into_iter().collect();
    inner.set_opts(held);
    DHCPMessage::from(inner)
}

#[test]
fn status_option_held_under_another_code_is_looked_at() {
    for code in [OptionCode::Hostname, OptionCode::BulkLeaseQueryStatusCode, OptionCode::Unknown(200)] {
        for text_len in [255usize, 511, 767] {
            let message = holding(code, text_len);
            assert!(message.encode().is_none());
            assert!(matches!(
                relay().send(&message, Some(default_runtime_address())),
                RelayAction::Drop(DropReason::NotWritable)
            ));
        }
        for text_len in [0usize, 3, 254, 256] {
            let message = holding(code, text_len);
            let written = message.encode().unwrap();
            assert_eq!(written, message.raw().to_vec().unwrap());
            // the options are written in the order of the codes that they
            // are held under, each under its own code
            let mut status = vec![151, (text_len + 1) as u8, 0];
            status.extend(vec![b'a'; text_len]);
            let mut expected = Vec::new();
            if u8::from(code) < 53 {
                expected.extend(status);
                expected.extend([53, 1, 2]);
            } else {
                expected.extend([53, 1, 2]);
                expected.extend(status);
            }
            expected.push(255);
            assert_eq!(written[240..], expected[..]);
        }
    }
}

#[test]
fn status_texts_decide_whether_a_message_is_written() {
    assert!(can_write_texts(&vec![]));
    assert!(can_write_texts(&vec![None, None]));
    assert!(can_write_texts(&vec![Some(vec![]), None, Some(vec![7u8; 254]), Some(vec![7u8; 256])]));
    assert!(!can_write_texts(&vec![Some(vec![7u8; 255])]));
    assert!(!can_write_texts(&vec![None, Some(vec![7u8; 3]), Some(vec![7u8; 511]), None]));
    assert!(!can_write_texts(&vec![Some(vec![7u8; 255]), Some(vec![7u8; 1])]));
}

#[test]
fn message_with_a_status_text_is_written() {
    for text_len in [0usize, 1, 254, 256, 300] {
        let bytes = with_options(&status_option(text_len));
        assert!(check_options(&bytes));
        let message = DHCPMessage::decode(&bytes).unwrap();
        let written = message.encode().unwrap();
        assert_eq!(written, message.raw().to_vec().unwrap());
        assert!(matches!(
            relay().relay(&bytes, Some(default_runtime_address())),
            RelayAction::Forward { .. }
        ));
    }
}
