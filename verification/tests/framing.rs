//! Message framer: encoding layout, scanning, keep-alive skip, timeout.

use peerwire::error::Error;
use peerwire::message::{Message, MessageTag};
use peerwire::response::{Request, Response};

fn round_trip(tag: MessageTag, payload: Vec<u8>) {
    let frame = Message::encode(tag, &payload);
    assert_eq!(frame.len(), payload.len() + 5);
    let (msg, end) = Message::decode(&frame, 0, tag).expect("frame should decode");
    assert_eq!(msg.tag, tag);
    assert_eq!(msg.payload, payload);
    assert_eq!(end, frame.len());
}

#[test]
fn round_trip_every_tag_empty_payload() {
    let tags = [
        MessageTag::Choke,
        MessageTag::Unchoke,
        MessageTag::Interested,
        MessageTag::NotInterested,
        MessageTag::Have,
        MessageTag::Bitfield,
        MessageTag::Request,
        MessageTag::Piece,
        MessageTag::Cancel,
    ];
    for tag in tags {
        round_trip(tag, Vec::new());
    }
}

#[test]
fn round_trip_various_payload_lengths() {
    for n in [1usize, 2, 3, 16, 255, 1000, 16384] {
        let payload: Vec<u8> = (0..n).map(|i| (i % 251) as u8).collect();
        round_trip(MessageTag::Piece, payload);
    }
}

#[test]
fn encode_exact_bytes() {
    let frame = Message::encode(MessageTag::Interested, &Vec::new());
    assert_eq!(frame, vec![0, 0, 0, 1, 2]);
    let frame = Message::encode(MessageTag::Have, &vec![9, 8, 7]);
    assert_eq!(frame, vec![0, 0, 0, 4, 4, 9, 8, 7]);
}

#[test]
fn keep_alive_then_valid_frame_decodes_to_valid() {
    let mut wire = vec![0, 0, 0, 0];
    wire.extend_from_slice(&Message::encode(MessageTag::Unchoke, &Vec::new()));
    let (msg, end) = Message::decode(&wire, 0, MessageTag::Unchoke).expect("must skip keep-alive");
    assert_eq!(msg.tag, MessageTag::Unchoke);
    assert!(msg.payload.is_empty());
    assert_eq!(end, wire.len());
}

#[test]
fn oversized_length_field_is_skipped() {
    // A length field above the 18000 ceiling is stepped over like a
    // keep-alive, and the frame after it decodes.
    let mut wire = vec![0xff, 0xff, 0xff, 0xff];
    wire.extend_from_slice(&Message::encode(MessageTag::Choke, &Vec::new()));
    let (msg, _) = Message::decode(&wire, 0, MessageTag::Choke).expect("must skip bad length");
    assert_eq!(msg.tag, MessageTag::Choke);
}

#[test]
fn unrecognized_tag_frame_is_skipped() {
    // A well-formed frame carrying tag byte 9 is not a message; scanning
    // continues at the next frame.
    let mut wire = vec![0, 0, 0, 2, 9, 77];
    wire.extend_from_slice(&Message::encode(MessageTag::Bitfield, &vec![0b1010_0000]));
    let (msg, _) = Message::decode(&wire, 0, MessageTag::Bitfield).expect("must skip tag 9");
    assert_eq!(msg.tag, MessageTag::Bitfield);
    assert_eq!(msg.payload, vec![0b1010_0000]);
}

#[test]
fn no_frame_before_deadline_is_a_protocol_timeout() {
    // A peer that never answers leaves the arrived bytes without any
    // complete acceptable frame: the await of a Piece fails with
    // ProtocolTimeout naming that tag.
    let nothing: Vec<u8> = Vec::new();
    let r = Message::decode(&nothing, 0, MessageTag::Piece);
    assert_eq!(r.err(), Some(Error::ProtocolTimeout(MessageTag::Piece)));

    let partial = vec![0, 0, 0, 5, 7, 1, 2];
    let r = Message::decode(&partial, 0, MessageTag::Piece);
    assert_eq!(r.err(), Some(Error::ProtocolTimeout(MessageTag::Piece)));
}

#[test]
fn tag_from_wire_values() {
    assert_eq!(MessageTag::from(0).unwrap(), MessageTag::Choke);
    assert_eq!(MessageTag::from(1).unwrap(), MessageTag::Unchoke);
    assert_eq!(MessageTag::from(2).unwrap(), MessageTag::Interested);
    assert_eq!(MessageTag::from(3).unwrap(), MessageTag::NotInterested);
    assert_eq!(MessageTag::from(4).unwrap(), MessageTag::Have);
    assert_eq!(MessageTag::from(5).unwrap(), MessageTag::Bitfield);
    assert_eq!(MessageTag::from(6).unwrap(), MessageTag::Request);
    assert_eq!(MessageTag::from(7).unwrap(), MessageTag::Piece);
    assert_eq!(MessageTag::from(8).unwrap(), MessageTag::Cancel);
    assert_eq!(MessageTag::from(9).err(), Some(Error::UnrecognizedTag));
    assert_eq!(MessageTag::from(255).err(), Some(Error::UnrecognizedTag));
}

#[test]
fn request_payload_layout() {
    let request = Request::new(0x01020304, 0x0a0b0c0d, 16384);
    let payload = request.encode();
    assert_eq!(
        payload,
        vec![0x01, 0x02, 0x03, 0x04, 0x0a, 0x0b, 0x0c, 0x0d, 0x00, 0x00, 0x40, 0x00]
    );
}

#[test]
fn response_payload_parse() {
    let mut payload = vec![0, 0, 0, 2, 0, 0, 0x40, 0x00];
    payload.extend_from_slice(&[5, 6, 7]);
    let msg = Message {
        tag: MessageTag::Piece,
        payload,
    };
    let resp = Response::decode(&msg).expect("payload holds both header fields");
    assert_eq!(resp.idx, 2);
    assert_eq!(resp.offset, 16384);
    assert_eq!(resp.data, vec![5, 6, 7]);
}
