//! Handshake layout, bitfield parsing, and the idempotent interest rule.

use peerwire::peer::{fresh_handshake, HandShake, Peer};
use peerwire::tracker::PeerAddress;

fn addr() -> PeerAddress {
    PeerAddress {
        octets: [127, 0, 0, 1],
        port: 6881,
    }
}

#[test]
fn handshake_is_68_bytes_in_wire_order() {
    let info_hash = [0x11u8; 20];
    let peer_id = [0x22u8; 20];
    let hs = HandShake::new(&info_hash, &peer_id);
    let bytes = hs.to_bytes();
    assert_eq!(bytes.len(), 68);
    assert_eq!(bytes[0], 19);
    assert_eq!(&bytes[1..20], b"BitTorrent protocol");
    assert_eq!(&bytes[20..28], &[0u8; 8]);
    assert_eq!(&bytes[28..48], &info_hash);
    assert_eq!(&bytes[48..68], &peer_id);
}

#[test]
fn fresh_handshake_carries_its_peer_id() {
    let info_hash = [0xabu8; 20];
    let (bytes, peer_id) = fresh_handshake(&info_hash);
    assert_eq!(bytes.len(), 68);
    assert_eq!(&bytes[28..48], &info_hash);
    assert_eq!(&bytes[48..68], &peer_id);
}

#[test]
fn bitfield_byte_0b10100000_yields_pieces_0_and_2() {
    let peer = Peer::new(addr(), &vec![0b1010_0000]);
    assert_eq!(peer.pieces, vec![0, 2]);
    assert!(peer.has_piece(0));
    assert!(!peer.has_piece(1));
    assert!(peer.has_piece(2));
    assert!(!peer.has_piece(3));
}

#[test]
fn bitfield_low_bits_keep_their_global_position() {
    // 0b00000001 is bit 7 of its byte, not bit 0.
    let peer = Peer::new(addr(), &vec![0b0000_0001]);
    assert_eq!(peer.pieces, vec![7]);
}

#[test]
fn bitfield_indices_stay_below_eight_times_the_byte_count() {
    let payload = vec![0xffu8, 0xff, 0xff];
    let peer = Peer::new(addr(), &payload);
    assert_eq!(peer.pieces.len(), 24);
    assert!(peer.pieces.iter().all(|&i| i < 8 * payload.len()));
    assert_eq!(peer.pieces, (0..24).collect::<Vec<usize>>());
}

#[test]
fn bitfield_spans_byte_boundaries() {
    // Second byte's most significant bit is global position 8.
    let peer = Peer::new(addr(), &vec![0b0000_0000, 0b1100_0000]);
    assert_eq!(peer.pieces, vec![8, 9]);
}

#[test]
fn interest_is_sent_exactly_once() {
    let mut peer = Peer::new(addr(), &vec![0b1000_0000]);
    assert!(!peer.sent_interested);
    let first = peer.ensure_interested();
    let second = peer.ensure_interested();
    let third = peer.ensure_interested();
    assert!(first);
    assert!(!second);
    assert!(!third);
    assert!(peer.sent_interested);
}
