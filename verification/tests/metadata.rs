//! Torrent metadata accounting, hash table and peer list parsing, and the
//! tracker query escape.

use peerwire::error::Error;
use peerwire::torrent::{parse_hashes, urlencode, File, Hashes, Info, Keys, Torrent};
use peerwire::tracker::{parse_compact_peers, PeerAddress, TrackerRequest};

fn torrent_with(keys: Keys, pieces: Vec<[u8; 20]>, plength: usize) -> Torrent {
    Torrent {
        announce: String::from("http://tracker.invalid/announce"),
        info: Info {
            name: String::from("sample"),
            plength,
            pieces: Hashes(pieces),
            keys,
        },
    }
}

#[test]
fn single_file_length_is_the_length_key() {
    let t = torrent_with(Keys::SingleFile { length: 20000 }, vec![[0u8; 20]], 16384);
    assert_eq!(t.length(), 20000);
}

#[test]
fn multi_file_length_sums_the_entries() {
    let files = vec![
        File {
            length: 100,
            path: vec![String::from("a")],
        },
        File {
            length: 42,
            path: vec![String::from("b"), String::from("c")],
        },
        File {
            length: 0,
            path: vec![String::from("d")],
        },
    ];
    let t = torrent_with(Keys::MultiFile { files }, vec![[0u8; 20]], 16384);
    assert_eq!(t.length(), 142);
}

#[test]
fn hashes_render_as_lowercase_hex() {
    let mut first = [0u8; 20];
    first[0] = 0xab;
    first[19] = 0x0f;
    let second = [0xffu8; 20];
    let t = torrent_with(
        Keys::SingleFile { length: 1 },
        vec![first, second],
        1,
    );
    let rendered = t.hashes().expect("hex rendering always succeeds");
    assert_eq!(rendered.len(), 2);
    assert_eq!(rendered[0], format!("ab{}0f", "00".repeat(18)));
    assert_eq!(rendered[1], "ff".repeat(20));
}

#[test]
fn urlencode_escapes_every_byte() {
    let mut hash = [0u8; 20];
    hash[0] = 0x1f;
    hash[1] = 0xa0;
    let encoded = urlencode(&hash);
    let expected = format!("%1f%a0{}", "%00".repeat(18));
    assert_eq!(encoded, expected);
    assert_eq!(encoded.len(), 60);
}

#[test]
fn hash_table_splits_into_20_byte_digests() {
    let mut blob = vec![1u8; 20];
    blob.extend_from_slice(&[2u8; 20]);
    let hashes = parse_hashes(&blob).expect("40 bytes divide into two digests");
    assert_eq!(hashes.0.len(), 2);
    assert_eq!(hashes.0[0], [1u8; 20]);
    assert_eq!(hashes.0[1], [2u8; 20]);
}

#[test]
fn ragged_hash_table_is_rejected() {
    let blob = vec![0u8; 30];
    assert_eq!(parse_hashes(&blob).err(), Some(Error::InvalidLength(30)));
}

#[test]
fn compact_peer_list_parses_ip_and_port() {
    let blob = vec![192, 168, 0, 7, 0x1a, 0xe1, 10, 0, 0, 2, 0, 80];
    let peers = parse_compact_peers(&blob).expect("12 bytes are two peers");
    assert_eq!(peers.0.len(), 2);
    assert_eq!(
        peers.0[0],
        PeerAddress {
            octets: [192, 168, 0, 7],
            port: 6881,
        }
    );
    assert_eq!(
        peers.0[1],
        PeerAddress {
            octets: [10, 0, 0, 2],
            port: 80,
        }
    );
}

#[test]
fn ragged_compact_peer_list_is_rejected() {
    let blob = vec![0u8; 7];
    assert_eq!(parse_compact_peers(&blob).err(), Some(Error::InvalidLength(7)));
}

#[test]
fn empty_compact_peer_list_is_no_peers() {
    let peers = parse_compact_peers(&Vec::new()).expect("zero records");
    assert!(peers.0.is_empty());
}

#[test]
fn tracker_request_carries_the_announce_parameters() {
    let request = TrackerRequest {
        peer_id: String::from("66196841112650955225"),
        port: 6681,
        uploaded: 0,
        downloaded: 0,
        left: 20000,
        compact: 1,
    };
    assert_eq!(request.left, 20000);
    assert_eq!(request.compact, 1);
}

#[test]
fn errors_describe_themselves() {
    assert!(Error::PieceUnavailable(1).describe().contains("piece"));
    assert!(Error::HashMismatch(0).describe().contains("hash"));
}
