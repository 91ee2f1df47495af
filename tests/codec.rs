use bittorrent_client::client::Client;
use bittorrent_client::errors::MessageError;
use bittorrent_client::handshake::{Handshake, PROTOCOL};
use bittorrent_client::message::P2PMessage;
use bittorrent_client::piece_msg::PieceMsg;

fn client() -> Client {
    Client {
        peer_id: vec![7u8; 20],
        info_hash: vec![9u8; 20],
        name: String::from("ubuntu"),
        download_dir: String::from("downloads"),
        n_pieces: 4,
    }
}

#[test]
fn handshake_bytes_layout() {
    let h = Handshake::new_from_param(PROTOCOL, vec![1u8; 20], vec![2u8; 20]);
    let b = h.to_bytes();
    assert_eq!(b.len(), 68);
    assert_eq!(b[0], 19);
    assert_eq!(&b[1..20], "BitTorrent protocol".as_bytes());
    assert_eq!(&b[20..28], &[0u8; 8]);
    assert_eq!(&b[28..48], &[1u8; 20]);
    assert_eq!(&b[48..68], &[2u8; 20]);
}

#[test]
fn handshake_round_trip() {
    let h = Handshake::new(&client(), PROTOCOL);
    let back = Handshake::read_msg(&h.to_bytes()).unwrap();
    assert_eq!(back, h);
    assert_eq!(back.get_peer_id(), vec![7u8; 20]);
    assert_eq!(back.get_info_hash(), vec![9u8; 20]);
}

#[test]
fn handshake_short_read_fails() {
    let h = Handshake::new_from_param(PROTOCOL, vec![1u8; 20], vec![2u8; 20]);
    let b = h.to_bytes();
    assert_eq!(Handshake::read_msg(&b[..67]), Err(MessageError::ReadingError));
    assert_eq!(Handshake::read_msg(&[]), Err(MessageError::ReadingError));
}

#[test]
fn handshake_info_hash_mismatch_is_invalid() {
    let ours = vec![9u8; 20];
    let theirs = Handshake::new_from_param(PROTOCOL, vec![8u8; 20], vec![2u8; 20]);
    let back = Handshake::read_msg(&theirs.to_bytes()).unwrap();
    assert!(!back.is_valid(ours.clone()));
    let same = Handshake::new_from_param(PROTOCOL, ours.clone(), vec![2u8; 20]);
    assert!(same.is_valid(ours));
}

#[test]
fn piece_msg_rejects_empty_block() {
    assert_eq!(PieceMsg::new(0, 0, vec![]), Err(MessageError::CreationError));
}

#[test]
fn piece_msg_fields_and_bytes() {
    let m = PieceMsg::new(3, 16384, vec![0xaa, 0xbb]).unwrap();
    assert_eq!(m.get_piece_index(), 3);
    assert_eq!(m.get_begin(), 16384);
    assert_eq!(m.get_block(), vec![0xaa, 0xbb]);
    assert_eq!(
        m.to_bytes(),
        vec![0, 0, 0, 11, 7, 0, 0, 0, 3, 0, 0, 0x40, 0, 0xaa, 0xbb]
    );
}

#[test]
fn piece_msg_read_from_payload() {
    let payload = [0, 0, 0, 3, 0, 0, 0x40, 0, 0xaa, 0xbb];
    let m = PieceMsg::read_msg(11, &payload).unwrap();
    assert_eq!(m, PieceMsg::new(3, 16384, vec![0xaa, 0xbb]).unwrap());
    assert_eq!(PieceMsg::read_msg(12, &payload), Err(MessageError::ReadingError));
    assert_eq!(PieceMsg::read_msg(8, &payload), Err(MessageError::ReadingError));
    assert_eq!(PieceMsg::read_msg(9, &payload), Err(MessageError::CreationError));
}

fn round_trip(m: P2PMessage, payload_len: usize) {
    let b = m.encode();
    assert_eq!(b.len(), 4 + payload_len);
    let back = P2PMessage::decode(&b).unwrap();
    assert_eq!(back.encode(), b);
}

#[test]
fn every_message_round_trips() {
    round_trip(P2PMessage::KeepAlive, 0);
    round_trip(P2PMessage::Choke, 1);
    round_trip(P2PMessage::Unchoke, 1);
    round_trip(P2PMessage::Interested, 1);
    round_trip(P2PMessage::NotInterested, 1);
    round_trip(P2PMessage::Have(0x01020304), 5);
    round_trip(P2PMessage::Bitfield(vec![0x80, 0x01]), 3);
    round_trip(P2PMessage::Request(1, 16384, 16384), 13);
    round_trip(P2PMessage::Piece(PieceMsg::new(2, 0, vec![5u8; 10]).unwrap()), 19);
    round_trip(P2PMessage::Cancel(1, 0, 1000), 13);
}

#[test]
fn keep_alive_is_four_zero_bytes() {
    assert_eq!(P2PMessage::KeepAlive.encode(), vec![0, 0, 0, 0]);
    assert!(matches!(P2PMessage::decode(&[0, 0, 0, 0]), Ok(P2PMessage::KeepAlive)));
}

#[test]
fn request_bytes_are_big_endian() {
    assert_eq!(
        P2PMessage::Request(1, 2, 1000).encode(),
        vec![0, 0, 0, 13, 6, 0, 0, 0, 1, 0, 0, 0, 2, 0, 0, 3, 0xe8]
    );
    match P2PMessage::decode(&[0, 0, 0, 5, 4, 0, 0, 1, 0]) {
        Ok(P2PMessage::Have(i)) => assert_eq!(i, 256),
        _ => panic!("expected a Have"),
    }
}

#[test]
fn malformed_frames_are_rejected() {
    assert!(matches!(P2PMessage::decode(&[0, 0, 1]), Err(MessageError::ReadingError)));
    assert!(matches!(P2PMessage::decode(&[0, 0, 0, 2, 0]), Err(MessageError::ReadingError)));
    assert!(matches!(P2PMessage::decode(&[0, 0, 0, 1, 9]), Err(MessageError::ReadingError)));
    assert!(matches!(P2PMessage::decode(&[0, 0, 0, 2, 0, 0]), Err(MessageError::ReadingError)));
    assert!(matches!(
        P2PMessage::decode(&[0, 0, 0, 9, 7, 0, 0, 0, 0, 0, 0, 0, 0]),
        Err(MessageError::CreationError)
    ));
}
