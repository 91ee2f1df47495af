use bittorrent_client::bitfield::PieceBitfield;
use bittorrent_client::errors::DownloadError;
use bittorrent_client::message::P2PMessage;
use bittorrent_client::piece::Piece;
use bittorrent_client::piece_msg::PieceMsg;
use bittorrent_client::piece_queue::PieceQueue;
use bittorrent_client::session::{finish_piece, piece_action, PieceAction, SessionState};

use sha1::Digest;

fn sha1(data: &[u8]) -> Vec<u8> {
    sha1::Sha1::digest(data).to_vec()
}

#[test]
fn setting_a_bit_sets_one_msb_first_bit() {
    let mut bf = PieceBitfield::new(16);
    bf.add_a_piece(10);
    assert_eq!(bf.get_vec(), vec![0x00, 0x20]);
    assert!(bf.has_piece(10));
    assert!(!bf.has_piece(9));
    let mut first = PieceBitfield::new(9);
    first.add_a_piece(0);
    first.add_a_piece(8);
    assert_eq!(first.get_vec(), vec![0x80, 0x80]);
    first.add_a_piece(9);
    assert_eq!(first.get_vec(), vec![0x80, 0x80]);
}

#[test]
fn complement_keeps_tail_bits_clear() {
    let mut bf = PieceBitfield::new(10);
    bf.add_a_piece(1);
    let c = bf.get_complement();
    assert_eq!(c.get_vec(), vec![0xbf, 0xc0]);
}

#[test]
fn bitfield_of_wrong_length_is_discarded() {
    let mut bf = PieceBitfield::new(10);
    bf.add_multiple_pieces(&[0xff]);
    assert_eq!(bf.get_vec(), vec![0, 0]);
    bf.add_multiple_pieces(&[0xff, 0xff]);
    assert_eq!(bf.get_vec(), vec![0xff, 0xc0]);
}

#[test]
fn intersection_of_bitfields() {
    let mut a = PieceBitfield::new(12);
    let mut b = PieceBitfield::new(12);
    a.add_a_piece(3);
    b.add_a_piece(11);
    assert!(!a.there_is_match(&b));
    b.add_a_piece(3);
    assert!(a.there_is_match(&b));
}

#[test]
fn last_short_piece_needs_one_request() {
    let mut piece = Piece::new(5, 1000, vec![0u8; 20]);
    assert_eq!(piece.next_block_length(), 1000);
    let mut s = SessionState::new(6);
    s.interest_sent();
    s.handle_msg(P2PMessage::Unchoke, &mut piece).unwrap();
    let reqs = s.plan_requests(&mut piece);
    assert_eq!(reqs.len(), 1);
    assert_eq!(reqs[0].encode(), P2PMessage::Request(5, 0, 1000).encode());
    assert_eq!(piece.get_rq(), 1000);
    let block = PieceMsg::new(5, 0, vec![1u8; 1000]).unwrap();
    s.handle_msg(P2PMessage::Piece(block), &mut piece).unwrap();
    assert!(piece.is_complete());
}

#[test]
fn out_of_order_blocks_are_dropped() {
    let mut piece = Piece::new(0, 32768, vec![0u8; 20]);
    piece.add_to_rq(32768);
    let late = PieceMsg::new(0, 16384, vec![1u8; 16384]).unwrap();
    assert!(!piece.add_block(&late));
    let other = PieceMsg::new(1, 0, vec![1u8; 16384]).unwrap();
    assert!(!piece.add_block(&other));
    let first = PieceMsg::new(0, 0, vec![1u8; 16384]).unwrap();
    assert!(piece.add_block(&first));
    assert!(!piece.add_block(&first));
    assert_eq!(piece.get_dl(), 16384);
    assert!(piece.add_block(&late));
    assert!(piece.is_complete());
}

#[test]
fn unrequested_block_is_dropped() {
    let mut piece = Piece::new(0, 100, vec![0u8; 20]);
    let m = PieceMsg::new(0, 0, vec![1u8; 10]).unwrap();
    assert!(!piece.add_block(&m));
    assert_eq!(piece.get_dl(), 0);
}

#[test]
fn happy_path_one_piece() {
    let data = vec![0x5au8; 16384];
    let mut piece = Piece::new(0, 16384, sha1(&data));
    let mut s = SessionState::new(1);
    assert_eq!(s.handle_msg(P2PMessage::Bitfield(vec![0x80]), &mut piece), Ok(None));
    assert!(s.pieces.has_piece(0));
    assert!(s.plan_requests(&mut piece).is_empty());
    assert_eq!(s.interest_sent(), "choked | interested");
    assert_eq!(
        s.handle_msg(P2PMessage::Unchoke, &mut piece),
        Ok(Some("unchoked / interested"))
    );
    let reqs = s.plan_requests(&mut piece);
    assert_eq!(reqs.len(), 1);
    assert_eq!(reqs[0].encode(), P2PMessage::Request(0, 0, 16384).encode());
    let block = PieceMsg::new(0, 0, data.clone()).unwrap();
    assert_eq!(s.handle_msg(P2PMessage::Piece(block), &mut piece), Ok(None));
    assert!(piece.is_complete());
    assert_eq!(piece.get_data(), data);
    let result = finish_piece(&piece);
    assert_eq!(result, Ok(()));
    assert_eq!(piece_action(result), PieceAction::Store);
}

#[test]
fn choke_mid_piece_returns_the_piece() {
    let mut queue = PieceQueue::new();
    queue.push_back(Piece::new(0, 32768, vec![0u8; 20]));
    let mut piece = queue.get_next_piece().unwrap();
    assert!(queue.get_next_piece().is_none());
    let mut s = SessionState::new(1);
    s.interest_sent();
    s.handle_msg(P2PMessage::Unchoke, &mut piece).unwrap();
    assert_eq!(s.plan_requests(&mut piece).len(), 2);
    let first = PieceMsg::new(0, 0, vec![1u8; 16384]).unwrap();
    s.handle_msg(P2PMessage::Piece(first), &mut piece).unwrap();
    assert_eq!(piece.get_dl(), 16384);
    let r = s.handle_msg(P2PMessage::Choke, &mut piece);
    assert_eq!(r, Err(DownloadError::PeerChokedUs));
    assert!(s.am_choked);
    assert_eq!(piece_action(r.map(|_| ())), PieceAction::ReturnAndDrop);
    piece.reset_info();
    queue.push_back(piece);
    let again = queue.get_next_piece().unwrap();
    assert_eq!(again.get_idx(), 0);
    assert_eq!(again.get_rq(), 0);
    assert_eq!(again.get_dl(), 0);
    assert!(again.get_data().is_empty());
}

#[test]
fn bad_hash_returns_the_piece_and_keeps_the_session() {
    let mut piece = Piece::new(0, 3, sha1(b"abd"));
    piece.add_to_rq(3);
    piece.add_block(&PieceMsg::new(0, 0, b"abc".to_vec()).unwrap());
    assert!(piece.is_complete());
    assert!(!piece.piece_is_valid());
    let r = finish_piece(&piece);
    assert_eq!(r, Err(DownloadError::InvalidPiece));
    assert_eq!(piece_action(r), PieceAction::ReturnPiece);
}

#[test]
fn known_digest_is_checked() {
    let digest = vec![
        0xa9, 0x99, 0x3e, 0x36, 0x47, 0x06, 0x81, 0x6a, 0xba, 0x3e, 0x25, 0x71, 0x78, 0x50, 0xc2,
        0x6c, 0x9c, 0xd0, 0xd8, 0x9d,
    ];
    let mut piece = Piece::new(0, 3, digest.clone());
    piece.add_to_rq(3);
    piece.add_block(&PieceMsg::new(0, 0, b"abc".to_vec()).unwrap());
    assert!(piece.piece_is_valid());
    assert!(piece.digest_matches(&digest));
    assert!(!piece.digest_matches(&vec![0u8; 20]));
}

#[test]
fn peer_with_nothing_wanted_is_dropped() {
    let s = SessionState::new(8);
    let completed = PieceBitfield::new(8);
    assert!(s.should_drop_when_idle(Some(false), Some(&completed)));
    let mut t = SessionState::new(8);
    let mut p = Piece::new(0, 1, vec![]);
    t.handle_msg(P2PMessage::Have(2), &mut p).unwrap();
    assert!(!t.should_drop_when_idle(Some(false), Some(&completed)));
    let mut done = PieceBitfield::new(8);
    done.add_a_piece(2);
    assert!(t.should_drop_when_idle(Some(false), Some(&done)));
    assert!(t.should_drop_when_idle(Some(true), Some(&completed)));
    assert!(!t.should_drop_when_idle(None, None));
}

#[test]
fn queue_is_first_in_first_out() {
    let mut q = PieceQueue::new();
    assert!(q.get_next_piece().is_none());
    q.push_back(Piece::new(0, 10, vec![]));
    q.push_back(Piece::new(1, 10, vec![]));
    assert_eq!(q.len(), 2);
    let a = q.get_next_piece().unwrap();
    q.push_back(a);
    assert_eq!(q.get_next_piece().unwrap().get_idx(), 1);
    assert_eq!(q.get_next_piece().unwrap().get_idx(), 0);
    assert!(q.get_next_piece().is_none());
}
