use vstd::prelude::*;

use crate::bitfield::{bits_of, intersects, PieceBitfield};
use crate::errors::DownloadError;
use crate::message::{MessageView, P2PMessage};
use crate::piece::{block_len_at, sha1_of, Piece};

verus! {

broadcast use crate::bitfield::lemma_pieces_len;

/// The Request frames that ask for a piece from offset `rq` to its end, one
/// per block, in order.
pub open spec fn requests_from(idx: u32, tl: u32, rq: u32) -> Seq<MessageView>
    decreases tl - rq,
{
    if rq >= tl {
        Seq::empty()
    } else {
        let len = block_len_at(tl, rq);
        seq![MessageView::Request(idx, rq, len)] + requests_from(idx, tl, (rq + len) as u32)
    }
}

/// The views of a sequence of messages.
pub open spec fn views(s: Seq<P2PMessage>) -> Seq<MessageView> {
    s.map_values(|m: P2PMessage| m@)
}

/// The status reported when the peer unchokes us.
pub open spec fn unchoked_status(interested: bool) -> Seq<char> {
    if interested {
        "unchoked / interested"@
    } else {
        "unchoked / not interested"@
    }
}

/// The effect of one message from the peer on the session `s` and the
/// piece `p` in progress, giving the session `ns`, the piece `np` and the result `r`.
pub open spec fn handled(
    s: SessionState,
    p: Piece,
    m: MessageView,
    ns: SessionState,
    np: Piece,
    r: Result<Option<&'static str>, DownloadError>,
) -> bool {
    match m {
        MessageView::Choke => {
            &&& r == Err::<Option<&'static str>, DownloadError>(DownloadError::PeerChokedUs)
            &&& ns.am_choked
            &&& ns.pieces == s.pieces
            &&& np.same(&p)
        },
        MessageView::Unchoke => {
            &&& !ns.am_choked
            &&& ns.pieces == s.pieces
            &&& np.same(&p)
            &&& r matches Ok(Some(t)) && t@ == unchoked_status(s.am_interested)
        },
        MessageView::Bitfield(b) => {
            &&& r == Ok::<Option<&'static str>, DownloadError>(None)
            &&& ns.am_choked == s.am_choked
            &&& np.same(&p)
            &&& b.len() == s.pieces.bytes().len() ==> ns.pieces.pieces() == bits_of(b, s.pieces.len())
            &&& b.len() != s.pieces.bytes().len() ==> ns.pieces == s.pieces
        },
        MessageView::Have(i) => {
            &&& r == Ok::<Option<&'static str>, DownloadError>(None)
            &&& ns.am_choked == s.am_choked
            &&& np.same(&p)
            &&& i < s.pieces.len() ==> ns.pieces.pieces() == s.pieces.pieces().update(i as int, true)
            &&& i >= s.pieces.len() ==> ns.pieces == s.pieces
        },
        MessageView::Piece(i, b, block) => {
            &&& r == Ok::<Option<&'static str>, DownloadError>(None)
            &&& ns.am_choked == s.am_choked
            &&& ns.pieces == s.pieces
            &&& if p.accepts(i, b, block.len()) {
                np.bytes() == p.bytes() + block && np.dl() == p.dl() + block.len()
            } else {
                np.same(&p)
            }
        },
        _ => {
            &&& r == Ok::<Option<&'static str>, DownloadError>(None)
            &&& ns.am_choked == s.am_choked
            &&& ns.pieces == s.pieces
            &&& np.same(&p)
        },
    }
}

/// What a session does with a piece once its download loop has ended.
#[derive(Debug, Clone, Copy, PartialEq, Eq, Structural)]
pub enum PieceAction {
    /// Write the piece out and report it as downloaded.
    Store,
    /// Reset the piece, put it back in the queue and go on.
    ReturnPiece,
    /// Reset the piece, put it back in the queue and end the session.
    ReturnAndDrop,
}

/// The state of a session with one peer, once the handshake is done.
pub struct SessionState {
    /// Whether the peer refuses to serve us.
    pub am_choked: bool,
    /// Whether we told the peer that we are interested.
    pub am_interested: bool,
    /// The pieces that the peer advertises.
    pub pieces: PieceBitfield,
}

impl SessionState {
    pub open spec fn wf(&self) -> bool {
        self.pieces.wf()
    }

    /// A session that is choked, not interested, and knows of no piece of
    /// the peer.
    pub fn new(n_pieces: u32) -> (r: SessionState)
        ensures
            r.wf(),
            r.am_choked,
            !r.am_interested,
            r.pieces.len() == n_pieces,
            forall|i: int| 0 <= i < n_pieces ==> !#[trigger] r.pieces.pieces()[i],
    {
        SessionState { am_choked: true, am_interested: false, pieces: PieceBitfield::new(n_pieces) }
    }

    /// Records that an Interested frame was sent; returns the status to
    /// report.
    pub fn interest_sent(&mut self) -> (r: &'static str)
        ensures
            final(self).am_interested,
            final(self).am_choked == old(self).am_choked,
            final(self).pieces == old(self).pieces,
            r@ == (if old(self).am_choked {
                "choked | interested"@
            } else {
                "unchoked | interested"@
            }),
    {
        self.am_interested = true;
        if self.am_choked {
            "choked | interested"
        } else {
            "unchoked | interested"
        }
    }

    /// The Request frames to send before the next read: where we are
    /// interested and not choked, one for each block not yet requested,
    /// which the piece then counts as requested; otherwise none.
    pub fn plan_requests(&self, piece: &mut Piece) -> (r: Vec<P2PMessage>)
        requires
            old(piece).wf(),
        ensures
            final(piece).wf(),
            final(piece).idx() == old(piece).idx(),
            final(piece).tl() == old(piece).tl(),
            final(piece).dl() == old(piece).dl(),
            final(piece).bytes() == old(piece).bytes(),
            final(piece).expected() == old(piece).expected(),
            self.am_interested && !self.am_choked ==> views(r@) == requests_from(
                old(piece).idx(),
                old(piece).tl(),
                old(piece).rq(),
            ) && final(piece).rq() == old(piece).tl(),
            !(self.am_interested && !self.am_choked) ==> r@.len() == 0 && final(piece).rq()
                == old(piece).rq(),
    {
        let mut r: Vec<P2PMessage> = Vec::new();
        if !(self.am_interested && !self.am_choked) {
            return r;
        }
        let idx = piece.get_idx();
        let tl = piece.get_tl();
        let mut rq = piece.get_rq();
        while rq < tl
            invariant
                piece.wf(),
                rq == piece.rq(),
                piece.idx() == idx == old(piece).idx(),
                piece.tl() == tl == old(piece).tl(),
                piece.dl() == old(piece).dl(),
                piece.bytes() == old(piece).bytes(),
                piece.expected() == old(piece).expected(),
                views(r@) + requests_from(idx, tl, piece.rq()) == requests_from(
                    idx,
                    tl,
                    old(piece).rq(),
                ),
            decreases tl - piece.rq(),
        {
            let begin = rq;
            let len = piece.next_block_length();
            let ghost before = views(r@);
            r.push(P2PMessage::Request(idx, begin, len));
            assert(views(r@) =~= before + seq![MessageView::Request(idx, begin, len)]);
            piece.add_to_rq(len);
            rq = piece.get_rq();
            assert(views(r@) + requests_from(idx, tl, piece.rq()) =~= before + requests_from(
                idx,
                tl,
                begin,
            ));
        }
        proof {
            piece.lemma_offsets();
        }
        assert(requests_from(idx, tl, piece.rq()) =~= Seq::<MessageView>::empty());
        assert(views(r@) =~= views(r@) + requests_from(idx, tl, piece.rq()));
        r
    }

    /// Handles one message read from the peer while `piece` is in progress.
    /// A Choke ends the piece with `PeerChokedUs`; an Unchoke returns the
    /// status to report; Bitfield and Have update the peer's pieces; a
    /// Piece feeds the piece; anything else is ignored.
    pub fn handle_msg(&mut self, msg: P2PMessage, piece: &mut Piece) -> (r: Result<
        Option<&'static str>,
        DownloadError,
    >)
        requires
            old(self).wf(),
            old(piece).wf(),
        ensures
            final(self).wf(),
            final(piece).wf(),
            final(self).pieces.len() == old(self).pieces.len(),
            final(piece).idx() == old(piece).idx(),
            final(piece).tl() == old(piece).tl(),
            final(piece).rq() == old(piece).rq(),
            final(piece).expected() == old(piece).expected(),
            final(piece).dl() >= old(piece).dl(),
            final(self).am_interested == old(self).am_interested,
            handled(*old(self), *old(piece), msg@, *final(self), *final(piece), r),
    {
        match msg {
            P2PMessage::Choke => {
                self.am_choked = true;
                Err(DownloadError::PeerChokedUs)
            },
            P2PMessage::Unchoke => {
                self.am_choked = false;
                if self.am_interested {
                    Ok(Some("unchoked / interested"))
                } else {
                    Ok(Some("unchoked / not interested"))
                }
            },
            P2PMessage::Bitfield(b) => {
                self.pieces.add_multiple_pieces(b.as_slice());
                Ok(None)
            },
            P2PMessage::Have(i) => {
                self.pieces.add_a_piece(i);
                Ok(None)
            },
            P2PMessage::Piece(m) => {
                piece.add_block(&m);
                Ok(None)
            },
            _ => Ok(None),
        }
    }

    /// Whether a session whose queue pop found nothing should end: the
    /// download is finished, or the peer has no piece that is still
    /// missing. A monitor that could not be read (`None`) counts as "not
    /// finished" and as "still wanted", which keeps the session alive.
    pub fn should_drop_when_idle(
        &self,
        finished: Option<bool>,
        completed: Option<&PieceBitfield>,
    ) -> (r: bool)
        requires
            self.wf(),
            completed matches Some(c) ==> c.wf() && c.len() == self.pieces.len(),
        ensures
            r == (finished == Some(true) || (completed matches Some(c) && !intersects(
                self.pieces.pieces(),
                Seq::new(c.len(), |i: int| !c.pieces()[i]),
            ))),
    {
        if let Some(true) = finished {
            return true;
        }
        match completed {
            Some(c) => {
                let wanted = c.get_complement();
                let m = self.pieces.there_is_match(&wanted);
                proof {
                    assert(wanted.pieces() =~= Seq::new(c.len(), |i: int| !c.pieces()[i]));
                }
                !m
            },
            None => false,
        }
    }
}

/// Decides the fate of a piece whose every byte has been received: `Ok`
/// exactly where its bytes hash to the expected digest, else `InvalidPiece`.
pub fn finish_piece(piece: &Piece) -> (r: Result<(), DownloadError>)
    ensures
        r is Ok <==> sha1_of(piece.bytes()) == piece.expected(),
        r is Err ==> r == Err::<(), DownloadError>(DownloadError::InvalidPiece),
{
    if piece.piece_is_valid() {
        Ok(())
    } else {
        Err(DownloadError::InvalidPiece)
    }
}

/// The action for a download loop that ended with `result`.
pub open spec fn action_for(result: Result<(), DownloadError>) -> PieceAction {
    match result {
        Ok(()) => PieceAction::Store,
        Err(DownloadError::CannotReadPeerMessage) | Err(DownloadError::PeerChokedUs) => {
            PieceAction::ReturnAndDrop
        },
        Err(_) => PieceAction::ReturnPiece,
    }
}

/// What to do with a piece after its download loop ended with `result`.
/// Only a piece that hashed correctly is stored; a bad hash returns it and
/// keeps the session; a lost read or a choke returns it and ends the session.
pub fn piece_action(result: Result<(), DownloadError>) -> (r: PieceAction)
    ensures
        r == action_for(result),
        r == PieceAction::Store <==> result is Ok,
        r == PieceAction::ReturnPiece <==> (result is Err && result != Err::<(), DownloadError>(
            DownloadError::CannotReadPeerMessage,
        ) && result != Err::<(), DownloadError>(DownloadError::PeerChokedUs)),
        r == PieceAction::ReturnAndDrop <==> (result == Err::<(), DownloadError>(
            DownloadError::CannotReadPeerMessage,
        ) || result == Err::<(), DownloadError>(DownloadError::PeerChokedUs)),
{
    match result {
        Ok(()) => PieceAction::Store,
        Err(DownloadError::CannotReadPeerMessage) | Err(DownloadError::PeerChokedUs) => {
            PieceAction::ReturnAndDrop
        },
        Err(_) => PieceAction::ReturnPiece,
    }
}

} // verus!

verus! {

/// What to do with a piece once its download loop ended with `ended`:
/// a loop that ended early decides by its error; a complete piece is
/// stored exactly where its bytes hash to the expected digest, and
/// otherwise returned to the queue while the session goes on.
pub fn settle_piece(ended: Result<(), DownloadError>, piece: &Piece) -> (r: PieceAction)
    ensures
        r == PieceAction::Store <==> (ended is Ok && sha1_of(piece.bytes()) == piece.expected()),
        ended is Ok && sha1_of(piece.bytes()) != piece.expected() ==> r == PieceAction::ReturnPiece,
        ended is Err ==> r == action_for(ended),
{
    match ended {
        Ok(()) => piece_action(finish_piece(piece)),
        Err(e) => piece_action(Err(e)),
    }
}

} // verus!
