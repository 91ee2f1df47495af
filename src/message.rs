use vstd::prelude::*;
use vstd::slice::slice_subrange;

use crate::bytes::{
    append_bytes, be_bytes, be_value, copy_range, lemma_be_round_trip, push_be_u32, read_be_u32,
};
use crate::errors::MessageError;
use crate::piece_msg::{parse_piece, piece_frame, PieceMsg};

verus! {

/// A protocol message, with its payload as plain values.
pub enum MessageView {
    KeepAlive,
    Choke,
    Unchoke,
    Interested,
    NotInterested,
    Have(u32),
    Bitfield(Seq<u8>),
    Request(u32, u32, u32),
    Piece(u32, u32, Seq<u8>),
    Cancel(u32, u32, u32),
}

/// A length-prefixed protocol message.
pub enum P2PMessage {
    KeepAlive,
    Choke,
    Unchoke,
    Interested,
    NotInterested,
    Have(u32),
    Bitfield(Vec<u8>),
    Request(u32, u32, u32),
    Piece(PieceMsg),
    Cancel(u32, u32, u32),
}

impl View for P2PMessage {
    type V = MessageView;

    open spec fn view(&self) -> MessageView {
        match self {
            P2PMessage::KeepAlive => MessageView::KeepAlive,
            P2PMessage::Choke => MessageView::Choke,
            P2PMessage::Unchoke => MessageView::Unchoke,
            P2PMessage::Interested => MessageView::Interested,
            P2PMessage::NotInterested => MessageView::NotInterested,
            P2PMessage::Have(i) => MessageView::Have(*i),
            P2PMessage::Bitfield(b) => MessageView::Bitfield(b@),
            P2PMessage::Request(i, b, l) => MessageView::Request(*i, *b, *l),
            P2PMessage::Piece(m) => MessageView::Piece(m.index(), m.offset(), m.data()),
            P2PMessage::Cancel(i, b, l) => MessageView::Cancel(*i, *b, *l),
        }
    }
}

/// The value of a frame's length field: the number of payload bytes.
pub open spec fn payload_len(m: MessageView) -> int {
    match m {
        MessageView::KeepAlive => 0,
        MessageView::Choke | MessageView::Unchoke | MessageView::Interested
        | MessageView::NotInterested => 1,
        MessageView::Have(_) => 5,
        MessageView::Bitfield(b) => 1 + b.len() as int,
        MessageView::Request(..) | MessageView::Cancel(..) => 13,
        MessageView::Piece(_, _, block) => 9 + block.len() as int,
    }
}

/// A message that can be framed: its length fits the length field, and a
/// Piece carries a block.
pub open spec fn admissible(m: MessageView) -> bool {
    &&& payload_len(m) <= u32::MAX
    &&& m matches MessageView::Piece(_, _, block) ==> block.len() > 0
}

/// The three numbers of a Request or a Cancel frame after its id.
pub open spec fn triple_bytes(a: u32, b: u32, c: u32) -> Seq<u8> {
    be_bytes(a) + be_bytes(b) + be_bytes(c)
}

/// The bytes of a message on the wire: `length(4) || id || payload`, or
/// four zero bytes for KeepAlive.
pub open spec fn frame_bytes(m: MessageView) -> Seq<u8> {
    let head = be_bytes(payload_len(m) as u32);
    match m {
        MessageView::KeepAlive => head,
        MessageView::Choke => head + seq![0u8],
        MessageView::Unchoke => head + seq![1u8],
        MessageView::Interested => head + seq![2u8],
        MessageView::NotInterested => head + seq![3u8],
        MessageView::Have(i) => head + seq![4u8] + be_bytes(i),
        MessageView::Bitfield(b) => head + seq![5u8] + b,
        MessageView::Request(i, b, l) => head + seq![6u8] + triple_bytes(i, b, l),
        MessageView::Piece(i, b, block) => piece_frame(i, b, block),
        MessageView::Cancel(i, b, l) => head + seq![8u8] + triple_bytes(i, b, l),
    }
}

/// A message whose payload after the id must be empty.
pub open spec fn bare(id: u8) -> MessageView {
    if id == 0 {
        MessageView::Choke
    } else if id == 1 {
        MessageView::Unchoke
    } else if id == 2 {
        MessageView::Interested
    } else {
        MessageView::NotInterested
    }
}

/// The message framed at the start of `s`. `ReadingError` where the bytes
/// end before the frame does, the id is unknown, or a fixed-size payload has
/// another size; `CreationError` for a Piece frame with an empty block.
pub open spec fn parse_frame(s: Seq<u8>) -> Result<MessageView, MessageError> {
    if s.len() < 4 {
        Err(MessageError::ReadingError)
    } else {
        let len = be_value(s, 0);
        if len == 0 {
            Ok(MessageView::KeepAlive)
        } else if s.len() < 4 + len {
            Err(MessageError::ReadingError)
        } else {
            let id = s[4];
            let p = s.subrange(5, 4 + len);
            if id <= 3 {
                if len == 1 {
                    Ok(bare(id))
                } else {
                    Err(MessageError::ReadingError)
                }
            } else if id == 4 {
                if len == 5 {
                    Ok(MessageView::Have(be_value(p, 0) as u32))
                } else {
                    Err(MessageError::ReadingError)
                }
            } else if id == 5 {
                Ok(MessageView::Bitfield(p))
            } else if id == 6 || id == 8 {
                if len == 13 {
                    let (a, b, c) = (
                        be_value(p, 0) as u32,
                        be_value(p, 4) as u32,
                        be_value(p, 8) as u32,
                    );
                    if id == 6 {
                        Ok(MessageView::Request(a, b, c))
                    } else {
                        Ok(MessageView::Cancel(a, b, c))
                    }
                } else {
                    Err(MessageError::ReadingError)
                }
            } else if id == 7 {
                match parse_piece(len as u32, p) {
                    Ok((i, b, block)) => Ok(MessageView::Piece(i, b, block)),
                    Err(e) => Err(e),
                }
            } else {
                Err(MessageError::ReadingError)
            }
        }
    }
}

/// Appends a message id and three big-endian numbers.
fn push_triple(out: &mut Vec<u8>, id: u8, a: u32, b: u32, c: u32)
    ensures
        final(out)@ == old(out)@ + seq![id] + triple_bytes(a, b, c),
{
    out.push(id);
    push_be_u32(out, a);
    push_be_u32(out, b);
    push_be_u32(out, c);
    assert(final(out)@ =~= old(out)@ + seq![id] + triple_bytes(a, b, c));
}

impl P2PMessage {
    /// The bytes of this message on the wire.
    pub fn encode(&self) -> (r: Vec<u8>)
        requires
            admissible(self@),
            self matches P2PMessage::Piece(m) ==> m.wf(),
        ensures
            r@ == frame_bytes(self@),
            r@.len() == 4 + payload_len(self@),
    {
        let mut r: Vec<u8> = Vec::new();
        match self {
            P2PMessage::KeepAlive => {
                push_be_u32(&mut r, 0);
            },
            P2PMessage::Choke => {
                push_be_u32(&mut r, 1);
                r.push(0);
            },
            P2PMessage::Unchoke => {
                push_be_u32(&mut r, 1);
                r.push(1);
            },
            P2PMessage::Interested => {
                push_be_u32(&mut r, 1);
                r.push(2);
            },
            P2PMessage::NotInterested => {
                push_be_u32(&mut r, 1);
                r.push(3);
            },
            P2PMessage::Have(i) => {
                push_be_u32(&mut r, 5);
                r.push(4);
                push_be_u32(&mut r, *i);
            },
            P2PMessage::Bitfield(b) => {
                push_be_u32(&mut r, (1 + b.len()) as u32);
                r.push(5);
                append_bytes(&mut r, b.as_slice());
            },
            P2PMessage::Request(i, b, l) => {
                push_be_u32(&mut r, 13);
                push_triple(&mut r, 6, *i, *b, *l);
            },
            P2PMessage::Piece(m) => {
                r = m.to_bytes();
            },
            P2PMessage::Cancel(i, b, l) => {
                push_be_u32(&mut r, 13);
                push_triple(&mut r, 8, *i, *b, *l);
            },
        }
        assert(r@ =~= frame_bytes(self@));
        r
    }

    /// Reads the message framed at the start of `bytes`.
    pub fn decode(bytes: &[u8]) -> (r: Result<P2PMessage, MessageError>)
        ensures
            match r {
                Ok(m) => parse_frame(bytes@) == Ok::<MessageView, MessageError>(m@)
                    && (m matches P2PMessage::Piece(p) ==> p.wf()),
                Err(e) => parse_frame(bytes@) == Err::<MessageView, MessageError>(e),
            },
    {
        if bytes.len() < 4 {
            return Err(MessageError::ReadingError);
        }
        let len = read_be_u32(bytes, 0);
        if len == 0 {
            return Ok(P2PMessage::KeepAlive);
        }
        if bytes.len() - 4 < len as usize {
            return Err(MessageError::ReadingError);
        }
        let id = bytes[4];
        let end = 4 + len as usize;
        let p = slice_subrange(bytes, 5, end);
        if id <= 3 {
            if len != 1 {
                return Err(MessageError::ReadingError);
            }
            if id == 0 {
                Ok(P2PMessage::Choke)
            } else if id == 1 {
                Ok(P2PMessage::Unchoke)
            } else if id == 2 {
                Ok(P2PMessage::Interested)
            } else {
                Ok(P2PMessage::NotInterested)
            }
        } else if id == 4 {
            if len != 5 {
                return Err(MessageError::ReadingError);
            }
            Ok(P2PMessage::Have(read_be_u32(p, 0)))
        } else if id == 5 {
            let b = copy_range(p, 0, p.len());
            assert(b@ =~= p@);
            Ok(P2PMessage::Bitfield(b))
        } else if id == 6 || id == 8 {
            if len != 13 {
                return Err(MessageError::ReadingError);
            }
            let a = read_be_u32(p, 0);
            let b = read_be_u32(p, 4);
            let c = read_be_u32(p, 8);
            if id == 6 {
                Ok(P2PMessage::Request(a, b, c))
            } else {
                Ok(P2PMessage::Cancel(a, b, c))
            }
        } else if id == 7 {
            match PieceMsg::read_msg(len, p) {
                Ok(m) => Ok(P2PMessage::Piece(m)),
                Err(e) => Err(e),
            }
        } else {
            Err(MessageError::ReadingError)
        }
    }
}

/// Where the four bytes of `s` from `at` on are those of `x`, they read
/// back as `x`.
proof fn lemma_be_at(s: Seq<u8>, at: int, x: u32)
    requires
        0 <= at,
        at + 4 <= s.len(),
        s.subrange(at, at + 4) == be_bytes(x),
    ensures
        be_value(s, at) == x,
{
    lemma_be_round_trip(x);
    let t = s.subrange(at, at + 4);
    assert(t[0] == s[at] && t[1] == s[at + 1] && t[2] == s[at + 2] && t[3] == s[at + 3]);
}

/// Decoding the encoding of an admissible message gives the message back,
/// and the encoding is four bytes longer than the payload.
pub proof fn lemma_frame_round_trip(m: MessageView)
    requires
        admissible(m),
    ensures
        parse_frame(frame_bytes(m)) == Ok::<MessageView, MessageError>(m),
        frame_bytes(m).len() == 4 + payload_len(m),
{
    let s = frame_bytes(m);
    let len = payload_len(m);
    assert(s.subrange(0, 4) =~= be_bytes(len as u32));
    lemma_be_at(s, 0, len as u32);
    assert(be_value(s, 0) == len);
    let p = s.subrange(5, 4 + len);
    match m {
        MessageView::Have(i) => {
            assert(p.subrange(0, 4) =~= be_bytes(i));
            lemma_be_at(p, 0, i);
        },
        MessageView::Bitfield(b) => {
            assert(p =~= b);
        },
        MessageView::Request(a, b, c) | MessageView::Cancel(a, b, c) => {
            assert(p.subrange(0, 4) =~= be_bytes(a));
            assert(p.subrange(4, 8) =~= be_bytes(b));
            assert(p.subrange(8, 12) =~= be_bytes(c));
            lemma_be_at(p, 0, a);
            lemma_be_at(p, 4, b);
            lemma_be_at(p, 8, c);
        },
        MessageView::Piece(a, b, block) => {
            assert(p.subrange(0, 4) =~= be_bytes(a));
            assert(p.subrange(4, 8) =~= be_bytes(b));
            assert(p.subrange(8, len - 1) =~= block);
            lemma_be_at(p, 0, a);
            lemma_be_at(p, 4, b);
        },
        _ => {},
    }
}

} // verus!
