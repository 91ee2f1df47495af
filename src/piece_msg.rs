use vstd::prelude::*;

use crate::bytes::{append_bytes, be_bytes, be_value, copy_range, push_be_u32, read_be_u32};
use crate::errors::MessageError;

verus! {

/// The message id of a Piece frame.
pub const PIECE_ID: u8 = 7;

/// The payload of a Piece frame after its id, as the frame's `length`
/// announces it: `piece_index(4) || begin(4) || block(length - 9)`.
pub open spec fn parse_piece(length: u32, s: Seq<u8>) -> Result<(u32, u32, Seq<u8>), MessageError> {
    if length < 9 || s.len() < length - 1 {
        Err(MessageError::ReadingError)
    } else if length == 9 {
        Err(MessageError::CreationError)
    } else {
        Ok(
            (
                be_value(s, 0) as u32,
                be_value(s, 4) as u32,
                s.subrange(8, length - 1),
            ),
        )
    }
}

/// The bytes of a Piece frame: `length || 7 || piece_index || begin || block`.
pub open spec fn piece_frame(index: u32, begin: u32, block: Seq<u8>) -> Seq<u8> {
    be_bytes((9 + block.len()) as u32) + seq![PIECE_ID] + be_bytes(index) + be_bytes(begin) + block
}

/// A block of a piece, as the peer sends it.
#[derive(Debug, PartialEq, Eq)]
pub struct PieceMsg {
    _length: u32,
    id: u8,
    piece_index: u32,
    begin: u32,
    block: Vec<u8>,
}

impl PieceMsg {
    /// The frame's length field agrees with the block, which is not empty.
    pub closed spec fn wf(&self) -> bool {
        &&& self.block@.len() > 0
        &&& self._length == 9 + self.block@.len()
        &&& self.id == PIECE_ID
    }

    pub closed spec fn index(&self) -> u32 {
        self.piece_index
    }

    pub closed spec fn offset(&self) -> u32 {
        self.begin
    }

    pub closed spec fn data(&self) -> Seq<u8> {
        self.block@
    }

    /// A Piece message; `CreationError` where the block is empty.
    pub fn new(piece_index: u32, begin: u32, block: Vec<u8>) -> (r: Result<PieceMsg, MessageError>)
        requires
            block@.len() <= u32::MAX - 9,
        ensures
            block@.len() == 0 <==> r == Err::<PieceMsg, MessageError>(MessageError::CreationError),
            r is Ok <==> block@.len() > 0,
            r matches Ok(m) ==> m.wf() && m.index() == piece_index && m.offset() == begin
                && m.data() == block@,
    {
        if block.len() == 0 {
            return Err(MessageError::CreationError);
        }
        Ok(PieceMsg { _length: (9 + block.len()) as u32, id: PIECE_ID, piece_index, begin, block })
    }

    /// Reads the rest of a Piece frame whose `length` field is given, from
    /// the bytes that follow its id.
    pub fn read_msg(length: u32, stream: &[u8]) -> (r: Result<PieceMsg, MessageError>)
        ensures
            match r {
                Ok(m) => m.wf() && parse_piece(length, stream@) == Ok::<
                    (u32, u32, Seq<u8>),
                    MessageError,
                >((m.index(), m.offset(), m.data())),
                Err(e) => parse_piece(length, stream@) == Err::<(u32, u32, Seq<u8>), MessageError>(
                    e,
                ),
            },
    {
        if length < 9 || stream.len() < (length - 1) as usize {
            return Err(MessageError::ReadingError);
        }
        let piece_index = read_be_u32(stream, 0);
        let begin = read_be_u32(stream, 4);
        let block = copy_range(stream, 8, (length - 1) as usize);
        PieceMsg::new(piece_index, begin, block)
    }

    pub fn get_piece_index(&self) -> (r: u32)
        ensures
            r == self.index(),
    {
        self.piece_index
    }

    pub fn get_begin(&self) -> (r: u32)
        ensures
            r == self.offset(),
    {
        self.begin
    }

    pub fn get_block(&self) -> (r: Vec<u8>)
        ensures
            r@ == self.data(),
    {
        self.block.clone()
    }

    /// The length of the block.
    pub fn block_len(&self) -> (r: usize)
        ensures
            r == self.data().len(),
    {
        self.block.len()
    }

    /// The bytes of this message on the wire.
    pub fn to_bytes(&self) -> (r: Vec<u8>)
        requires
            self.wf(),
        ensures
            r@ == piece_frame(self.index(), self.offset(), self.data()),
            r@.len() == 4 + 9 + self.data().len(),
    {
        let mut r: Vec<u8> = Vec::new();
        push_be_u32(&mut r, self._length);
        r.push(self.id);
        push_be_u32(&mut r, self.piece_index);
        push_be_u32(&mut r, self.begin);
        append_bytes(&mut r, self.block.as_slice());
        assert(r@ =~= piece_frame(self.index(), self.offset(), self.data()));
        r
    }
}

} // verus!
