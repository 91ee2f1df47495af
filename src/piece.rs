use vstd::prelude::*;

use sha1::Digest;

use crate::handshake::bytes_equal;
use crate::piece_msg::PieceMsg;

verus! {

/// The standard request granularity: 16 KiB.
pub const BLOCK_LEN: u32 = 16384;

/// The SHA-1 digest of `data`.
pub uninterp spec fn sha1_of(data: Seq<u8>) -> Seq<u8>;

/// Relies on `sha1::Sha1::digest` (through `digest::Digest`): the SHA-1
/// digest of the bytes, 20 bytes long.
#[verifier::external_body]
fn sha1_digest(data: &[u8]) -> (r: Vec<u8>)
    ensures
        r@ == sha1_of(data@),
        r@.len() == 20,
{
    sha1::Sha1::digest(data).to_vec()
}

/// The length of the next block to request: at most 16 KiB, and no more
/// than what is left of the piece.
pub open spec fn block_len_at(total: u32, requested: u32) -> u32 {
    if total - requested < BLOCK_LEN {
        (total - requested) as u32
    } else {
        BLOCK_LEN
    }
}

/// One piece of the torrent, with the blocks of it received so far.
#[derive(Debug)]
pub struct Piece {
    index: u32,
    total_length: u32,
    requested: u32,
    downloaded: u32,
    data: Vec<u8>,
    digest: Vec<u8>,
}

impl Piece {
    /// What has been received lies within what was requested, which lies
    /// within the piece; the buffer holds exactly the received bytes.
    pub closed spec fn wf(&self) -> bool {
        &&& self.downloaded <= self.requested <= self.total_length
        &&& self.data@.len() == self.downloaded
    }

    /// What well-formedness says in terms of the piece's offsets.
    pub proof fn lemma_offsets(&self)
        requires
            self.wf(),
        ensures
            self.dl() <= self.rq() <= self.tl(),
            self.bytes().len() == self.dl(),
    {
    }

    pub closed spec fn idx(&self) -> u32 {
        self.index
    }

    pub closed spec fn tl(&self) -> u32 {
        self.total_length
    }

    pub closed spec fn rq(&self) -> u32 {
        self.requested
    }

    pub closed spec fn dl(&self) -> u32 {
        self.downloaded
    }

    /// The bytes received so far, in order.
    pub closed spec fn bytes(&self) -> Seq<u8> {
        self.data@
    }

    /// The expected SHA-1 digest of the whole piece.
    pub closed spec fn expected(&self) -> Seq<u8> {
        self.digest@
    }

    /// A piece of which nothing is requested or received yet.
    pub fn new(index: u32, total_length: u32, digest: Vec<u8>) -> (r: Piece)
        ensures
            r.wf(),
            r.idx() == index,
            r.tl() == total_length,
            r.rq() == 0,
            r.dl() == 0,
            r.bytes().len() == 0,
            r.expected() == digest@,
    {
        Piece { index, total_length, requested: 0, downloaded: 0, data: Vec::new(), digest }
    }

    pub fn get_idx(&self) -> (r: u32)
        ensures
            r == self.idx(),
    {
        self.index
    }

    pub fn get_tl(&self) -> (r: u32)
        ensures
            r == self.tl(),
    {
        self.total_length
    }

    pub fn get_rq(&self) -> (r: u32)
        ensures
            r == self.rq(),
    {
        self.requested
    }

    pub fn get_dl(&self) -> (r: u32)
        ensures
            r == self.dl(),
    {
        self.downloaded
    }

    pub fn get_data(&self) -> (r: Vec<u8>)
        ensures
            r@ == self.bytes(),
    {
        self.data.clone()
    }

    /// Whether every byte of the piece has been received.
    pub fn is_complete(&self) -> (r: bool)
        ensures
            r == (self.dl() == self.tl()),
    {
        self.downloaded == self.total_length
    }

    /// The length of the next block to request.
    pub fn next_block_length(&self) -> (r: u32)
        requires
            self.wf(),
        ensures
            r == block_len_at(self.tl(), self.rq()),
            self.rq() < self.tl() ==> 0 < r <= BLOCK_LEN,
    {
        let left = self.total_length - self.requested;
        if left < BLOCK_LEN {
            left
        } else {
            BLOCK_LEN
        }
    }

    /// Records that `len` more bytes were requested.
    pub fn add_to_rq(&mut self, len: u32)
        requires
            old(self).wf(),
            old(self).rq() + len <= old(self).tl(),
        ensures
            final(self).wf(),
            final(self).rq() == old(self).rq() + len,
            final(self).dl() == old(self).dl(),
            final(self).bytes() == old(self).bytes(),
            final(self).idx() == old(self).idx(),
            final(self).tl() == old(self).tl(),
            final(self).expected() == old(self).expected(),
    {
        self.requested = self.requested + len;
    }

    /// The two pieces agree in every observable part.
    pub open spec fn same(&self, o: &Piece) -> bool {
        &&& self.idx() == o.idx()
        &&& self.tl() == o.tl()
        &&& self.rq() == o.rq()
        &&& self.dl() == o.dl()
        &&& self.bytes() == o.bytes()
        &&& self.expected() == o.expected()
    }

    /// Whether a Piece message is the next block of this piece: same
    /// index, it starts where the received bytes end, and it lies within
    /// what was requested.
    pub open spec fn accepts(&self, index: u32, begin: u32, len: nat) -> bool {
        &&& index == self.idx()
        &&& begin == self.dl()
        &&& self.dl() + len <= self.rq()
    }

    /// Feeds a Piece message: the next block is appended, anything else is
    /// dropped. Returns whether the block was taken.
    pub fn add_block(&mut self, msg: &PieceMsg) -> (r: bool)
        requires
            old(self).wf(),
        ensures
            final(self).wf(),
            r == old(self).accepts(msg.index(), msg.offset(), msg.data().len()),
            r ==> final(self).bytes() == old(self).bytes() + msg.data() && final(self).dl()
                == old(self).dl() + msg.data().len(),
            !r ==> final(self).bytes() == old(self).bytes() && final(self).dl() == old(self).dl(),
            final(self).rq() == old(self).rq(),
            final(self).idx() == old(self).idx(),
            final(self).tl() == old(self).tl(),
            final(self).expected() == old(self).expected(),
    {
        let len = msg.block_len();
        if msg.get_piece_index() != self.index || msg.get_begin() != self.downloaded
            || len > (self.requested - self.downloaded) as usize {
            return false;
        }
        let block = msg.get_block();
        let mut i: usize = 0;
        while i < block.len()
            invariant
                0 <= i <= block@.len(),
                self.data@ == old(self).data@ + block@.subrange(0, i as int),
                self.index == old(self).index,
                self.total_length == old(self).total_length,
                self.requested == old(self).requested,
                self.downloaded == old(self).downloaded,
                self.digest == old(self).digest,
            decreases block@.len() - i,
        {
            self.data.push(block[i]);
            i = i + 1;
            assert(self.data@ =~= old(self).data@ + block@.subrange(0, i as int));
        }
        assert(block@.subrange(0, block@.len() as int) =~= block@);
        self.downloaded = self.downloaded + len as u32;
        true
    }

    /// Clears what was requested and received, so that the piece can be
    /// downloaded again from the start.
    pub fn reset_info(&mut self)
        ensures
            final(self).wf(),
            final(self).rq() == 0,
            final(self).dl() == 0,
            final(self).bytes().len() == 0,
            final(self).idx() == old(self).idx(),
            final(self).tl() == old(self).tl(),
            final(self).expected() == old(self).expected(),
    {
        self.requested = 0;
        self.downloaded = 0;
        self.data = Vec::new();
    }

    /// Whether a digest computed over the piece's bytes is the expected one.
    pub fn digest_matches(&self, computed: &Vec<u8>) -> (r: bool)
        ensures
            r == (computed@ == self.expected()),
    {
        bytes_equal(computed, &self.digest)
    }

    /// Whether the piece's bytes hash to the expected digest.
    pub fn piece_is_valid(&self) -> (r: bool)
        ensures
            r == (sha1_of(self.bytes()) == self.expected()),
    {
        let computed = sha1_digest(self.data.as_slice());
        self.digest_matches(&computed)
    }
}

} // verus!
