use vstd::prelude::*;
use vstd::string::StringSliceAdditionalSpecFns;

use crate::bytes::{append_bytes, copy_range};
use crate::client::Client;
use crate::errors::MessageError;

verus! {

/// The protocol string of BitTorrent v1.0.
pub const PROTOCOL: &'static str = "BitTorrent protocol";

/// The fields of a handshake, as byte sequences.
pub struct HandshakeView {
    pub pstr: Seq<u8>,
    pub reserved: Seq<u8>,
    pub info_hash: Seq<u8>,
    pub peer_id: Seq<u8>,
}

/// The bytes of a handshake on the wire:
/// `pstrlen || pstr || reserved || info_hash || peer_id`.
pub open spec fn handshake_bytes(h: HandshakeView) -> Seq<u8> {
    seq![h.pstr.len() as u8] + h.pstr + h.reserved + h.info_hash + h.peer_id
}

/// The number of bytes that a handshake whose first byte is `s[0]` takes.
pub open spec fn handshake_len(s: Seq<u8>) -> int {
    49 + s[0]
}

/// The handshake at the start of `s`, or `None` where `s` is too short.
pub open spec fn parse_handshake(s: Seq<u8>) -> Option<HandshakeView> {
    if s.len() < 1 || s.len() < handshake_len(s) {
        None
    } else {
        let p = s[0] as int;
        Some(
            HandshakeView {
                pstr: s.subrange(1, 1 + p),
                reserved: s.subrange(1 + p, 9 + p),
                info_hash: s.subrange(9 + p, 29 + p),
                peer_id: s.subrange(29 + p, 49 + p),
            },
        )
    }
}

/// A handshake whose fields have the lengths that the wire format fixes.
pub open spec fn well_formed_view(h: HandshakeView) -> bool {
    &&& h.pstr.len() <= 255
    &&& h.reserved.len() == 8
    &&& h.info_hash.len() == 20
    &&& h.peer_id.len() == 20
}

/// The first message of a session, exchanged both ways.
#[derive(Debug, PartialEq, Eq)]
pub struct Handshake {
    pstrlen: u8,
    pstr: Vec<u8>,
    reserved: Vec<u8>,
    info_hash: Vec<u8>,
    peer_id: Vec<u8>,
}

impl View for Handshake {
    type V = HandshakeView;

    closed spec fn view(&self) -> HandshakeView {
        HandshakeView {
            pstr: self.pstr@,
            reserved: self.reserved@,
            info_hash: self.info_hash@,
            peer_id: self.peer_id@,
        }
    }
}

impl Handshake {
    /// The length byte agrees with the protocol string.
    pub closed spec fn wf(&self) -> bool {
        self.pstr@.len() <= 255 && self.pstrlen == self.pstr@.len()
    }

    /// A handshake from the client's info-hash and peer id.
    pub fn new(sender: &Client, pstr: &str) -> (r: Handshake)
        requires
            pstr.spec_bytes().len() <= 255,
        ensures
            r.wf(),
            r@.pstr == pstr.spec_bytes(),
            r@.reserved == seq![0u8; 8],
            r@.info_hash == sender.info_hash@,
            r@.peer_id == sender.peer_id@,
    {
        Handshake::new_from_param(pstr, sender.get_info_hash(), sender.get_peer_id())
    }

    /// A handshake from its protocol string, info-hash and peer id; the
    /// reserved bytes are zero.
    pub fn new_from_param(pstr: &str, info_hash: Vec<u8>, peer_id: Vec<u8>) -> (r: Handshake)
        requires
            pstr.spec_bytes().len() <= 255,
        ensures
            r.wf(),
            r@.pstr == pstr.spec_bytes(),
            r@.reserved == seq![0u8; 8],
            r@.info_hash == info_hash@,
            r@.peer_id == peer_id@,
    {
        let b = pstr.as_bytes();
        let pstr_bytes = copy_range(b, 0, b.len());
        assert(pstr_bytes@ =~= pstr.spec_bytes());
        let reserved: Vec<u8> = vec![0u8; 8];
        Handshake {
            pstrlen: pstr_bytes.len() as u8,
            pstr: pstr_bytes,
            reserved,
            info_hash,
            peer_id,
        }
    }

    /// Reads a handshake from the start of `stream`; `ReadingError` where
    /// the bytes end before it does.
    pub fn read_msg(stream: &[u8]) -> (r: Result<Handshake, MessageError>)
        ensures
            match r {
                Ok(h) => h.wf() && parse_handshake(stream@) == Some(h@),
                Err(e) => e == MessageError::ReadingError && parse_handshake(stream@) is None,
            },
    {
        if stream.len() < 1 {
            return Err(MessageError::ReadingError);
        }
        let p = stream[0] as usize;
        if stream.len() < 49 + p {
            return Err(MessageError::ReadingError);
        }
        let pstr = copy_range(stream, 1, 1 + p);
        let reserved = copy_range(stream, 1 + p, 9 + p);
        let info_hash = copy_range(stream, 9 + p, 29 + p);
        let peer_id = copy_range(stream, 29 + p, 49 + p);
        Ok(Handshake { pstrlen: stream[0], pstr, reserved, info_hash, peer_id })
    }

    /// Whether the handshake carries the given info-hash.
    pub fn is_valid(&self, info_hash: Vec<u8>) -> (r: bool)
        ensures
            r == (self@.info_hash == info_hash@),
    {
        bytes_equal(&self.info_hash, &info_hash)
    }

    pub fn get_peer_id(&self) -> (r: Vec<u8>)
        ensures
            r@ == self@.peer_id,
    {
        self.peer_id.clone()
    }

    pub fn get_info_hash(&self) -> (r: Vec<u8>)
        ensures
            r@ == self@.info_hash,
    {
        self.info_hash.clone()
    }

    /// The bytes of this handshake on the wire.
    pub fn to_bytes(&self) -> (r: Vec<u8>)
        requires
            self.wf(),
        ensures
            r@ == handshake_bytes(self@),
            well_formed_view(self@) ==> r@.len() == 49 + self@.pstr.len(),
    {
        let mut r: Vec<u8> = Vec::new();
        r.push(self.pstrlen);
        append_bytes(&mut r, self.pstr.as_slice());
        append_bytes(&mut r, self.reserved.as_slice());
        append_bytes(&mut r, self.info_hash.as_slice());
        append_bytes(&mut r, self.peer_id.as_slice());
        assert(r@ =~= handshake_bytes(self@));
        r
    }
}

/// Whether two byte vectors hold the same bytes.
pub fn bytes_equal(a: &Vec<u8>, b: &Vec<u8>) -> (r: bool)
    ensures
        r == (a@ == b@),
{
    if a.len() != b.len() {
        return false;
    }
    let mut i: usize = 0;
    while i < a.len()
        invariant
            a@.len() == b@.len(),
            0 <= i <= a@.len(),
            forall|j: int| 0 <= j < i ==> a@[j] == b@[j],
        decreases a@.len() - i,
    {
        if a[i] != b[i] {
            return false;
        }
        i = i + 1;
    }
    assert(a@ =~= b@);
    true
}

/// Reading back the bytes of a well-formed handshake gives the handshake.
pub proof fn lemma_handshake_round_trip(h: HandshakeView)
    requires
        well_formed_view(h),
    ensures
        parse_handshake(handshake_bytes(h)) == Some(h),
        handshake_bytes(h).len() == 49 + h.pstr.len(),
{
    let s = handshake_bytes(h);
    let p = h.pstr.len() as int;
    assert(s[0] == p as u8);
    assert((p as u8) as int == p);
    assert(s.subrange(1, 1 + p) =~= h.pstr);
    assert(s.subrange(1 + p, 9 + p) =~= h.reserved);
    assert(s.subrange(9 + p, 29 + p) =~= h.info_hash);
    assert(s.subrange(29 + p, 49 + p) =~= h.peer_id);
}

} // verus!
