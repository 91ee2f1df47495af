use vstd::prelude::*;

verus! {

/// The mask of position `k` (0 to 7) of a byte, counted from the most
/// significant bit.
pub open spec fn mask(k: int) -> u8 {
    0x80u8 >> (k as u8)
}

/// Whether bit `k` of `b`, counted from the most significant bit, is set.
pub open spec fn bit_at(b: u8, k: int) -> bool {
    b & mask(k) != 0
}

/// Whether piece `i` is marked in the bytes `s`: bit `i % 8` of byte `i / 8`.
pub open spec fn marked(s: Seq<u8>, i: int) -> bool {
    bit_at(s[i / 8], i % 8)
}

/// The pieces marked in the first `n` bits of `s`.
pub open spec fn bits_of(s: Seq<u8>, n: nat) -> Seq<bool> {
    Seq::new(n, |i: int| marked(s, i))
}

/// The number of bytes that hold `n` bits.
pub open spec fn n_bytes(n: nat) -> nat {
    (n + 7) / 8
}

/// `n` zero bytes.
pub open spec fn zero_bytes(n: nat) -> Seq<u8> {
    Seq::new(n, |_k: int| 0u8)
}

/// Whether some position is set in both.
pub open spec fn intersects(a: Seq<bool>, b: Seq<bool>) -> bool {
    exists|i: int| 0 <= i < a.len() && i < b.len() && a[i] && b[i]
}

/// The bytes after bit `i` is set in `s`.
pub open spec fn set_bit(s: Seq<u8>, i: int) -> Seq<u8> {
    s.update(i / 8, s[i / 8] | mask(i % 8))
}

proof fn lemma_or_mask(b: u8, k: u8, j: u8)
    requires
        k < 8,
        j < 8,
    ensures
        (b | (0x80u8 >> k)) & (0x80u8 >> j) != 0 <==> (j == k || b & (0x80u8 >> j) != 0),
{
    assert((b | (0x80u8 >> k)) & (0x80u8 >> j) != 0 <==> (j == k || b & (0x80u8 >> j) != 0))
        by (bit_vector)
        requires
            k < 8,
            j < 8,
    ;
}

proof fn lemma_not_mask(b: u8, j: u8)
    requires
        j < 8,
    ensures
        (!b) & (0x80u8 >> j) != 0 <==> b & (0x80u8 >> j) == 0,
{
    assert((!b) & (0x80u8 >> j) != 0 <==> b & (0x80u8 >> j) == 0) by (bit_vector)
        requires
            j < 8,
    ;
}

proof fn lemma_keep_mask(b: u8, r: u8, j: u8)
    requires
        0 < r < 8,
        j < 8,
    ensures
        (b & (0xffu8 << (8 - r) as u8)) & (0x80u8 >> j) != 0 <==> (j < r && b & (0x80u8 >> j)
            != 0),
{
    assert((b & (0xffu8 << (8 - r) as u8)) & (0x80u8 >> j) != 0 <==> (j < r && b & (0x80u8 >> j)
        != 0)) by (bit_vector)
        requires
            0 < r < 8,
            j < 8,
    ;
}

proof fn lemma_zero_mask(j: u8)
    requires
        j < 8,
    ensures
        0u8 & (0x80u8 >> j) == 0,
{
    assert(0u8 & (0x80u8 >> j) == 0) by (bit_vector);
}

proof fn lemma_and_mask(a: u8, b: u8)
    ensures
        a & b != 0 <==> exists|j: u8|
            j < 8 && #[trigger] (a & (0x80u8 >> j)) != 0 && b & (0x80u8 >> j) != 0,
{
    assert(a & b != 0 <==> ((a & 0x80u8 != 0 && b & 0x80u8 != 0) || (a & 0x40u8 != 0 && b & 0x40u8
        != 0) || (a & 0x20u8 != 0 && b & 0x20u8 != 0) || (a & 0x10u8 != 0 && b & 0x10u8 != 0) || (
    a & 0x08u8 != 0 && b & 0x08u8 != 0) || (a & 0x04u8 != 0 && b & 0x04u8 != 0) || (a & 0x02u8 != 0
        && b & 0x02u8 != 0) || (a & 0x01u8 != 0 && b & 0x01u8 != 0))) by (bit_vector);
    assert(0x80u8 >> 0u8 == 0x80u8 && 0x80u8 >> 1u8 == 0x40u8 && 0x80u8 >> 2u8 == 0x20u8 && 0x80u8
        >> 3u8 == 0x10u8 && 0x80u8 >> 4u8 == 0x08u8 && 0x80u8 >> 5u8 == 0x04u8 && 0x80u8 >> 6u8
        == 0x02u8 && 0x80u8 >> 7u8 == 0x01u8) by (bit_vector);
    if a & b != 0 {
        if a & 0x80u8 != 0 && b & 0x80u8 != 0 {
            assert(a & (0x80u8 >> 0u8) != 0);
        } else if a & 0x40u8 != 0 && b & 0x40u8 != 0 {
            assert(a & (0x80u8 >> 1u8) != 0);
        } else if a & 0x20u8 != 0 && b & 0x20u8 != 0 {
            assert(a & (0x80u8 >> 2u8) != 0);
        } else if a & 0x10u8 != 0 && b & 0x10u8 != 0 {
            assert(a & (0x80u8 >> 3u8) != 0);
        } else if a & 0x08u8 != 0 && b & 0x08u8 != 0 {
            assert(a & (0x80u8 >> 4u8) != 0);
        } else if a & 0x04u8 != 0 && b & 0x04u8 != 0 {
            assert(a & (0x80u8 >> 5u8) != 0);
        } else if a & 0x02u8 != 0 && b & 0x02u8 != 0 {
            assert(a & (0x80u8 >> 6u8) != 0);
        } else {
            assert(a & (0x80u8 >> 7u8) != 0);
        }
    } else {
        assert forall|j: u8| j < 8 && #[trigger] (a & (0x80u8 >> j)) != 0 implies b & (0x80u8 >> j)
            == 0 by {
            assert(j == 0 || j == 1 || j == 2 || j == 3 || j == 4 || j == 5 || j == 6 || j == 7);
        }
    }
}

/// A set of piece indices, one bit per piece, most significant bit first.
pub struct PieceBitfield {
    bits: Vec<u8>,
    n_pieces: u32,
}

impl PieceBitfield {
    /// The bytes are as many as the pieces need, and the bits beyond the
    /// last piece are clear.
    pub closed spec fn wf(&self) -> bool {
        &&& self.bits@.len() == n_bytes(self.n_pieces as nat)
        &&& forall|i: int|
            self.n_pieces <= i < 8 * self.bits@.len() ==> !#[trigger] marked(self.bits@, i)
    }

    /// The number of pieces.
    pub closed spec fn len(&self) -> nat {
        self.n_pieces as nat
    }

    /// Which pieces are in the set.
    pub closed spec fn pieces(&self) -> Seq<bool> {
        bits_of(self.bits@, self.n_pieces as nat)
    }

    /// The bytes of the set.
    pub closed spec fn bytes(&self) -> Seq<u8> {
        self.bits@
    }

    /// The empty set over `n_pieces` pieces.
    pub fn new(n_pieces: u32) -> (r: PieceBitfield)
        ensures
            r.wf(),
            r.len() == n_pieces,
            r.bytes() == zero_bytes(n_bytes(n_pieces as nat)),
            forall|i: int| 0 <= i < n_pieces ==> !#[trigger] r.pieces()[i],
    {
        let nb: usize = ((n_pieces as u64 + 7) / 8) as usize;
        let bits: Vec<u8> = vec![0u8; nb];
        let r = PieceBitfield { bits, n_pieces };
        assert(r.bytes() =~= zero_bytes(n_bytes(n_pieces as nat)));
        assert forall|i: int| 0 <= i < 8 * r.bits@.len() implies !#[trigger] marked(r.bits@, i) by {
            lemma_zero_mask((i % 8) as u8);
        }
        r
    }

    /// The number of pieces.
    pub fn n_pieces(&self) -> (r: u32)
        ensures
            r == self.len(),
    {
        self.n_pieces
    }

    /// Whether piece `index` is in the set.
    pub fn has_piece(&self, index: u32) -> (r: bool)
        requires
            self.wf(),
        ensures
            r == (index < self.len() && self.pieces()[index as int]),
    {
        if index >= self.n_pieces {
            return false;
        }
        let b = self.bits[(index / 8) as usize];
        b & (0x80u8 >> ((index % 8) as u8)) != 0
    }

    /// Adds piece `index`; an index beyond the last piece changes nothing.
    pub fn add_a_piece(&mut self, index: u32)
        requires
            old(self).wf(),
        ensures
            final(self).wf(),
            final(self).len() == old(self).len(),
            index < old(self).len() ==> final(self).bytes() == set_bit(old(self).bytes(), index as int)
                && final(self).pieces() == old(self).pieces().update(index as int, true),
            index >= old(self).len() ==> *final(self) == *old(self),
    {
        if index >= self.n_pieces {
            return;
        }
        let j = (index / 8) as usize;
        let k = (index % 8) as u8;
        let b = self.bits[j];
        self.bits.set(j, b | (0x80u8 >> k));
        proof {
            let o = old(self).bits@;
            let s = self.bits@;
            assert(s =~= set_bit(o, index as int));
            assert forall|i: int| 0 <= i < 8 * s.len() implies #[trigger] marked(s, i) == (
            i == index || marked(o, i)) by {
                lemma_or_mask(o[j as int], k, (i % 8) as u8);
                if i / 8 == j as int {
                    assert(i % 8 == k <==> i == index);
                }
            }
            assert(self.pieces() =~= old(self).pieces().update(index as int, true));
        }
    }

    /// Replaces the set with the bytes of a Bitfield message. Bytes of
    /// another length than the set's are ignored; bits beyond the last
    /// piece are cleared.
    pub fn add_multiple_pieces(&mut self, bytes: &[u8])
        requires
            old(self).wf(),
        ensures
            final(self).wf(),
            final(self).len() == old(self).len(),
            bytes@.len() == old(self).bytes().len() ==> final(self).pieces() == bits_of(
                bytes@,
                old(self).len(),
            ),
            bytes@.len() != old(self).bytes().len() ==> *final(self) == *old(self),
    {
        if bytes.len() != self.bits.len() {
            return;
        }
        let ghost n = self.n_pieces as int;
        let mut i: usize = 0;
        while i < bytes.len()
            invariant
                bytes@.len() == self.bits@.len() == n_bytes(n as nat),
                self.n_pieces == n,
                0 <= i <= bytes@.len(),
                forall|j: int| 0 <= j < i ==> self.bits@[j] == bytes@[j],
            decreases bytes@.len() - i,
        {
            self.bits.set(i, bytes[i]);
            i = i + 1;
        }
        let r = (self.n_pieces % 8) as u8;
        let nb = self.bits.len();
        if r != 0 {
            let last = self.bits[nb - 1];
            self.bits.set(nb - 1, last & (0xffu8 << (8 - r)));
        }
        proof {
            let s = self.bits@;
            assert forall|i: int| 0 <= i < 8 * s.len() implies #[trigger] marked(s, i) == (i < n
                && marked(bytes@, i)) by {
                if r != 0 && i / 8 == nb - 1 {
                    lemma_keep_mask(bytes@[nb - 1], r, (i % 8) as u8);
                }
            }
            assert(self.pieces() =~= bits_of(bytes@, n as nat));
        }
    }

    /// The set of the pieces that are not in this one.
    pub fn get_complement(&self) -> (r: PieceBitfield)
        requires
            self.wf(),
        ensures
            r.wf(),
            r.len() == self.len(),
            forall|i: int| 0 <= i < self.len() ==> #[trigger] r.pieces()[i] == !self.pieces()[i],
    {
        let n = self.n_pieces;
        let mut bits: Vec<u8> = Vec::new();
        let mut i: usize = 0;
        while i < self.bits.len()
            invariant
                self.wf(),
                0 <= i <= self.bits@.len(),
                bits@.len() == i,
                forall|j: int| 0 <= j < i ==> bits@[j] == !self.bits@[j],
            decreases self.bits@.len() - i,
        {
            bits.push(!self.bits[i]);
            i = i + 1;
        }
        let r = (n % 8) as u8;
        let nb = bits.len();
        if r != 0 {
            let last = bits[nb - 1];
            bits.set(nb - 1, last & (0xffu8 << (8 - r)));
        }
        let out = PieceBitfield { bits, n_pieces: n };
        proof {
            let s = out.bits@;
            let o = self.bits@;
            assert forall|i: int| 0 <= i < 8 * s.len() implies #[trigger] marked(s, i) == (i < n
                && !marked(o, i)) by {
                lemma_not_mask(o[i / 8], (i % 8) as u8);
                if r != 0 && i / 8 == nb - 1 {
                    lemma_keep_mask(!o[nb - 1], r, (i % 8) as u8);
                }
            }
        }
        out
    }

    /// Whether some piece is in both sets.
    pub fn there_is_match(&self, other: &PieceBitfield) -> (r: bool)
        requires
            self.wf(),
            other.wf(),
            self.len() == other.len(),
        ensures
            r == intersects(self.pieces(), other.pieces()),
    {
        let ghost n = self.n_pieces as int;
        let mut i: usize = 0;
        while i < self.bits.len()
            invariant
                self.wf(),
                other.wf(),
                self.n_pieces == n == other.n_pieces,
                0 <= i <= self.bits@.len(),
                forall|p: int|
                    0 <= p < 8 * i ==> !(#[trigger] marked(self.bits@, p) && marked(
                        other.bits@,
                        p,
                    )),
            decreases self.bits@.len() - i,
        {
            let a = self.bits[i];
            let b = other.bits[i];
            proof {
                lemma_and_mask(a, b);
            }
            if a & b != 0 {
                proof {
                    let j = choose|j: u8|
                        j < 8 && #[trigger] (a & (0x80u8 >> j)) != 0 && b & (0x80u8 >> j) != 0;
                    let p = 8 * i + j;
                    assert(p / 8 == i && p % 8 == j);
                    assert(marked(self.bits@, p) && marked(other.bits@, p));
                    assert(p < n);
                    assert(self.pieces()[p] && other.pieces()[p]);
                }
                return true;
            }
            proof {
                assert forall|p: int|
                    0 <= p < 8 * (i + 1) implies !(#[trigger] marked(self.bits@, p) && marked(
                    other.bits@,
                    p,
                )) by {
                    if p >= 8 * i {
                        let j = (p % 8) as u8;
                        assert(p / 8 == i);
                        if a & (0x80u8 >> j) != 0 && b & (0x80u8 >> j) != 0 {
                            assert(exists|j: u8|
                                j < 8 && #[trigger] (a & (0x80u8 >> j)) != 0 && b & (0x80u8 >> j)
                                    != 0);
                        }
                    }
                }
            }
            i = i + 1;
        }
        assert forall|p: int| 0 <= p < n implies !(self.pieces()[p] && other.pieces()[p]) by {
            assert(marked(self.bits@, p) == self.pieces()[p]);
        }
        false
    }

    /// The bytes of the set, as a Bitfield message carries them.
    pub fn get_vec(&self) -> (r: Vec<u8>)
        ensures
            r@ == self.bytes(),
    {
        self.bits.clone()
    }
}

/// A set has one membership flag per piece.
pub broadcast proof fn lemma_pieces_len(b: &PieceBitfield)
    ensures
        #[trigger] b.pieces().len() == b.len(),
{
}

/// Setting bit `i` in zero bytes leaves byte `i / 8` with only bit
/// `7 - i % 8` set and every other byte zero.
pub proof fn lemma_set_bit_layout(n: nat, i: int)
    requires
        0 <= i < 8 * n,
    ensures
        forall|j: int|
            0 <= j < n ==> #[trigger] set_bit(zero_bytes(n), i)[j] == if j == i / 8 {
                (1u8 << (7 - i % 8) as u8)
            } else {
                0u8
            },
{
    let k = (i % 8) as u8;
    assert(0u8 | (0x80u8 >> k) == (1u8 << (7 - k) as u8)) by (bit_vector)
        requires
            k < 8,
    ;
}

} // verus!
