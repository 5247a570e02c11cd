use vstd::prelude::*;

use bit_vec::BitVec;

use crate::color::Color;
use crate::square::{quadrant_of, square_color_spec, File, Quadrant, Rank};

verus! {

/// The bit pattern that selects one file.
pub open spec fn mask_file_bits(f: int) -> Seq<bool> {
    Seq::new(256, |i: int| i % 16 == f)
}

/// The bit pattern that clears one file.
pub open spec fn clear_file_bits(f: int) -> Seq<bool> {
    Seq::new(256, |i: int| i % 16 != f)
}

/// The bit pattern that selects one rank.
pub open spec fn mask_rank_bits(r: int) -> Seq<bool> {
    Seq::new(256, |i: int| i / 16 == r)
}

/// The bit pattern that clears one rank.
pub open spec fn clear_rank_bits(r: int) -> Seq<bool> {
    Seq::new(256, |i: int| i / 16 != r)
}

/// The bit pattern that selects one quadrant.
pub open spec fn mask_quadrant_bits(q: int) -> Seq<bool> {
    Seq::new(256, |i: int| quadrant_of(i).as_int() == q)
}

/// The bit pattern that clears the two squares colored with one army color.
pub open spec fn clear_colored_bits(c: Color) -> Seq<bool> {
    Seq::new(256, |i: int| square_color_spec(i) != Some(c))
}

pub const BOARD_WIDTH: usize = 16;

pub const BOARD_SIZE: usize = 256;

#[verifier::external_type_specification]
#[verifier::external_body]
#[verifier::reject_recursive_types(B)]
pub struct ExBitVec<B>(bit_vec::BitVec<B>);

/// The bits a `bit_vec::BitVec` holds, in index order.
pub uninterp spec fn bits_of(bv: BitVec) -> Seq<bool>;

/// Relies on BitVec::from_elem: a vector of `nbits` bits, all equal to `bit`.
#[verifier::external_body]
fn bv_from_elem(nbits: usize, bit: bool) -> (r: BitVec)
    ensures
        bits_of(r) == Seq::new(nbits as nat, |i: int| bit),
{
    BitVec::from_elem(nbits, bit)
}

/// Relies on BitVec::from_bytes: each byte becomes eight bits, most
/// significant bit of each byte first.
#[verifier::external_body]
fn bv_from_bytes(bytes: &[u8]) -> (r: BitVec)
    requires
        bytes@.len() <= usize::MAX / 8,
    ensures
        bits_of(r) == Seq::new(bytes@.len() * 8, |i: int| bytes@[i / 8] & (1u8 << (7 - i % 8)) != 0),
{
    BitVec::from_bytes(bytes)
}

/// Relies on BitVec::get: the bit at an index, or None past the end.
#[verifier::external_body]
fn bv_get(bv: &BitVec, i: usize) -> (r: Option<bool>)
    ensures
        r == if i < bits_of(*bv).len() {
            Some(bits_of(*bv)[i as int])
        } else {
            None::<bool>
        },
{
    bv.get(i)
}

/// Relies on BitVec::set: writes the bit at an index; panics past the end,
/// which the precondition rules out.
#[verifier::external_body]
fn bv_set(bv: &mut BitVec, i: usize, x: bool)
    requires
        i < bits_of(*old(bv)).len(),
    ensures
        bits_of(*final(bv)) == bits_of(*old(bv)).update(i as int, x),
{
    bv.set(i, x)
}

/// Relies on BitVec::or: pointwise union of two equally long vectors;
/// returns whether self changed.
#[verifier::external_body]
fn bv_or(bv: &mut BitVec, other: &BitVec) -> (r: bool)
    requires
        bits_of(*old(bv)).len() == bits_of(*other).len(),
    ensures
        bits_of(*final(bv)) == Seq::new(
            bits_of(*old(bv)).len(),
            |i: int| bits_of(*old(bv))[i] || bits_of(*other)[i],
        ),
        r == (bits_of(*final(bv)) != bits_of(*old(bv))),
{
    bv.or(other)
}

/// Relies on BitVec::and: pointwise intersection of two equally long vectors;
/// returns whether self changed.
#[verifier::external_body]
fn bv_and(bv: &mut BitVec, other: &BitVec) -> (r: bool)
    requires
        bits_of(*old(bv)).len() == bits_of(*other).len(),
    ensures
        bits_of(*final(bv)) == Seq::new(
            bits_of(*old(bv)).len(),
            |i: int| bits_of(*old(bv))[i] && bits_of(*other)[i],
        ),
        r == (bits_of(*final(bv)) != bits_of(*old(bv))),
{
    bv.and(other)
}

/// Relies on BitVec::negate: flips every bit.
#[verifier::external_body]
fn bv_negate(bv: &mut BitVec)
    ensures
        bits_of(*final(bv)) == Seq::new(
            bits_of(*old(bv)).len(),
            |i: int| !bits_of(*old(bv))[i],
        ),
{
    bv.negate()
}

/// Relies on BitVec::any: whether any bit is set.
#[verifier::external_body]
fn bv_any(bv: &BitVec) -> (r: bool)
    ensures
        r == (exists|i: int| 0 <= i < bits_of(*bv).len() && bits_of(*bv)[i]),
{
    bv.any()
}

/// Relies on BitVec::len: the number of bits.
#[verifier::external_body]
fn bv_len(bv: &BitVec) -> (r: usize)
    ensures
        r == bits_of(*bv).len(),
{
    bv.len()
}

/// Relies on BitVec::clone: an equal copy.
#[verifier::external_body]
fn bv_clone(bv: &BitVec) -> (r: BitVec)
    ensures
        bits_of(r) == bits_of(*bv),
{
    bv.clone()
}

/// A 256-bit set over board squares.  Index 0 is square a1, index 255 is
/// square p16.
#[derive(Debug, PartialEq)]
pub struct Bitboard {
    bv: BitVec,
}

impl View for Bitboard {
    type V = Seq<bool>;

    closed spec fn view(&self) -> Seq<bool> {
        bits_of(self.bv)
    }
}

impl Clone for Bitboard {
    fn clone(&self) -> (r: Self)
        ensures
            r@ == self@,
    {
        Bitboard { bv: bv_clone(&self.bv) }
    }
}

/// What a shift toward lower indices leaves: bits drop off the low edge and
/// zeros enter at the high edge.
pub open spec fn shift_low_spec(s: Seq<bool>, by: int) -> Seq<bool> {
    Seq::new(s.len(), |n: int| n + by < s.len() && s[n + by])
}

/// What a shift toward higher indices leaves: bits drop off the high edge and
/// zeros enter at the low edge.
pub open spec fn shift_high_spec(s: Seq<bool>, by: int) -> Seq<bool> {
    Seq::new(s.len(), |n: int| n - by >= 0 && s[n - by])
}

impl Bitboard {
    /// The bitboard has its fixed 256-bit length.
    pub open spec fn wf(self) -> bool {
        self@.len() == 256
    }

    /// An all-clear bitboard.
    pub fn new() -> (r: Self)
        ensures
            r@ == Seq::new(256, |i: int| false),
            r.wf(),
    {
        Bitboard { bv: bv_from_elem(256, false) }
    }

    /// An all-set bitboard.
    pub fn new_full() -> (r: Self)
        ensures
            r@ == Seq::new(256, |i: int| true),
            r.wf(),
    {
        Bitboard { bv: bv_from_elem(256, true) }
    }

    /// A bitboard read from bytes, most significant bit of each byte first.
    pub fn from_bytes(bytes: &[u8]) -> (r: Self)
        requires
            bytes@.len() == 32,
        ensures
            r@ == Seq::new(256, |i: int| bytes@[i / 8] & (1u8 << (7 - i % 8)) != 0),
            r.wf(),
    {
        let r = Bitboard { bv: bv_from_bytes(bytes) };
        proof {
            assert(r@ =~= Seq::new(256, |i: int| bytes@[i / 8] & (1u8 << (7 - i % 8)) != 0));
        }
        r
    }

    pub fn len(&self) -> (r: usize)
        ensures
            r == self@.len(),
    {
        bv_len(&self.bv)
    }

    /// A full bitboard with one file cleared.
    pub fn new_clear_file(file: File) -> (r: Self)
        ensures
            r@ == clear_file_bits(file.as_int()),
            r.wf(),
    {
        let f = file.to_index();
        let mut b = Bitboard::new_full();
        let mut j: usize = 0;
        while j < 16
            invariant
                j <= 16,
                f < 16,
                f == file.as_int(),
                b@.len() == 256,
                forall|i: int| 0 <= i < 256 ==> b@[i] == !(i % 16 == f && i / 16 < j),
            decreases 16 - j,
        {
            b.set(f + 16 * j, false);
            j += 1;
        }
        proof {
            assert(b@ =~= clear_file_bits(file.as_int()));
        }
        b
    }

    /// An empty bitboard with one file set.
    pub fn new_mask_file(file: File) -> (r: Self)
        ensures
            r@ == mask_file_bits(file.as_int()),
            r.wf(),
    {
        let f = file.to_index();
        let mut b = Bitboard::new();
        let mut j: usize = 0;
        while j < 16
            invariant
                j <= 16,
                f < 16,
                f == file.as_int(),
                b@.len() == 256,
                forall|i: int| 0 <= i < 256 ==> b@[i] == (i % 16 == f && i / 16 < j),
            decreases 16 - j,
        {
            b.set(f + 16 * j, true);
            j += 1;
        }
        proof {
            assert(b@ =~= mask_file_bits(file.as_int()));
        }
        b
    }

    /// A full bitboard with one rank cleared.
    pub fn new_clear_rank(rank: Rank) -> (r: Self)
        ensures
            r@ == clear_rank_bits(rank.as_int()),
            r.wf(),
    {
        let rk = rank.to_index();
        let mut b = Bitboard::new_full();
        let mut j: usize = 0;
        while j < 16
            invariant
                j <= 16,
                rk < 16,
                rk == rank.as_int(),
                b@.len() == 256,
                forall|i: int| 0 <= i < 256 ==> b@[i] == !(i / 16 == rk && i % 16 < j),
            decreases 16 - j,
        {
            b.set(16 * rk + j, false);
            j += 1;
        }
        proof {
            assert(b@ =~= clear_rank_bits(rank.as_int()));
        }
        b
    }

    /// An empty bitboard with one rank set.
    pub fn new_mask_rank(rank: Rank) -> (r: Self)
        ensures
            r@ == mask_rank_bits(rank.as_int()),
            r.wf(),
    {
        let rk = rank.to_index();
        let mut b = Bitboard::new();
        let mut j: usize = 0;
        while j < 16
            invariant
                j <= 16,
                rk < 16,
                rk == rank.as_int(),
                b@.len() == 256,
                forall|i: int| 0 <= i < 256 ==> b@[i] == (i / 16 == rk && i % 16 < j),
            decreases 16 - j,
        {
            b.set(16 * rk + j, true);
            j += 1;
        }
        proof {
            assert(b@ =~= mask_rank_bits(rank.as_int()));
        }
        b
    }

    /// An empty bitboard with one quadrant set.
    pub fn new_mask_quadrant(quadrant: Quadrant) -> (r: Self)
        ensures
            r@ == mask_quadrant_bits(quadrant.as_int()),
            r.wf(),
    {
        let mut b = Bitboard::new();
        let mut i: usize = 0;
        while i < 256
            invariant
                i <= 256,
                b@.len() == 256,
                forall|n: int|
                    0 <= n < i ==> b@[n] == (quadrant_of(n).as_int() == quadrant.as_int()),
                forall|n: int| i <= n < 256 ==> !b@[n],
            decreases 256 - i,
        {
            let west = i % 16 < 8;
            let south = i / 16 < 8;
            let val = match quadrant {
                Quadrant::SW => west && south,
                Quadrant::SE => !west && south,
                Quadrant::NW => west && !south,
                Quadrant::NE => !west && !south,
            };
            b.set(i, val);
            i += 1;
        }
        proof {
            assert(b@ =~= mask_quadrant_bits(quadrant.as_int()));
        }
        b
    }

    pub fn get(&self, i: usize) -> (r: Option<bool>)
        ensures
            r == if i < self@.len() {
                Some(self@[i as int])
            } else {
                None::<bool>
            },
    {
        bv_get(&self.bv, i)
    }

    pub fn set(&mut self, i: usize, val: bool)
        requires
            i < old(self)@.len(),
        ensures
            final(self)@ == old(self)@.update(i as int, val),
    {
        bv_set(&mut self.bv, i, val)
    }

    /// Shift toward the least significant (lower) index.  Bits shifted past
    /// the low edge are dropped; vacated high bits become 0.
    pub fn shift_left(&mut self, by: usize) -> (r: bool)
        requires
            old(self).wf(),
        ensures
            final(self)@ == shift_low_spec(old(self)@, by as int),
            final(self).wf(),
            r == true,
    {
        let mut out = bv_from_elem(256, false);
        let mut n: usize = 0;
        while n < 256
            invariant
                n <= 256,
                self.wf(),
                bits_of(out).len() == 256,
                forall|k: int|
                    0 <= k < n ==> bits_of(out)[k] == (k + by < 256 && self@[k + by]),
                forall|k: int| n <= k < 256 ==> !bits_of(out)[k],
            decreases 256 - n,
        {
            if by < 256 && n + by < 256 {
                let b = self.get(n + by);
                bv_set(&mut out, n, b.unwrap());
            }
            n += 1;
        }
        self.bv = out;
        proof {
            assert(self@ =~= shift_low_spec(old(self)@, by as int));
        }
        true
    }

    /// Shift toward the most significant (higher) index.  Bits shifted past
    /// the high edge are dropped; vacated low bits become 0.
    pub fn shift_right(&mut self, by: usize) -> (r: bool)
        requires
            old(self).wf(),
        ensures
            final(self)@ == shift_high_spec(old(self)@, by as int),
            final(self).wf(),
            r == true,
    {
        let mut out = bv_from_elem(256, false);
        let mut n: usize = 0;
        while n < 256
            invariant
                n <= 256,
                self.wf(),
                bits_of(out).len() == 256,
                forall|k: int| 0 <= k < n ==> bits_of(out)[k] == (k - by >= 0 && self@[k - by]),
                forall|k: int| n <= k < 256 ==> !bits_of(out)[k],
            decreases 256 - n,
        {
            if n >= by {
                let b = self.get(n - by);
                bv_set(&mut out, n, b.unwrap());
            }
            n += 1;
        }
        self.bv = out;
        proof {
            assert(self@ =~= shift_high_spec(old(self)@, by as int));
        }
        true
    }

    /// Pointwise union with another bitboard of the same length.
    pub fn or(&mut self, other: &Self) -> (r: bool)
        requires
            old(self)@.len() == other@.len(),
        ensures
            final(self)@ == Seq::new(old(self)@.len(), |i: int| old(self)@[i] || other@[i]),
            r == (final(self)@ != old(self)@),
    {
        bv_or(&mut self.bv, &other.bv)
    }

    /// Pointwise intersection with another bitboard of the same length.
    pub fn and(&mut self, other: &Self) -> (r: bool)
        requires
            old(self)@.len() == other@.len(),
        ensures
            final(self)@ == Seq::new(old(self)@.len(), |i: int| old(self)@[i] && other@[i]),
            r == (final(self)@ != old(self)@),
    {
        bv_and(&mut self.bv, &other.bv)
    }

    /// Pointwise complement.
    pub fn not(&mut self)
        ensures
            final(self)@ == Seq::new(old(self)@.len(), |i: int| !old(self)@[i]),
    {
        bv_negate(&mut self.bv)
    }

    /// The lowest set index, or None when every bit is clear.
    pub fn least_significant_bit(&self) -> (r: Option<usize>)
        ensures
            match r {
                Some(i) => i < self@.len() && self@[i as int] && forall|j: int|
                    0 <= j < i ==> !self@[j],
                None => forall|j: int| 0 <= j < self@.len() ==> !self@[j],
            },
    {
        let len = self.len();
        let mut n: usize = 0;
        while n < len
            invariant
                n <= len,
                len == self@.len(),
                forall|j: int| 0 <= j < n ==> !self@[j],
            decreases len - n,
        {
            let b = self.get(n);
            if b.unwrap() {
                return Some(n);
            }
            n += 1;
        }
        None
    }

    /// Whether any bit is set.
    pub fn any(&self) -> (r: bool)
        ensures
            r == (exists|i: int| 0 <= i < self@.len() && self@[i]),
    {
        let r = bv_any(&self.bv);
        proof {
            if r {
                let i = choose|i: int| 0 <= i < bits_of(self.bv).len() && bits_of(self.bv)[i];
                assert(0 <= i < self@.len() && self@[i]);
            }
            if exists|i: int| 0 <= i < self@.len() && self@[i] {
                let i = choose|i: int| 0 <= i < self@.len() && self@[i];
                assert(0 <= i < bits_of(self.bv).len() && bits_of(self.bv)[i]);
            }
        }
        r
    }
}

/// Shift law: shifting toward the low edge and back toward the high edge
/// clears exactly the lowest `by` bits and keeps every other bit.
pub proof fn lemma_shift_low_then_high(s: Seq<bool>, by: int)
    requires
        s.len() == 256,
        0 <= by <= 256,
    ensures
        shift_high_spec(shift_low_spec(s, by), by) == Seq::new(256, |n: int| n >= by && s[n]),
{
    assert(shift_high_spec(shift_low_spec(s, by), by) =~= Seq::new(256, |n: int| n >= by && s[n]));
}

/// Shift law: shifting toward the high edge and back toward the low edge
/// clears exactly the highest `by` bits and keeps every other bit.
pub proof fn lemma_shift_high_then_low(s: Seq<bool>, by: int)
    requires
        s.len() == 256,
        0 <= by <= 256,
    ensures
        shift_low_spec(shift_high_spec(s, by), by) == Seq::new(256, |n: int| n < 256 - by && s[n]),
{
    assert(shift_low_spec(shift_high_spec(s, by), by) =~= Seq::new(256, |n: int| n < 256 - by && s[n]));
}

} // verus!
