use vstd::prelude::*;

use crate::bitboard::{clear_colored_bits, clear_file_bits, clear_rank_bits, mask_file_bits, mask_quadrant_bits, mask_rank_bits, Bitboard};
use crate::color::Color;
use crate::square::{lemma_square_color_pair, pair_squares, File, Quadrant, Rank};

verus! {

/// Immutable per-engine tables: file, rank and quadrant masks, and the
/// per-color masks that clear that color's two colored squares.
#[derive(Debug, PartialEq)]
pub struct LookupTables {
    pub clear_file: Vec<Bitboard>,
    pub clear_rank: Vec<Bitboard>,
    pub mask_file: Vec<Bitboard>,
    pub mask_rank: Vec<Bitboard>,
    pub mask_quadrant: Vec<Bitboard>,
    pub clear_colored_squares: Vec<Bitboard>,
}

impl LookupTables {
    /// Every table holds exactly the documented bit patterns.
    pub open spec fn wf(self) -> bool {
        &&& self.clear_file@.len() == 16
        &&& self.clear_rank@.len() == 16
        &&& self.mask_file@.len() == 16
        &&& self.mask_rank@.len() == 16
        &&& self.mask_quadrant@.len() == 4
        &&& self.clear_colored_squares@.len() == 12
        &&& forall|f: int| 0 <= f < 16 ==> (#[trigger] self.clear_file@[f])@ == clear_file_bits(f)
        &&& forall|r: int| 0 <= r < 16 ==> (#[trigger] self.clear_rank@[r])@ == clear_rank_bits(r)
        &&& forall|f: int| 0 <= f < 16 ==> (#[trigger] self.mask_file@[f])@ == mask_file_bits(f)
        &&& forall|r: int| 0 <= r < 16 ==> (#[trigger] self.mask_rank@[r])@ == mask_rank_bits(r)
        &&& forall|q: int|
            0 <= q < 4 ==> (#[trigger] self.mask_quadrant@[q])@ == mask_quadrant_bits(q)
        &&& forall|c: Color| (#[trigger] self.clear_colored_squares@[c.as_int()])@
            == clear_colored_bits(c)
    }

    pub fn new() -> (r: Self)
        ensures
            r.wf(),
    {
        let files = File::all();
        let ranks = Rank::all();
        let quadrants = Quadrant::all();
        let colors = Color::all();

        let mut clear_file: Vec<Bitboard> = Vec::new();
        for k in 0..16
            invariant
                files@.len() == 16,
                forall|j: int| 0 <= j < 16 ==> (#[trigger] files@[j]).as_int() == j,
                clear_file@.len() == k,
                forall|j: int|
                    0 <= j < k ==> (#[trigger] clear_file@[j])@ == clear_file_bits(j),
        {
            clear_file.push(Bitboard::new_clear_file(files[k]));
        }

        let mut clear_rank: Vec<Bitboard> = Vec::new();
        for k in 0..16
            invariant
                ranks@.len() == 16,
                forall|j: int| 0 <= j < 16 ==> (#[trigger] ranks@[j]).as_int() == j,
                clear_rank@.len() == k,
                forall|j: int|
                    0 <= j < k ==> (#[trigger] clear_rank@[j])@ == clear_rank_bits(j),
        {
            clear_rank.push(Bitboard::new_clear_rank(ranks[k]));
        }

        let mut mask_file: Vec<Bitboard> = Vec::new();
        for k in 0..16
            invariant
                files@.len() == 16,
                forall|j: int| 0 <= j < 16 ==> (#[trigger] files@[j]).as_int() == j,
                mask_file@.len() == k,
                forall|j: int| 0 <= j < k ==> (#[trigger] mask_file@[j])@ == mask_file_bits(j),
        {
            mask_file.push(Bitboard::new_mask_file(files[k]));
        }

        let mut mask_rank: Vec<Bitboard> = Vec::new();
        for k in 0..16
            invariant
                ranks@.len() == 16,
                forall|j: int| 0 <= j < 16 ==> (#[trigger] ranks@[j]).as_int() == j,
                mask_rank@.len() == k,
                forall|j: int| 0 <= j < k ==> (#[trigger] mask_rank@[j])@ == mask_rank_bits(j),
        {
            mask_rank.push(Bitboard::new_mask_rank(ranks[k]));
        }

        let mut mask_quadrant: Vec<Bitboard> = Vec::new();
        for k in 0..4
            invariant
                quadrants@.len() == 4,
                forall|j: int| 0 <= j < 4 ==> (#[trigger] quadrants@[j]).as_int() == j,
                mask_quadrant@.len() == k,
                forall|j: int|
                    0 <= j < k ==> (#[trigger] mask_quadrant@[j])@ == mask_quadrant_bits(j),
        {
            mask_quadrant.push(Bitboard::new_mask_quadrant(quadrants[k]));
        }

        let mut clear_colored_squares: Vec<Bitboard> = Vec::new();
        for k in 0..12
            invariant
                colors@.len() == 12,
                forall|j: int| 0 <= j < 12 ==> (#[trigger] colors@[j]).as_int() == j,
                clear_colored_squares@.len() == k,
                forall|j: int|
                    0 <= j < k ==> (#[trigger] clear_colored_squares@[j])@ == clear_colored_bits(
                        colors@[j],
                    ),
        {
            let c = colors[k];
            let pair = pair_squares(&c);
            let mut b = Bitboard::new_full();
            b.set(pair.0, false);
            b.set(pair.1, false);
            proof {
                assert forall|i: int| 0 <= i < 256 implies b@[i] == clear_colored_bits(c)[i] by {
                    lemma_square_color_pair(i, c);
                }
                assert(b@ =~= clear_colored_bits(c));
            }
            clear_colored_squares.push(b);
        }

        let r = LookupTables {
            clear_file,
            clear_rank,
            mask_file,
            mask_rank,
            mask_quadrant,
            clear_colored_squares,
        };
        proof {
            assert forall|c: Color| (#[trigger] r.clear_colored_squares@[c.as_int()])@
                == clear_colored_bits(c) by {
                assert(colors@[c.as_int()] == c);
            }
        }
        r
    }
}

} // verus!
