use vstd::prelude::*;

use crate::bitboard::Bitboard;
use crate::lookup_tables::LookupTables;

verus! {

/// Decomposition of a square index into rank and file coordinates.
pub proof fn lemma_coords(i: int)
    requires
        0 <= i < 256,
    ensures
        i == 16 * (i / 16) + i % 16,
        0 <= i % 16 < 16,
        0 <= i / 16 < 16,
{
    vstd::arithmetic::div_mod::lemma_fundamental_div_mod(i, 16);
}

/// Coordinates of a square offset from `i` by `df` files and `dr` ranks.
pub proof fn lemma_offset_coords(i: int, df: int, dr: int)
    requires
        0 <= i < 256,
        0 <= i % 16 + df < 16,
        0 <= i / 16 + dr < 16,
    ensures
        0 <= i + 16 * dr + df < 256,
        (i + 16 * dr + df) % 16 == i % 16 + df,
        (i + 16 * dr + df) / 16 == i / 16 + dr,
{
    lemma_coords(i);
    vstd::arithmetic::div_mod::lemma_fundamental_div_mod_converse(
        i + 16 * dr + df,
        16,
        i / 16 + dr,
        i % 16 + df,
    );
}

/// The sequence holds exactly one set bit, at index `i`.
pub open spec fn is_unit(s: Seq<bool>, i: int) -> bool {
    &&& s.len() == 256
    &&& 0 <= i < 256
    &&& s[i]
    &&& forall|k: int| 0 <= k < 256 && k != i ==> !(#[trigger] s[k])
}

/// The index of the single set bit of a one-bit sequence.
pub open spec fn unit_index(s: Seq<bool>) -> int {
    choose|i: int| is_unit(s, i)
}

/// A king step: the destination is one of the eight squares surrounding the
/// source.
pub open spec fn king_step(i: int, j: int) -> bool {
    &&& 0 <= i < 256
    &&& 0 <= j < 256
    &&& i != j
    &&& -1 <= i % 16 - j % 16 <= 1
    &&& -1 <= i / 16 - j / 16 <= 1
}

/// A knight step: the destination is one of the eight L-shaped jumps from the
/// source.
pub open spec fn knight_step(i: int, j: int) -> bool {
    let df = if i % 16 >= j % 16 {
        i % 16 - j % 16
    } else {
        j % 16 - i % 16
    };
    let dr = if i / 16 >= j / 16 {
        i / 16 - j / 16
    } else {
        j / 16 - i / 16
    };
    &&& 0 <= i < 256
    &&& 0 <= j < 256
    &&& (df == 1 && dr == 2) || (df == 2 && dr == 1)
}

/// Destinations a king may move to: every square one step away from a source
/// square, except those occupied by the mover's own side.
#[verifier::rlimit(60)]
#[verifier::spinoff_prover]
pub fn compute_king_moves(
    king_location: &Bitboard,
    own_side: &Bitboard,
    lookup_tables: &LookupTables,
) -> (r: Bitboard)
    requires
        king_location.wf(),
        own_side.wf(),
        lookup_tables.wf(),
    ensures
        r.wf(),
        forall|j: int|
            0 <= j < 256 ==> r@[j] == ((exists|i: int|
                king_location@[i] && #[trigger] king_step(i, j)) && !own_side@[j]),
{
    let mut king_clip_file_a = king_location.clone();
    king_clip_file_a.and(&lookup_tables.clear_file[0]);

    let mut king_clip_file_p = king_location.clone();
    king_clip_file_p.and(&lookup_tables.clear_file[15]);

    let mut spot_1 = king_clip_file_a.clone();
    spot_1.shift_right(15);
    let mut spot_2 = king_location.clone();
    spot_2.shift_right(16);
    let mut spot_3 = king_clip_file_p.clone();
    spot_3.shift_right(17);
    let mut spot_4 = king_clip_file_p.clone();
    spot_4.shift_right(1);
    let mut spot_5 = king_clip_file_p.clone();
    spot_5.shift_left(15);
    let mut spot_6 = king_location.clone();
    spot_6.shift_left(16);
    let mut spot_7 = king_clip_file_a.clone();
    spot_7.shift_left(17);
    let mut spot_8 = king_clip_file_a.clone();
    spot_8.shift_left(1);

    let mut king_moves = spot_1.clone();
    king_moves.or(&spot_2);
    king_moves.or(&spot_3);
    king_moves.or(&spot_4);
    king_moves.or(&spot_5);
    king_moves.or(&spot_6);
    king_moves.or(&spot_7);
    king_moves.or(&spot_8);

    let mut not_own_side = own_side.clone();
    not_own_side.not();
    king_moves.and(&not_own_side);

    proof {
        assert forall|j: int| 0 <= j < 256 implies king_moves@[j] == ((exists|i: int|
            king_location@[i] && #[trigger] king_step(i, j)) && !own_side@[j]) by {
            lemma_coords(j);
            if king_moves@[j] {
                if spot_1@[j] {
                    lemma_coords(j - 15);
                    assert(king_step(j - 15, j));
                } else if spot_2@[j] {
                    lemma_coords(j - 16);
                    assert(king_step(j - 16, j));
                } else if spot_3@[j] {
                    lemma_coords(j - 17);
                    assert(king_step(j - 17, j));
                } else if spot_4@[j] {
                    lemma_coords(j - 1);
                    assert(king_step(j - 1, j));
                } else if spot_5@[j] {
                    lemma_coords(j + 15);
                    assert(king_step(j + 15, j));
                } else if spot_6@[j] {
                    lemma_coords(j + 16);
                    assert(king_step(j + 16, j));
                } else if spot_7@[j] {
                    lemma_coords(j + 17);
                    assert(king_step(j + 17, j));
                } else {
                    lemma_coords(j + 1);
                    assert(king_step(j + 1, j));
                }
            }
            if (exists|i: int| king_location@[i] && #[trigger] king_step(i, j)) && !own_side@[j] {
                let i = choose|i: int| king_location@[i] && #[trigger] king_step(i, j);
                lemma_coords(i);
                assert(i - j == 16 * (i / 16 - j / 16) + (i % 16 - j % 16));
                if i == j - 15 {
                    assert(spot_1@[j]);
                } else if i == j - 16 {
                    assert(spot_2@[j]);
                } else if i == j - 17 {
                    assert(spot_3@[j]);
                } else if i == j - 1 {
                    assert(spot_4@[j]);
                } else if i == j + 15 {
                    assert(spot_5@[j]);
                } else if i == j + 16 {
                    assert(spot_6@[j]);
                } else if i == j + 17 {
                    assert(spot_7@[j]);
                } else {
                    assert(i == j + 1);
                    assert(spot_8@[j]);
                }
                assert(king_moves@[j]);
            }
        }
    }
    king_moves
}

/// Destinations a knight may move to: every L-shaped jump from a source
/// square, except squares occupied by the mover's own side.
#[verifier::rlimit(60)]
#[verifier::spinoff_prover]
pub fn compute_knight_moves(
    knight_location: &Bitboard,
    own_side: &Bitboard,
    lookup_tables: &LookupTables,
) -> (r: Bitboard)
    requires
        knight_location.wf(),
        own_side.wf(),
        lookup_tables.wf(),
    ensures
        r.wf(),
        forall|j: int|
            0 <= j < 256 ==> r@[j] == ((exists|i: int|
                knight_location@[i] && #[trigger] knight_step(i, j)) && !own_side@[j]),
{
    let mut spot_1_clip = lookup_tables.clear_file[0].clone();
    spot_1_clip.and(&lookup_tables.clear_file[1]);

    let spot_2_clip = &lookup_tables.clear_file[0];
    let spot_3_clip = &lookup_tables.clear_file[15];

    let mut spot_4_clip = lookup_tables.clear_file[15].clone();
    spot_4_clip.and(&lookup_tables.clear_file[14]);

    let spot_5_clip = spot_4_clip.clone();
    let spot_6_clip = &lookup_tables.clear_file[15];
    let spot_7_clip = &lookup_tables.clear_file[0];
    let spot_8_clip = spot_1_clip.clone();

    let mut spot_1 = knight_location.clone();
    spot_1.and(&spot_1_clip);
    spot_1.shift_right(14);

    let mut spot_2 = knight_location.clone();
    spot_2.and(spot_2_clip);
    spot_2.shift_right(31);

    let mut spot_3 = knight_location.clone();
    spot_3.and(spot_3_clip);
    spot_3.shift_right(33);

    let mut spot_4 = knight_location.clone();
    spot_4.and(&spot_4_clip);
    spot_4.shift_right(18);

    let mut spot_5 = knight_location.clone();
    spot_5.and(&spot_5_clip);
    spot_5.shift_left(14);

    let mut spot_6 = knight_location.clone();
    spot_6.and(spot_6_clip);
    spot_6.shift_left(31);

    let mut spot_7 = knight_location.clone();
    spot_7.and(spot_7_clip);
    spot_7.shift_left(33);

    let mut spot_8 = knight_location.clone();
    spot_8.and(&spot_8_clip);
    spot_8.shift_left(18);

    let mut legal_moves = spot_1.clone();
    legal_moves.or(&spot_2);
    legal_moves.or(&spot_3);
    legal_moves.or(&spot_4);
    legal_moves.or(&spot_5);
    legal_moves.or(&spot_6);
    legal_moves.or(&spot_7);
    legal_moves.or(&spot_8);

    let mut not_own_side = own_side.clone();
    not_own_side.not();
    legal_moves.and(&not_own_side);

    proof {
        assert forall|j: int| 0 <= j < 256 implies legal_moves@[j] == ((exists|i: int|
            knight_location@[i] && #[trigger] knight_step(i, j)) && !own_side@[j]) by {
            lemma_coords(j);
            if legal_moves@[j] {
                if spot_1@[j] {
                    lemma_coords(j - 14);
                    assert(knight_step(j - 14, j));
                } else if spot_2@[j] {
                    lemma_coords(j - 31);
                    assert(knight_step(j - 31, j));
                } else if spot_3@[j] {
                    lemma_coords(j - 33);
                    assert(knight_step(j - 33, j));
                } else if spot_4@[j] {
                    lemma_coords(j - 18);
                    assert(knight_step(j - 18, j));
                } else if spot_5@[j] {
                    lemma_coords(j + 14);
                    assert(knight_step(j + 14, j));
                } else if spot_6@[j] {
                    lemma_coords(j + 31);
                    assert(knight_step(j + 31, j));
                } else if spot_7@[j] {
                    lemma_coords(j + 33);
                    assert(knight_step(j + 33, j));
                } else {
                    lemma_coords(j + 18);
                    assert(knight_step(j + 18, j));
                }
            }
            if (exists|i: int| knight_location@[i] && #[trigger] knight_step(i, j))
                && !own_side@[j] {
                let i = choose|i: int| knight_location@[i] && #[trigger] knight_step(i, j);
                lemma_coords(i);
                assert(i - j == 16 * (i / 16 - j / 16) + (i % 16 - j % 16));
                if i == j - 14 {
                    assert(spot_1@[j]);
                } else if i == j - 31 {
                    assert(spot_2@[j]);
                } else if i == j - 33 {
                    assert(spot_3@[j]);
                } else if i == j - 18 {
                    assert(spot_4@[j]);
                } else if i == j + 14 {
                    assert(spot_5@[j]);
                } else if i == j + 31 {
                    assert(spot_6@[j]);
                } else if i == j + 33 {
                    assert(spot_7@[j]);
                } else {
                    assert(i == j + 18);
                    assert(spot_8@[j]);
                }
                assert(legal_moves@[j]);
            }
        }
    }
    legal_moves
}

} // verus!
