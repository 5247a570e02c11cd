use vstd::prelude::*;

use crate::bitboard::Bitboard;
use crate::lookup_tables::LookupTables;
use crate::movegen::{is_unit, lemma_coords, lemma_offset_coords, unit_index};
use crate::square::{quadrant_of, Quadrant};

verus! {

/// Destinations of a pawn in the southwest quadrant: one or (from the two
/// ranks nearest the south edge) two steps north into empty squares, the
/// same side-steps east, and up to three diagonal captures.
pub open spec fn sw_pawn_dest(i: int, j: int, all: Seq<bool>, enemy: Seq<bool>) -> bool {
    ||| (j == i + 16 && i / 16 != 7 && !all[j])
    ||| (j == i + 32 && i / 16 < 2 && !all[i + 16] && !all[j])
    ||| (j == i + 1 && i % 16 != 7 && !all[j])
    ||| (j == i + 2 && i % 16 < 2 && !all[i + 1] && !all[j])
    ||| (j == i + 15 && i % 16 != 0 && i / 16 != 7 && enemy[j])
    ||| (j == i + 17 && enemy[j])
    ||| (j == i - 15 && i % 16 != 7 && i / 16 != 0 && enemy[j])
}

/// Destinations of a pawn in the southeast quadrant: steps north and west
/// toward the center, and the mirrored captures.
pub open spec fn se_pawn_dest(i: int, j: int, all: Seq<bool>, enemy: Seq<bool>) -> bool {
    ||| (j == i + 16 && i / 16 != 7 && !all[j])
    ||| (j == i + 32 && i / 16 < 2 && !all[i + 16] && !all[j])
    ||| (j == i - 1 && i % 16 != 8 && !all[j])
    ||| (j == i - 2 && i % 16 > 13 && !all[i - 1] && !all[j])
    ||| (j == i - 17 && i % 16 != 8 && i / 16 != 0 && enemy[j])
    ||| (j == i + 15 && enemy[j])
    ||| (j == i + 17 && i % 16 != 15 && i / 16 != 7 && enemy[j])
}

/// Destinations of a pawn in the northwest quadrant: steps south and east
/// toward the center, and the mirrored captures.
pub open spec fn nw_pawn_dest(i: int, j: int, all: Seq<bool>, enemy: Seq<bool>) -> bool {
    ||| (j == i - 16 && i / 16 != 8 && !all[j])
    ||| (j == i - 32 && i / 16 > 13 && !all[i - 16] && !all[j])
    ||| (j == i + 1 && i % 16 != 7 && !all[j])
    ||| (j == i + 2 && i % 16 < 2 && !all[i + 1] && !all[j])
    ||| (j == i + 17 && i % 16 != 7 && i / 16 != 15 && enemy[j])
    ||| (j == i - 15 && enemy[j])
    ||| (j == i - 17 && i % 16 != 0 && i / 16 != 8 && enemy[j])
}

/// Destinations of a pawn in the northeast quadrant: steps south and west
/// toward the center, and the mirrored captures.
pub open spec fn ne_pawn_dest(i: int, j: int, all: Seq<bool>, enemy: Seq<bool>) -> bool {
    ||| (j == i - 16 && i / 16 != 8 && !all[j])
    ||| (j == i - 32 && i / 16 > 13 && !all[i - 16] && !all[j])
    ||| (j == i - 1 && i % 16 != 8 && !all[j])
    ||| (j == i - 2 && i % 16 > 13 && !all[i - 1] && !all[j])
    ||| (j == i - 15 && i % 16 != 15 && i / 16 != 8 && enemy[j])
    ||| (j == i - 17 && enemy[j])
    ||| (j == i + 15 && i % 16 != 8 && i / 16 != 15 && enemy[j])
}

/// Destinations of a pawn at `i`, by the quadrant the pawn stands in.
pub open spec fn pawn_dest(i: int, j: int, all: Seq<bool>, enemy: Seq<bool>) -> bool {
    match quadrant_of(i) {
        Quadrant::SW => sw_pawn_dest(i, j, all, enemy),
        Quadrant::SE => se_pawn_dest(i, j, all, enemy),
        Quadrant::NW => nw_pawn_dest(i, j, all, enemy),
        Quadrant::NE => ne_pawn_dest(i, j, all, enemy),
    }
}

/// Masks `src` by two masks, shifts it one board offset, and keeps only the
/// squares that `filter` admits.  `up` shifts toward higher indices.
fn masked_step(
    src: &Bitboard,
    mask_a: &Bitboard,
    mask_b: &Bitboard,
    up: bool,
    by: usize,
    filter: &Bitboard,
) -> (r: Bitboard)
    requires
        src.wf(),
        mask_a.wf(),
        mask_b.wf(),
        filter.wf(),
        by <= 256,
    ensures
        r.wf(),
        forall|j: int|
            0 <= j < 256 ==> r@[j] == ((if up {
                j - by >= 0 && src@[j - by] && mask_a@[j - by] && mask_b@[j - by]
            } else {
                j + by < 256 && src@[j + by] && mask_a@[j + by] && mask_b@[j + by]
            }) && filter@[j]),
{
    let mut t = src.clone();
    t.and(mask_a);
    t.and(mask_b);
    if up {
        t.shift_right(by);
    } else {
        t.shift_left(by);
    }
    t.and(filter);
    t
}

#[verifier::rlimit(50)]
#[verifier::spinoff_prover]
fn compute_sw_pawn_moves(
    start_location: &Bitboard,
    all_pieces: &Bitboard,
    enemy_pieces: &Bitboard,
    lookup_tables: &LookupTables,
    i: Ghost<int>,
) -> (r: Bitboard)
    requires
        is_unit(start_location@, i@),
        quadrant_of(i@) == Quadrant::SW,
        all_pieces.wf(),
        enemy_pieces.wf(),
        lookup_tables.wf(),
    ensures
        r.wf(),
        forall|j: int| 0 <= j < 256 ==> r@[j] == sw_pawn_dest(i@, j, all_pieces@, enemy_pieces@),
{
    let full = Bitboard::new_full();
    let mut empty_squares = all_pieces.clone();
    empty_squares.not();

    let one_step = masked_step(start_location, &lookup_tables.clear_rank[7], &full, true, 16, &empty_squares);
    let two_steps = masked_step(&one_step, &lookup_tables.mask_rank[1], &full, true, 16, &empty_squares);
    let two_steps_2 = masked_step(&one_step, &lookup_tables.mask_rank[2], &full, true, 16, &empty_squares);
    let one_side_step = masked_step(start_location, &lookup_tables.clear_file[7], &full, true, 1, &empty_squares);
    let two_side_steps = masked_step(&one_side_step, &lookup_tables.mask_file[1], &full, true, 1, &empty_squares);
    let two_side_steps_2 = masked_step(&one_side_step, &lookup_tables.mask_file[2], &full, true, 1, &empty_squares);
    let left_attack = masked_step(start_location, &lookup_tables.clear_file[0], &lookup_tables.clear_rank[7], true, 15, &full);
    let center_attack = masked_step(start_location, &full, &full, true, 17, &full);
    let right_attack = masked_step(start_location, &lookup_tables.clear_file[7], &lookup_tables.clear_rank[0], false, 15, &full);

    let mut all_attacks = left_attack.clone();
    all_attacks.or(&center_attack);
    all_attacks.or(&right_attack);
    all_attacks.and(enemy_pieces);

    let mut legal_moves = one_step.clone();
    legal_moves.or(&two_steps);
    legal_moves.or(&two_steps_2);
    legal_moves.or(&one_side_step);
    legal_moves.or(&two_side_steps);
    legal_moves.or(&two_side_steps_2);
    legal_moves.or(&all_attacks);

    proof {
        let i = i@;
        lemma_coords(i);
        lemma_offset_coords(i, 0, 1);
        if i / 16 < 2 {
            lemma_offset_coords(i, 0, 2);
        }
        if i % 16 != 7 {
            lemma_offset_coords(i, 1, 0);
        }
        if i % 16 < 2 {
            lemma_offset_coords(i, 2, 0);
        }
        if i % 16 != 0 && i / 16 != 7 {
            lemma_offset_coords(i, -1, 1);
        }
        lemma_offset_coords(i, 1, 1);
        if i % 16 != 7 && i / 16 != 0 {
            lemma_offset_coords(i, 1, -1);
        }
        assert forall|j: int| 0 <= j < 256 implies one_step@[j] == (j == i + 16 && i / 16 != 7 && !all_pieces@[j]) by {}
        assert forall|j: int| 0 <= j < 256 implies two_steps@[j] == (j == i + 32 && i / 16 == 0 && !all_pieces@[i + 16] && !all_pieces@[j]) by {}
        assert forall|j: int| 0 <= j < 256 implies two_steps_2@[j] == (j == i + 32 && i / 16 == 1 && !all_pieces@[i + 16] && !all_pieces@[j]) by {}
        assert forall|j: int| 0 <= j < 256 implies one_side_step@[j] == (j == i + 1 && i % 16 != 7 && !all_pieces@[j]) by {}
        assert forall|j: int| 0 <= j < 256 implies two_side_steps@[j] == (j == i + 2 && i % 16 == 0 && !all_pieces@[i + 1] && !all_pieces@[j]) by {}
        assert forall|j: int| 0 <= j < 256 implies two_side_steps_2@[j] == (j == i + 2 && i % 16 == 1 && !all_pieces@[i + 1] && !all_pieces@[j]) by {}
        assert forall|j: int| 0 <= j < 256 implies left_attack@[j] == (j == i + 15 && i % 16 != 0 && i / 16 != 7) by {}
        assert forall|j: int| 0 <= j < 256 implies center_attack@[j] == (j == i + 17) by {}
        assert forall|j: int| 0 <= j < 256 implies right_attack@[j] == (j == i - 15 && i % 16 != 7 && i / 16 != 0) by {}
        assert forall|j: int| 0 <= j < 256 implies legal_moves@[j] == sw_pawn_dest(
            i,
            j,
            all_pieces@,
            enemy_pieces@,
        ) by {}
    }
    legal_moves
}

#[verifier::rlimit(50)]
#[verifier::spinoff_prover]
fn compute_se_pawn_moves(
    start_location: &Bitboard,
    all_pieces: &Bitboard,
    enemy_pieces: &Bitboard,
    lookup_tables: &LookupTables,
    i: Ghost<int>,
) -> (r: Bitboard)
    requires
        is_unit(start_location@, i@),
        quadrant_of(i@) == Quadrant::SE,
        all_pieces.wf(),
        enemy_pieces.wf(),
        lookup_tables.wf(),
    ensures
        r.wf(),
        forall|j: int| 0 <= j < 256 ==> r@[j] == se_pawn_dest(i@, j, all_pieces@, enemy_pieces@),
{
    let full = Bitboard::new_full();
    let mut empty_squares = all_pieces.clone();
    empty_squares.not();

    let one_step = masked_step(start_location, &lookup_tables.clear_rank[7], &full, true, 16, &empty_squares);
    let two_steps = masked_step(&one_step, &lookup_tables.mask_rank[1], &full, true, 16, &empty_squares);
    let two_steps_2 = masked_step(&one_step, &lookup_tables.mask_rank[2], &full, true, 16, &empty_squares);
    let one_side_step = masked_step(start_location, &lookup_tables.clear_file[8], &full, false, 1, &empty_squares);
    let two_side_steps = masked_step(&one_side_step, &lookup_tables.mask_file[14], &full, false, 1, &empty_squares);
    let two_side_steps_2 = masked_step(&one_side_step, &lookup_tables.mask_file[13], &full, false, 1, &empty_squares);
    let left_attack = masked_step(start_location, &lookup_tables.clear_file[8], &lookup_tables.clear_rank[0], false, 17, &full);
    let center_attack = masked_step(start_location, &full, &full, true, 15, &full);
    let right_attack = masked_step(start_location, &lookup_tables.clear_file[15], &lookup_tables.clear_rank[7], true, 17, &full);

    let mut all_attacks = left_attack.clone();
    all_attacks.or(&center_attack);
    all_attacks.or(&right_attack);
    all_attacks.and(enemy_pieces);

    let mut legal_moves = one_step.clone();
    legal_moves.or(&two_steps);
    legal_moves.or(&two_steps_2);
    legal_moves.or(&one_side_step);
    legal_moves.or(&two_side_steps);
    legal_moves.or(&two_side_steps_2);
    legal_moves.or(&all_attacks);

    proof {
        let i = i@;
        lemma_coords(i);
        lemma_offset_coords(i, 0, 1);
        if i / 16 < 2 {
            lemma_offset_coords(i, 0, 2);
        }
        if i % 16 != 8 {
            lemma_offset_coords(i, -1, 0);
        }
        if i % 16 > 13 {
            lemma_offset_coords(i, -2, 0);
        }
        if i % 16 != 8 && i / 16 != 0 {
            lemma_offset_coords(i, -1, -1);
        }
        lemma_offset_coords(i, -1, 1);
        if i % 16 != 15 && i / 16 != 7 {
            lemma_offset_coords(i, 1, 1);
        }
        assert forall|j: int| 0 <= j < 256 implies one_step@[j] == (j == i + 16 && i / 16 != 7 && !all_pieces@[j]) by {}
        assert forall|j: int| 0 <= j < 256 implies two_steps@[j] == (j == i + 32 && i / 16 == 0 && !all_pieces@[i + 16] && !all_pieces@[j]) by {}
        assert forall|j: int| 0 <= j < 256 implies two_steps_2@[j] == (j == i + 32 && i / 16 == 1 && !all_pieces@[i + 16] && !all_pieces@[j]) by {}
        assert forall|j: int| 0 <= j < 256 implies one_side_step@[j] == (j == i - 1 && i % 16 != 8 && !all_pieces@[j]) by {}
        assert forall|j: int| 0 <= j < 256 implies two_side_steps@[j] == (j == i - 2 && i % 16 == 15 && !all_pieces@[i - 1] && !all_pieces@[j]) by {}
        assert forall|j: int| 0 <= j < 256 implies two_side_steps_2@[j] == (j == i - 2 && i % 16 == 14 && !all_pieces@[i - 1] && !all_pieces@[j]) by {}
        assert forall|j: int| 0 <= j < 256 implies left_attack@[j] == (j == i - 17 && i % 16 != 8 && i / 16 != 0) by {}
        assert forall|j: int| 0 <= j < 256 implies center_attack@[j] == (j == i + 15) by {}
        assert forall|j: int| 0 <= j < 256 implies right_attack@[j] == (j == i + 17 && i % 16 != 15 && i / 16 != 7) by {}
        assert forall|j: int| 0 <= j < 256 implies legal_moves@[j] == se_pawn_dest(
            i,
            j,
            all_pieces@,
            enemy_pieces@,
        ) by {}
    }
    legal_moves
}

#[verifier::rlimit(50)]
#[verifier::spinoff_prover]
fn compute_nw_pawn_moves(
    start_location: &Bitboard,
    all_pieces: &Bitboard,
    enemy_pieces: &Bitboard,
    lookup_tables: &LookupTables,
    i: Ghost<int>,
) -> (r: Bitboard)
    requires
        is_unit(start_location@, i@),
        quadrant_of(i@) == Quadrant::NW,
        all_pieces.wf(),
        enemy_pieces.wf(),
        lookup_tables.wf(),
    ensures
        r.wf(),
        forall|j: int| 0 <= j < 256 ==> r@[j] == nw_pawn_dest(i@, j, all_pieces@, enemy_pieces@),
{
    let full = Bitboard::new_full();
    let mut empty_squares = all_pieces.clone();
    empty_squares.not();

    let one_step = masked_step(start_location, &lookup_tables.clear_rank[8], &full, false, 16, &empty_squares);
    let two_steps = masked_step(&one_step, &lookup_tables.mask_rank[14], &full, false, 16, &empty_squares);
    let two_steps_2 = masked_step(&one_step, &lookup_tables.mask_rank[13], &full, false, 16, &empty_squares);
    let one_side_step = masked_step(start_location, &lookup_tables.clear_file[7], &full, true, 1, &empty_squares);
    let two_side_steps = masked_step(&one_side_step, &lookup_tables.mask_file[1], &full, true, 1, &empty_squares);
    let two_side_steps_2 = masked_step(&one_side_step, &lookup_tables.mask_file[2], &full, true, 1, &empty_squares);
    let left_attack = masked_step(start_location, &lookup_tables.clear_file[7], &lookup_tables.clear_rank[15], true, 17, &full);
    let center_attack = masked_step(start_location, &full, &full, false, 15, &full);
    let right_attack = masked_step(start_location, &lookup_tables.clear_file[0], &lookup_tables.clear_rank[8], false, 17, &full);

    let mut all_attacks = left_attack.clone();
    all_attacks.or(&center_attack);
    all_attacks.or(&right_attack);
    all_attacks.and(enemy_pieces);

    let mut legal_moves = one_step.clone();
    legal_moves.or(&two_steps);
    legal_moves.or(&two_steps_2);
    legal_moves.or(&one_side_step);
    legal_moves.or(&two_side_steps);
    legal_moves.or(&two_side_steps_2);
    legal_moves.or(&all_attacks);

    proof {
        let i = i@;
        lemma_coords(i);
        lemma_offset_coords(i, 0, -1);
        if i / 16 > 13 {
            lemma_offset_coords(i, 0, -2);
        }
        if i % 16 != 7 {
            lemma_offset_coords(i, 1, 0);
        }
        if i % 16 < 2 {
            lemma_offset_coords(i, 2, 0);
        }
        if i % 16 != 7 && i / 16 != 15 {
            lemma_offset_coords(i, 1, 1);
        }
        lemma_offset_coords(i, 1, -1);
        if i % 16 != 0 && i / 16 != 8 {
            lemma_offset_coords(i, -1, -1);
        }
        assert forall|j: int| 0 <= j < 256 implies one_step@[j] == (j == i - 16 && i / 16 != 8 && !all_pieces@[j]) by {}
        assert forall|j: int| 0 <= j < 256 implies two_steps@[j] == (j == i - 32 && i / 16 == 15 && !all_pieces@[i - 16] && !all_pieces@[j]) by {}
        assert forall|j: int| 0 <= j < 256 implies two_steps_2@[j] == (j == i - 32 && i / 16 == 14 && !all_pieces@[i - 16] && !all_pieces@[j]) by {}
        assert forall|j: int| 0 <= j < 256 implies one_side_step@[j] == (j == i + 1 && i % 16 != 7 && !all_pieces@[j]) by {}
        assert forall|j: int| 0 <= j < 256 implies two_side_steps@[j] == (j == i + 2 && i % 16 == 0 && !all_pieces@[i + 1] && !all_pieces@[j]) by {}
        assert forall|j: int| 0 <= j < 256 implies two_side_steps_2@[j] == (j == i + 2 && i % 16 == 1 && !all_pieces@[i + 1] && !all_pieces@[j]) by {}
        assert forall|j: int| 0 <= j < 256 implies left_attack@[j] == (j == i + 17 && i % 16 != 7 && i / 16 != 15) by {}
        assert forall|j: int| 0 <= j < 256 implies center_attack@[j] == (j == i - 15) by {}
        assert forall|j: int| 0 <= j < 256 implies right_attack@[j] == (j == i - 17 && i % 16 != 0 && i / 16 != 8) by {}
        assert forall|j: int| 0 <= j < 256 implies legal_moves@[j] == nw_pawn_dest(
            i,
            j,
            all_pieces@,
            enemy_pieces@,
        ) by {}
    }
    legal_moves
}

#[verifier::rlimit(50)]
#[verifier::spinoff_prover]
fn compute_ne_pawn_moves(
    start_location: &Bitboard,
    all_pieces: &Bitboard,
    enemy_pieces: &Bitboard,
    lookup_tables: &LookupTables,
    i: Ghost<int>,
) -> (r: Bitboard)
    requires
        is_unit(start_location@, i@),
        quadrant_of(i@) == Quadrant::NE,
        all_pieces.wf(),
        enemy_pieces.wf(),
        lookup_tables.wf(),
    ensures
        r.wf(),
        forall|j: int| 0 <= j < 256 ==> r@[j] == ne_pawn_dest(i@, j, all_pieces@, enemy_pieces@),
{
    let full = Bitboard::new_full();
    let mut empty_squares = all_pieces.clone();
    empty_squares.not();

    let one_step = masked_step(start_location, &lookup_tables.clear_rank[8], &full, false, 16, &empty_squares);
    let two_steps = masked_step(&one_step, &lookup_tables.mask_rank[14], &full, false, 16, &empty_squares);
    let two_steps_2 = masked_step(&one_step, &lookup_tables.mask_rank[13], &full, false, 16, &empty_squares);
    let one_side_step = masked_step(start_location, &lookup_tables.clear_file[8], &full, false, 1, &empty_squares);
    let two_side_steps = masked_step(&one_side_step, &lookup_tables.mask_file[14], &full, false, 1, &empty_squares);
    let two_side_steps_2 = masked_step(&one_side_step, &lookup_tables.mask_file[13], &full, false, 1, &empty_squares);
    let left_attack = masked_step(start_location, &lookup_tables.clear_file[15], &lookup_tables.clear_rank[8], false, 15, &full);
    let center_attack = masked_step(start_location, &full, &full, false, 17, &full);
    let right_attack = masked_step(start_location, &lookup_tables.clear_file[8], &lookup_tables.clear_rank[15], true, 15, &full);

    let mut all_attacks = left_attack.clone();
    all_attacks.or(&center_attack);
    all_attacks.or(&right_attack);
    all_attacks.and(enemy_pieces);

    let mut legal_moves = one_step.clone();
    legal_moves.or(&two_steps);
    legal_moves.or(&two_steps_2);
    legal_moves.or(&one_side_step);
    legal_moves.or(&two_side_steps);
    legal_moves.or(&two_side_steps_2);
    legal_moves.or(&all_attacks);

    proof {
        let i = i@;
        lemma_coords(i);
        lemma_offset_coords(i, 0, -1);
        if i / 16 > 13 {
            lemma_offset_coords(i, 0, -2);
        }
        if i % 16 != 8 {
            lemma_offset_coords(i, -1, 0);
        }
        if i % 16 > 13 {
            lemma_offset_coords(i, -2, 0);
        }
        if i % 16 != 15 && i / 16 != 8 {
            lemma_offset_coords(i, 1, -1);
        }
        lemma_offset_coords(i, -1, -1);
        if i % 16 != 8 && i / 16 != 15 {
            lemma_offset_coords(i, -1, 1);
        }
        assert forall|j: int| 0 <= j < 256 implies one_step@[j] == (j == i - 16 && i / 16 != 8 && !all_pieces@[j]) by {}
        assert forall|j: int| 0 <= j < 256 implies two_steps@[j] == (j == i - 32 && i / 16 == 15 && !all_pieces@[i - 16] && !all_pieces@[j]) by {}
        assert forall|j: int| 0 <= j < 256 implies two_steps_2@[j] == (j == i - 32 && i / 16 == 14 && !all_pieces@[i - 16] && !all_pieces@[j]) by {}
        assert forall|j: int| 0 <= j < 256 implies one_side_step@[j] == (j == i - 1 && i % 16 != 8 && !all_pieces@[j]) by {}
        assert forall|j: int| 0 <= j < 256 implies two_side_steps@[j] == (j == i - 2 && i % 16 == 15 && !all_pieces@[i - 1] && !all_pieces@[j]) by {}
        assert forall|j: int| 0 <= j < 256 implies two_side_steps_2@[j] == (j == i - 2 && i % 16 == 14 && !all_pieces@[i - 1] && !all_pieces@[j]) by {}
        assert forall|j: int| 0 <= j < 256 implies left_attack@[j] == (j == i - 15 && i % 16 != 15 && i / 16 != 8) by {}
        assert forall|j: int| 0 <= j < 256 implies center_attack@[j] == (j == i - 17) by {}
        assert forall|j: int| 0 <= j < 256 implies right_attack@[j] == (j == i + 15 && i % 16 != 8 && i / 16 != 15) by {}
        assert forall|j: int| 0 <= j < 256 implies legal_moves@[j] == ne_pawn_dest(
            i,
            j,
            all_pieces@,
            enemy_pieces@,
        ) by {}
    }
    legal_moves
}

/// Destinations of a pawn standing alone on the single set bit of
/// `start_location`, advancing toward the board center as its quadrant
/// dictates.
pub fn compute_pawn_moves(
    start_location: &Bitboard,
    all_pieces: &Bitboard,
    enemy_pieces: &Bitboard,
    lookup_tables: &LookupTables,
) -> (r: Bitboard)
    requires
        exists|i: int| is_unit(start_location@, i),
        all_pieces.wf(),
        enemy_pieces.wf(),
        lookup_tables.wf(),
    ensures
        r.wf(),
        forall|j: int|
            0 <= j < 256 ==> r@[j] == pawn_dest(
                unit_index(start_location@),
                j,
                all_pieces@,
                enemy_pieces@,
            ),
{
    let ghost i = unit_index(start_location@);
    proof {
        let w = choose|k: int| is_unit(start_location@, k);
        assert(is_unit(start_location@, w));
        assert(is_unit(start_location@, i));
    }

    let mut pawn_in_q1 = start_location.clone();
    pawn_in_q1.and(&lookup_tables.mask_quadrant[0]);

    let mut pawn_in_q2 = start_location.clone();
    pawn_in_q2.and(&lookup_tables.mask_quadrant[1]);

    let mut pawn_in_q3 = start_location.clone();
    pawn_in_q3.and(&lookup_tables.mask_quadrant[2]);

    let mut pawn_in_q4 = start_location.clone();
    pawn_in_q4.and(&lookup_tables.mask_quadrant[3]);

    if pawn_in_q1.any() {
        proof {
            let k = choose|k: int| 0 <= k < pawn_in_q1@.len() && pawn_in_q1@[k];
            assert(k == i);
        }
        compute_sw_pawn_moves(start_location, all_pieces, enemy_pieces, lookup_tables, Ghost(i))
    } else if pawn_in_q2.any() {
        proof {
            let k = choose|k: int| 0 <= k < pawn_in_q2@.len() && pawn_in_q2@[k];
            assert(k == i);
        }
        compute_se_pawn_moves(start_location, all_pieces, enemy_pieces, lookup_tables, Ghost(i))
    } else if pawn_in_q3.any() {
        proof {
            let k = choose|k: int| 0 <= k < pawn_in_q3@.len() && pawn_in_q3@[k];
            assert(k == i);
        }
        compute_nw_pawn_moves(start_location, all_pieces, enemy_pieces, lookup_tables, Ghost(i))
    } else {
        proof {
            assert(!pawn_in_q1@[i]);
            assert(!pawn_in_q2@[i]);
            assert(!pawn_in_q3@[i]);
            assert(quadrant_of(i).as_int() == 3);
        }
        compute_ne_pawn_moves(start_location, all_pieces, enemy_pieces, lookup_tables, Ghost(i))
    }
}

} // verus!
