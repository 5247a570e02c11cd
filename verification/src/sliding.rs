use vstd::prelude::*;

use crate::bitboard::Bitboard;
use crate::movegen::lemma_coords;

verus! {

/// The square reached after `t` steps from `i` in the direction `(df, dr)`.
pub open spec fn ray_square(i: int, df: int, dr: int, t: int) -> int {
    16 * (i / 16 + t * dr) + (i % 16 + t * df)
}

/// The `t`-th step from `i` in the direction `(df, dr)` stays on the board.
pub open spec fn ray_on_board(i: int, df: int, dr: int, t: int) -> bool {
    &&& 0 <= i % 16 + t * df < 16
    &&& 0 <= i / 16 + t * dr < 16
}

/// No piece of either side stands strictly between `i` and its `t`-th step.
pub open spec fn ray_path_clear(
    i: int,
    df: int,
    dr: int,
    t: int,
    own: Seq<bool>,
    enemy: Seq<bool>,
) -> bool {
    forall|u: int|
        1 <= u < t ==> !own[#[trigger] ray_square(i, df, dr, u)] && !enemy[ray_square(i, df, dr, u)]
}

/// A sliding piece at `i` reaches `j` along the direction `(df, dr)`: `j` is
/// some on-board step on the ray, every square strictly before it is empty,
/// and `j` itself is not occupied by the mover's own side.  A square occupied
/// by the enemy is reached (a capture) but ends the ray.
pub open spec fn ray_reaches(
    i: int,
    df: int,
    dr: int,
    j: int,
    own: Seq<bool>,
    enemy: Seq<bool>,
) -> bool {
    exists|t: int|
        {
            &&& 1 <= t <= 15
            &&& ray_on_board(i, df, dr, t)
            &&& j == #[trigger] ray_square(i, df, dr, t)
            &&& ray_path_clear(i, df, dr, t, own, enemy)
            &&& !own[j]
        }
}

/// A rook at `i` reaches `j`: along one of the four orthogonal rays.
pub open spec fn rook_dest(i: int, j: int, own: Seq<bool>, enemy: Seq<bool>) -> bool {
    ||| ray_reaches(i, 1, 0, j, own, enemy)
    ||| ray_reaches(i, -1, 0, j, own, enemy)
    ||| ray_reaches(i, 0, 1, j, own, enemy)
    ||| ray_reaches(i, 0, -1, j, own, enemy)
}

/// A bishop at `i` reaches `j`: along one of the four diagonal rays.
pub open spec fn bishop_dest(i: int, j: int, own: Seq<bool>, enemy: Seq<bool>) -> bool {
    ||| ray_reaches(i, 1, 1, j, own, enemy)
    ||| ray_reaches(i, 1, -1, j, own, enemy)
    ||| ray_reaches(i, -1, 1, j, own, enemy)
    ||| ray_reaches(i, -1, -1, j, own, enemy)
}

/// The index `i` holds the lowest set bit of the sequence.
pub open spec fn is_lowest_set(s: Seq<bool>, i: int) -> bool {
    &&& 0 <= i < s.len()
    &&& s[i]
    &&& forall|j: int| 0 <= j < i ==> !s[j]
}

/// The lowest set index of a sequence with at least one set bit.
pub open spec fn lowest_set(s: Seq<bool>) -> int {
    choose|i: int| is_lowest_set(s, i)
}

/// Steps before an on-board step stay on the board.
proof fn lemma_ray_monotone(i: int, df: int, dr: int, s: int, t: int)
    requires
        0 <= i < 256,
        -1 <= df <= 1,
        -1 <= dr <= 1,
        1 <= s < t,
        ray_on_board(i, df, dr, t),
    ensures
        ray_on_board(i, df, dr, s),
{
    lemma_coords(i);
    let f = i % 16;
    let r = i / 16;
    assert(0 <= f + s * df < 16) by (nonlinear_arith)
        requires
            -1 <= df <= 1,
            1 <= s < t,
            0 <= f + t * df < 16,
            0 <= f < 16,
    ;
    assert(0 <= r + s * dr < 16) by (nonlinear_arith)
        requires
            -1 <= dr <= 1,
            1 <= s < t,
            0 <= r + t * dr < 16,
            0 <= r < 16,
    ;
}

/// Walks one ray outward from `start_index`, stopping before an own-side
/// piece, on an enemy piece (inclusive), or at the board edge.
fn compute_ray(
    start_index: usize,
    df: i64,
    dr: i64,
    own_side: &Bitboard,
    enemy_side: &Bitboard,
) -> (r: Bitboard)
    requires
        start_index < 256,
        -1 <= df <= 1,
        -1 <= dr <= 1,
        !(df == 0 && dr == 0),
        own_side.wf(),
        enemy_side.wf(),
    ensures
        r.wf(),
        forall|j: int|
            0 <= j < 256 ==> r@[j] == ray_reaches(
                start_index as int,
                df as int,
                dr as int,
                j,
                own_side@,
                enemy_side@,
            ),
{
    let ghost i0 = start_index as int;
    proof {
        lemma_coords(i0);
    }
    let mut ray = Bitboard::new();
    let mut cur_f: i64 = (start_index % 16) as i64 + df;
    let mut cur_r: i64 = (start_index / 16) as i64 + dr;
    let mut u: usize = 1;
    let mut stopped = false;
    let mut stop_step: usize = 16;
    while u < 16 && !stopped
        invariant
            1 <= u <= 16,
            0 <= i0 < 256,
            -1 <= df <= 1,
            -1 <= dr <= 1,
            !(df == 0 && dr == 0),
            own_side.wf(),
            enemy_side.wf(),
            ray.wf(),
            -16 <= cur_f <= 31,
            -16 <= cur_r <= 31,
            !stopped ==> cur_f == i0 % 16 + u * (df as int),
            !stopped ==> cur_r == i0 / 16 + u * (dr as int),
            !stopped ==> stop_step == 16,
            stopped ==> 1 <= stop_step,
            stopped ==> stop_step == u || stop_step == u - 1,
            forall|t: int|
                1 <= t < u && t < stop_step ==> ray_on_board(i0, df as int, dr as int, t)
                    && !own_side@[#[trigger] ray_square(i0, df as int, dr as int, t)]
                    && !enemy_side@[ray_square(i0, df as int, dr as int, t)],
            stopped && stop_step == u ==> (!ray_on_board(i0, df as int, dr as int, stop_step as int)
                || own_side@[ray_square(i0, df as int, dr as int, stop_step as int)]),
            stopped && stop_step == u - 1 ==> ray_on_board(i0, df as int, dr as int, stop_step as int)
                && enemy_side@[ray_square(i0, df as int, dr as int, stop_step as int)] && !own_side@[
                ray_square(i0, df as int, dr as int, stop_step as int)
            ],
            forall|j: int|
                0 <= j < 256 ==> ray@[j] == (exists|t: int|
                    {
                        &&& 1 <= t < u
                        &&& t <= stop_step
                        &&& ray_on_board(i0, df as int, dr as int, t)
                        &&& j == #[trigger] ray_square(i0, df as int, dr as int, t)
                        &&& ray_path_clear(i0, df as int, dr as int, t, own_side@, enemy_side@)
                        &&& !own_side@[j]
                    }),
        decreases 16 - u, if stopped {
            0int
        } else {
            1int
        },
    {
        proof {
            // remind the prover of the walked prefix at each step
            assert forall|t: int| 1 <= t < u implies ray_on_board(
                i0,
                df as int,
                dr as int,
                t,
            ) by {
                let sq = ray_square(i0, df as int, dr as int, t);
                assert(1 <= t < u && t < stop_step);
            }
        }
        if cur_f < 0 || cur_f > 15 || cur_r < 0 || cur_r > 15 {
            stopped = true;
            stop_step = u;

        } else {
            let idx: usize = (cur_r * 16 + cur_f) as usize;
            proof {
                vstd::arithmetic::div_mod::lemma_fundamental_div_mod_converse(
                    idx as int,
                    16,
                    cur_r as int,
                    cur_f as int,
                );
                assert(idx == ray_square(i0, df as int, dr as int, u as int));
            }
            if own_side.get(idx).unwrap() {
                stopped = true;
                stop_step = u;

            } else if enemy_side.get(idx).unwrap() {
                proof {
                    assert(ray_path_clear(i0, df as int, dr as int, u as int, own_side@,
                        enemy_side@));
                }
                ray.set(idx, true);
                stopped = true;
                stop_step = u;
                u += 1;
            } else {
                proof {
                    assert(ray_path_clear(i0, df as int, dr as int, u as int, own_side@,
                        enemy_side@));
                    assert(ray_on_board(i0, df as int, dr as int, u as int));
                    assert(!own_side@[ray_square(i0, df as int, dr as int, u as int)]);
                    assert(!enemy_side@[ray_square(i0, df as int, dr as int, u as int)]);
                    vstd::arithmetic::mul::lemma_mul_is_distributive_add_other_way(
                        df as int,
                        u as int,
                        1,
                    );
                    vstd::arithmetic::mul::lemma_mul_is_distributive_add_other_way(
                        dr as int,
                        u as int,
                        1,
                    );
                }
                ray.set(idx, true);
                u += 1;
                cur_f += df;
                cur_r += dr;
            }
        }
    }
    proof {
        assert forall|j: int| 0 <= j < 256 implies ray@[j] == ray_reaches(
            i0,
            df as int,
            dr as int,
            j,
            own_side@,
            enemy_side@,
        ) by {
            if ray_reaches(i0, df as int, dr as int, j, own_side@, enemy_side@) {
                let t = choose|t: int|
                    {
                        &&& 1 <= t <= 15
                        &&& ray_on_board(i0, df as int, dr as int, t)
                        &&& j == #[trigger] ray_square(i0, df as int, dr as int, t)
                        &&& ray_path_clear(i0, df as int, dr as int, t, own_side@, enemy_side@)
                        &&& !own_side@[j]
                    };
                if !stopped {
                    // the walk covered every step, so t < u == 16
                    assert(t < u);
                } else if t > stop_step {
                    // the stopping square lies strictly between the origin and
                    // j, contradicting the clear path or the board edge
                    lemma_ray_monotone(i0, df as int, dr as int, stop_step as int, t);
                    assert(false);
                } else if t == stop_step {
                    if stop_step == u {
                        // the stop was an edge or an own-side blocker; either
                        // contradicts reaching j at this very step
                        assert(false);
                    } else {
                        // the stop was a capture, whose bit was recorded
                        assert(t < u);
                    }
                } else {
                    assert(t < u);
                }
            }
        }
    }
    ray
}

/// Destinations a rook may slide to along the four orthogonal rays: up to an
/// own-side blocker (excluded) or an enemy piece (included), bounded by the
/// board edge.  The ray origin is the lowest set bit of `start_location`.
pub fn compute_rook_moves(
    start_location: &Bitboard,
    own_side: &Bitboard,
    enemy_side: &Bitboard,
) -> (r: Bitboard)
    requires
        start_location.wf(),
        own_side.wf(),
        enemy_side.wf(),
        exists|i: int| is_lowest_set(start_location@, i),
    ensures
        r.wf(),
        forall|j: int|
            0 <= j < 256 ==> r@[j] == rook_dest(
                lowest_set(start_location@),
                j,
                own_side@,
                enemy_side@,
            ),
{
    proof {
        let i = choose|i: int| is_lowest_set(start_location@, i);
        assert(start_location@[i]);
    }
    let start_index = start_location.least_significant_bit().unwrap();
    proof {
        assert(is_lowest_set(start_location@, start_index as int));
        let i0 = lowest_set(start_location@);
        assert(is_lowest_set(start_location@, i0));
        assert(start_index as int == i0);
    }
    let eastern_ray = compute_ray(start_index, 1, 0, own_side, enemy_side);
    let western_ray = compute_ray(start_index, -1, 0, own_side, enemy_side);
    let northern_ray = compute_ray(start_index, 0, 1, own_side, enemy_side);
    let southern_ray = compute_ray(start_index, 0, -1, own_side, enemy_side);

    let mut legal_moves = northern_ray.clone();
    legal_moves.or(&eastern_ray);
    legal_moves.or(&southern_ray);
    legal_moves.or(&western_ray);
    legal_moves
}

/// Destinations a bishop may slide to along the four diagonal rays, with the
/// same blocker and capture behavior as the rook.  The ray origin is the
/// lowest set bit of `start_location`.
pub fn compute_bishop_moves(
    start_location: &Bitboard,
    own_side: &Bitboard,
    enemy_side: &Bitboard,
) -> (r: Bitboard)
    requires
        start_location.wf(),
        own_side.wf(),
        enemy_side.wf(),
        exists|i: int| is_lowest_set(start_location@, i),
    ensures
        r.wf(),
        forall|j: int|
            0 <= j < 256 ==> r@[j] == bishop_dest(
                lowest_set(start_location@),
                j,
                own_side@,
                enemy_side@,
            ),
{
    proof {
        let i = choose|i: int| is_lowest_set(start_location@, i);
        assert(start_location@[i]);
    }
    let start_index = start_location.least_significant_bit().unwrap();
    proof {
        assert(is_lowest_set(start_location@, start_index as int));
        let i0 = lowest_set(start_location@);
        assert(is_lowest_set(start_location@, i0));
        assert(start_index as int == i0);
    }
    let northeast_ray = compute_ray(start_index, 1, 1, own_side, enemy_side);
    let northwest_ray = compute_ray(start_index, -1, 1, own_side, enemy_side);
    let southwest_ray = compute_ray(start_index, -1, -1, own_side, enemy_side);
    let southeast_ray = compute_ray(start_index, 1, -1, own_side, enemy_side);

    let mut legal_moves = northeast_ray.clone();
    legal_moves.or(&northwest_ray);
    legal_moves.or(&southwest_ray);
    legal_moves.or(&southeast_ray);
    legal_moves
}

} // verus!
