use vstd::prelude::*;

use crate::bitboard::Bitboard;
use crate::color::Color;
use crate::color_set::ColorSet;
use crate::lookup_tables::LookupTables;
use crate::move_type::Move;
use crate::movegen::{compute_king_moves, compute_knight_moves, is_unit, king_step, knight_step, unit_index};
use crate::pawn::{compute_pawn_moves, pawn_dest};
use crate::piece::Piece;
use crate::role::Role;
use crate::sliding::{bishop_dest, compute_bishop_moves, compute_rook_moves, is_lowest_set, lowest_set, rook_dest};
use crate::square::{color_pair, pair_squares, square_color_spec, Square};

verus! {

/// The squares occupied by a given piece kind.
pub open spec fn occ_of_piece(v: Seq<Option<Piece>>, p: Piece) -> Seq<bool> {
    Seq::new(256, |i: int| v[i] == Some(p))
}

/// The squares occupied by a given army color.
pub open spec fn occ_of_color(v: Seq<Option<Piece>>, c: Color) -> Seq<bool> {
    Seq::new(256, |i: int| v[i] matches Some(p) && p.color == c)
}

/// The squares occupied by any of the colors in a set.
pub open spec fn occ_of_side(v: Seq<Option<Piece>>, s: Set<Color>) -> Seq<bool> {
    Seq::new(256, |i: int| v[i] matches Some(p) && s.contains(p.color))
}

/// The squares occupied by any piece at all.
pub open spec fn occ_all(v: Seq<Option<Piece>>) -> Seq<bool> {
    Seq::new(256, |i: int| v[i] is Some)
}

/// Some piece of this kind stands somewhere on the board.
pub open spec fn has_piece(v: Seq<Option<Piece>>, p: Piece) -> bool {
    exists|k: int| 0 <= k < 256 && v[k] == Some(p)
}

/// The lowest square index a given piece kind stands on.
pub open spec fn piece_square(v: Seq<Option<Piece>>, p: Piece) -> int {
    lowest_set(occ_of_piece(v, p))
}

/// At least one square of the color's pair is occupied.
pub open spec fn pair_occupied(v: Seq<Option<Piece>>, c: Color) -> bool {
    v[color_pair(c).0] is Some || v[color_pair(c).1] is Some
}

/// The colored-squares constraint admits `j`: either `j` is no colored
/// square, or its color's pair is entirely empty.
pub open spec fn colored_mask_ok(v: Seq<Option<Piece>>, j: int) -> bool {
    square_color_spec(j) matches Some(c) ==> !pair_occupied(v, c)
}

/// The destinations a piece of the given role reaches from `i`, before the
/// colored-square constraints.
pub open spec fn piece_dest(
    role: Role,
    i: int,
    j: int,
    own: Seq<bool>,
    enemy: Seq<bool>,
    all: Seq<bool>,
) -> bool {
    match role {
        Role::King => king_step(i, j) && !own[j],
        Role::Knight => knight_step(i, j) && !own[j],
        Role::Bishop => bishop_dest(i, j, own, enemy),
        Role::Rook => rook_dest(i, j, own, enemy),
        Role::Queen => rook_dest(i, j, own, enemy) || bishop_dest(i, j, own, enemy),
        Role::Pawn => pawn_dest(i, j, all, enemy),
    }
}

/// The full legality predicate: the move's destination is reachable for its
/// role, is not a blocked colored square unless the move captures there, and
/// is no square of the mover's own color.
pub open spec fn legal_move_spec(
    v: Seq<Option<Piece>>,
    m: Move,
    own: Set<Color>,
    enemy: Set<Color>,
) -> bool {
    let i = m.from.as_int();
    let j = m.to.as_int();
    &&& piece_dest(m.role, i, j, occ_of_side(v, own), occ_of_side(v, enemy), occ_all(v))
    &&& (colored_mask_ok(v, j) || occ_of_side(v, enemy)[j])
    &&& square_color_spec(j) != Some(m.color)
}

/// The physical position: piece placement with derived per-piece, per-color
/// and whole-board occupancy bitboards, and the set of colors whose colored
/// square pair is occupied.
#[derive(Debug, PartialEq)]
pub struct Board {
    by_square: Vec<Option<Piece>>,
    by_piece: Vec<Bitboard>,
    by_color: Vec<Bitboard>,
    all_pieces: Bitboard,
    lookup_tables: LookupTables,
    occupied_colored_squares: ColorSet,
}

impl View for Board {
    type V = Seq<Option<Piece>>;

    closed spec fn view(&self) -> Seq<Option<Piece>> {
        self.by_square@
    }
}

impl Board {
    /// The derived structures agree with the piece placement.
    pub closed spec fn inv(self) -> bool {
        &&& self.by_square@.len() == 256
        &&& self.by_piece@.len() == 72
        &&& self.by_color@.len() == 12
        &&& self.all_pieces.wf()
        &&& self.lookup_tables.wf()
        &&& self.occupied_colored_squares.wf()
        &&& forall|p: Piece| (#[trigger] self.by_piece@[p.as_int()])@ == occ_of_piece(
            self.by_square@,
            p,
        )
        &&& forall|c: Color| (#[trigger] self.by_color@[c.as_int()])@ == occ_of_color(
            self.by_square@,
            c,
        )
        &&& self.all_pieces@ == occ_all(self.by_square@)
        &&& forall|c: Color| self.occupied_colored_squares.has(c) == pair_occupied(
            self.by_square@,
            c,
        )
    }

    /// An empty board.
    pub fn new() -> (r: Self)
        ensures
            r.inv(),
            r@.len() == 256,
            forall|i: int| 0 <= i < 256 ==> r@[i] is None,
    {
        let mut by_square: Vec<Option<Piece>> = Vec::new();
        let mut k: usize = 0;
        while k < 256
            invariant
                by_square@.len() == k,
                k <= 256,
                forall|i: int| 0 <= i < k ==> by_square@[i] is None,
            decreases 256 - k,
        {
            by_square.push(None);
            k += 1;
        }
        let mut by_piece: Vec<Bitboard> = Vec::new();
        let mut k: usize = 0;
        while k < 72
            invariant
                by_piece@.len() == k,
                k <= 72,
                forall|j: int|
                    0 <= j < k ==> (#[trigger] by_piece@[j])@ == Seq::new(256, |i: int| false),
            decreases 72 - k,
        {
            by_piece.push(Bitboard::new());
            k += 1;
        }
        let mut by_color: Vec<Bitboard> = Vec::new();
        let mut k: usize = 0;
        while k < 12
            invariant
                by_color@.len() == k,
                k <= 12,
                forall|j: int|
                    0 <= j < k ==> (#[trigger] by_color@[j])@ == Seq::new(256, |i: int| false),
            decreases 12 - k,
        {
            by_color.push(Bitboard::new());
            k += 1;
        }
        let r = Board {
            by_square,
            by_piece,
            by_color,
            all_pieces: Bitboard::new(),
            lookup_tables: LookupTables::new(),
            occupied_colored_squares: ColorSet::new(),
        };
        proof {
            assert forall|p: Piece| (#[trigger] r.by_piece@[p.as_int()])@ == occ_of_piece(
                r.by_square@,
                p,
            ) by {
                assert(0 <= p.as_int() < 72);
                assert((r.by_piece@[p.as_int()])@ =~= occ_of_piece(r.by_square@, p));
            }
            assert forall|c: Color| (#[trigger] r.by_color@[c.as_int()])@ == occ_of_color(
                r.by_square@,
                c,
            ) by {
                assert((r.by_color@[c.as_int()])@ =~= occ_of_color(r.by_square@, c));
            }
            assert(r.all_pieces@ =~= occ_all(r.by_square@));
        }
        r
    }


    /// The occupancy bitboard of one army color.
    pub fn color_locations(&self, color: &Color) -> (r: &Bitboard)
        requires
            self.inv(),
        ensures
            r@ == occ_of_color(self@, *color),
    {
        &self.by_color[color.to_index()]
    }

    /// The occupancy bitboard of the whole board.
    pub fn all_locations(&self) -> (r: &Bitboard)
        requires
            self.inv(),
        ensures
            r@ == occ_all(self@),
    {
        &self.all_pieces
    }

    /// The piece standing on a square, if any.
    pub fn get(&self, square: &Square) -> (r: Option<Piece>)
        requires
            self.inv(),
            square.wf(),
        ensures
            r == self@[square.as_int()],
    {
        self.by_square[square.to_index()]
    }

    /// Places a piece on an empty square and updates every derived
    /// structure.
    pub fn insert_piece(&mut self, square: Square, piece: Piece)
        requires
            old(self).inv(),
            square.wf(),
            old(self)@[square.as_int()] is None,
        ensures
            final(self).inv(),
            final(self)@ == old(self)@.update(square.as_int(), Some(piece)),
    {
        let idx = square.to_index();
        self.by_square[idx] = Some(piece);
        self.all_pieces.set(idx, true);
        let pi = piece.to_index();
        self.by_piece[pi].set(idx, true);
        let ci = piece.color.to_index();
        self.by_color[ci].set(idx, true);
        if let Some(c) = square.color() {
            self.occupied_colored_squares.insert(c);
        }
        proof {
            let v = self.by_square@;
            let vo = old(self).by_square@;
            assert forall|p: Piece| (#[trigger] self.by_piece@[p.as_int()])@ == occ_of_piece(v, p) by {
                if p.as_int() == piece.as_int() {
                    crate::piece::lemma_piece_index_identity(p, piece);
                    assert((self.by_piece@[p.as_int()])@ =~= occ_of_piece(v, p));
                } else {
                    assert((self.by_piece@[p.as_int()])@ =~= occ_of_piece(v, p));
                }
            }
            assert forall|c: Color| (#[trigger] self.by_color@[c.as_int()])@ == occ_of_color(v, c) by {
                assert((self.by_color@[c.as_int()])@ =~= occ_of_color(v, c));
            }
            assert(self.all_pieces@ =~= occ_all(v));
            assert forall|c: Color| self.occupied_colored_squares.has(c) == pair_occupied(v, c) by {
                crate::square::lemma_square_color_pair(square.as_int(), c);
            }
        }
    }

    /// Removes whatever piece stands on the given square and updates every
    /// derived structure.
    pub(crate) fn remove_piece_at(&mut self, idx: usize)
        requires
            old(self).inv(),
            idx < 256,
            old(self)@[idx as int] is Some,
        ensures
            final(self).inv(),
            final(self)@ == old(self)@.update(idx as int, None),
    {
        let piece = self.by_square[idx].unwrap();
        self.by_square[idx] = None;
        self.all_pieces.set(idx, false);
        let pi = piece.to_index();
        self.by_piece[pi].set(idx, false);
        let ci = piece.color.to_index();
        self.by_color[ci].set(idx, false);
        let square = Square::from_index(idx);
        if let Some(c) = square.color() {
            let pair = pair_squares(&c);
            let other: usize = if pair.0 == idx {
                pair.1
            } else {
                pair.0
            };
            if self.by_square[other].is_none() {
                self.occupied_colored_squares.remove(c);
            }
        }
        proof {
            let v = self.by_square@;
            assert forall|p: Piece| (#[trigger] self.by_piece@[p.as_int()])@ == occ_of_piece(v, p) by {
                if p.as_int() == piece.as_int() {
                    crate::piece::lemma_piece_index_identity(p, piece);
                    assert((self.by_piece@[p.as_int()])@ =~= occ_of_piece(v, p));
                } else {
                    assert((self.by_piece@[p.as_int()])@ =~= occ_of_piece(v, p));
                }
            }
            assert forall|c: Color| (#[trigger] self.by_color@[c.as_int()])@ == occ_of_color(v, c) by {
                if c.as_int() == piece.color.as_int() {
                    assert((self.by_color@[c.as_int()])@ =~= occ_of_color(v, c));
                } else {
                    assert((self.by_color@[c.as_int()])@ =~= occ_of_color(v, c));
                }
            }
            assert(self.all_pieces@ =~= occ_all(v));
            assert forall|c: Color| self.occupied_colored_squares.has(c) == pair_occupied(v, c) by {
                crate::square::lemma_square_color_pair(idx as int, c);
            }
        }
    }

    /// Removes the piece of the given kind standing on its lowest-index
    /// square.  The piece must be on the board.
    pub fn remove_piece(&mut self, piece: Piece)
        requires
            old(self).inv(),
            has_piece(old(self)@, piece),
        ensures
            final(self).inv(),
            final(self)@ == old(self)@.update(piece_square(old(self)@, piece), None),
            0 <= piece_square(old(self)@, piece) < 256,
            old(self)@[piece_square(old(self)@, piece)] == Some(piece),
    {
        proof {
            let w = choose|k: int| 0 <= k < 256 && old(self)@[k] == Some(piece);
            assert(occ_of_piece(old(self)@, piece)[w]);
        }
        let pi = piece.to_index();
        let lsb = self.by_piece[pi].least_significant_bit();
        let idx = lsb.unwrap();
        proof {
            assert(is_lowest_set(occ_of_piece(self@, piece), idx as int));
            let l = lowest_set(occ_of_piece(self@, piece));
            assert(is_lowest_set(occ_of_piece(self@, piece), l));
            assert(idx as int == l);
            assert(self@[idx as int] == Some(piece));
        }
        self.remove_piece_at(idx);
    }

    /// The lowest-index square the given piece kind stands on, or None when
    /// it is absent from the board.
    pub fn find(&self, piece: &Piece) -> (r: Option<Square>)
        requires
            self.inv(),
        ensures
            (r is Some) == has_piece(self@, *piece),
            r matches Some(sq) ==> sq.wf() && sq.as_int() == piece_square(self@, *piece)
                && self@[sq.as_int()] == Some(*piece),
    {
        let pi = piece.to_index();
        let lsb = self.by_piece[pi].least_significant_bit();
        match lsb {
            Some(idx) => {
                proof {
                    assert(occ_of_piece(self@, *piece)[idx as int]);
                    assert(self@[idx as int] == Some(*piece));
                    assert(is_lowest_set(occ_of_piece(self@, *piece), idx as int));
                    let l = lowest_set(occ_of_piece(self@, *piece));
                    assert(is_lowest_set(occ_of_piece(self@, *piece), l));
                    assert(idx as int == l);
                }
                Some(Square::from_index(idx))
            },
            None => {
                proof {
                    if has_piece(self@, *piece) {
                        let w = choose|k: int| 0 <= k < 256 && self@[k] == Some(*piece);
                        assert(occ_of_piece(self@, *piece)[w]);
                    }
                }
                None
            },
        }
    }

    /// A bitboard admitting every square that the colored-squares rule
    /// leaves open: all squares except both squares of every color whose
    /// pair has an occupant.
    pub fn build_colored_squares_mask(&self) -> (r: Bitboard)
        requires
            self.inv(),
        ensures
            r.wf(),
            forall|j: int| 0 <= j < 256 ==> r@[j] == colored_mask_ok(self@, j),
    {
        let mut valid_squares = Bitboard::new_full();
        let colors = Color::all();
        let mut k: usize = 0;
        while k < 12
            invariant
                self.inv(),
                colors@.len() == 12,
                forall|j: int| 0 <= j < 12 ==> (#[trigger] colors@[j]).as_int() == j,
                k <= 12,
                valid_squares.wf(),
                forall|j: int|
                    0 <= j < 256 ==> valid_squares@[j] == (forall|c: Color|
                        c.as_int() < k && self.occupied_colored_squares.has(c)
                            ==> square_color_spec(j) != Some(c)),
            decreases 12 - k,
        {
            let c = colors[k];
            if self.occupied_colored_squares.contains(&c) {
                valid_squares.and(&self.lookup_tables.clear_colored_squares[k]);
            }
            proof {
                assert forall|j: int| 0 <= j < 256 implies valid_squares@[j] == (forall|c2: Color|
                    c2.as_int() < k + 1 && self.occupied_colored_squares.has(c2)
                        ==> square_color_spec(j) != Some(c2)) by {
                    assert(colors@[k as int] == c);
                }
            }
            k += 1;
        }
        proof {
            assert forall|j: int| 0 <= j < 256 implies valid_squares@[j] == colored_mask_ok(
                self@,
                j,
            ) by {
                if square_color_spec(j) is Some {
                    let c = square_color_spec(j)->0;
                    assert(square_color_spec(j) == Some(c));
                    if valid_squares@[j] {
                        assert(c.as_int() < 12 && self.occupied_colored_squares.has(c)
                            ==> square_color_spec(j) != Some(c));
                        assert(!pair_occupied(self@, c));
                    } else {
                        let c2 = choose|c2: Color|
                            !(c2.as_int() < 12 && self.occupied_colored_squares.has(c2)
                                ==> square_color_spec(j) != Some(c2));
                        assert(square_color_spec(j) == Some(c2));
                        assert(c2 == c);
                        assert(pair_occupied(self@, c));
                    }
                }
            }
        }
        valid_squares
    }

    /// The occupancy bitboard of every color that a set names.
    fn side_occupancy(&self, side: &ColorSet) -> (r: Bitboard)
        requires
            self.inv(),
            side.wf(),
        ensures
            r.wf(),
            r@ == occ_of_side(self@, side@),
    {
        let mut bb = Bitboard::new();
        let colors = Color::all();
        let mut k: usize = 0;
        while k < 12
            invariant
                self.inv(),
                side.wf(),
                colors@.len() == 12,
                forall|j: int| 0 <= j < 12 ==> (#[trigger] colors@[j]).as_int() == j,
                k <= 12,
                bb.wf(),
                forall|i: int|
                    0 <= i < 256 ==> bb@[i] == (self@[i] matches Some(p) && side.has(p.color)
                        && p.color.as_int() < k),

            decreases 12 - k,
        {
            let c = colors[k];
            if side.contains(&c) {
                bb.or(&self.by_color[k]);
            }
            proof {
                assert forall|i: int| 0 <= i < 256 implies bb@[i] == (self@[i] matches Some(p)
                    && side.has(p.color) && p.color.as_int() < k + 1) by {
                    assert(colors@[k as int] == c);
                    assert((self.by_color@[c.as_int()])@ == occ_of_color(self@, c));
                }
            }
            k += 1;
        }
        proof {
            side.lemma_view();
            assert(bb@ =~= occ_of_side(self@, side@));
        }
        bb
    }

    /// Whether a move is legal on this board, given the colors of the
    /// mover's own side and of the enemy side.  The moving piece must stand
    /// somewhere on the board.
    pub fn is_legal_move(&self, move_: &Move, own_side: &ColorSet, enemy_side: &ColorSet) -> (r:
        bool)
        requires
            self.inv(),
            own_side.wf(),
            enemy_side.wf(),
            move_.from.wf(),
            move_.to.wf(),
            has_piece(self@, Piece { color: move_.color, role: move_.role }),
        ensures
            r == legal_move_spec(self@, *move_, own_side@, enemy_side@),
    {
        let ghost i = move_.from.as_int();
        let ghost j = move_.to.as_int();

        let mut start_loc = Bitboard::new();
        start_loc.set(move_.from.to_index(), true);
        proof {
            assert(is_unit(start_loc@, i));
            let u = unit_index(start_loc@);
            assert(is_unit(start_loc@, u));
            assert(u == i);
            assert(is_lowest_set(start_loc@, i));
            let l = lowest_set(start_loc@);
            assert(is_lowest_set(start_loc@, l));
            assert(l == i);
        }

        let own_side_bitboard = self.side_occupancy(own_side);
        let enemy_side_bitboard = self.side_occupancy(enemy_side);

        let mut legal_moves = match move_.role {
            Role::Bishop => compute_bishop_moves(&start_loc, &own_side_bitboard, &enemy_side_bitboard),
            Role::King => compute_king_moves(&start_loc, &own_side_bitboard, &self.lookup_tables),
            Role::Knight => compute_knight_moves(&start_loc, &own_side_bitboard, &self.lookup_tables),
            Role::Pawn => compute_pawn_moves(
                &start_loc,
                &self.all_pieces,
                &enemy_side_bitboard,
                &self.lookup_tables,
            ),
            Role::Queen => {
                let mut queen_moves = compute_rook_moves(
                    &start_loc,
                    &own_side_bitboard,
                    &enemy_side_bitboard,
                );
                queen_moves.or(
                    &compute_bishop_moves(&start_loc, &own_side_bitboard, &enemy_side_bitboard),
                );
                queen_moves
            },
            Role::Rook => compute_rook_moves(&start_loc, &own_side_bitboard, &enemy_side_bitboard),
        };
        proof {
            if move_.role == Role::King {
                assert(legal_moves@[j] == ((exists|k: int|
                    start_loc@[k] && #[trigger] king_step(k, j)) && !own_side_bitboard@[j]));
                if exists|k: int| start_loc@[k] && #[trigger] king_step(k, j) {
                    let k = choose|k: int| start_loc@[k] && #[trigger] king_step(k, j);
                    assert(k == i);
                }
            }
            if move_.role == Role::Knight {
                if exists|k: int| start_loc@[k] && #[trigger] knight_step(k, j) {
                    let k = choose|k: int| start_loc@[k] && #[trigger] knight_step(k, j);
                    assert(k == i);
                }
            }
            assert(legal_moves@[j] == piece_dest(
                move_.role,
                i,
                j,
                occ_of_side(self@, own_side@),
                occ_of_side(self@, enemy_side@),
                occ_all(self@),
            ));
        }

        let mut legal_colored_squares_mask = self.build_colored_squares_mask();
        legal_colored_squares_mask.or(&enemy_side_bitboard);
        legal_moves.and(&legal_colored_squares_mask);

        let ci = move_.color.to_index();
        legal_moves.and(&self.lookup_tables.clear_colored_squares[ci]);

        let r = legal_moves.get(move_.to.to_index()).unwrap();
        proof {
            assert(r == legal_move_spec(self@, *move_, own_side@, enemy_side@));
        }
        r
    }
}

/// Colored-square rule, blocking half: once any army occupies one square of
/// a color pair, no move may land on either square of that pair without
/// capturing there.
pub proof fn lemma_colored_pair_blocks(
    v: Seq<Option<Piece>>,
    m: Move,
    own: Set<Color>,
    enemy: Set<Color>,
    c: Color,
)
    requires
        square_color_spec(m.to.as_int()) == Some(c),
        pair_occupied(v, c),
        !occ_of_side(v, enemy)[m.to.as_int()],
    ensures
        !legal_move_spec(v, m, own, enemy),
{
}

/// Colored-square rule, capture half: when the destination holds an enemy
/// piece, the pair-occupancy constraint never blocks the move; only the
/// mover's reach and the ban on its own color's squares decide.
pub proof fn lemma_colored_capture_allowed(
    v: Seq<Option<Piece>>,
    m: Move,
    own: Set<Color>,
    enemy: Set<Color>,
)
    requires
        occ_of_side(v, enemy)[m.to.as_int()],
    ensures
        legal_move_spec(v, m, own, enemy) == (piece_dest(
            m.role,
            m.from.as_int(),
            m.to.as_int(),
            occ_of_side(v, own),
            occ_of_side(v, enemy),
            occ_all(v),
        ) && square_color_spec(m.to.as_int()) != Some(m.color)),
{
}

} // verus!
