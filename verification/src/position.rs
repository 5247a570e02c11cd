use vstd::prelude::*;

use crate::board::{has_piece, legal_move_spec, piece_square, Board};
use crate::fen::{board_bytes, board_fen_bytes, controlled_bytes, dec_bytes, dec_val, fen_part, field_has_color, owned_bytes, parse_board_fen, push_controlled, push_dec, push_owned, wf_fen, Fen};
use crate::move_type::lower_byte;
use crate::strings::{ascii_bytes, chars_of_bytes, string_from_ascii};
use crate::color::Color;
use crate::color_set::ColorSet;
use crate::move_type::Move;
use crate::piece::Piece;
use crate::player::Player;
use crate::role::Role;
use crate::square::{square_color_spec, Square};

verus! {

/// A rule violation: a wrong-turn move, a move of an unclaimed army, an
/// illegal destination, a defection to an uncontrolled color, or a move
/// token naming a piece or king that is not on the board.
#[derive(Debug, PartialEq, Eq)]
pub struct PlayError {}

/// The full game state: the physical board, whose turn it is, which army
/// each player owns and additionally controls, and the half-move counter.
#[derive(Debug, PartialEq)]
pub struct Position {
    pub board: Board,
    pub active_player: Player,
    pub p1_owned: Option<Color>,
    pub p1_controlled: ColorSet,
    pub p2_owned: Option<Color>,
    pub p2_controlled: ColorSet,
    pub ply: u32,
}

impl Position {
    /// Both control sets are sized and the board is consistent.
    pub open spec fn inv(self) -> bool {
        &&& self.board.inv()
        &&& self.board@.len() == 256
        &&& self.p1_controlled.wf()
        &&& self.p2_controlled.wf()
    }

    /// The army a player owns.
    pub open spec fn spec_owned(self, pl: Player) -> Option<Color> {
        match pl {
            Player::P1 => self.p1_owned,
            Player::P2 => self.p2_owned,
        }
    }

    /// The armies a player additionally controls.
    pub open spec fn spec_controlled(self, pl: Player) -> ColorSet {
        match pl {
            Player::P1 => self.p1_controlled,
            Player::P2 => self.p2_controlled,
        }
    }

    /// The active player owns or controls the color.
    pub open spec fn active_claims(self, c: Color) -> bool {
        self.spec_owned(self.active_player) == Some(c) || self.spec_controlled(
            self.active_player,
        ).has(c)
    }

    /// The opponent of the active player owns or controls the color.
    pub open spec fn opponent_claims(self, c: Color) -> bool {
        let opp = self.active_player.spec_next();
        self.spec_owned(opp) == Some(c) || self.spec_controlled(opp).has(c)
    }

    /// The enemy side: every color the opponent owns or controls.
    pub open spec fn enemy_side(self) -> Set<Color> {
        Set::new(|c: Color| self.opponent_claims(c))
    }

    /// The mover's side: every color the opponent neither owns nor controls.
    pub open spec fn own_side(self) -> Set<Color> {
        Set::new(|c: Color| !self.opponent_claims(c))
    }

    /// The ownership gate of a move: before the active player owns an army,
    /// only the fixed starting color may move; afterwards the moved color
    /// must be owned or controlled by the active player.
    pub open spec fn ownership_gate_ok(self, m: Move) -> bool {
        if self.spec_owned(self.active_player) is None {
            m.color == Color::White
        } else {
            self.active_claims(m.color)
        }
    }

    /// The piece a move must find on the board before it can be applied: its
    /// own piece kind, and for a promotion to king also the active player's
    /// current king.
    pub open spec fn movable_ok(self, m: Move) -> bool {
        &&& has_piece(self.board@, Piece { color: m.color, role: m.role })
        &&& (m.promotion == Some(Role::King) ==> self.spec_owned(self.active_player) is Some
            && has_piece(
            self.board@,
            Piece { color: self.spec_owned(self.active_player)->0, role: Role::King },
        ))
    }

    /// A move passes every check: the ownership gate, the presence of the
    /// named pieces, and board legality.
    pub open spec fn move_accepted(self, m: Move) -> bool {
        &&& self.ownership_gate_ok(m)
        &&& self.movable_ok(m)
        &&& legal_move_spec(self.board@, m, self.own_side(), self.enemy_side())
    }

    /// The board after a move is applied: the origin square is vacated, on a
    /// promotion to king the active player's old king leaves the board, and
    /// the moved piece, under its promoted role if any, lands on the
    /// destination square.
    pub open spec fn board_after(self, m: Move) -> Seq<Option<Piece>> {
        let role = if m.promotion is Some {
            m.promotion->0
        } else {
            m.role
        };
        let v1 = if m.promotion == Some(Role::King) {
            self.board@.update(
                piece_square(
                    self.board@,
                    Piece { color: self.spec_owned(self.active_player)->0, role: Role::King },
                ),
                None,
            )
        } else {
            self.board@
        };
        let v2 = v1.update(m.from.as_int(), None);
        v2.update(m.to.as_int(), Some(Piece { color: m.color, role }))
    }

    /// Whether the active player claims an army after a move: the color of a
    /// vacated colored origin square is lost, and the color of a colored
    /// destination square not owned by the opponent is gained.
    pub open spec fn controlled_after(self, m: Move, x: Color) -> bool {
        let opp = self.active_player.spec_next();
        let controlled_base = self.spec_controlled(self.active_player).has(x) && !(m.promotion
            == Some(Role::King) && x == m.color);
        let after_from = if square_color_spec(m.from.as_int()) == Some(x) {
            false
        } else {
            controlled_base
        };
        if square_color_spec(m.to.as_int()) == Some(x) && self.spec_owned(opp) != Some(x) {
            true
        } else {
            after_from
        }
    }

    pub fn active_player(&self) -> (r: u8)
        ensures
            r == self.active_player.spec_int(),
    {
        self.active_player.to_int()
    }

    fn does_color_belong_to_user(&self, color: &Color) -> (r: bool)
        requires
            self.inv(),
        ensures
            r == (self.spec_owned(self.active_player) == Some(*color) || self.spec_controlled(
                self.active_player,
            ).has(*color)),
    {
        match self.active_player {
            Player::P1 => {
                (match &self.p1_owned {
                    Some(c) => *c == *color,
                    None => false,
                }) || self.p1_controlled.contains(color)
            },
            Player::P2 => {
                (match &self.p2_owned {
                    Some(c) => *c == *color,
                    None => false,
                }) || self.p2_controlled.contains(color)
            },
        }
    }

    /// Applies a move to the board: vacates the origin, handles the
    /// promotion-to-king ownership change, and places the piece on the
    /// destination, capturing whatever stood there.
    pub fn update_board(&mut self, move_: &Move)
        requires
            old(self).inv(),
            move_.from.wf(),
            move_.to.wf(),
            move_.promotion == Some(Role::King) ==> old(self).spec_owned(
                old(self).active_player,
            ) is Some && has_piece(
                old(self).board@,
                Piece {
                    color: old(self).spec_owned(old(self).active_player)->0,
                    role: Role::King,
                },
            ),
        ensures
            final(self).inv(),
            final(self).board@ == old(self).board_after(*move_),
            final(self).active_player == old(self).active_player,
            final(self).ply == old(self).ply,
            final(self).p1_owned == (if move_.promotion == Some(Role::King) && old(
                self,
            ).active_player == Player::P1 {
                Some(move_.color)
            } else {
                old(self).p1_owned
            }),
            final(self).p2_owned == (if move_.promotion == Some(Role::King) && old(
                self,
            ).active_player == Player::P2 {
                Some(move_.color)
            } else {
                old(self).p2_owned
            }),
            forall|x: Color|
                final(self).p1_controlled.has(x) == (old(self).p1_controlled.has(x) && !(
                move_.promotion == Some(Role::King) && old(self).active_player == Player::P1 && x
                    == move_.color)),
            forall|x: Color|
                final(self).p2_controlled.has(x) == (old(self).p2_controlled.has(x) && !(
                move_.promotion == Some(Role::King) && old(self).active_player == Player::P2 && x
                    == move_.color)),
    {
        let role = if let Some(promo) = move_.promotion {
            if promo == Role::King {
                match self.active_player {
                    Player::P1 => {
                        let owned = self.p1_owned.unwrap();
                        self.board.remove_piece(Piece::new(owned, Role::King));
                        self.p1_owned = Some(move_.color);
                        self.p1_controlled.remove(move_.color);
                    },
                    Player::P2 => {
                        let owned = self.p2_owned.unwrap();
                        self.board.remove_piece(Piece::new(owned, Role::King));
                        self.p2_owned = Some(move_.color);
                        self.p2_controlled.remove(move_.color);
                    },
                }
            }
            promo
        } else {
            move_.role
        };

        let from_idx = move_.from.to_index();
        if self.board.get(&move_.from).is_some() {
            self.board.remove_piece_at(from_idx);
        }

        let to_idx = move_.to.to_index();
        if self.board.get(&move_.to).is_some() {
            self.board.remove_piece_at(to_idx);
        }
        self.board.insert_piece(move_.to, Piece::new(move_.color, role));
        proof {
            assert(self.board@ =~= old(self).board_after(*move_));
        }
    }

    /// Moves army control after a move: the active player loses the color of
    /// a vacated colored origin square and gains the color of a colored
    /// destination square the opponent does not own.
    fn update_controlled_armies(&mut self, move_: &Move)
        requires
            old(self).inv(),
            move_.from.wf(),
            move_.to.wf(),
        ensures
            final(self).inv(),
            final(self).board == old(self).board,
            final(self).active_player == old(self).active_player,
            final(self).p1_owned == old(self).p1_owned,
            final(self).p2_owned == old(self).p2_owned,
            final(self).ply == old(self).ply,
            old(self).active_player == Player::P1 ==> final(self).p2_controlled == old(
                self,
            ).p2_controlled,
            old(self).active_player == Player::P2 ==> final(self).p1_controlled == old(
                self,
            ).p1_controlled,
            forall|x: Color|
                final(self).spec_controlled(old(self).active_player).has(x) == ({
                    let opp = old(self).active_player.spec_next();
                    let after_from = if square_color_spec(move_.from.as_int()) == Some(x) {
                        false
                    } else {
                        old(self).spec_controlled(old(self).active_player).has(x)
                    };
                    if square_color_spec(move_.to.as_int()) == Some(x) && old(self).spec_owned(opp)
                        != Some(x) {
                        true
                    } else {
                        after_from
                    }
                }),
    {
        let opp_owned = match self.active_player {
            Player::P1 => self.p2_owned,
            Player::P2 => self.p1_owned,
        };
        match self.active_player {
            Player::P1 => {
                if let Some(color) = move_.from.color() {
                    self.p1_controlled.remove(color);
                }
                if let Some(color) = move_.to.color() {
                    if opp_owned != Some(color) {
                        self.p1_controlled.insert(color);
                    }
                }
            },
            Player::P2 => {
                if let Some(color) = move_.from.color() {
                    self.p2_controlled.remove(color);
                }
                if let Some(color) = move_.to.color() {
                    if opp_owned != Some(color) {
                        self.p2_controlled.insert(color);
                    }
                }
            },
        }
    }

    /// Validates and applies one move.  On any rule violation the position
    /// is unchanged and a `PlayError` comes back; on success the board is
    /// updated, army control follows colored squares, the other player
    /// becomes active and the ply count grows by one.
    pub fn play_move(&mut self, new_move: &Move) -> (r: Result<&Self, PlayError>)
        requires
            old(self).inv(),
            new_move.from.wf(),
            new_move.to.wf(),
            old(self).ply < u32::MAX,
        ensures
            final(self).inv(),
            (r is Ok) == old(self).move_accepted(*new_move),
            r is Err ==> *final(self) == *old(self),
            r is Ok ==> {
                &&& final(self).board@ == old(self).board_after(*new_move)
                &&& final(self).active_player == old(self).active_player.spec_next()
                &&& final(self).ply == old(self).ply + 1
                &&& forall|x: Color|
                    final(self).spec_controlled(old(self).active_player).has(x) == old(
                        self,
                    ).controlled_after(*new_move, x)
                &&& final(self).spec_owned(old(self).active_player) == (if new_move.promotion
                    == Some(Role::King) {
                    Some(new_move.color)
                } else {
                    old(self).spec_owned(old(self).active_player)
                })
                &&& final(self).spec_owned(old(self).active_player.spec_next()) == old(
                    self,
                ).spec_owned(old(self).active_player.spec_next())
                &&& forall|x: Color|
                    final(self).spec_controlled(old(self).active_player.spec_next()).has(x) == old(
                        self,
                    ).spec_controlled(old(self).active_player.spec_next()).has(x)
            },
    {
        let owned_now = match self.active_player {
            Player::P1 => self.p1_owned,
            Player::P2 => self.p2_owned,
        };
        if owned_now.is_none() {
            // the very first move of a game must move the fixed starting
            // color
            if !matches!(new_move.color, Color::White) {
                return Err(PlayError {  });
            }
        } else if !self.does_color_belong_to_user(&new_move.color) {
            return Err(PlayError {  });
        }

        // everything the opponent owns or controls is the enemy side; all
        // other colors count as the mover's own side
        let other_side = match self.active_player {
            Player::P1 => {
                let mut o = self.p2_controlled.duplicate();
                if let Some(c) = self.p2_owned {
                    o.insert(c);
                }
                o
            },
            Player::P2 => {
                let mut o = self.p1_controlled.duplicate();
                if let Some(c) = self.p1_owned {
                    o.insert(c);
                }
                o
            },
        };
        let mut own_side = ColorSet::new();
        let colors = Color::all();
        let mut k: usize = 0;
        while k < 12
            invariant
                colors@.len() == 12,
                forall|j: int| 0 <= j < 12 ==> (#[trigger] colors@[j]).as_int() == j,
                k <= 12,
                own_side.wf(),
                other_side.wf(),
                forall|c: Color| own_side.has(c) == (c.as_int() < k && !other_side.has(c)),
            decreases 12 - k,
        {
            let c = colors[k];
            if !other_side.contains(&c) {
                own_side.insert(c);
            }
            proof {
                assert forall|c2: Color| own_side.has(c2) == (c2.as_int() < k + 1
                    && !other_side.has(c2)) by {
                    assert(colors@[k as int] == c);
                }
            }
            k += 1;
        }
        proof {
            other_side.lemma_view();
            own_side.lemma_view();
            assert forall|c: Color| own_side@.contains(c) == old(self).own_side().contains(c) by {
                assert(c.as_int() < 12);
                assert(other_side.has(c) == old(self).opponent_claims(c));
            }
            assert forall|c: Color| other_side@.contains(c) == old(self).enemy_side().contains(
                c,
            ) by {
                assert(other_side.has(c) == old(self).opponent_claims(c));
            }
            assert(own_side@ =~= old(self).own_side());
            assert(other_side@ =~= old(self).enemy_side());
        }

        let piece = new_move.to_piece();
        if self.board.find(&piece).is_none() {
            return Err(PlayError {  });
        }

        if let Some(promo) = new_move.promotion {
            if promo == Role::King {
                match owned_now {
                    Some(c) => {
                        if self.board.find(&Piece::new(c, Role::King)).is_none() {
                            return Err(PlayError {  });
                        }
                    },
                    None => {
                        return Err(PlayError {  });
                    },
                }
            }
        }

        if !self.board.is_legal_move(new_move, &own_side, &other_side) {
            return Err(PlayError {  });
        }

        self.update_board(new_move);
        let ghost mid = *self;
        self.update_controlled_armies(new_move);
        let ghost post = *self;

        // the active player switches only after the board and control
        // bookkeeping, which read the current player
        self.active_player = self.active_player.next();
        self.ply = self.ply + 1;
        proof {
            assert forall|x: Color| self.spec_controlled(old(self).active_player).has(x) == old(
                self,
            ).controlled_after(*new_move, x) by {
                let ap = mid.active_player;
                let opp = ap.spec_next();
                assert(ap == old(self).active_player);
                assert(post.spec_controlled(ap).has(x) == ({
                    let after_from = if square_color_spec(new_move.from.as_int()) == Some(x) {
                        false
                    } else {
                        mid.spec_controlled(ap).has(x)
                    };
                    if square_color_spec(new_move.to.as_int()) == Some(x) && mid.spec_owned(opp)
                        != Some(x) {
                        true
                    } else {
                        after_from
                    }
                }));
                assert(mid.spec_controlled(ap).has(x) == (old(self).spec_controlled(ap).has(x)
                    && !(new_move.promotion == Some(Role::King) && x == new_move.color)));
                assert(mid.spec_owned(opp) == old(self).spec_owned(opp));
                assert(self.spec_controlled(ap) == post.spec_controlled(ap));
            }
            assert forall|x: Color| self.spec_controlled(
                old(self).active_player.spec_next(),
            ).has(x) == old(self).spec_controlled(old(self).active_player.spec_next()).has(x) by {
                assert(mid.spec_controlled(old(self).active_player.spec_next()).has(x) == old(
                    self,
                ).spec_controlled(old(self).active_player.spec_next()).has(x));
            }
        }
        Ok(self)
    }

    /// Resolves the opening ritual in favor of the offered split: player one
    /// takes Black, player two takes White, and player one moves next.
    pub fn accept_first_move(&mut self) -> (r: &Self)
        requires
            old(self).inv(),
        ensures
            final(self).inv(),
            final(self).active_player == Player::P1,
            final(self).p1_owned == Some(Color::Black),
            final(self).p2_owned == Some(Color::White),
            final(self).board == old(self).board,
            final(self).p1_controlled == old(self).p1_controlled,
            final(self).p2_controlled == old(self).p2_controlled,
            final(self).ply == old(self).ply,
    {
        self.active_player = Player::P1;
        self.p1_owned = Some(Color::Black);
        self.p2_owned = Some(Color::White);
        self
    }

    /// Resolves the opening ritual the other way: player one keeps White,
    /// player two takes Black, and player two moves next.
    pub fn reject_first_move(&mut self) -> (r: &Self)
        requires
            old(self).inv(),
        ensures
            final(self).inv(),
            final(self).active_player == Player::P2,
            final(self).p1_owned == Some(Color::White),
            final(self).p2_owned == Some(Color::Black),
            final(self).board == old(self).board,
            final(self).p1_controlled == old(self).p1_controlled,
            final(self).p2_controlled == old(self).p2_controlled,
            final(self).ply == old(self).ply,
    {
        self.active_player = Player::P2;
        self.p1_owned = Some(Color::White);
        self.p2_owned = Some(Color::Black);
        self
    }

    /// A defection is possible: the active player controls the color, owns
    /// an army, and that army's king stands on the board.
    pub open spec fn defect_accepted(self, color: Color) -> bool {
        &&& self.spec_controlled(self.active_player).has(color)
        &&& self.spec_owned(self.active_player) is Some
        &&& has_piece(
            self.board@,
            Piece { color: self.spec_owned(self.active_player)->0, role: Role::King },
        )
    }

    /// Voluntarily switches the active player's owned army to a controlled
    /// color: the king changes color in place, the color leaves the control
    /// set, the turn passes without a board move, and the ply count stays.
    pub fn defect_to(&mut self, color: Color) -> (r: Result<(), PlayError>)
        requires
            old(self).inv(),
        ensures
            final(self).inv(),
            (r is Ok) == old(self).defect_accepted(color),
            r is Err ==> *final(self) == *old(self),
            r is Ok ==> {
                let old_king = Piece {
                    color: old(self).spec_owned(old(self).active_player)->0,
                    role: Role::King,
                };
                &&& final(self).board@ == old(self).board@.update(
                    piece_square(old(self).board@, old_king),
                    Some(Piece { color, role: Role::King }),
                )
                &&& final(self).spec_owned(old(self).active_player) == Some(color)
                &&& forall|x: Color|
                    final(self).spec_controlled(old(self).active_player).has(x) == (old(
                        self,
                    ).spec_controlled(old(self).active_player).has(x) && x != color)
                &&& final(self).spec_owned(old(self).active_player.spec_next()) == old(
                    self,
                ).spec_owned(old(self).active_player.spec_next())
                &&& final(self).spec_controlled(old(self).active_player.spec_next()) == old(
                    self,
                ).spec_controlled(old(self).active_player.spec_next())
                &&& final(self).active_player == old(self).active_player.spec_next()
                &&& final(self).ply == old(self).ply
            },
    {
        let controls = match self.active_player {
            Player::P1 => self.p1_controlled.contains(&color),
            Player::P2 => self.p2_controlled.contains(&color),
        };
        if !controls {
            return Err(PlayError {  });
        }
        let owned = match self.active_player {
            Player::P1 => self.p1_owned,
            Player::P2 => self.p2_owned,
        };
        let owned_color = match owned {
            Some(c) => c,
            None => {
                return Err(PlayError {  });
            },
        };
        let piece = Piece::new(owned_color, Role::King);
        let square = match self.board.find(&piece) {
            Some(sq) => sq,
            None => {
                return Err(PlayError {  });
            },
        };

        self.board.remove_piece(piece);
        self.board.insert_piece(square, Piece::new(color, Role::King));
        proof {
            assert(self.board@ =~= old(self).board@.update(
                piece_square(old(self).board@, piece),
                Some(Piece { color, role: Role::King }),
            ));
        }

        match self.active_player {
            Player::P1 => {
                self.p1_controlled.remove(color);
                self.p1_owned = Some(color);
            },
            Player::P2 => {
                self.p2_controlled.remove(color);
                self.p2_owned = Some(color);
            },
        }
        self.active_player = self.active_player.next();
        Ok(())
    }
}

impl Position {
    /// The textual encoding of the documented initial position.
    pub open spec fn initial_fen() -> Seq<char> {
        "aqabvrvnbrbnbbbqbkbbbnbrynyrsbsq/aranvpvpbpbpbpbpbpbpbpbpypypsnsr/nbnp12opob/nqnp12opoq/crcp12rprr/cncp12rprn/gbgp12pppb/gqgp12pppq/yqyp12vpvq/ybyp12vpvb/onop12npnn/orop12npnr/rqrp12cpcq/rbrp12cpcb/srsnppppwpwpwpwpwpwpwpwpgpgpanar/sqsbprpnwrwnwbwqwkwbwnwrgngrabaq 1 - - - - 0"@
    }

    /// The initial position's encoding as text.
    pub fn new_fen() -> (r: String)
        ensures
            r@ == Self::initial_fen(),
    {
        let s: &str = "aqabvrvnbrbnbbbqbkbbbnbrynyrsbsq/aranvpvpbpbpbpbpbpbpbpbpypypsnsr/nbnp12opob/nqnp12opoq/crcp12rprr/cncp12rprn/gbgp12pppb/gqgp12pppq/yqyp12vpvq/ybyp12vpvb/onop12npnn/orop12npnr/rqrp12cpcq/rbrp12cpcb/srsnppppwpwpwpwpwpwpwpwpgpgpanar/sqsbprpnwrwnwbwqwkwbwnwrgngrabaq 1 - - - - 0";
        s.to_owned()
    }

    /// Builds a position from its textual encoding.
    pub fn from_fen(fen: String) -> (r: Self)
        requires
            vstd::utf8::is_ascii_chars(fen@),
            wf_fen(ascii_bytes(fen@)),
        ensures
            r.inv(),
            Some(r.board@) == parse_board_fen(fen_part(ascii_bytes(fen@), 0)),
            Some(r.active_player) == Player::spec_from_char(
                fen_part(ascii_bytes(fen@), 1)[0] as char,
            ),
            r.p1_owned == Color::spec_from_char(
                lower_byte(fen_part(ascii_bytes(fen@), 2)[0]) as char,
            ),
            forall|c: Color|
                r.p1_controlled.has(c) == field_has_color(fen_part(ascii_bytes(fen@), 3), c),
            r.p2_owned == Color::spec_from_char(
                lower_byte(fen_part(ascii_bytes(fen@), 4)[0]) as char,
            ),
            forall|c: Color|
                r.p2_controlled.has(c) == field_has_color(fen_part(ascii_bytes(fen@), 5), c),
            r.ply == dec_val(fen_part(ascii_bytes(fen@), 6)),
    {
        let t = Fen::parse(fen.as_str());
        Position {
            board: t.0,
            active_player: t.1,
            p1_owned: t.2,
            p1_controlled: t.3,
            p2_owned: t.4,
            p2_controlled: t.5,
            ply: t.6,
        }
    }

    /// The full textual encoding of this position: the seven space-separated
    /// fields.
    pub open spec fn fen_bytes_of(self) -> Seq<u8> {
        board_fen_bytes(self.board@) + seq![32u8] + seq![
            (48 + self.active_player.spec_int()) as u8,
        ] + seq![32u8] + owned_bytes(self.p1_owned) + seq![32u8] + controlled_bytes(
            self.p1_controlled,
        ) + seq![32u8] + owned_bytes(self.p2_owned) + seq![32u8] + controlled_bytes(
            self.p2_controlled,
        ) + seq![32u8] + dec_bytes(self.ply as int)
    }

    /// Serializes the position into its textual encoding.
    pub fn to_fen(&self) -> (r: String)
        requires
            self.inv(),
        ensures
            r@ == chars_of_bytes(self.fen_bytes_of()),
    {
        let mut out = board_bytes(&self.board);
        out.push(32);
        out.push(48 + self.active_player.to_int());
        out.push(32);
        push_owned(&mut out, &self.p1_owned);
        out.push(32);
        push_controlled(&mut out, &self.p1_controlled);
        out.push(32);
        push_owned(&mut out, &self.p2_owned);
        out.push(32);
        push_controlled(&mut out, &self.p2_controlled);
        out.push(32);
        push_dec(&mut out, self.ply);
        proof {
            assert(out@ =~= self.fen_bytes_of());
            assert(crate::strings::all_bytes_ascii(out@));
        }
        string_from_ascii(out)
    }
}

} // verus!
