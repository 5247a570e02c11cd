use vstd::prelude::*;

use crate::board::Board;
use crate::color::Color;
use crate::color_set::ColorSet;
use crate::move_type::lower_byte;
use crate::piece::Piece;
use crate::player::Player;
use crate::role::Role;
use crate::square::Square;
use crate::strings::{ascii_bytes, chars_of_bytes, string_from_ascii};

verus! {

/// The square index that the `fi`-th cell of the board field names: the
/// field runs from the top rank down, files in order inside a rank.
pub open spec fn fen_to_sq(fi: int) -> int {
    (15 - fi / 16) * 16 + fi % 16
}

/// The board-field cell of a square index.
pub open spec fn sq_to_fen(s: int) -> int {
    (15 - s / 16) * 16 + s % 16
}

/// The two zero-padded digits of a count between 0 and 99.
pub open spec fn two_digit(n: int) -> Seq<u8> {
    seq![(48 + n / 10) as u8, (48 + n % 10) as u8]
}

/// The lowercase code byte of a color.
pub open spec fn color_byte(c: Color) -> u8 {
    c.spec_char() as u8
}

/// The lowercase code byte of a role.
pub open spec fn role_byte(r: Role) -> u8 {
    r.spec_char() as u8
}

/// The rendering of one board-field row from column `col` on, with
/// `pending` empty cells waiting to be written as a count.
pub open spec fn render_cells(v: Seq<Option<Piece>>, row: int, col: int, pending: int) -> Seq<u8>
    decreases 16 - col,
{
    if col >= 16 {
        if pending > 0 {
            two_digit(pending)
        } else {
            Seq::empty()
        }
    } else {
        match v[fen_to_sq(row * 16 + col)] {
            Some(p) => (if pending > 0 {
                two_digit(pending)
            } else {
                Seq::empty()
            }) + seq![color_byte(p.color), role_byte(p.role)] + render_cells(v, row, col + 1, 0),
            None => render_cells(v, row, col + 1, pending + 1),
        }
    }
}

/// The rendering of the board-field rows from `row` on, separated by `/`.
pub open spec fn render_rows(v: Seq<Option<Piece>>, row: int) -> Seq<u8>
    decreases 16 - row,
{
    if row >= 15 {
        render_cells(v, 15, 0, 0)
    } else {
        render_cells(v, row, 0, 0) + seq![47u8] + render_rows(v, row + 1)
    }
}

/// The board field of a position: its 16 rows, top rank first, each cell a
/// two-letter piece code, runs of empty cells as two-digit counts.
pub open spec fn board_fen_bytes(v: Seq<Option<Piece>>) -> Seq<u8> {
    render_rows(v, 0)
}

/// One parsing step of the board field, reading two bytes per token: a
/// two-digit count skips that many cells, a color letter and role letter
/// place a piece; rows are closed by `/` and the last row by the end of the
/// input.
pub open spec fn parse_cells(
    b: Seq<u8>,
    k: int,
    row: int,
    col: int,
    v: Seq<Option<Piece>>,
) -> Option<Seq<Option<Piece>>>
    decreases b.len() - k, 1int,
{
    if col == 16 {
        parse_row_end(b, k, row, v)
    } else if !(0 <= col < 16 && 0 <= row < 16 && 0 <= k && k + 2 <= b.len()) {
        None
    } else {
        let x = b[k];
        let y = b[k + 1];
        if 48 <= x <= 57 {
            if 48 <= y <= 57 && col + (x - 48) * 10 + (y - 48) <= 16 {
                parse_cells(b, k + 2, row, col + (x - 48) * 10 + (y - 48), v)
            } else {
                None
            }
        } else {
            match (
                Color::spec_from_char(lower_byte(x) as char),
                Role::spec_from_char(lower_byte(y) as char),
            ) {
                (Some(c), Some(r)) => parse_cells(
                    b,
                    k + 2,
                    row,
                    col + 1,
                    v.update(fen_to_sq(row * 16 + col), Some(Piece { color: c, role: r })),
                ),
                _ => None,
            }
        }
    }
}

/// Closes a board-field row: a `/` after each of the first fifteen rows, the
/// end of the input after the last.
pub open spec fn parse_row_end(b: Seq<u8>, k: int, row: int, v: Seq<Option<Piece>>) -> Option<
    Seq<Option<Piece>>,
>
    decreases b.len() - k, 0int,
{
    if row == 15 {
        if k == b.len() {
            Some(v)
        } else {
            None
        }
    } else if 0 <= k < b.len() && b[k] == 47 {
        parse_cells(b, k + 1, row + 1, 0, v)
    } else {
        None
    }
}

/// What the board field parses to: the piece placement it describes, or
/// nothing when it is malformed.
pub open spec fn parse_board_fen(b: Seq<u8>) -> Option<Seq<Option<Piece>>> {
    parse_cells(b, 0, 0, 0, Seq::new(256, |i: int| None::<Piece>))
}

/// Board-field cells and square indices name each other both ways.
pub proof fn lemma_fen_sq(fi: int)
    requires
        0 <= fi < 256,
    ensures
        0 <= fen_to_sq(fi) < 256,
        sq_to_fen(fen_to_sq(fi)) == fi,
        fen_to_sq(fi) % 16 == fi % 16,
        fen_to_sq(fi) / 16 == 15 - fi / 16,
{
    crate::movegen::lemma_coords(fi);
    vstd::arithmetic::div_mod::lemma_fundamental_div_mod_converse(
        fen_to_sq(fi),
        16,
        15 - fi / 16,
        fi % 16,
    );
}

/// The rows after one row's cells: a separator and the remaining rows, or
/// nothing after the last row.
pub open spec fn tail_rows(v: Seq<Option<Piece>>, row: int) -> Seq<u8> {
    if row < 15 {
        seq![47u8] + render_rows(v, row + 1)
    } else {
        Seq::empty()
    }
}

/// Splitting a known suffix of `b` at a prefix: the prefix bytes stand in
/// `b` right at `k`, and the rest is the suffix from `k` plus the prefix
/// length.
proof fn lemma_tail_eq(b: Seq<u8>, k: int, pre: Seq<u8>, post: Seq<u8>)
    requires
        0 <= k <= b.len(),
        b.subrange(k, b.len() as int) == pre + post,
    ensures
        k + pre.len() + post.len() == b.len(),
        b.subrange(k + pre.len(), b.len() as int) == post,
        forall|i: int| 0 <= i < pre.len() ==> b[k + i] == pre[i],
{
    assert(b.subrange(k, b.len() as int).len() == pre.len() + post.len());
    assert forall|i: int| 0 <= i < pre.len() implies b[k + i] == pre[i] by {
        assert(b.subrange(k, b.len() as int)[i] == b[k + i]);
        assert((pre + post)[i] == pre[i]);
    }
    assert forall|m: int| 0 <= m < post.len() implies b.subrange(
        k + pre.len(),
        b.len() as int,
    )[m] == post[m] by {
        assert(b.subrange(k + pre.len(), b.len() as int)[m] == b[k + pre.len() + m]);
        assert(b.subrange(k, b.len() as int)[pre.len() + m] == b[k + pre.len() + m]);
        assert((pre + post)[pre.len() + m] == post[m]);
    }
    assert(b.subrange(k + pre.len(), b.len() as int) =~= post);
}

/// Piece code bytes are lowercase letters that read back as the same color
/// and role.
proof fn lemma_piece_bytes(c: Color, r: Role)
    ensures
        !(48 <= color_byte(c) <= 57),
        lower_byte(color_byte(c)) == color_byte(c),
        lower_byte(role_byte(r)) == role_byte(r),
        Color::spec_from_char(color_byte(c) as char) == Some(c),
        Role::spec_from_char(role_byte(r) as char) == Some(r),
        color_byte(c) < 128,
        role_byte(r) < 128,
{
}

/// Parsing the rendering of a board, from any cell onward, restores exactly
/// the rendered placement.
proof fn lemma_rt_cells(
    v: Seq<Option<Piece>>,
    w: Seq<Option<Piece>>,
    b: Seq<u8>,
    k: int,
    row: int,
    col: int,
    pending: int,
)
    requires
        v.len() == 256,
        w.len() == 256,
        0 <= row < 16,
        0 <= col <= 16,
        0 <= pending <= col,
        forall|c2: int| col - pending <= c2 < col ==> v[#[trigger] fen_to_sq(row * 16 + c2)] is None,
        forall|fi: int|
            0 <= fi < row * 16 + col - pending ==> w[#[trigger] fen_to_sq(fi)] == v[fen_to_sq(fi)],
        forall|fi: int|
            row * 16 + col - pending <= fi < 256 ==> w[#[trigger] fen_to_sq(fi)] is None,
        0 <= k <= b.len(),
        b.subrange(k, b.len() as int) == render_cells(v, row, col, pending) + tail_rows(v, row),
    ensures
        parse_cells(b, k, row, col - pending, w) == Some(v),
    decreases 16 - row, 16 - col,
{
    let suf = b.subrange(k, b.len() as int);
    if col < 16 {
        let sq = fen_to_sq(row * 16 + col);
        lemma_fen_sq(row * 16 + col);
        match v[sq] {
            None => {
                assert(render_cells(v, row, col, pending) == render_cells(
                    v,
                    row,
                    col + 1,
                    pending + 1,
                ));
                lemma_rt_cells(v, w, b, k, row, col + 1, pending + 1);
            },
            Some(p) => {
                lemma_piece_bytes(p.color, p.role);
                let dig: Seq<u8> = if pending > 0 {
                    two_digit(pending)
                } else {
                    Seq::empty()
                };
                let pair = seq![color_byte(p.color), role_byte(p.role)];
                let rest = render_cells(v, row, col + 1, 0);
                assert(suf == dig + pair + rest + tail_rows(v, row));
                assert(suf =~= (dig + pair) + (rest + tail_rows(v, row)));
                lemma_tail_eq(b, k, dig + pair, rest + tail_rows(v, row));
                let k1 = k + dig.len();
                if pending > 0 {
                    // the parser reads the two-digit count and skips the
                    // pending empty cells
                    assert(b[k + 0] == (dig + pair)[0] && b[k + 1] == (dig + pair)[1]);
                    assert(b[k] == 48 + pending / 10 && b[k + 1] == 48 + pending % 10);
                    assert((b[k] - 48) * 10 + (b[k + 1] - 48) == pending);
                    assert(parse_cells(b, k, row, col - pending, w) == parse_cells(
                        b,
                        k + 2,
                        row,
                        col,
                        w,
                    ));
                }
                // the parser reads the piece pair
                assert(b[k + dig.len()] == (dig + pair)[dig.len() as int] && b[k + dig.len() + 1]
                    == (dig + pair)[(dig.len() + 1) as int]);
                assert(b[k1] == color_byte(p.color) && b[k1 + 1] == role_byte(p.role));
                let w2 = w.update(sq, Some(p));
                assert(parse_cells(b, k1, row, col, w) == parse_cells(b, k1 + 2, row, col + 1, w2));
                assert(b.subrange(k1 + 2, b.len() as int) == rest + tail_rows(v, row));
                assert forall|fi: int|
                    0 <= fi < row * 16 + col + 1 implies w2[#[trigger] fen_to_sq(fi)] == v[
                    fen_to_sq(fi)] by {
                    lemma_fen_sq(fi);
                    lemma_fen_sq(row * 16 + col);
                }
                assert forall|fi: int|
                    row * 16 + col + 1 <= fi < 256 implies w2[#[trigger] fen_to_sq(fi)] is None by {
                    lemma_fen_sq(fi);
                    lemma_fen_sq(row * 16 + col);
                }
                lemma_rt_cells(v, w2, b, k1 + 2, row, col + 1, 0);
            },
        }
    } else {
        let dig: Seq<u8> = if pending > 0 {
            two_digit(pending)
        } else {
            Seq::empty()
        };
        assert(render_cells(v, row, 16, pending) == dig);
        assert(suf == dig + tail_rows(v, row));
        lemma_tail_eq(b, k, dig, tail_rows(v, row));
        let k1 = k + dig.len();
        if pending > 0 {
            assert(b[k + 0] == dig[0] && b[k + 1] == dig[1]);
            assert(b[k] == 48 + pending / 10 && b[k + 1] == 48 + pending % 10);
            assert((b[k] - 48) * 10 + (b[k + 1] - 48) == pending);
            assert(parse_cells(b, k, row, col - pending, w) == parse_cells(b, k + 2, row, 16, w));
        }
        assert(parse_cells(b, k1, row, 16, w) == parse_row_end(b, k1, row, w));
        if row < 15 {
            assert(b.subrange(k1, b.len() as int) == seq![47u8] + render_rows(v, row + 1));
            lemma_tail_eq(b, k1, seq![47u8], render_rows(v, row + 1));
            assert(b[k1 + 0] == seq![47u8][0]);
            assert(b[k1] == 47);
            assert(parse_row_end(b, k1, row, w) == parse_cells(b, k1 + 1, row + 1, 0, w));
            assert(render_rows(v, row + 1) == render_cells(v, row + 1, 0, 0) + tail_rows(
                v,
                row + 1,
            ));
            assert(b.subrange(k1 + 1, b.len() as int) == render_cells(v, row + 1, 0, 0)
                + tail_rows(v, row + 1));
            assert forall|fi: int|
                0 <= fi < (row + 1) * 16 implies w[#[trigger] fen_to_sq(fi)] == v[fen_to_sq(
                fi,
            )] by {
                if fi >= row * 16 + 16 - pending {
                    let c2 = fi - row * 16;
                    assert(v[fen_to_sq(row * 16 + c2)] is None);
                }
            }
            lemma_rt_cells(v, w, b, k1 + 1, row + 1, 0, 0);
        } else {
            assert(k1 == b.len());
            assert(parse_row_end(b, k1, 15, w) == Some(w));
            assert forall|fi: int| 0 <= fi < 256 implies w[#[trigger] fen_to_sq(fi)] == v[
                fen_to_sq(fi)] by {
                if fi >= row * 16 + 16 - pending {
                    let c2 = fi - row * 16;
                    assert(v[fen_to_sq(row * 16 + c2)] is None);
                }
            }
            assert forall|s: int| 0 <= s < 256 implies w[s] == v[s] by {
                lemma_fen_sq(s);
                assert(fen_to_sq(sq_to_fen(s)) == s);
                assert(w[fen_to_sq(sq_to_fen(s))] == v[fen_to_sq(sq_to_fen(s))]);
            }
            assert(w =~= v);
        }
    }
}

/// Round trip: parsing the board field written for any placement gives that
/// placement back.
pub proof fn lemma_board_fen_round_trip(v: Seq<Option<Piece>>)
    requires
        v.len() == 256,
    ensures
        parse_board_fen(board_fen_bytes(v)) == Some(v),
{
    let b = board_fen_bytes(v);
    assert(b.subrange(0, b.len() as int) =~= render_cells(v, 0, 0, 0) + tail_rows(v, 0));
    lemma_rt_cells(v, Seq::new(256, |i: int| None::<Piece>), b, 0, 0, 0, 0);
}

/// The textual position codec.
pub struct Fen {}

impl Fen {
    /// Serializes the piece placement into the board field: 16 rows from the
    /// top rank down, two lowercase letters per piece, empty runs as
    /// zero-padded two-digit counts, rows separated by `/`.
    pub fn from_board(board: &Board) -> (r: String)
        requires
            board.inv(),
        ensures
            r@ == chars_of_bytes(board_fen_bytes(board@)),
    {
        let out = board_bytes(board);
        string_from_ascii(out)
    }
}

/// The board field as ASCII bytes.
pub(crate) fn board_bytes(board: &Board) -> (out: Vec<u8>)
    requires
        board.inv(),
    ensures
        out@ == board_fen_bytes(board@),
        forall|i: int| 0 <= i < out@.len() ==> out@[i] < 128,
{
    let ghost v = board@;
    let mut out: Vec<u8> = Vec::new();
    let mut row: usize = 0;
    while row < 16
        invariant
            board.inv(),
            v == board@,
            row <= 16,
            board_fen_bytes(v) == out@ + (if row < 16 {
                render_rows(v, row as int)
            } else {
                Seq::<u8>::empty()
            }),
            forall|i: int| 0 <= i < out@.len() ==> out@[i] < 128,
        decreases 16 - row,
    {
        let mut col: usize = 0;
        let mut pending: usize = 0;
        proof {
            if row < 15 {
                assert(render_rows(v, row as int) == render_cells(v, row as int, 0, 0) + seq![
                    47u8,
                ] + render_rows(v, row as int + 1));
            } else {
                assert(render_rows(v, 15) == render_cells(v, 15, 0, 0));
            }
        }
        while col < 16
            invariant
                board.inv(),
                v == board@,
                row < 16,
                col <= 16,
                pending <= col,
                board_fen_bytes(v) == out@ + render_cells(v, row as int, col as int,
                    pending as int,
                ) + (if row < 15 {
                    seq![47u8] + render_rows(v, row as int + 1)
                } else {
                    Seq::<u8>::empty()
                }),
                forall|i: int| 0 <= i < out@.len() ==> out@[i] < 128,
            decreases 16 - col,
        {
            let sq_idx: usize = (15 - row) * 16 + col;
            proof {
                crate::movegen::lemma_offset_coords(row as int * 16, col as int, 0);
                vstd::arithmetic::div_mod::lemma_fundamental_div_mod_converse(
                    row as int * 16 + col as int,
                    16,
                    row as int,
                    col as int,
                );
                assert(fen_to_sq(row as int * 16 + col as int) == sq_idx as int);
            }
            let sq = Square::from_index(sq_idx);
            match board.get(&sq) {
                Some(p) => {
                    if pending > 0 {
                        out.push(48 + (pending / 10) as u8);
                        out.push(48 + (pending % 10) as u8);
                    }
                    out.push(p.color.to_char() as u8);
                    out.push(p.role.to_char() as u8);
                    pending = 0;
                },
                None => {
                    pending = pending + 1;
                },
            }
            col += 1;
        }
        if pending > 0 {
            out.push(48 + (pending / 10) as u8);
            out.push(48 + (pending % 10) as u8);
        }
        proof {
            assert(render_cells(v, row as int, 16, pending as int) == (if pending > 0 {
                two_digit(pending as int)
            } else {
                Seq::<u8>::empty()
            }));
        }
        if row < 15 {
            out.push(47);
        }
        row += 1;
        proof {
            assert(board_fen_bytes(v) =~= out@ + (if row < 16 {
                render_rows(v, row as int)
            } else {
                Seq::<u8>::empty()
            }));
        }
    }
    proof {
        assert(board_fen_bytes(v) =~= out@);
    }
    out
}

impl Fen {
    /// Parses a board field into a board, placing each listed piece.
    pub fn to_board(board_fen: &str) -> (r: Board)
        requires
            vstd::utf8::is_ascii_chars(board_fen@),
            parse_board_fen(ascii_bytes(board_fen@)) is Some,
        ensures
            r.inv(),
            r@.len() == 256,
            parse_board_fen(ascii_bytes(board_fen@)) == Some(r@),
    {
        proof {
            crate::strings::lemma_ascii_str_bytes(board_fen);
        }
        let b = board_fen.as_bytes();
        let n = b.len();
        proof {
            assert(b@.subrange(0, n as int) =~= ascii_bytes(board_fen@));
        }
        parse_board_range(b, 0, n)
    }
}

/// Parses the board field standing in `b` between `s` and `e`.
fn parse_board_range(b: &[u8], s: usize, e: usize) -> (r: Board)
    requires
        s <= e <= b@.len(),
        parse_board_fen(b@.subrange(s as int, e as int)) is Some,
    ensures
        r.inv(),
        r@.len() == 256,
        parse_board_fen(b@.subrange(s as int, e as int)) == Some(r@),
{
    let ghost bs = b@.subrange(s as int, e as int);
    let mut board = Board::new();
    let mut k: usize = s;
    let mut row: usize = 0;
    let mut col: usize = 0;
    proof {
        assert(board@ =~= Seq::new(256, |i: int| None::<Piece>));
    }
    while !(col == 16 && row == 15)
        invariant
            board.inv(),
            board@.len() == 256,
            s <= e <= b@.len(),
            bs == b@.subrange(s as int, e as int),
            row < 16,
            col <= 16,
            s <= k <= e,
            parse_cells(bs, k - s, row as int, col as int, board@) == parse_board_fen(bs),
            parse_board_fen(bs) is Some,
            forall|fi: int|
                row * 16 + col <= fi < 256 ==> board@[#[trigger] fen_to_sq(fi)] is None,
        decreases e - k,
    {
        if col == 16 {
            // a `/` closes this row
            proof {
                assert(parse_cells(bs, k - s, row as int, 16, board@) == parse_row_end(
                    bs,
                    k - s,
                    row as int,
                    board@,
                ));
                assert(parse_row_end(bs, k - s, row as int, board@) is Some);
                assert(k - s < bs.len() && bs[k - s] == 47);
            }
            k += 1;
            row += 1;
            col = 0;
        } else {
            proof {
                assert(parse_cells(bs, k - s, row as int, col as int, board@) is Some);
                assert(k - s + 2 <= bs.len());
                assert(bs[k - s] == b@[k as int]);
                assert(bs[k - s + 1] == b@[k + 1]);
            }
            let x = b[k];
            let y = b[k + 1];
            if 48 <= x && x <= 57 {
                let count: usize = ((x - 48) as usize) * 10 + ((y - 48) as usize);
                col += count;
                k += 2;
            } else {
                let lx = if 65 <= x && x <= 90 {
                    x + 32
                } else {
                    x
                };
                let ly = if 65 <= y && y <= 90 {
                    y + 32
                } else {
                    y
                };
                let color = Color::from_char(lx as char).unwrap();
                let role = Role::from_char(ly as char).unwrap();
                let sq_idx: usize = (15 - row) * 16 + col;
                proof {
                    crate::movegen::lemma_offset_coords(row as int * 16, col as int, 0);
                    vstd::arithmetic::div_mod::lemma_fundamental_div_mod_converse(
                        row as int * 16 + col as int,
                        16,
                        row as int,
                        col as int,
                    );
                    assert(fen_to_sq(row as int * 16 + col as int) == sq_idx as int);
                }
                let sq = Square::from_index(sq_idx);
                let ghost pre = board@;
                board.insert_piece(sq, Piece::new(color, role));
                proof {
                    assert forall|fi: int|
                        row * 16 + col + 1 <= fi < 256 implies board@[#[trigger] fen_to_sq(
                        fi,
                    )] is None by {
                        lemma_fen_sq(fi);
                        lemma_fen_sq(row as int * 16 + col as int);
                        assert(pre[fen_to_sq(fi)] is None);
                        assert(sq_to_fen(fen_to_sq(fi)) != sq_to_fen(
                            fen_to_sq(row as int * 16 + col as int),
                        ));
                    }
                }
                col += 1;
                k += 2;
            }
        }
    }
    proof {
        assert(parse_cells(bs, k - s, 15, 16, board@) == parse_board_fen(bs));
        assert(parse_row_end(bs, k - s, 15, board@) == parse_board_fen(bs));
    }
    board
}

/// The position of the first space at or after `from`, or the length when
/// none remains.
pub open spec fn find_sep(b: Seq<u8>, from: int) -> int
    decreases b.len() - from,
{
    if !(0 <= from < b.len()) {
        b.len() as int
    } else if b[from] == 32 {
        from
    } else {
        find_sep(b, from + 1)
    }
}

/// Where the `i`-th space-separated field of the line starts.
pub open spec fn part_start(b: Seq<u8>, i: int) -> int
    decreases i,
{
    if i <= 0 {
        0
    } else {
        find_sep(b, part_start(b, i - 1)) + 1
    }
}

/// Where the `i`-th space-separated field of the line ends.
pub open spec fn part_end(b: Seq<u8>, i: int) -> int {
    find_sep(b, part_start(b, i))
}

/// The `i`-th space-separated field of the line.
pub open spec fn fen_part(b: Seq<u8>, i: int) -> Seq<u8> {
    b.subrange(part_start(b, i), part_end(b, i))
}

/// The value of a decimal digit string.
pub open spec fn dec_val(d: Seq<u8>) -> int
    decreases d.len(),
{
    if d.len() == 0 {
        0
    } else {
        dec_val(d.drop_last()) * 10 + (d.last() - 48)
    }
}

/// A usable ply field: one to ten decimal digits whose value fits in 32
/// bits.
pub open spec fn ply_wf(d: Seq<u8>) -> bool {
    &&& 1 <= d.len() <= 10
    &&& forall|i: int| 0 <= i < d.len() ==> 48 <= #[trigger] d[i] <= 57
    &&& dec_val(d) < 4294967296
}

/// Some letter of the field names the color, in either case.
pub open spec fn field_has_color(d: Seq<u8>, c: Color) -> bool {
    exists|i: int|
        0 <= i < d.len() && Color::spec_from_char(lower_byte(#[trigger] d[i]) as char) == Some(c)
}

/// A well-formed position line: seven space-separated fields holding a
/// parseable board, a player digit, two one-character owned-army fields and
/// a ply number.
pub open spec fn wf_fen(b: Seq<u8>) -> bool {
    &&& forall|i: int| 0 <= i < 6 ==> #[trigger] part_end(b, i) < b.len()
    &&& part_end(b, 6) == b.len()
    &&& parse_board_fen(fen_part(b, 0)) is Some
    &&& fen_part(b, 1).len() == 1
    &&& Player::spec_from_char(fen_part(b, 1)[0] as char) is Some
    &&& fen_part(b, 2).len() == 1
    &&& fen_part(b, 4).len() == 1
    &&& ply_wf(fen_part(b, 6))
}

/// Powers of ten.
pub open spec fn pow10(n: nat) -> int
    decreases n,
{
    if n == 0 {
        1
    } else {
        10 * pow10((n - 1) as nat)
    }
}

/// Digit strings are nonnegative and bounded by a power of ten.
proof fn lemma_dec_pow(d: Seq<u8>)
    requires
        forall|i: int| 0 <= i < d.len() ==> 48 <= #[trigger] d[i] <= 57,
    ensures
        0 <= dec_val(d),
        dec_val(d) < pow10(d.len()),
    decreases d.len(),
{
    if d.len() > 0 {
        assert(forall|i: int|
            0 <= i < d.drop_last().len() ==> 48 <= #[trigger] d.drop_last()[i] <= 57);
        lemma_dec_pow(d.drop_last());
    }
}

/// Digit strings are nonnegative and bounded by their length.
proof fn lemma_dec_bound(d: Seq<u8>)
    requires
        forall|i: int| 0 <= i < d.len() ==> 48 <= #[trigger] d[i] <= 57,
    ensures
        0 <= dec_val(d),
        d.len() <= 10 ==> dec_val(d) < 10000000000,
{
    lemma_dec_pow(d);
    assert(pow10(0) == 1);
    assert(pow10(1) == 10);
    assert(pow10(2) == 100);
    assert(pow10(3) == 1000);
    assert(pow10(4) == 10000);
    assert(pow10(5) == 100000);
    assert(pow10(6) == 1000000);
    assert(pow10(7) == 10000000);
    assert(pow10(8) == 100000000);
    assert(pow10(9) == 1000000000);
    assert(pow10(10) == 10000000000);
    if d.len() < 10 {
        lemma_dec_pow(d);
    }
}

/// Finds the next space at or after `from`.
fn find_space(b: &[u8], from: usize) -> (r: usize)
    requires
        from <= b@.len(),
    ensures
        r == find_sep(b@, from as int),
        from <= r <= b@.len(),
{
    let n = b.len();
    let mut k = from;
    while k < n
        invariant
            from <= k <= n,
            n == b@.len(),
            find_sep(b@, from as int) == find_sep(b@, k as int),
        decreases n - k,
    {
        if b[k] == 32 {
            return k;
        }
        k += 1;
    }
    n
}

impl Fen {
    /// Parses a full position line into its parts: the board, the active
    /// player, each player's owned army and controlled armies, and the ply
    /// count.
    #[verifier::rlimit(60)]
    #[verifier::spinoff_prover]
    pub fn parse(fen: &str) -> (r: (
        Board,
        Player,
        Option<Color>,
        ColorSet,
        Option<Color>,
        ColorSet,
        u32,
    ))
        requires
            vstd::utf8::is_ascii_chars(fen@),
            wf_fen(ascii_bytes(fen@)),
        ensures
            ({
                let b = ascii_bytes(fen@);
                &&& r.0.inv()
                &&& r.0@.len() == 256
                &&& Some(r.0@) == parse_board_fen(fen_part(b, 0))
                &&& Some(r.1) == Player::spec_from_char(fen_part(b, 1)[0] as char)
                &&& r.2 == Color::spec_from_char(lower_byte(fen_part(b, 2)[0]) as char)
                &&& r.3.wf()
                &&& forall|c: Color| r.3.has(c) == field_has_color(fen_part(b, 3), c)
                &&& r.4 == Color::spec_from_char(lower_byte(fen_part(b, 4)[0]) as char)
                &&& r.5.wf()
                &&& forall|c: Color| r.5.has(c) == field_has_color(fen_part(b, 5), c)
                &&& r.6 == dec_val(fen_part(b, 6))
            }),
    {
        proof {
            crate::strings::lemma_ascii_str_bytes(fen);
        }
        let b = fen.as_bytes();
        let ghost bs = ascii_bytes(fen@);
        let n = b.len();
        let e0 = find_space(b, 0);
        proof {
            assert(part_start(bs, 0) == 0);
            assert(part_end(bs, 0) == e0);
            assert(part_end(bs, 0) < bs.len());
        }
        let s1 = e0 + 1;
        let e1 = find_space(b, s1);
        proof {
            assert(part_start(bs, 1) == s1);
            assert(part_end(bs, 1) == e1 && e1 < bs.len());
        }
        let s2 = e1 + 1;
        let e2 = find_space(b, s2);
        proof {
            assert(part_start(bs, 2) == s2);
            assert(part_end(bs, 2) == e2 && e2 < bs.len());
        }
        let s3 = e2 + 1;
        let e3 = find_space(b, s3);
        proof {
            assert(part_start(bs, 3) == s3);
            assert(part_end(bs, 3) == e3 && e3 < bs.len());
        }
        let s4 = e3 + 1;
        let e4 = find_space(b, s4);
        proof {
            assert(part_start(bs, 4) == s4);
            assert(part_end(bs, 4) == e4 && e4 < bs.len());
        }
        let s5 = e4 + 1;
        let e5 = find_space(b, s5);
        proof {
            assert(part_start(bs, 5) == s5);
            assert(e5 == find_sep(bs, s5 as int));  // P5a
            assert(part_end(bs, 5) == find_sep(bs, part_start(bs, 5)));  // P5b
            assert(part_end(bs, 5) == e5);  // P5c
            assert(part_end(bs, 5) < bs.len());  // P5d
        }
        let s6 = e5 + 1;
        proof {
            assert(part_start(bs, 6) == s6);
            assert(part_end(bs, 6) == bs.len());
            assert(fen_part(bs, 0) =~= bs.subrange(0, e0 as int));
        }

        let board = parse_board_range(b, 0, e0);

        proof {
            assert(fen_part(bs, 1)[0] == bs[s1 as int]);
        }
        let active_player = Player::from_char(b[s1] as char).unwrap();

        proof {
            assert(fen_part(bs, 2)[0] == bs[s2 as int]);
        }
        let o1 = b[s2];
        let lo1 = if 65 <= o1 && o1 <= 90 {
            o1 + 32
        } else {
            o1
        };
        let p1_owned = Color::from_char(lo1 as char);

        let p1_controlled = read_color_field(b, s3, e3);
        proof {
            assert(fen_part(bs, 3) =~= bs.subrange(s3 as int, e3 as int));
        }

        proof {
            assert(fen_part(bs, 4)[0] == bs[s4 as int]);
        }
        let o2 = b[s4];
        let lo2 = if 65 <= o2 && o2 <= 90 {
            o2 + 32
        } else {
            o2
        };
        let p2_owned = Color::from_char(lo2 as char);

        let p2_controlled = read_color_field(b, s5, e5);
        proof {
            assert(fen_part(bs, 5) =~= bs.subrange(s5 as int, e5 as int));
        }

        proof {
            assert(fen_part(bs, 6) =~= bs.subrange(s6 as int, n as int));
        }
        let ply = read_ply(b, s6, n);

        (board, active_player, p1_owned, p1_controlled, p2_owned, p2_controlled, ply)
    }
}

/// Collects every color letter of a controlled-armies field.
fn read_color_field(b: &[u8], s: usize, e: usize) -> (r: ColorSet)
    requires
        s <= e <= b@.len(),
    ensures
        r.wf(),
        forall|c: Color| r.has(c) == field_has_color(b@.subrange(s as int, e as int), c),
{
    let ghost d = b@.subrange(s as int, e as int);
    let mut set = ColorSet::new();
    let mut k = s;
    while k < e
        invariant
            s <= k <= e <= b@.len(),
            d == b@.subrange(s as int, e as int),
            set.wf(),
            forall|c: Color|
                set.has(c) == (exists|i: int|
                    0 <= i < k - s && Color::spec_from_char(
                        lower_byte(#[trigger] d[i]) as char,
                    ) == Some(c)),
        decreases e - k,
    {
        let x = b[k];
        let lx = if 65 <= x && x <= 90 {
            x + 32
        } else {
            x
        };
        proof {
            assert(d[k - s] == b@[k as int]);
        }
        match Color::from_char(lx as char) {
            Some(c) => {
                set.insert(c);
            },
            None => {
            },
        }
        proof {
            assert forall|c: Color|
                set.has(c) == (exists|i: int|
                    0 <= i < k + 1 - s && Color::spec_from_char(
                        lower_byte(#[trigger] d[i]) as char,
                    ) == Some(c)) by {
                if set.has(c) {
                }
                if exists|i: int|
                    0 <= i < k + 1 - s && Color::spec_from_char(
                        lower_byte(#[trigger] d[i]) as char,
                    ) == Some(c) {
                    let i = choose|i: int|
                        0 <= i < k + 1 - s && Color::spec_from_char(
                            lower_byte(#[trigger] d[i]) as char,
                        ) == Some(c);
                    if i == k - s {
                        assert(set.has(c));
                    }
                }
            }
        }
        k += 1;
    }
    set
}

/// Reads the decimal ply field.
fn read_ply(b: &[u8], s: usize, e: usize) -> (r: u32)
    requires
        s <= e <= b@.len(),
        ply_wf(b@.subrange(s as int, e as int)),
    ensures
        r == dec_val(b@.subrange(s as int, e as int)),
{
    let ghost d = b@.subrange(s as int, e as int);
    proof {
        lemma_dec_bound(d);
    }
    let mut acc: u64 = 0;
    let mut k = s;
    while k < e
        invariant
            s <= k <= e <= b@.len(),
            d == b@.subrange(s as int, e as int),
            ply_wf(d),
            acc == dec_val(b@.subrange(s as int, k as int)),
            0 <= acc < 10000000000,
        decreases e - k,
    {
        proof {
            let pre = b@.subrange(s as int, k as int);
            let nxt = b@.subrange(s as int, k + 1);
            assert(nxt.drop_last() =~= pre);
            assert(nxt.last() == b@[k as int]);
            assert(b@[k as int] == d[k - s]);
            assert(48 <= d[k - s] <= 57);
            assert forall|i: int| 0 <= i < nxt.len() implies 48 <= #[trigger] nxt[i] <= 57 by {
                assert(nxt[i] == d[i]);
            }
            lemma_dec_bound(nxt);
            assert(nxt.len() <= 10);
        }
        acc = acc * 10 + ((b[k] - 48) as u64);
        k += 1;
    }
    proof {
        assert(b@.subrange(s as int, e as int) == d);
        assert(acc < 4294967296);
    }
    acc as u32
}

/// The one-character owned-army field: the color letter, or `-` when no army
/// is owned yet.
pub open spec fn owned_bytes(o: Option<Color>) -> Seq<u8> {
    match o {
        Some(c) => seq![color_byte(c)],
        None => seq![45u8],
    }
}

/// The letters of the controlled armies from the `k`-th color on, in
/// enumeration order (which is ascending letter order).
pub open spec fn ctl_bytes_from(s: ColorSet, k: int) -> Seq<u8>
    decreases 12 - k,
{
    if k < 0 || k >= 12 {
        Seq::empty()
    } else {
        (if s.has(Color::spec_from_int(k)) {
            seq![color_byte(Color::spec_from_int(k))]
        } else {
            Seq::empty()
        }) + ctl_bytes_from(s, k + 1)
    }
}

/// The controlled-armies field: the letters of the controlled colors in
/// ascending order, or `-` when there are none.
pub open spec fn controlled_bytes(s: ColorSet) -> Seq<u8> {
    if ctl_bytes_from(s, 0).len() == 0 {
        seq![45u8]
    } else {
        ctl_bytes_from(s, 0)
    }
}

/// The decimal digits of a nonnegative number.
pub open spec fn dec_bytes(n: int) -> Seq<u8>
    decreases n,
{
    if n < 10 {
        seq![(48 + n) as u8]
    } else {
        dec_bytes(n / 10) + seq![(48 + n % 10) as u8]
    }
}

/// Appends the owned-army field.
pub(crate) fn push_owned(out: &mut Vec<u8>, o: &Option<Color>)
    ensures
        final(out)@ == old(out)@ + owned_bytes(*o),
        forall|i: int| old(out)@.len() <= i < final(out)@.len() ==> final(out)@[i] < 128,
{
    match o {
        Some(c) => {
            let b = c.to_char() as u8;
            proof {
                lemma_piece_bytes(*c, Role::Pawn);
            }
            out.push(b);
        },
        None => {
            out.push(45);
        },
    }
    proof {
        assert(out@ =~= old(out)@ + owned_bytes(*o));
    }
}

/// Appends the controlled-armies field.
pub(crate) fn push_controlled(out: &mut Vec<u8>, s: &ColorSet)
    requires
        s.wf(),
    ensures
        final(out)@ == old(out)@ + controlled_bytes(*s),
        forall|i: int| old(out)@.len() <= i < final(out)@.len() ==> final(out)@[i] < 128,
{
    let ghost base = out@;
    let base_len = out.len();
    let mut k: usize = 0;
    while k < 12
        invariant
            s.wf(),
            k <= 12,
            base_len == base.len(),
            base.len() <= out@.len(),
            out@.subrange(0, base.len() as int) == base,
            ctl_bytes_from(*s, 0) == out@.subrange(base.len() as int, out@.len() as int)
                + ctl_bytes_from(*s, k as int),
            forall|i: int| base.len() <= i < out@.len() ==> out@[i] < 128,
        decreases 12 - k,
    {
        let c = Color::from_index(k);
        proof {
            assert(c == Color::spec_from_int(k as int));
            lemma_piece_bytes(c, Role::Pawn);
        }
        if s.contains(&c) {
            out.push(c.to_char() as u8);
        }
        proof {
            assert(out@.subrange(0, base.len() as int) =~= base);
            assert(ctl_bytes_from(*s, 0) =~= out@.subrange(base.len() as int, out@.len() as int)
                + ctl_bytes_from(*s, k + 1));
        }
        k += 1;
    }
    if out.len() == base_len {
        proof {
            assert(ctl_bytes_from(*s, 0) =~= Seq::<u8>::empty());
        }
        out.push(45);
    }
    proof {
        assert(out@ =~= base + controlled_bytes(*s));
    }
}

/// Appends the decimal digits of a number.
pub(crate) fn push_dec(out: &mut Vec<u8>, n: u32)
    ensures
        final(out)@ == old(out)@ + dec_bytes(n as int),
        forall|i: int| old(out)@.len() <= i < final(out)@.len() ==> final(out)@[i] < 128,
    decreases n,
{
    if n < 10 {
        out.push(48 + n as u8);
        proof {
            assert(out@ =~= old(out)@ + dec_bytes(n as int));
        }
    } else {
        push_dec(out, n / 10);
        out.push(48 + (n % 10) as u8);
        proof {
            assert(out@ =~= old(out)@ + dec_bytes(n as int));
        }
    }
}

impl Fen {
    /// The square a board-field cell describes: the field runs from the top
    /// rank down, files in order inside a rank.
    pub fn fen_index_to_square(fen_index: usize) -> (r: Square)
        requires
            fen_index < 256,
        ensures
            r.wf(),
            r.as_int() == fen_to_sq(fen_index as int),
    {
        proof {
            lemma_fen_sq(fen_index as int);
        }
        Square::from_file_and_rank_index(fen_index % 16, 15 - fen_index / 16)
    }
}

} // verus!