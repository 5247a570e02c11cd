use sochess::board::Board;
use sochess::color::Color;
use sochess::fen::Fen;
use sochess::piece::Piece;
use sochess::role::Role;
use sochess::square::Square;

fn sq(name: &str) -> Square {
    Square::from_str(name)
}

#[test]
fn to_board() {
    let board_fen = "aqabvrvnbrbnbbbqbkbbbnbrynyrsbsq/aranvpvpbpbpbpbpbpbpbpbpypypsnsr/nbnp12opob/nqnp12opoq/crcp12rprr/cncp12rprn/gbgp12pppb/gqgp12pppq/yqyp12vpvq/ybyp12vpvb/onop12npnn/orop12npnr/rqrp12cpcq/rbrp12cpcb/srsnppppwpwpwpwpwpwpwpwpgpgpanar/sqsbprpnwrwnwbwqwkwbwnwrgngrabaq";
    let board = Fen::to_board(board_fen);
    assert_eq!(
        board.get(&sq("a16")),
        Some(Piece {
            color: Color::Ash,
            role: Role::Queen,
        }),
    );
    assert_eq!(
        board.get(&sq("c02")),
        Some(Piece {
            color: Color::Pink,
            role: Role::Pawn,
        }),
    );
    assert_eq!(
        board.get(&sq("p16")),
        Some(Piece {
            color: Color::Slate,
            role: Role::Queen,
        }),
    );
    assert!(board.get(&sq("i08")).is_none());
}

#[test]
fn fen_index_to_square_works() {
    assert_eq!(Fen::fen_index_to_square(0), sq("a16"));
    assert_eq!(Fen::fen_index_to_square(5), sq("f16"));
    assert_eq!(Fen::fen_index_to_square(17), sq("b15"));
    assert_eq!(Fen::fen_index_to_square(250), sq("k01"));
    assert_eq!(Fen::fen_index_to_square(255), sq("p01"));
}

#[test]
fn from_board_works() {
    let mut board = Board::new();
    board.insert_piece(
        sq("a01"),
        Piece {
            color: Color::White,
            role: Role::King,
        },
    );
    assert_eq!(
        Fen::from_board(&board),
        "16/16/16/16/16/16/16/16/16/16/16/16/16/16/16/wk15".to_string(),
    );

    let mut board = Board::new();
    board.insert_piece(
        sq("a16"),
        Piece {
            color: Color::White,
            role: Role::King,
        },
    );
    assert_eq!(
        Fen::from_board(&board),
        "wk15/16/16/16/16/16/16/16/16/16/16/16/16/16/16/16".to_string(),
    );

    board.insert_piece(
        sq("g13"),
        Piece {
            color: Color::Black,
            role: Role::Pawn,
        },
    );
    assert_eq!(
        Fen::from_board(&board),
        "wk15/16/16/06bp09/16/16/16/16/16/16/16/16/16/16/16/16".to_string(),
    );
}

#[test]
fn board_fen_round_trip() {
    // writing a board out and reading it back gives the same board
    let mut board = Board::new();
    board.insert_piece(sq("a01"), Piece::new(Color::White, Role::King));
    board.insert_piece(sq("e05"), Piece::new(Color::Navy, Role::Queen));
    board.insert_piece(sq("p16"), Piece::new(Color::Slate, Role::Rook));
    board.insert_piece(sq("h09"), Piece::new(Color::Green, Role::Pawn));
    let text = Fen::from_board(&board);
    let back = Fen::to_board(&text);
    for i in 0..256 {
        let s = Square::from_index(i);
        assert_eq!(back.get(&s), board.get(&s));
    }
}

#[test]
fn to_board_accepts_uppercase() {
    let board = Fen::to_board("WK15/16/16/16/16/16/16/16/16/16/16/16/16/16/16/16");
    assert_eq!(
        board.get(&sq("a16")),
        Some(Piece::new(Color::White, Role::King))
    );
}
