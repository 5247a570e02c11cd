use sochess::board::Board;
use sochess::color::Color;
use sochess::color_set::ColorSet;
use sochess::move_type::Move;
use sochess::piece::Piece;
use sochess::role::Role;
use sochess::square::Square;

fn sq(name: &str) -> Square {
    Square::from_str(name)
}

fn set_of(colors: &[Color]) -> ColorSet {
    let mut s = ColorSet::new();
    for c in colors {
        s.insert(*c);
    }
    s
}

#[test]
fn is_legal_move_works() {
    let mut board = Board::new();
    board.insert_piece(
        sq("a01"),
        Piece {
            color: Color::White,
            role: Role::King,
        },
    );

    let move_ = Move::new(Color::White, Role::King, sq("a01"), sq("b01"));

    let own_side = set_of(&[Color::White]);
    let enemy_side = set_of(&[]);
    assert!(board.is_legal_move(&move_, &own_side, &enemy_side));

    let move_ = Move::new(Color::White, Role::King, sq("a01"), sq("c01"));

    assert!(!board.is_legal_move(&move_, &own_side, &enemy_side));
}

#[test]
fn is_legal_move_should_disallow_move_onto_occupied_colored_square() {
    let mut board = Board::new();
    // On Navy colored square
    board.insert_piece(
        sq("e05"),
        Piece {
            color: Color::White,
            role: Role::Queen,
        },
    );
    // About to try and go into the other Navy square
    board.insert_piece(
        sq("l13"),
        Piece {
            color: Color::Black,
            role: Role::Queen,
        },
    );
    // Will try to capture Queen on Navy square
    board.insert_piece(
        sq("e06"),
        Piece {
            color: Color::Black,
            role: Role::Rook,
        },
    );

    let move_ = Move::new(Color::Black, Role::Queen, sq("l13"), sq("l12"));

    let own_side = set_of(&[Color::Black]);
    let enemy_side = set_of(&[Color::White]);
    assert!(!board.is_legal_move(&move_, &own_side, &enemy_side));

    // But should be able to capture a piece that is on a colored square
    let move_ = Move::new(Color::Black, Role::Rook, sq("e06"), sq("e05"));

    assert!(board.is_legal_move(&move_, &own_side, &enemy_side));
}

#[test]
fn is_legal_move_should_disallow_moving_to_a_square_of_own_color() {
    let mut board = Board::new();
    board.insert_piece(
        sq("i03"),
        Piece {
            color: Color::White,
            role: Role::Queen,
        },
    );

    let move_ = Move::new(Color::White, Role::Queen, sq("i03"), sq("i08"));

    let own_side = set_of(&[Color::White]);
    let enemy_side = set_of(&[Color::Black]);
    assert!(!board.is_legal_move(&move_, &own_side, &enemy_side));
}

#[test]
fn remove_piece_works() {
    let mut board = Board::new();
    let color = Color::Pink;
    let piece = Piece::new(color, Role::King);
    let square = sq("e05");

    board.insert_piece(square, piece);
    board.remove_piece(piece);

    assert!(board.get(&square).is_none());
    assert!(board.find(&piece).is_none());
    assert!(!board
        .color_locations(&color)
        .get(square.to_index())
        .unwrap());
    assert!(!board.all_locations().get(square.to_index()).unwrap());
    let mask = board.build_colored_squares_mask();
    assert!(mask.get(square.to_index()).unwrap());
}

#[test]
fn find_returns_the_lowest_square() {
    let mut board = Board::new();
    let pawn = Piece::new(Color::Green, Role::Pawn);
    board.insert_piece(sq("h09"), pawn);
    board.insert_piece(sq("b02"), pawn);
    let found = board.find(&pawn).unwrap();
    assert_eq!(found, sq("b02"));
}

#[test]
fn colored_squares_mask_blocks_occupied_pairs() {
    let mut board = Board::new();
    board.insert_piece(sq("e05"), Piece::new(Color::White, Role::Queen));
    let mask = board.build_colored_squares_mask();
    // both navy squares are blocked once one of them is occupied
    assert!(!mask.get(sq("e05").to_index()).unwrap());
    assert!(!mask.get(sq("l12").to_index()).unwrap());
    // an untouched pair stays open
    assert!(mask.get(sq("l05").to_index()).unwrap());
    assert!(mask.get(sq("e12").to_index()).unwrap());
}

#[test]
fn queen_combines_rook_and_bishop_reach() {
    let mut board = Board::new();
    board.insert_piece(sq("d04"), Piece::new(Color::White, Role::Queen));
    let own_side = set_of(&[Color::White]);
    let enemy_side = set_of(&[]);
    // straight, diagonal, and a knight-shaped non-move
    let straight = Move::new(Color::White, Role::Queen, sq("d04"), sq("d09"));
    let diagonal = Move::new(Color::White, Role::Queen, sq("d04"), sq("g07"));
    let crooked = Move::new(Color::White, Role::Queen, sq("d04"), sq("e06"));
    assert!(board.is_legal_move(&straight, &own_side, &enemy_side));
    assert!(board.is_legal_move(&diagonal, &own_side, &enemy_side));
    assert!(!board.is_legal_move(&crooked, &own_side, &enemy_side));
}
