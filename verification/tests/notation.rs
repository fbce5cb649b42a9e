use chess_engine::moves::{Move, MoveType};
use chess_engine::pieces::{Piece, PieceClass};
use chess_engine::utils::{pos_notation, Vect};

#[test]
fn squares_are_named_by_file_and_rank() {
    assert_eq!(pos_notation(&Vect { x: 0, y: 0 }), "a1");
    assert_eq!(pos_notation(&Vect { x: 4, y: 3 }), "e4");
    assert_eq!(pos_notation(&Vect { x: 7, y: 7 }), "h8");
}

#[test]
fn a_square_off_the_board_is_named_with_an_x() {
    assert_eq!(pos_notation(&Vect { x: 8, y: 0 }), "X1");
    assert_eq!(pos_notation(&Vect { x: -1, y: -3 }), "X-2");
    assert_eq!(pos_notation(&Vect { x: 0, y: 127 }), "a128");
}

#[test]
fn moves_are_shown_with_their_side() {
    let advance = Move {
        enemy: false,
        move_type: MoveType::Standard(Vect { x: 4, y: 1 }, Vect { x: 4, y: 3 }, true),
    };
    assert_eq!(advance.repr(), "'Engine: e2 -> e4'");
    let castle = Move { enemy: true, move_type: MoveType::Castling(true) };
    assert_eq!(castle.repr(), "'Opponent: 0-0-0'");
    let short = Move { enemy: true, move_type: MoveType::Castling(false) };
    assert_eq!(short.repr(), "'Opponent: 0-0'");
    let promotion = Move {
        enemy: false,
        move_type: MoveType::Promotion(
            Vect { x: 0, y: 6 },
            Vect { x: 0, y: 7 },
            Piece { class: PieceClass::Queen, enemy: false },
            false,
        ),
    };
    assert_eq!(promotion.repr(), "'Engine: a7 -> a8 (q)'");
    let nothing = Move { enemy: false, move_type: MoveType::Null };
    assert_eq!(nothing.repr(), "'Engine: NULL'");
}
