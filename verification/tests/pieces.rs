use chess_engine::gamestate::parse_layout;
use chess_engine::moves::{Move, MoveType};
use chess_engine::pieces::{
    bishop_moves, bishop_vectors, king_moves, knight_moves, knight_vectors, pawn_moves,
    promotion_or_standard, queen_moves, rook_moves, rook_vectors, Piece, PieceClass,
};
use chess_engine::utils::{CastlingPossibilities, Vect};

fn at(x: i8, y: i8) -> Vect {
    Vect { x, y }
}

fn step(enemy: bool, from: Vect, to: Vect) -> Move {
    Move { enemy, move_type: MoveType::Standard(from, to, true) }
}

const NO_RIGHTS: CastlingPossibilities = CastlingPossibilities { queenside: false, kingside: false };
const ALL_RIGHTS: CastlingPossibilities = CastlingPossibilities { queenside: true, kingside: true };

#[test]
fn pieces_have_their_letters() {
    let classes = [
        (PieceClass::Pawn, 'p', 'P'),
        (PieceClass::Bishop, 'b', 'B'),
        (PieceClass::Knight, 'n', 'N'),
        (PieceClass::Rook, 'r', 'R'),
        (PieceClass::Queen, 'q', 'Q'),
        (PieceClass::King, 'k', 'K'),
    ];
    for (class, engine, opponent) in classes {
        assert_eq!(Piece { class, enemy: false }.repr(), engine);
        assert_eq!(Piece { class, enemy: true }.repr(), opponent);
    }
}

#[test]
fn pieces_have_their_values() {
    assert_eq!(Piece { class: PieceClass::Pawn, enemy: false }.get_value(), 1);
    assert_eq!(Piece { class: PieceClass::Bishop, enemy: false }.get_value(), 3);
    assert_eq!(Piece { class: PieceClass::Knight, enemy: true }.get_value(), 3);
    assert_eq!(Piece { class: PieceClass::Rook, enemy: false }.get_value(), 5);
    assert_eq!(Piece { class: PieceClass::Queen, enemy: true }.get_value(), 9);
    assert_eq!(Piece { class: PieceClass::King, enemy: false }.get_value(), 500);
}

#[test]
fn the_directions_are_in_their_order() {
    assert_eq!(rook_vectors(), [at(1, 0), at(0, 1), at(-1, 0), at(0, -1)]);
    assert_eq!(bishop_vectors(), [at(1, 1), at(-1, 1), at(-1, -1), at(1, -1)]);
    assert_eq!(
        knight_vectors(),
        [at(2, 1), at(-2, 1), at(2, -1), at(-2, -1), at(1, 2), at(1, -2), at(-1, 2), at(-1, -2)]
    );
}

#[test]
fn a_rook_slides_until_it_is_blocked() {
    let state = parse_layout(
        "\n. . . . . . . .\n. . . . . . . .\n. . . . . . . .\n. . P . . . . .\n. . . . . . . .\n. . r . p . . .\n. . . . . . . .\n. . . . . . . .\n",
    );
    let rook = Piece { class: PieceClass::Rook, enemy: false };
    let from = at(2, 2);
    let (moves, defended) = rook_moves(&rook, &state.board, from, true, &NO_RIGHTS);
    assert_eq!(
        moves,
        vec![
            step(false, from, at(3, 2)),
            step(false, from, at(2, 3)),
            step(false, from, at(2, 4)),
            step(false, from, at(1, 2)),
            step(false, from, at(0, 2)),
            step(false, from, at(2, 1)),
            step(false, from, at(2, 0)),
        ]
    );
    assert_eq!(
        defended,
        vec![at(3, 2), at(4, 2), at(2, 3), at(2, 4), at(1, 2), at(0, 2), at(2, 1), at(2, 0)]
    );
    let (again, none) = rook_moves(&rook, &state.board, from, false, &NO_RIGHTS);
    assert_eq!(again, moves);
    assert_eq!(none, vec![]);
}

#[test]
fn a_sliding_piece_walks_any_four_directions() {
    let state = parse_layout(
        "\n. . . . . . . .\n. . . . . . . .\n. . . . . . . .\n. . . . . . . .\n. . . . . . . .\n. . . . . . . .\n. . . . . . . .\nq . . . . . . .\n",
    );
    let queen = Piece { class: PieceClass::Queen, enemy: false };
    let from = at(0, 0);
    let (moves, defended) =
        queen.get_linear_moves(&state.board, from, [at(3, 0), at(0, 4), at(2, 2), at(-1, 0)], true);
    assert_eq!(
        moves,
        vec![
            step(false, from, at(3, 0)),
            step(false, from, at(6, 0)),
            step(false, from, at(0, 4)),
            step(false, from, at(2, 2)),
            step(false, from, at(4, 4)),
            step(false, from, at(6, 6)),
        ]
    );
    assert_eq!(defended, vec![at(3, 0), at(6, 0), at(0, 4), at(2, 2), at(4, 4), at(6, 6)]);
}

#[test]
fn a_bishop_takes_the_first_enemy_on_a_diagonal() {
    let state = parse_layout(
        "\n. . . . . . . .\n. . . . . . . .\n. . . . . . . .\n. . . . . . . .\n. . . N . . . .\n. . . . . . . .\n. b . . . . . .\n. . . . . . . .\n",
    );
    let bishop = Piece { class: PieceClass::Bishop, enemy: false };
    let from = at(1, 1);
    let (moves, defended) = bishop_moves(&bishop, &state.board, from, true);
    assert_eq!(
        moves,
        vec![
            step(false, from, at(2, 2)),
            step(false, from, at(3, 3)),
            step(false, from, at(0, 2)),
            step(false, from, at(0, 0)),
            step(false, from, at(2, 0)),
        ]
    );
    assert_eq!(defended, vec![at(2, 2), at(3, 3), at(0, 2), at(0, 0), at(2, 0)]);
}

#[test]
fn a_queen_moves_as_a_bishop_and_then_as_a_rook() {
    let state = parse_layout(
        "\n. . . . . . . .\n. . . . . . . .\n. . . . . . . .\n. . . . . . . .\n. . . . . . . .\n. . . . . . . .\np p . . . . . .\nq p . . . . . .\n",
    );
    let queen = Piece { class: PieceClass::Queen, enemy: false };
    let (moves, defended) = queen_moves(&queen, &state.board, at(0, 0), true);
    assert_eq!(moves, vec![]);
    assert_eq!(defended, vec![at(1, 1), at(1, 0), at(0, 1)]);
    let enemy_queen = Piece { class: PieceClass::Queen, enemy: true };
    let (takes, _) = queen_moves(&enemy_queen, &state.board, at(0, 0), false);
    assert_eq!(
        takes,
        vec![step(true, at(0, 0), at(1, 1)), step(true, at(0, 0), at(1, 0)), step(true, at(0, 0), at(0, 1))]
    );
}

#[test]
fn a_knight_jumps_over_pieces() {
    let state = parse_layout(
        "\n. . . . . . . .\n. . . . . . . .\n. . . . . . . .\n. . . . . . . .\n. . . . . . . .\n. . P . . . . .\np p p p . . . .\n. n . . . . . .\n",
    );
    let knight = Piece { class: PieceClass::Knight, enemy: false };
    let from = at(1, 0);
    let (moves, defended) = knight_moves(&knight, &state.board, from, true);
    assert_eq!(moves, vec![step(false, from, at(2, 2)), step(false, from, at(0, 2))]);
    assert_eq!(defended, vec![at(3, 1), at(2, 2), at(0, 2)]);
}

#[test]
fn a_king_steps_to_the_diagonals_first() {
    let state = parse_layout(
        "\n. . . . . . . .\n. . . . . . . .\n. . . . . . . .\n. . . . . . . .\n. . . . . . . .\n. . . . . . . .\n. R . . . . . .\nk p . . . . . .\n",
    );
    let king = Piece { class: PieceClass::King, enemy: false };
    let from = at(0, 0);
    let (moves, defended) = king_moves(&king, &state.board, from, true);
    assert_eq!(moves, vec![step(false, from, at(1, 1)), step(false, from, at(0, 1))]);
    assert_eq!(defended, vec![at(1, 1), at(1, 0), at(0, 1)]);
}

#[test]
fn a_pawn_advances_only_onto_free_squares() {
    let state = parse_layout(
        "\n. . . . . . . .\n. . . . . . . .\n. . . . . . . .\n. . . . . . . .\n. . N . . . . .\n. N . . . . . .\np p p . . . . .\n. . . . . . . .\n",
    );
    let pawn = Piece { class: PieceClass::Pawn, enemy: false };
    let (free, defended) = pawn_moves(&pawn, &state.board, at(0, 1), true, &None);
    assert_eq!(
        free,
        vec![
            Move { enemy: false, move_type: MoveType::Standard(at(0, 1), at(0, 2), false) },
            step(false, at(0, 1), at(1, 2)),
            Move { enemy: false, move_type: MoveType::DoubleAdvance(at(0, 1), at(0, 3)) },
        ]
    );
    assert_eq!(defended, vec![at(1, 2)]);
    let (blocked, both) = pawn_moves(&pawn, &state.board, at(1, 1), true, &None);
    assert_eq!(blocked, vec![]);
    assert_eq!(both, vec![at(0, 2), at(2, 2)]);
    let (half, _) = pawn_moves(&pawn, &state.board, at(2, 1), false, &None);
    assert_eq!(
        half,
        vec![
            Move { enemy: false, move_type: MoveType::Standard(at(2, 1), at(2, 2), false) },
            step(false, at(2, 1), at(1, 2)),
        ]
    );
}

#[test]
fn a_pawn_of_the_opponent_advances_down_the_board() {
    let state = parse_layout(
        "\n. . . . . . . .\n. . . . P . . .\n. . . . . . . .\n. . . . . . . .\n. . . . . . . .\n. . . . . . . .\n. . . . . . . .\n. . . . . . . .\n",
    );
    let pawn = Piece { class: PieceClass::Pawn, enemy: true };
    let (moves, defended) = pawn_moves(&pawn, &state.board, at(4, 6), true, &None);
    assert_eq!(
        moves,
        vec![
            Move { enemy: true, move_type: MoveType::Standard(at(4, 6), at(4, 5), false) },
            Move { enemy: true, move_type: MoveType::DoubleAdvance(at(4, 6), at(4, 4)) },
        ]
    );
    assert_eq!(defended, vec![at(3, 5), at(5, 5)]);
}

#[test]
fn a_pawn_on_the_seventh_rank_is_promoted_to_a_queen() {
    let state = parse_layout(
        "\n. N . . . . . .\np . . . . . . .\n. . . . . . . .\n. . . . . . . .\n. . . . . . . .\n. . . . . . . .\n. . . . . . . .\n. . . . . . . .\n",
    );
    let pawn = Piece { class: PieceClass::Pawn, enemy: false };
    let queen = Piece { class: PieceClass::Queen, enemy: false };
    let (moves, _) = pawn_moves(&pawn, &state.board, at(0, 6), false, &None);
    assert_eq!(
        moves,
        vec![
            Move { enemy: false, move_type: MoveType::Promotion(at(0, 6), at(0, 7), queen, false) },
            Move { enemy: false, move_type: MoveType::Promotion(at(0, 6), at(1, 7), queen, true) },
        ]
    );
    assert_eq!(
        promotion_or_standard(&pawn, at(3, 5), at(3, 6), false),
        Move { enemy: false, move_type: MoveType::Standard(at(3, 5), at(3, 6), false) }
    );
    let enemy_pawn = Piece { class: PieceClass::Pawn, enemy: true };
    assert_eq!(
        promotion_or_standard(&enemy_pawn, at(3, 1), at(2, 0), true),
        Move {
            enemy: true,
            move_type: MoveType::Promotion(
                at(3, 1),
                at(2, 0),
                Piece { class: PieceClass::Queen, enemy: true },
                true
            )
        }
    );
}

#[test]
fn a_pawn_on_the_last_rank_has_no_moves() {
    let state = parse_layout(
        "\np . . . . . . .\n. . . . . . . .\n. . . . . . . .\n. . . . . . . .\n. . . . . . . .\n. . . . . . . .\n. . . . . . . .\n. . . . . . . .\n",
    );
    let pawn = Piece { class: PieceClass::Pawn, enemy: false };
    let (moves, defended) = pawn_moves(&pawn, &state.board, at(0, 7), true, &None);
    assert_eq!(moves, vec![]);
    assert_eq!(defended, vec![]);
}

#[test]
fn a_pawn_takes_en_passant_only_on_the_target() {
    let state = parse_layout(
        "\n. . . . . . . .\n. . . . . . . .\n. . . . . . . .\n. . . p P . . .\n. . . . . . . .\n. . . . . . . .\n. . . . . . . .\n. . . . . . . .\n",
    );
    let pawn = Piece { class: PieceClass::Pawn, enemy: false };
    let forward = Move { enemy: false, move_type: MoveType::Standard(at(3, 4), at(3, 5), false) };
    let (with_target, _) = pawn_moves(&pawn, &state.board, at(3, 4), false, &Some(at(4, 5)));
    assert_eq!(
        with_target,
        vec![
            forward,
            Move { enemy: false, move_type: MoveType::EnPassant(at(3, 4), at(4, 5), at(4, 4)) },
        ]
    );
    let (without, _) = pawn_moves(&pawn, &state.board, at(3, 4), false, &None);
    assert_eq!(without, vec![forward]);
    let (elsewhere, _) = pawn_moves(&pawn, &state.board, at(3, 4), false, &Some(at(6, 5)));
    assert_eq!(elsewhere, vec![forward]);
}

#[test]
fn a_rook_offers_castling_when_it_sees_its_king() {
    let state = parse_layout(
        "\n. . . . . . . .\n. . . . . . . .\n. . . . . . . .\n. . . . . . . .\n. . . . . . . .\n. . . . . . . .\n. . . . . . . .\nr . . . k . n r\n",
    );
    let rook = Piece { class: PieceClass::Rook, enemy: false };
    let (queenside, _) = rook_moves(&rook, &state.board, at(0, 0), false, &ALL_RIGHTS);
    assert_eq!(
        queenside.last(),
        Some(&Move { enemy: false, move_type: MoveType::Castling(true) })
    );
    assert_eq!(queenside.len(), 3 + 7 + 1);
    let (kingside, _) = rook_moves(&rook, &state.board, at(7, 0), false, &ALL_RIGHTS);
    assert!(!kingside.contains(&Move { enemy: false, move_type: MoveType::Castling(false) }));
    let (spent, _) = rook_moves(
        &rook,
        &state.board,
        at(0, 0),
        false,
        &CastlingPossibilities { queenside: false, kingside: true },
    );
    assert!(!spent.contains(&Move { enemy: false, move_type: MoveType::Castling(true) }));
    assert_eq!(spent.len(), 3 + 7);
}

#[test]
fn a_rook_does_not_castle_with_the_other_king() {
    let state = parse_layout(
        "\n. . . . . . . .\n. . . . . . . .\n. . . . . . . .\n. . . . . . . .\n. . . . . . . .\n. . . . . . . .\n. . . . . . . .\nr . . . K . . .\n",
    );
    let rook = Piece { class: PieceClass::Rook, enemy: false };
    let (moves, _) = rook_moves(&rook, &state.board, at(0, 0), false, &ALL_RIGHTS);
    assert!(!moves.contains(&Move { enemy: false, move_type: MoveType::Castling(true) }));
    assert!(moves.contains(&step(false, at(0, 0), at(4, 0))));
}

#[test]
fn all_moves_goes_by_the_class_of_the_piece() {
    let state = parse_layout(
        "\n. . . . . . . .\n. . . . . . . .\n. . . . . . . .\n. . . . . . . .\n. . . . . . . .\n. . . . . . . .\n. . . . . . . .\nr . . . k . . .\n",
    );
    let rook = Piece { class: PieceClass::Rook, enemy: false };
    let (moves, defended) = rook.all_moves(&state.board, at(0, 0), true, &None, &ALL_RIGHTS);
    let (expected, expected_defended) = rook_moves(&rook, &state.board, at(0, 0), true, &ALL_RIGHTS);
    assert_eq!(moves, expected);
    assert_eq!(defended, expected_defended);
    let king = Piece { class: PieceClass::King, enemy: false };
    let (steps, _) = king.all_moves(&state.board, at(4, 0), false, &None, &ALL_RIGHTS);
    assert_eq!(steps.len(), 5);
    let knight = Piece { class: PieceClass::Knight, enemy: true };
    let (jumps, _) = knight.all_moves(&state.board, at(4, 4), false, &None, &NO_RIGHTS);
    assert_eq!(jumps.len(), 8);
    let bishop = Piece { class: PieceClass::Bishop, enemy: true };
    let (slides, _) = bishop.all_moves(&state.board, at(4, 4), false, &None, &NO_RIGHTS);
    assert_eq!(slides.len(), 3 + 3 + 4 + 3);
    let queen = Piece { class: PieceClass::Queen, enemy: true };
    let (many, _) = queen.all_moves(&state.board, at(4, 4), false, &None, &NO_RIGHTS);
    assert_eq!(many.len(), 13 + 3 + 3 + 4 + 4);
    let pawn = Piece { class: PieceClass::Pawn, enemy: true };
    let (one, _) = pawn.all_moves(&state.board, at(4, 4), false, &None, &NO_RIGHTS);
    assert_eq!(one.len(), 1);
}
