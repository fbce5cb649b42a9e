use chess_engine::gamestate::{is_layout, is_on_board, parse_layout, GameState, DEFAULT_LAYOUT};
use chess_engine::moves::{gen_move, get_move, standard_move_notation, Move, MoveType};
use chess_engine::pieces::{Piece, PieceClass};
use chess_engine::settings::LAYOUT;
use chess_engine::utils::{CastlingPossibilities, Vect};

fn at(x: i8, y: i8) -> Vect {
    Vect { x, y }
}

fn step(enemy: bool, from: Vect, to: Vect) -> Move {
    Move { enemy, move_type: MoveType::Standard(from, to, true) }
}

fn piece(class: PieceClass, enemy: bool) -> Option<Piece> {
    Some(Piece { class, enemy })
}

const NO_RIGHTS: CastlingPossibilities = CastlingPossibilities { queenside: false, kingside: false };
const ALL_RIGHTS: CastlingPossibilities = CastlingPossibilities { queenside: true, kingside: true };

#[test]
fn the_standard_layout_is_set_up() {
    assert!(is_layout(DEFAULT_LAYOUT));
    let state = parse_layout(DEFAULT_LAYOUT);
    assert_eq!(state.score, 0);
    assert!(state.kings_alive);
    assert_eq!(state.engine_castling, ALL_RIGHTS);
    assert_eq!(state.opponent_castling, ALL_RIGHTS);
    assert_eq!(state.en_passant_midpoint, None);
    assert_eq!(state.board[0][0], piece(PieceClass::Rook, false));
    assert_eq!(state.board[0][1], piece(PieceClass::Knight, false));
    assert_eq!(state.board[0][2], piece(PieceClass::Bishop, false));
    assert_eq!(state.board[0][3], piece(PieceClass::Queen, false));
    assert_eq!(state.board[0][4], piece(PieceClass::King, false));
    assert_eq!(state.board[7][3], piece(PieceClass::Queen, true));
    assert_eq!(state.board[7][4], piece(PieceClass::King, true));
    for x in 0..8 {
        assert_eq!(state.board[1][x], piece(PieceClass::Pawn, false));
        assert_eq!(state.board[6][x], piece(PieceClass::Pawn, true));
        for y in 2..6 {
            assert_eq!(state.board[y][x], None);
        }
    }
}

#[test]
fn the_score_of_a_layout_is_the_balance_of_its_material() {
    assert!(is_layout(LAYOUT));
    let state = parse_layout(LAYOUT);
    assert_eq!(state.score, 5 + 5 + 500 - 500);
    assert_eq!(state.board[7][6], piece(PieceClass::King, true));
    assert_eq!(state.board[0][3], piece(PieceClass::King, false));
    assert_eq!(state.board[5][1], piece(PieceClass::Rook, false));
    let uneven = parse_layout(
        "\n. . . . . . . .\n. . . . . . . .\n. . . . . . . .\n. Q . . . . . .\n. . . . . . . .\n. . n . . . . .\np P . . . . . .\n. . . . b . . .\n",
    );
    assert_eq!(uneven.score, 3 + 1 + 3 - 1 - 9);
}

#[test]
fn a_text_that_is_no_layout_is_told_apart() {
    assert!(!is_layout(""));
    assert!(!is_layout("\n"));
    assert!(!is_layout(&DEFAULT_LAYOUT[1..]));
    assert!(!is_layout(&DEFAULT_LAYOUT.replace("K", "X")));
    assert!(!is_layout(&DEFAULT_LAYOUT.replace("R N", "R-N")));
    assert!(!is_layout(&DEFAULT_LAYOUT.replace("\nP", " P")));
    assert!(!is_layout(&format!("{}\n", DEFAULT_LAYOUT)));
    assert!(!is_layout(&DEFAULT_LAYOUT.replacen("\n", " ", 1)));
    assert!(is_layout(&DEFAULT_LAYOUT.replace("K", ".")));
}

#[test]
fn a_board_is_shown_as_its_layout() {
    let state = parse_layout(DEFAULT_LAYOUT);
    assert_eq!(state.print_direct(), format!("{}\n", DEFAULT_LAYOUT));
    let custom = parse_layout(LAYOUT);
    assert_eq!(custom.print_direct(), format!("{}\n", LAYOUT));
}

#[test]
fn a_layout_that_is_shown_and_read_again_gives_the_same_board() {
    let state = parse_layout(LAYOUT);
    let shown = state.print_direct();
    let again = parse_layout(&shown[..shown.len() - 1]);
    assert_eq!(again.board, state.board);
    assert_eq!(again.score, state.score);
}

#[test]
fn a_board_is_shown_with_ranks_and_files() {
    let state = parse_layout(DEFAULT_LAYOUT);
    assert_eq!(
        state.print(),
        "\n8 R N B Q K B N R\n7 P P P P P P P P\n6 . . . . . . . .\n5 . . . . . . . .\n4 . . . . . . . .\n3 . . . . . . . .\n2 p p p p p p p p\n1 r n b q k b n r\n  a b c d e f g h\n\n"
    );
}

#[test]
fn the_moves_of_a_side_come_file_by_file() {
    let state = parse_layout(DEFAULT_LAYOUT);
    let moves = state.get_possible_moves(false);
    assert_eq!(moves.len(), 20);
    assert_eq!(
        moves[..6],
        [
            Move { enemy: false, move_type: MoveType::Standard(at(0, 1), at(0, 2), false) },
            Move { enemy: false, move_type: MoveType::DoubleAdvance(at(0, 1), at(0, 3)) },
            step(false, at(1, 0), at(2, 2)),
            step(false, at(1, 0), at(0, 2)),
            Move { enemy: false, move_type: MoveType::Standard(at(1, 1), at(1, 2), false) },
            Move { enemy: false, move_type: MoveType::DoubleAdvance(at(1, 1), at(1, 3)) },
        ]
    );
    let replies = state.get_possible_moves(true);
    assert_eq!(replies.len(), 20);
    assert_eq!(
        replies[..4],
        [
            Move { enemy: true, move_type: MoveType::Standard(at(0, 6), at(0, 5), false) },
            Move { enemy: true, move_type: MoveType::DoubleAdvance(at(0, 6), at(0, 4)) },
            Move { enemy: true, move_type: MoveType::Standard(at(1, 6), at(1, 5), false) },
            Move { enemy: true, move_type: MoveType::DoubleAdvance(at(1, 6), at(1, 4)) },
        ]
    );
    assert!(moves.iter().all(|mov| !mov.enemy));
    assert!(replies.iter().all(|mov| mov.enemy));
}

#[test]
fn an_empty_board_has_no_moves() {
    let state = parse_layout(
        "\n. . . . . . . .\n. . . . . . . .\n. . . . . . . .\n. . . . . . . .\n. . . . . . . .\n. . . . . . . .\n. . . . . . . .\n. . . . . . . .\n",
    );
    assert_eq!(state.get_possible_moves(false), vec![]);
    assert_eq!(state.get_possible_moves(true), vec![]);
    assert_eq!(state.get_defended_matrix(), [[0; 8]; 8]);
}

#[test]
fn taking_a_piece_changes_the_score_by_its_value() {
    let state = parse_layout(
        "\n. . . . . . . .\n. . . . . . . .\n. . . . . . . .\n. . . . . . . .\n. . . . . . . .\nQ . . . . . . .\n. . . . . . . .\nr . . . . . . N\n",
    );
    assert_eq!(state.score, 5 - 9 - 3);
    let takes = step(false, at(0, 0), at(0, 2));
    assert!(state.admits(&takes));
    let (next, subtract) = state.perform_move_subtract(&takes);
    assert!(subtract);
    assert_eq!(next.score, 5 - 3);
    assert_eq!(next.board[0][0], None);
    assert_eq!(next.board[2][0], piece(PieceClass::Rook, false));
    assert!(next.kings_alive);
    assert_eq!(state.board[2][0], piece(PieceClass::Queen, true));
    let back = next.perform_move(&step(true, at(7, 0), at(0, 0)));
    assert_eq!(back.score, 5 - 3);
    let loses = state.perform_move(&step(true, at(0, 2), at(0, 0)));
    assert_eq!(loses.score, -9 - 3);
    assert_eq!(loses.board[0][0], piece(PieceClass::Queen, true));
}

#[test]
fn taking_a_king_ends_the_life_of_the_kings() {
    let state = parse_layout(
        "\n. . . . . . . .\n. . . . . . . .\n. . . . . . . .\n. . . . . . . .\n. . . . . . . .\n. . . . . . . .\n. . . . . . . .\nr . . . K . . .\n",
    );
    let next = state.perform_move(&step(false, at(0, 0), at(4, 0)));
    assert!(!next.kings_alive);
    assert_eq!(next.score, 5);
    let still = next.perform_move(&step(false, at(4, 0), at(4, 1)));
    assert!(!still.kings_alive);
}

#[test]
fn a_double_advance_leaves_a_target_for_one_move() {
    let state = parse_layout(DEFAULT_LAYOUT);
    let advance = Move { enemy: false, move_type: MoveType::DoubleAdvance(at(4, 1), at(4, 3)) };
    let (next, subtract) = state.perform_move_subtract(&advance);
    assert!(!subtract);
    assert_eq!(next.en_passant_midpoint, Some(at(4, 2)));
    assert_eq!(next.board[3][4], piece(PieceClass::Pawn, false));
    assert_eq!(next.board[1][4], None);
    let reply = Move { enemy: true, move_type: MoveType::DoubleAdvance(at(3, 6), at(3, 4)) };
    let after = next.perform_move(&reply);
    assert_eq!(after.en_passant_midpoint, Some(at(3, 5)));
    let quiet = after.perform_move(&step(false, at(1, 0), at(2, 2)));
    assert_eq!(quiet.en_passant_midpoint, None);
}

#[test]
fn taking_en_passant_is_on_offer_when_a_pawn_stands_beside() {
    let state = parse_layout(
        "\n. . . . . . . .\n. . . . . . . .\n. . . . . . . .\n. . . . . . . .\n. . . P . . . .\n. . . . . . . .\n. . . . p . . p\n. . . . . . . .\n",
    );
    let advance = Move { enemy: false, move_type: MoveType::DoubleAdvance(at(4, 1), at(4, 3)) };
    assert!(state.get_possible_moves(false).contains(&advance));
    let next = state.perform_move(&advance);
    let taking = Move { enemy: true, move_type: MoveType::EnPassant(at(3, 3), at(4, 2), at(4, 3)) };
    assert!(next.get_possible_moves(true).contains(&taking));
    let far = Move { enemy: false, move_type: MoveType::DoubleAdvance(at(7, 1), at(7, 3)) };
    let other = state.perform_move(&far);
    assert!(other
        .get_possible_moves(true)
        .iter()
        .all(|mov| !matches!(mov.move_type, MoveType::EnPassant(_, _, _))));
}

#[test]
fn taking_en_passant_removes_the_pawn_and_adds_one() {
    let state = parse_layout(
        "\n. . . . . . . .\n. . . . . . . .\n. . . . . . . .\n. . . . . . . .\n. . . P . . . .\n. . . . . . . .\n. . . . p . . .\n. . . . . . . .\n",
    );
    let next = state
        .perform_move(&Move { enemy: false, move_type: MoveType::DoubleAdvance(at(4, 1), at(4, 3)) });
    assert_eq!(next.score, 0);
    let taking = Move { enemy: true, move_type: MoveType::EnPassant(at(3, 3), at(4, 2), at(4, 3)) };
    let (after, subtract) = next.perform_move_subtract(&taking);
    assert!(subtract);
    assert_eq!(after.score, 1);
    assert_eq!(after.board[3][4], None);
    assert_eq!(after.board[3][3], None);
    assert_eq!(after.board[2][4], piece(PieceClass::Pawn, true));
    assert_eq!(after.en_passant_midpoint, None);
    assert!(after.kings_alive);

    let mirrored = parse_layout(
        "\n. . . . . . . .\n. . . P . . . .\n. . . . . . . .\n. . . . p . . .\n. . . . . . . .\n. . . . . . . .\n. . . . . . . .\n. . . . . . . .\n",
    );
    let exposed = mirrored
        .perform_move(&Move { enemy: true, move_type: MoveType::DoubleAdvance(at(3, 6), at(3, 4)) });
    let engine_takes =
        Move { enemy: false, move_type: MoveType::EnPassant(at(4, 4), at(3, 5), at(3, 4)) };
    assert!(exposed.get_possible_moves(false).contains(&engine_takes));
    let taken = exposed.perform_move(&engine_takes);
    assert_eq!(taken.score, 1);
    assert_eq!(taken.board[4][3], None);
    assert_eq!(taken.board[5][3], piece(PieceClass::Pawn, false));
}

#[test]
fn a_promotion_adds_the_difference_to_the_pawn() {
    let state = parse_layout(
        "\n. N . . . . . .\np . . . . . . .\n. . . . . . . .\n. . . . . . . .\n. . . . . . . .\n. . . . . . . .\n. . . . . . . P\n. . . . . . . .\n",
    );
    assert_eq!(state.score, 1 - 3 - 1);
    let queen = Piece { class: PieceClass::Queen, enemy: false };
    let quiet = Move { enemy: false, move_type: MoveType::Promotion(at(0, 6), at(0, 7), queen, false) };
    let (next, subtract) = state.perform_move_subtract(&quiet);
    assert!(!subtract);
    assert_eq!(next.score, 9 - 3 - 1);
    assert_eq!(next.board[7][0], Some(queen));
    assert_eq!(next.board[6][0], None);
    let taking = Move { enemy: false, move_type: MoveType::Promotion(at(0, 6), at(1, 7), queen, true) };
    let (taken, defended) = state.perform_move_subtract(&taking);
    assert!(defended);
    assert_eq!(taken.score, 9 - 1);
    let rook = Piece { class: PieceClass::Rook, enemy: true };
    let under = Move { enemy: true, move_type: MoveType::Promotion(at(7, 1), at(7, 0), rook, false) };
    let lower = state.perform_move(&under);
    assert_eq!(lower.score, 1 - 3 - 5);
    assert_eq!(lower.board[0][7], Some(rook));
}

#[test]
fn castling_moves_the_rook_and_the_king() {
    let state = parse_layout(
        "\nR . . . K . . R\n. . . . . . . .\n. . . . . . . .\n. . . . . . . .\n. . . . . . . .\n. . . . . . . .\n. . . . . . . .\nr . . . k . . r\n",
    );
    let long = Move { enemy: false, move_type: MoveType::Castling(true) };
    assert!(state.get_possible_moves(false).contains(&long));
    let (next, subtract) = state.perform_move_subtract(&long);
    assert!(!subtract);
    assert_eq!(next.board[0][0], None);
    assert_eq!(next.board[0][2], piece(PieceClass::King, false));
    assert_eq!(next.board[0][3], piece(PieceClass::Rook, false));
    assert_eq!(next.board[0][4], None);
    assert_eq!(next.board[0][7], piece(PieceClass::Rook, false));
    assert_eq!(next.engine_castling, NO_RIGHTS);
    assert_eq!(next.opponent_castling, ALL_RIGHTS);
    assert_eq!(next.score, state.score);
    assert!(next
        .get_possible_moves(false)
        .iter()
        .all(|mov| !matches!(mov.move_type, MoveType::Castling(_))));

    let short = Move { enemy: true, move_type: MoveType::Castling(false) };
    assert!(next.get_possible_moves(true).contains(&short));
    let after = next.perform_move(&short);
    assert_eq!(after.board[7][7], None);
    assert_eq!(after.board[7][6], piece(PieceClass::King, true));
    assert_eq!(after.board[7][5], piece(PieceClass::Rook, true));
    assert_eq!(after.board[7][4], None);
    assert_eq!(after.board[7][0], piece(PieceClass::Rook, true));
    assert_eq!(after.opponent_castling, NO_RIGHTS);
}

#[test]
fn castling_rights_that_are_lost_stay_lost() {
    let state = parse_layout(
        "\nR . . . K . . R\n. . . . . . . .\n. . . . . . . .\n. . . . . . . .\n. . . . . . . .\n. . . . . . . .\n. . . . . . . .\nr . . . k . . r\n",
    );
    let rook_out = state.perform_move(&step(false, at(0, 0), at(0, 1)));
    assert_eq!(rook_out.engine_castling, CastlingPossibilities { queenside: false, kingside: true });
    let rook_back = rook_out.perform_move(&step(false, at(0, 1), at(0, 0)));
    assert_eq!(rook_back.engine_castling, CastlingPossibilities { queenside: false, kingside: true });
    assert!(!rook_back
        .get_possible_moves(false)
        .contains(&Move { enemy: false, move_type: MoveType::Castling(true) }));
    assert!(rook_back
        .get_possible_moves(false)
        .contains(&Move { enemy: false, move_type: MoveType::Castling(false) }));
    let other_rook = rook_back.perform_move(&step(false, at(7, 0), at(7, 3)));
    assert_eq!(other_rook.engine_castling, NO_RIGHTS);

    let king_out = state.perform_move(&step(true, at(4, 7), at(4, 6)));
    assert_eq!(king_out.opponent_castling, NO_RIGHTS);
    assert_eq!(king_out.engine_castling, ALL_RIGHTS);
    let king_back = king_out.perform_move(&step(true, at(4, 6), at(4, 7)));
    assert_eq!(king_back.opponent_castling, NO_RIGHTS);
    let mut line = king_back;
    for mov in [
        step(false, at(4, 0), at(4, 1)),
        step(true, at(0, 7), at(0, 0)),
        step(false, at(4, 1), at(4, 0)),
        Move { enemy: true, move_type: MoveType::Castling(false) },
    ] {
        line = line.perform_move(&mov);
        assert_eq!(line.opponent_castling, NO_RIGHTS);
        assert!(!line.engine_castling.queenside || state.engine_castling.queenside);
    }
    assert_eq!(line.engine_castling, NO_RIGHTS);
}

#[test]
fn a_pawn_that_only_advances_did_not_defend_its_square() {
    let state = parse_layout(DEFAULT_LAYOUT);
    let advance = Move { enemy: false, move_type: MoveType::Standard(at(4, 1), at(4, 2), true) };
    let (_, subtract) = state.perform_move_subtract(&advance);
    assert!(!subtract);
    let (_, knight) = state.perform_move_subtract(&step(false, at(1, 0), at(2, 2)));
    assert!(knight);
}

#[test]
fn a_move_is_admitted_when_it_can_be_carried_out() {
    let state = parse_layout(DEFAULT_LAYOUT);
    assert!(state.admits(&step(false, at(0, 0), at(7, 7))));
    assert!(state.admits(&Move { enemy: true, move_type: MoveType::Castling(true) }));
    assert!(!state.admits(&Move { enemy: false, move_type: MoveType::Null }));
    assert!(!state.admits(&step(false, at(0, 0), at(8, 0))));
    assert!(!state.admits(&step(false, at(0, -1), at(0, 0))));
    assert!(!state.admits(&Move {
        enemy: false,
        move_type: MoveType::EnPassant(at(0, 0), at(1, 1), at(1, 8))
    }));
    let full = GameState { score: 32767, ..state };
    assert!(!full.admits(&step(false, at(0, 0), at(7, 7))));
    assert!(full.admits(&step(true, at(7, 7), at(0, 0))));
    assert!(!full.admits(&Move {
        enemy: false,
        move_type: MoveType::EnPassant(at(0, 1), at(1, 2), at(1, 1))
    }));
    assert!(is_on_board(&at(7, 0)));
    assert!(!is_on_board(&at(-1, 0)));
    assert!(!is_on_board(&at(0, 8)));
}

#[test]
fn the_defenders_of_each_square_are_counted() {
    let state = parse_layout(
        "\n. . . . . . . .\n. . . . . . . .\n. . . . . . . .\n. . . . . . . .\n. . . . . . . .\n. . . . . . . .\np p . . . . . .\nk . . . . . . R\n",
    );
    let matrix = state.get_defended_matrix();
    let mut expected = [[0usize; 8]; 8];
    expected[1][1] = 1;
    expected[0][1] = 1;
    expected[1][0] = 1;
    expected[2][1] = 1;
    expected[2][0] = 1;
    expected[2][2] = 1;
    assert_eq!(matrix, expected);
}

#[test]
fn moves_entered_by_hand_are_built() {
    let from = at(4, 1);
    let to = at(4, 3);
    assert_eq!(
        gen_move('1', from, to, true, false, 'q'),
        Move { enemy: false, move_type: MoveType::Standard(from, to, true) }
    );
    assert_eq!(
        gen_move('2', from, to, true, true, 'q'),
        Move { enemy: true, move_type: MoveType::DoubleAdvance(from, to) }
    );
    assert_eq!(
        gen_move('3', at(3, 4), at(4, 5), false, false, 'q'),
        Move { enemy: false, move_type: MoveType::EnPassant(at(3, 4), at(4, 5), at(4, 4)) }
    );
    for (letter, class) in [
        ('b', PieceClass::Bishop),
        ('n', PieceClass::Knight),
        ('r', PieceClass::Rook),
        ('q', PieceClass::Queen),
        ('x', PieceClass::Queen),
    ] {
        assert_eq!(
            gen_move('5', at(0, 6), at(0, 7), false, true, letter),
            Move {
                enemy: true,
                move_type: MoveType::Promotion(at(0, 6), at(0, 7), Piece { class, enemy: true }, false)
            }
        );
    }
}

#[test]
fn a_move_entered_by_hand_gets_its_flag_from_the_position() {
    let state = parse_layout(DEFAULT_LAYOUT);
    assert_eq!(
        get_move(&state, '1', false, at(4, 1), at(4, 2), 'q', false),
        Move { enemy: false, move_type: MoveType::Standard(at(4, 1), at(4, 2), false) }
    );
    assert_eq!(
        get_move(&state, '1', false, at(1, 0), at(2, 2), 'q', false),
        Move { enemy: false, move_type: MoveType::Standard(at(1, 0), at(2, 2), true) }
    );
    assert_eq!(
        get_move(&state, '4', true, at(0, 0), at(0, 0), 'q', true),
        Move { enemy: true, move_type: MoveType::Castling(true) }
    );
    assert_eq!(
        get_move(&state, '9', true, at(0, 0), at(0, 0), 'q', true),
        Move { enemy: true, move_type: MoveType::Null }
    );
    assert_eq!(
        get_move(&state, '2', false, at(4, 1), at(4, 3), 'q', false),
        Move { enemy: false, move_type: MoveType::DoubleAdvance(at(4, 1), at(4, 3)) }
    );
}

#[test]
fn a_step_is_written_with_an_arrow() {
    assert_eq!(standard_move_notation(&at(6, 0), &at(5, 2)), "g1 -> f3");
}

#[test]
fn a_position_is_in_range_when_its_score_cannot_leave_it() {
    let start = parse_layout(DEFAULT_LAYOUT);
    assert!(start.is_in_range());
    assert!(start.target_is_sound());
    let two_kings = parse_layout(
        "\n. . . . . . . .\n. . . . . . . .\n. . . . . . . .\n. . . . . . . .\n. . . . . . . .\n. . . . . . . .\n. . . . . . . .\nk . . . . . . k\n",
    );
    assert!(!two_kings.is_in_range());
    let two_enemy_kings = parse_layout(
        "\n. . . . . . . .\n. . . . . . . .\n. . . . . . . .\n. . . . . . . .\n. . . . . . . .\n. . . . . . . .\n. . . . . . . .\nK . . . . . . K\n",
    );
    assert!(two_enemy_kings.is_in_range());
    let three_enemy_kings = parse_layout(
        "\n. . . . . . . .\n. . . . . . . .\n. . . . . . . .\n. . . . . . . .\n. . . . . . . .\n. . . . . . . .\n. . . . . . . .\nK . . K . . . K\n",
    );
    assert!(!three_enemy_kings.is_in_range());
    let king_and_pawn = parse_layout(
        "\n. . . . . . . .\n. . . . . . . .\n. . . . . . . .\n. . . . . . . .\n. . . . . . . .\n. . . . . . . .\np . . . . . . .\nk . . . . . . .\n",
    );
    assert!(king_and_pawn.is_in_range());
    assert!(GameState { score: 501 + 490, ..king_and_pawn }.is_in_range());
    assert!(!GameState { score: 501 + 491, ..king_and_pawn }.is_in_range());
    assert!(GameState { score: -499, ..king_and_pawn }.is_in_range());
    assert!(!GameState { score: -500, ..king_and_pawn }.is_in_range());
}

#[test]
fn an_en_passant_target_is_sound_behind_a_pawn_that_advanced() {
    let state = parse_layout(
        "\n. . . . . . . .\n. . . . . . . .\n. . . . . . . .\n. . . P . . . .\n. . . . p . . n\n. . . . . . . .\n. . . . . . . .\n. . . . . . . .\n",
    );
    let with = |target: Vect| GameState { en_passant_midpoint: Some(target), ..state };
    assert!(with(at(4, 2)).target_is_sound());
    assert!(with(at(4, 2)).is_in_range());
    assert!(with(at(3, 5)).target_is_sound());
    assert!(!with(at(3, 2)).target_is_sound());
    assert!(!with(at(4, 5)).target_is_sound());
    assert!(!with(at(7, 2)).target_is_sound());
    assert!(!with(at(4, 3)).target_is_sound());
    assert!(!with(at(8, 2)).target_is_sound());
    assert!(!with(at(4, -1)).target_is_sound());
    assert!(!with(at(3, 2)).is_in_range());
}
