use chess_engine::development::{
    can_be_scored, find_best_development, get_defended_score, get_development,
    get_move_type_data, get_opponent_trap_score, get_pawn_score, get_position_score,
    rank_development,
};
use chess_engine::gamestate::{parse_layout, GameState, DEFAULT_LAYOUT};
use chess_engine::moves::{Move, MoveType};
use chess_engine::pieces::{Piece, PieceClass};
use chess_engine::utils::Vect;

fn at(x: i8, y: i8) -> Vect {
    Vect { x, y }
}

#[test]
fn the_squares_of_a_move_are_read_off() {
    let queen = Piece { class: PieceClass::Queen, enemy: false };
    let cases = [
        (MoveType::Standard(at(1, 0), at(2, 2), true), Some((at(1, 0), at(2, 2), true))),
        (MoveType::Standard(at(1, 1), at(1, 2), false), Some((at(1, 1), at(1, 2), false))),
        (MoveType::DoubleAdvance(at(1, 1), at(1, 3)), Some((at(1, 1), at(1, 3), false))),
        (MoveType::EnPassant(at(3, 4), at(4, 5), at(4, 4)), Some((at(3, 4), at(4, 5), true))),
        (MoveType::Castling(true), None),
        (MoveType::Promotion(at(0, 6), at(0, 7), queen, false), Some((at(0, 6), at(0, 7), false))),
    ];
    for (move_type, expected) in cases {
        assert_eq!(get_move_type_data(&Move { enemy: false, move_type }), expected);
    }
}

#[test]
fn pawn_moves_are_favoured_until_the_engine_is_far_ahead() {
    let state = parse_layout(DEFAULT_LAYOUT);
    let pawn = Move { enemy: false, move_type: MoveType::Standard(at(4, 1), at(4, 2), false) };
    let knight = Move { enemy: false, move_type: MoveType::Standard(at(1, 0), at(2, 2), true) };
    let castle = Move { enemy: false, move_type: MoveType::Castling(false) };
    assert_eq!(get_pawn_score(&state, &pawn), 1);
    assert_eq!(get_pawn_score(&state, &knight), 0);
    assert_eq!(get_pawn_score(&state, &castle), 0);
    let ahead = GameState { score: 21, ..state };
    assert_eq!(get_pawn_score(&ahead, &pawn), 0);
    let level = GameState { score: 20, ..state };
    assert_eq!(get_pawn_score(&level, &pawn), 1);
}

#[test]
fn the_mover_is_not_counted_among_the_defenders() {
    let mut matrix = [[0usize; 8]; 8];
    matrix[2][2] = 3;
    matrix[2][4] = 1;
    let defended = Move { enemy: false, move_type: MoveType::Standard(at(1, 0), at(2, 2), true) };
    assert_eq!(get_defended_score(&matrix, &defended), 2);
    let advance = Move { enemy: false, move_type: MoveType::Standard(at(2, 1), at(2, 2), false) };
    assert_eq!(get_defended_score(&matrix, &advance), 3);
    let alone = Move { enemy: false, move_type: MoveType::Standard(at(5, 0), at(4, 2), true) };
    assert_eq!(get_defended_score(&matrix, &alone), 0);
    let nowhere = Move { enemy: false, move_type: MoveType::Standard(at(5, 0), at(0, 0), true) };
    assert_eq!(get_defended_score(&matrix, &nowhere), 0);
    let castle = Move { enemy: false, move_type: MoveType::Castling(true) };
    assert_eq!(get_defended_score(&matrix, &castle), 0);
}

#[test]
fn moves_up_the_board_and_to_the_centre_are_favoured() {
    let state = parse_layout(DEFAULT_LAYOUT);
    let score = |from: Vect, to: Vect| {
        get_position_score(
            &state,
            &Move { enemy: false, move_type: MoveType::Standard(from, to, true) },
        )
    };
    assert_eq!(score(at(0, 1), at(0, 2)), 2);
    assert_eq!(score(at(0, 1), at(0, 3)), 3);
    assert_eq!(score(at(3, 1), at(3, 2)), 3);
    assert_eq!(score(at(4, 1), at(4, 3)), 4);
    assert_eq!(score(at(1, 0), at(2, 2)), 2);
    assert_eq!(score(at(1, 0), at(3, 1)), 0);
    assert_eq!(score(at(4, 0), at(4, 1)), 0);
    assert_eq!(score(at(4, 0), at(3, 0)), 1);
    assert_eq!(
        get_position_score(&state, &Move { enemy: false, move_type: MoveType::Castling(false) }),
        0
    );
}

#[test]
fn an_opponent_with_few_moves_is_favoured() {
    let start = parse_layout(DEFAULT_LAYOUT);
    assert_eq!(get_opponent_trap_score(&start), 0);
    let few = parse_layout(
        "\n. . . . . . . .\n. . . . . . . .\n. . . . . . . .\n. . . . . . . .\n. . . . . . . .\n. . . . . . . .\n. . . . . . . .\nK . . . . . . k\n",
    );
    assert_eq!(get_opponent_trap_score(&few), 17);
    let none = parse_layout(
        "\n. . . . . . . .\n. . . . . . . .\n. . . . . . . .\n. . . . . . . .\n. . . . . . . .\n. . . . . . . .\n. . . . . . . .\n. . . . . . . k\n",
    );
    assert_eq!(get_opponent_trap_score(&none), 20);
}

fn opening_moves() -> [Move; 4] {
    [
        Move { enemy: false, move_type: MoveType::Standard(at(4, 1), at(4, 2), false) },
        Move { enemy: false, move_type: MoveType::DoubleAdvance(at(4, 1), at(4, 3)) },
        Move { enemy: false, move_type: MoveType::Standard(at(1, 0), at(2, 2), true) },
        Move { enemy: false, move_type: MoveType::Standard(at(0, 1), at(0, 2), false) },
    ]
}

#[test]
fn the_development_of_a_move_is_counted_in_sixtieths() {
    let state = parse_layout(DEFAULT_LAYOUT);
    let matrix = state.get_defended_matrix();
    let [centre, double, knight, edge] = opening_moves();
    assert_eq!(get_development(&state, &matrix, &centre), 20 + 30);
    assert_eq!(get_development(&state, &matrix, &double), 40);
    assert_eq!(get_development(&state, &matrix, &knight), 20 + 20);
    assert_eq!(get_development(&state, &matrix, &edge), 20 + 20);
    let castle = Move { enemy: false, move_type: MoveType::Castling(false) };
    assert_eq!(get_development(&state, &matrix, &castle), 0);

    let ahead = parse_layout(
        "\n. . . . . . . K\n. . . . . . . .\n. . . . . . . .\n. . . . . . . .\n. . . . . . . .\n. . . . . . . .\np . . . . . . .\nk q q . . . . .\n",
    );
    assert_eq!(ahead.score, 19);
    let counts = ahead.get_defended_matrix();
    let pawn = Move { enemy: false, move_type: MoveType::Standard(at(0, 1), at(0, 2), false) };
    assert_eq!(get_development(&ahead, &counts, &pawn), 17 + 20);
    let queen = Move { enemy: false, move_type: MoveType::Standard(at(1, 0), at(7, 6), true) };
    assert_eq!(get_development(&ahead, &counts, &queen), 17);
}

#[test]
fn the_move_with_the_greatest_key_is_chosen() {
    let state = parse_layout(DEFAULT_LAYOUT);
    let moves = opening_moves().to_vec();
    let [centre, double, knight, edge] = opening_moves();
    assert_eq!(rank_development(&state, &moves, &vec![0, 0, 0, 0]), centre);
    assert_eq!(rank_development(&state, &moves, &vec![0, u32::MAX, 0, 0]), double);
    assert_eq!(rank_development(&state, &moves, &vec![0, 0, 0, u32::MAX]), edge);
    assert_eq!(rank_development(&state, &moves, &vec![u32::MAX; 4]), centre);
    let level = vec![double, knight];
    assert_eq!(rank_development(&state, &level, &vec![0, 0]), double);
    assert_eq!(rank_development(&state, &level, &vec![0, 255]), double);
    assert_eq!(rank_development(&state, &level, &vec![0, 256]), knight);
    assert_eq!(rank_development(&state, &level, &vec![512, 256]), double);
    // A third of the range of the draws outweighs ten sixtieths of development.
    assert_eq!(rank_development(&state, &vec![centre, double], &vec![0, 0x4f00_0000]), centre);
    assert_eq!(rank_development(&state, &vec![centre, double], &vec![0, 0x5000_0000]), double);
    assert_eq!(
        rank_development(&state, &vec![], &vec![]),
        Move { enemy: false, move_type: MoveType::Null }
    );
}

#[test]
fn a_move_is_picked_among_those_given() {
    let state = parse_layout(DEFAULT_LAYOUT);
    let moves = state.get_possible_moves(false);
    assert!(moves.iter().all(|mov| can_be_scored(&state, mov)));
    for _ in 0..20 {
        let picked = find_best_development(&state, moves.clone());
        assert!(moves.contains(&picked));
    }
    assert_eq!(
        find_best_development(&state, vec![]),
        Move { enemy: false, move_type: MoveType::Null }
    );
    let [centre, ..] = opening_moves();
    assert_eq!(find_best_development(&state, vec![centre]), centre);
}

#[test]
fn only_moves_that_can_be_carried_out_from_a_piece_are_scored() {
    let state = parse_layout(DEFAULT_LAYOUT);
    assert!(can_be_scored(&state, &Move { enemy: false, move_type: MoveType::Castling(true) }));
    assert!(!can_be_scored(&state, &Move { enemy: false, move_type: MoveType::Null }));
    assert!(!can_be_scored(
        &state,
        &Move { enemy: false, move_type: MoveType::Standard(at(4, 3), at(4, 4), false) }
    ));
    assert!(!can_be_scored(
        &state,
        &Move { enemy: false, move_type: MoveType::Standard(at(4, 1), at(4, 8), false) }
    ));
}
