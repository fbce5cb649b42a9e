//! The development of a move: how well it places the pieces of the engine.
//! It ranks the moves that a search has found to be equally good, and a
//! share of it is left to chance.
//!
//! The development is counted in sixtieths, and the number drawn for a move
//! in steps of 2 to the power -24, so that all of it is done in whole
//! numbers.

use crate::gamestate::{at, GameState, Position};
use crate::material::{lemma_offered_move_plays, lemma_play_keeps_range};
use crate::moves::{piece_at, square, Move, MoveType};
use crate::pieces::PieceClass;
use crate::settings::RANDOM_PERCENT;
use crate::utils::{on_board, Vect};
use rand::Rng;
use vstd::prelude::*;

verus! {

/// The squares that a move goes from and to, and whether the mover counted
/// among the defenders of its destination. Castling has none.
pub open spec fn move_data(mov: Move) -> Option<(Vect, Vect, bool)> {
    match mov.move_type {
        MoveType::Standard(from, to, subtract) => Some((from, to, subtract)),
        MoveType::DoubleAdvance(from, to) => Some((from, to, false)),
        MoveType::EnPassant(from, to, _) => Some((from, to, true)),
        MoveType::Castling(_) => None,
        MoveType::Promotion(from, to, _, subtract) => Some((from, to, subtract)),
        MoveType::Null => None,
    }
}

/// The squares that a move goes from and to, with its flag.
pub fn get_move_type_data(mov: &Move) -> (data: Option<(Vect, Vect, bool)>)
    requires
        mov.move_type !is Null,
    ensures
        data == move_data(*mov),
{
    match mov.move_type {
        MoveType::Standard(from, to, subtract) => Some((from, to, subtract)),
        MoveType::DoubleAdvance(from, to) => Some((from, to, false)),
        MoveType::EnPassant(from, to, _) => Some((from, to, true)),
        MoveType::Castling(_) => None,
        MoveType::Promotion(from, to, _, subtract) => Some((from, to, subtract)),
        MoveType::Null => None,
    }
}

/// Whether a move starts from a square of the board on which a piece
/// stands, or is castling.
pub open spec fn starts_on_piece(pos: Position, mov: Move) -> bool {
    move_data(mov) matches Some(data) ==> on_board(data.0) && piece_at(pos.squares, data.0) is Some
}

/// One for a move of a pawn while the engine is not far ahead, else zero.
pub open spec fn pawn_score(pos: Position, mov: Move) -> nat {
    if pos.score > 20 {
        0
    } else {
        match move_data(mov) {
            Some(data) => match piece_at(pos.squares, data.0) {
                Some(piece) => if piece.class == PieceClass::Pawn {
                    1
                } else {
                    0
                },
                None => 0,
            },
            None => 0,
        }
    }
}

/// Favours moving pawns until the engine is far ahead.
pub fn get_pawn_score(game_state: &GameState, mov: &Move) -> (score: u8)
    requires
        mov.move_type !is Null,
        starts_on_piece(game_state@, *mov),
    ensures
        score == pawn_score(game_state@, *mov),
{
    if game_state.score > 20 {
        return 0;
    }
    let from = match get_move_type_data(mov) {
        Some((from, _, _)) => from,
        None => {
            return 0;
        },
    };
    match square(&game_state.board, &from) {
        Some(piece) => match piece.class {
            PieceClass::Pawn => 1,
            _ => 0,
        },
        None => 0,
    }
}

/// The number of defenders of the destination of a move, the mover itself
/// not counted; zero for castling.
pub open spec fn defended_score(matrix: [[usize; 8]; 8], mov: Move) -> nat {
    match move_data(mov) {
        Some(data) => {
            let count = matrix[data.1.y as int][data.1.x as int];
            if data.2 && count > 0 {
                (count - 1) as nat
            } else {
                count as nat
            }
        },
        None => 0,
    }
}

/// Favours moves to squares that other pieces of the engine defend.
pub fn get_defended_score(defended_matrix: &[[usize; 8]; 8], mov: &Move) -> (score: usize)
    requires
        mov.move_type !is Null,
        move_data(*mov) matches Some(data) ==> on_board(data.1),
    ensures
        score == defended_score(*defended_matrix, *mov),
{
    let (dest, subtract) = match get_move_type_data(mov) {
        Some((_, to, sub)) => (to, sub),
        None => {
            return 0;
        },
    };
    let score = defended_matrix[dest.y as usize][dest.x as usize];
    if subtract && score > 0 {
        score - 1
    } else {
        score
    }
}

/// What the places of a move are worth: for a king, one on the first rank;
/// for another piece that leaves the first two ranks, two, one more beyond
/// the third rank, and one more on the two centre files.
pub open spec fn position_score(pos: Position, mov: Move) -> nat {
    match move_data(mov) {
        Some(data) => {
            let (from, to) = (data.0, data.1);
            let king = piece_at(pos.squares, from) matches Some(piece) && piece.class
                == PieceClass::King;
            if king {
                if to.y == 0 {
                    1
                } else {
                    0
                }
            } else if from.y < 2 && to.y >= 2 {
                2 + (if to.y > 2 {
                    1nat
                } else {
                    0nat
                }) + (if to.x == 3 || to.x == 4 {
                    1nat
                } else {
                    0nat
                })
            } else {
                0
            }
        },
        None => 0,
    }
}

/// Favours moves up the board and to the centre, and a king that stays
/// back.
pub fn get_position_score(game_state: &GameState, mov: &Move) -> (score: u8)
    requires
        mov.move_type !is Null,
        move_data(*mov) matches Some(data) ==> on_board(data.0),
    ensures
        score == position_score(game_state@, *mov),
{
    let (from, to) = match get_move_type_data(mov) {
        Some((from, to, _)) => (from, to),
        None => {
            return 0;
        },
    };
    match square(&game_state.board, &from) {
        Some(piece) => match piece.class {
            PieceClass::King => {
                return if to.y == 0 {
                    1
                } else {
                    0
                };
            },
            _ => (),
        },
        None => (),
    }
    let mut score: u8 = 0;
    // Prefer moving up
    if from.y < 2 && to.y >= 2 {
        score = score + 2;
        if to.y > 2 {
            score = score + 1;
        }
        // Prefer centre
        if to.x == 3 || to.x == 4 {
            score = score + 1;
        }
    }
    score
}

/// By how many the moves of the opponent fall short of twenty.
pub open spec fn trap_score(pos: Position) -> nat {
    let count = pos.possible_moves(true).len();
    if count < 20 {
        (20 - count) as nat
    } else {
        0
    }
}

/// Favours positions in which the opponent has few moves.
pub fn get_opponent_trap_score(new_state: &GameState) -> (score: usize)
    ensures
        score == trap_score(new_state@),
{
    let count = new_state.get_possible_moves(true).len();
    if count < 20 {
        20 - count
    } else {
        0
    }
}

/// Whether the development of a move can be asked for in a position: the
/// move can be carried out, and it is castling or starts on a piece.
pub open spec fn scorable(pos: Position, mov: Move) -> bool {
    pos.admits(mov) && starts_on_piece(pos, mov)
}

/// The number of pieces of the engine that defend the destination of a
/// move, the mover itself not counted; zero for castling.
pub open spec fn defended_by_others(pos: Position, mov: Move) -> nat {
    match move_data(mov) {
        Some(data) => {
            let count = pos.defenders(at(data.1.x as int, data.1.y as int));
            if data.2 && count > 0 {
                (count - 1) as nat
            } else {
                count
            }
        },
        None => 0,
    }
}

/// The smaller of two numbers.
pub open spec fn at_most(value: nat, limit: nat) -> nat {
    if value < limit {
        value
    } else {
        limit
    }
}

/// The development of a move, in sixtieths. While the engine is more than
/// twelve ahead: one for each move that the opponent has fewer than twenty
/// afterwards, and twenty for a move of a pawn. Else: twenty where another
/// piece defends the destination, and ten for each point of what the places
/// of the move are worth, up to four.
pub open spec fn development(pos: Position, mov: Move) -> nat {
    if pos.score > 12 {
        trap_score(pos.after(mov)) + 20 * pawn_score(pos, mov)
    } else {
        20 * at_most(defended_by_others(pos, mov), 1) + 10 * at_most(position_score(pos, mov), 4)
    }
}

/// What a move is ranked by: its development, less the share that is left
/// to chance, and that share of the number drawn for it. The number drawn
/// counts by its upper 24 bits.
pub open spec fn development_key(development: nat, draw: u32) -> nat {
    development * (100 - RANDOM_PERCENT) as nat * 0x100_0000 + (draw / 256) as nat
        * RANDOM_PERCENT as nat * 60
}

/// The move that ranks highest among the first `count`, with its key: the
/// first of those with the greatest key.
pub open spec fn best_upto(pos: Position, moves: Seq<Move>, draws: Seq<u32>, count: nat) -> Option<
    (Move, nat),
>
    decreases count,
{
    if count == 0 {
        None
    } else {
        let before = best_upto(pos, moves, draws, (count - 1) as nat);
        let key = development_key(development(pos, moves[count - 1]), draws[count - 1]);
        match before {
            Some(best) => if key > best.1 {
                Some((moves[count - 1], key))
            } else {
                before
            },
            None => Some((moves[count - 1], key)),
        }
    }
}

/// The move that ranks highest, or no move where there is none to rank.
pub open spec fn chosen(pos: Position, moves: Seq<Move>, draws: Seq<u32>) -> Move {
    match best_upto(pos, moves, draws, moves.len()) {
        Some(best) => best.0,
        None => Move { enemy: false, move_type: MoveType::Null },
    }
}

/// Whether the development of a move can be asked for.
pub fn can_be_scored(game_state: &GameState, mov: &Move) -> (can: bool)
    ensures
        can == scorable(game_state@, *mov),
{
    if !game_state.admits(mov) {
        return false;
    }
    match get_move_type_data(mov) {
        Some((from, _, _)) => square(&game_state.board, &from).is_some(),
        None => true,
    }
}

/// The development of a move, in sixtieths.
pub fn get_development(game_state: &GameState, defended_matrix: &[[usize; 8]; 8], mov: &Move) -> (sixtieths:
    u64)
    requires
        scorable(game_state@, *mov),
        forall|x: int, y: int|
            0 <= x < 8 && 0 <= y < 8 ==> #[trigger] defended_matrix[y][x] == game_state@.defenders(
                at(x, y),
            ),
    ensures
        sixtieths == development(game_state@, *mov),
        sixtieths <= 60,
{
    proof {
        reveal(Position::after);
    }
    if game_state.score > 12 {
        let new_state = game_state.perform_move(mov);
        let trap = get_opponent_trap_score(&new_state) as u64;
        let pawn = get_pawn_score(game_state, mov) as u64;
        trap + 20 * pawn
    } else {
        let defended = get_defended_score(defended_matrix, mov);
        let position = get_position_score(game_state, mov) as u64;
        let first: u64 = if defended < 1 {
            0
        } else {
            1
        };
        let second: u64 = if position < 4 {
            position
        } else {
            4
        };
        20 * first + 10 * second
    }
}

/// The move that ranks highest when `draws` holds the number drawn for each
/// move.
pub fn rank_development(game_state: &GameState, moves: &Vec<Move>, draws: &Vec<u32>) -> (best_move:
    Move)
    requires
        draws.len() == moves.len(),
        forall|i: int| 0 <= i < moves.len() ==> scorable(game_state@, #[trigger] moves[i]),
    ensures
        best_move == chosen(game_state@, moves@, draws@),
{
    let ghost pos = game_state@;
    let mut best_key: u64 = 0;
    let mut best_move = Move { enemy: false, move_type: MoveType::Null };
    let mut found = false;
    let defended_matrix = game_state.get_defended_matrix();
    let mut i: usize = 0;
    while i < moves.len()
        invariant
            i <= moves.len(),
            draws.len() == moves.len(),
            pos == game_state@,
            forall|k: int| 0 <= k < moves.len() ==> scorable(pos, #[trigger] moves[k]),
            forall|x: int, y: int|
                0 <= x < 8 && 0 <= y < 8 ==> #[trigger] defended_matrix[y][x] == pos.defenders(
                    at(x, y),
                ),
            found == best_upto(pos, moves@, draws@, i as nat) is Some,
            found ==> best_upto(pos, moves@, draws@, i as nat) == Some((best_move, best_key as nat)),
            !found ==> best_move == (Move { enemy: false, move_type: MoveType::Null }),
        decreases moves.len() - i,
    {
        let dev = get_development(game_state, &defended_matrix, &moves[i]);
        let key: u64 = dev * (100 - RANDOM_PERCENT) * 0x100_0000 + (draws[i] / 256) as u64
            * RANDOM_PERCENT * 60;
        if !found || key > best_key {
            best_move = moves[i];
            best_key = key;
            found = true;
        }
        i = i + 1;
    }
    best_move
}

/// `Rng::gen` of rand, for a `u32`, on the generator that `thread_rng`
/// hands out: 32 bits drawn at random. Nothing is claimed of them. These are
/// the bits from which rand makes a number between 0 and 1 of 24 bits. The
/// generator stops the program if the system gives it no seed.
#[verifier::external_body]
fn draw() -> (bits: u32) {
    rand::thread_rng().gen::<u32>()
}

/// Picks one of the moves by its development and by chance: a number is
/// drawn for each move, and the move that ranks highest with its number
/// is returned.
pub fn find_best_development(game_state: &GameState, moves: Vec<Move>) -> (best_move: Move)
    requires
        forall|i: int| 0 <= i < moves.len() ==> scorable(game_state@, #[trigger] moves[i]),
    ensures
        exists|draws: Seq<u32>|
            draws.len() == moves.len() && best_move == #[trigger] chosen(
                game_state@,
                moves@,
                draws,
            ),
{
    let mut draws: Vec<u32> = Vec::new();
    let mut i: usize = 0;
    while i < moves.len()
        invariant
            i <= moves.len(),
            draws.len() == i,
        decreases moves.len() - i,
    {
        draws.push(draw());
        i = i + 1;
    }
    rank_development(game_state, &moves, &draws)
}

/// The development of every move that a position in range offers can be
/// asked for.
pub proof fn lemma_offered_moves_are_scorable(pos: Position, mov: Move)
    requires
        pos.in_range(),
        pos.offers(mov),
    ensures
        scorable(pos, mov),
{
    lemma_offered_move_plays(pos, mov);
    lemma_play_keeps_range(pos, mov);
    reveal(Position::plays);
}

/// The move that is chosen among some moves is one of them.
pub proof fn lemma_chosen_is_given(pos: Position, moves: Seq<Move>, best_move: Move)
    requires
        moves.len() > 0,
        exists|draws: Seq<u32>|
            draws.len() == moves.len() && best_move == #[trigger] chosen(pos, moves, draws),
    ensures
        moves.contains(best_move),
{
    let draws = choose|draws: Seq<u32>|
        draws.len() == moves.len() && best_move == #[trigger] chosen(pos, moves, draws);
    lemma_best_is_given(pos, moves, draws, moves.len());
}

/// The move that ranks highest among the first moves is one of the moves.
proof fn lemma_best_is_given(pos: Position, moves: Seq<Move>, draws: Seq<u32>, count: nat)
    requires
        count <= moves.len(),
    ensures
        count > 0 ==> (best_upto(pos, moves, draws, count) matches Some(best) && moves.contains(
            best.0,
        )),
        count == 0 ==> best_upto(pos, moves, draws, count) is None,
    decreases count,
{
    if count > 0 {
        lemma_best_is_given(pos, moves, draws, (count - 1) as nat);
        assert(moves.contains(moves[count - 1]));
    }
}

} // verus!
