//! The move of the engine: a search, then the choice among the moves that
//! the search found equally good.

use crate::agreement::{lemma_best_moves_are_offered, lemma_some_move_is_best};
use crate::development::{
    chosen, find_best_development, lemma_chosen_is_given, lemma_offered_moves_are_scorable,
    scorable,
};
use crate::gamestate::GameState;
use crate::moves::Move;
use crate::settings::PRUNING;
use crate::simulation::{analyse, lemma_root_reports_no_check, AnalysisResult, MAX_DEPTH};
use vstd::prelude::*;

verus! {

/// Searches the position and picks the move of the engine. Returns no move
/// where every move of the engine loses its king, else one of the moves
/// that the search found best, picked by development and by chance; and
/// what the search reported.
pub fn find_best_move(game_state: &GameState, recursion_depth: u8) -> (found: (
    Option<Move>,
    AnalysisResult,
))
    requires
        game_state@.in_range(),
        game_state.kings_alive,
        1 <= recursion_depth <= MAX_DEPTH,
        !game_state@.probe().in_check,
    ensures
        found.1@ == game_state@.search(recursion_depth as nat, true, PRUNING).clipped(),
        found.0 is None == found.1.engine_no_moves,
        found.0 matches Some(best_move) ==> (found.1@.best_moves matches Some(moves) && moves.contains(
            best_move,
        ) && exists|draws: Seq<u32>|
            draws.len() == moves.len() && best_move == #[trigger] chosen(
                game_state@,
                moves,
                draws,
            )),
{
    let analysis = analyse(game_state, recursion_depth, true);
    let ghost pos = game_state@;
    proof {
        lemma_best_moves_are_offered(pos, recursion_depth as nat, true, PRUNING);
        lemma_some_move_is_best(pos, recursion_depth as nat, PRUNING);
        lemma_root_reports_no_check(pos, recursion_depth as nat, PRUNING);
    }
    if analysis.engine_no_moves {
        return (None, analysis);
    }
    let moves = match &analysis.best_moves {
        Some(moves) => moves.clone(),
        None => Vec::new(),
    };
    proof {
        assert forall|i: int| 0 <= i < moves.len() implies scorable(
            pos,
            #[trigger] moves[i],
        ) by {
            lemma_offered_moves_are_scorable(pos, moves[i]);
        }
    }
    let best_move = find_best_development(game_state, moves);
    proof {
        lemma_chosen_is_given(pos, moves@, best_move);
    }
    (Some(best_move), analysis)
}

} // verus!
