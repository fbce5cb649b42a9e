//! That a search finds the same whether or not it prunes.

use crate::gamestate::Position;
use crate::material::{lemma_in_range_score, lemma_play_keeps_range, lemma_possible_moves_play};
use crate::pieces::{MAX_SCORE, SCORE_RANGE};
use crate::simulation::{absorb, radix, Analysis, Outcome, Round, Tally};
use vstd::prelude::*;

verus! {

/// Whether two reports agree in all but the number of moves tried out.
pub open spec fn same_verdict(a: Analysis, b: Analysis) -> bool {
    &&& a.best_moves == b.best_moves
    &&& a.score_buffer == b.score_buffer
    &&& a.end_score == b.end_score
    &&& a.opponent_in_check == b.opponent_in_check
    &&& a.engine_no_moves == b.engine_no_moves
    &&& a.valid_moves == b.valid_moves
}

/// Whether two rounds agree in all but the number of moves tried out.
pub open spec fn same_round(a: Round, b: Round) -> bool {
    &&& a.best_moves == b.best_moves
    &&& a.best == b.best
    &&& a.end_score == b.end_score
    &&& a.valid_moves == b.valid_moves
    &&& a.check == b.check
}

/// How the tally of a search that prunes stands to the tally of one that
/// does not: they agree, or the first has stopped below `best` and the
/// second is below `best` too.
pub open spec fn tallies_agree(pruned: Tally, full: Tally, best: int) -> bool {
    &&& pruned.found == full.found
    &&& 0 <= full.worst && 0 <= pruned.worst
    &&& {
        ||| pruned.worst == full.worst && pruned.end_score == full.end_score && pruned.stopped
            == full.stopped
        ||| pruned.found && pruned.stopped && pruned.worst < best && full.worst < best
    }
}

/// How the outcome of a candidate in a search that prunes stands to its
/// outcome in one that does not: they agree, or both are below `best`.
pub open spec fn outcomes_agree(pruned: Outcome, full: Outcome, best: int) -> bool {
    &&& pruned.valid == full.valid
    &&& full.valid ==> {
        &&& 0 <= full.worst
        &&& 0 <= pruned.worst
        &&& {
            ||| pruned.worst == full.worst && pruned.end_score == full.end_score
            ||| pruned.worst < best && full.worst < best
        }
    }
}

/// The powers of `SCORE_RANGE` are positive.
pub proof fn lemma_radix_positive(digits: nat)
    ensures
        radix(digits) >= 1,
    decreases digits,
{
    if digits > 0 {
        lemma_radix_positive((digits - 1) as nat);
        assert(2000 * radix((digits - 1) as nat) >= 1) by (nonlinear_arith)
            requires
                radix((digits - 1) as nat) >= 1,
        ;
    }
}

/// The tallies of a search that prunes and of one that does not agree
/// after any number of replies.
proof fn lemma_tallies_agree(pos: Position, depth: nat, best: int, pruning: bool, count: nat)
    requires
        pos.in_range(),
        depth >= 1,
        best >= 0,
        count <= pos.possible_moves(true).len(),
    ensures
        tallies_agree(
            pos.tally_upto(depth, best, pruning, count),
            pos.tally_upto(depth, best, false, count),
            best,
        ),
        pos.tally_upto(depth, best, false, count).found ==> pos.tally_upto(
            depth,
            best,
            false,
            count,
        ).worst < radix(depth),
    decreases depth, 0nat, count,
{
    if count > 0 {
        lemma_tallies_agree(pos, depth, best, pruning, (count - 1) as nat);
        lemma_possible_moves_play(pos, true);
        lemma_play_keeps_range(pos, pos.possible_moves(true)[count - 1]);
        let next = pos.reply(count - 1);
        lemma_verdicts_agree(next, (depth - 1) as nat, false, pruning);
        let pruned_before = pos.tally_upto(depth, best, pruning, (count - 1) as nat);
        let full_before = pos.tally_upto(depth, best, false, (count - 1) as nat);
        let pruned_reply = next.search((depth - 1) as nat, false, pruning);
        let full_reply = next.search((depth - 1) as nat, false, false);
        let pruned_after = pos.tally_upto(depth, best, pruning, count);
        let full_after = pos.tally_upto(depth, best, false, count);
        assert(pruned_after == if pruned_before.stopped {
            pruned_before
        } else {
            absorb(pruned_before, pruned_reply, best, pruning)
        });
        assert(full_after == if full_before.stopped {
            full_before
        } else {
            absorb(full_before, full_reply, best, false)
        });
    }
}

/// What a candidate guarantees in a search that prunes agrees with what it
/// guarantees in one that does not.
proof fn lemma_outcomes_agree(pos: Position, depth: nat, best: int, pruning: bool)
    requires
        pos.in_range(),
        depth >= 1,
        best >= 0,
    ensures
        outcomes_agree(
            pos.outcome(depth, best, pruning),
            pos.outcome(depth, best, false),
            best,
        ),
        pos.outcome(depth, best, false).worst < radix(depth),
    decreases depth, 1nat, 0nat,
{
    lemma_tallies_agree(pos, depth, best, pruning, pos.possible_moves(true).len());
    lemma_radix_positive(depth);
    lemma_radix_positive((depth - 1) as nat);
}

/// The rounds of a search that prunes and of one that does not agree after
/// any number of candidates.
proof fn lemma_rounds_agree(pos: Position, depth: nat, root: bool, pruning: bool, count: nat)
    requires
        pos.in_range(),
        depth >= 1,
        count <= pos.possible_moves(false).len(),
    ensures
        same_round(
            pos.round_upto(depth, root, pruning, count),
            pos.round_upto(depth, root, false, count),
        ),
        0 <= pos.round_upto(depth, root, false, count).best < radix(depth),
        pos.round_upto(depth, root, false, count).check matches Some(score) ==> 0 <= score
            + MAX_SCORE < SCORE_RANGE,
    decreases depth, 2nat, count,
{
    lemma_radix_positive(depth);
    if count > 0 {
        lemma_rounds_agree(pos, depth, root, pruning, (count - 1) as nat);
        let before = pos.round_upto(depth, root, false, (count - 1) as nat);
        let mov = pos.possible_moves(false)[count - 1];
        let next = pos.after(mov);
        lemma_possible_moves_play(pos, false);
        lemma_play_keeps_range(pos, mov);
        lemma_in_range_score(next);
        if before.check is None && next.kings_alive {
            lemma_outcomes_agree(next, depth, before.best, pruning);
        }
    }
}

/// What a candidate guarantees in a search that does not prune has no more
/// digits than the search is deep.
pub proof fn lemma_outcome_bounded(pos: Position, depth: nat, best: int)
    requires
        pos.in_range(),
        depth >= 1,
        best >= 0,
    ensures
        0 <= pos.outcome(depth, best, false).worst < radix(depth) || !pos.outcome(
            depth,
            best,
            false,
        ).valid,
{
    lemma_outcomes_agree(pos, depth, best, false);
}

/// A search reports the same whether or not it prunes, but for the number
/// of moves that it tries out; and the outcome it reports has one digit
/// more than the search is deep.
pub proof fn lemma_verdicts_agree(pos: Position, depth: nat, root: bool, pruning: bool)
    requires
        pos.in_range(),
    ensures
        same_verdict(pos.search(depth, root, pruning), pos.search(depth, root, false)),
        0 <= pos.search(depth, root, false).score_buffer < radix(depth + 1),
    decreases depth, 3nat, 0nat,
{
    lemma_in_range_score(pos);
    lemma_radix_positive(depth);
    if depth > 0 {
        lemma_rounds_agree(pos, depth, root, pruning, pos.possible_moves(false).len());
    }
}

/// The moves that a round keeps are moves that are generated for the
/// engine.
proof fn lemma_kept_moves_are_offered(
    pos: Position,
    depth: nat,
    root: bool,
    pruning: bool,
    count: nat,
)
    requires
        count <= pos.possible_moves(false).len(),
    ensures
        forall|i: int|
            0 <= i < pos.round_upto(depth, root, pruning, count).best_moves.len() ==> {
                let mov = #[trigger] pos.round_upto(depth, root, pruning, count).best_moves[i];
                !mov.enemy && pos.offers(mov)
            },
    decreases count,
{
    lemma_possible_moves_play(pos, false);
    if count > 0 && depth > 0 {
        lemma_kept_moves_are_offered(pos, depth, root, pruning, (count - 1) as nat);
        let mov = pos.possible_moves(false)[count - 1];
        assert(pos.possible_moves(mov.enemy).contains(mov));
    }
}

/// Every move that a search returns is one of the moves that are generated
/// for the engine in the position searched.
pub proof fn lemma_best_moves_are_offered(pos: Position, depth: nat, root: bool, pruning: bool)
    ensures
        pos.search(depth, root, pruning).best_moves matches Some(moves) ==> forall|i: int|
            0 <= i < moves.len() ==> !(#[trigger] moves[i]).enemy && pos.offers(moves[i]),
{
    lemma_possible_moves_play(pos, false);
    lemma_kept_moves_are_offered(pos, depth, root, pruning, pos.possible_moves(false).len());
}

/// A round at the root that has found a move that counts keeps a move.
proof fn lemma_valid_moves_are_kept(pos: Position, depth: nat, pruning: bool, count: nat)
    requires
        pos.in_range(),
        count <= pos.possible_moves(false).len(),
    ensures
        ({
            let round = pos.round_upto(depth, true, pruning, count);
            &&& round.best >= 0
            &&& round.valid_moves > 0 || round.best > 0 ==> round.best_moves.len() > 0
        }),
    decreases count,
{
    if count > 0 && depth > 0 {
        lemma_valid_moves_are_kept(pos, depth, pruning, (count - 1) as nat);
        let before = pos.round_upto(depth, true, pruning, (count - 1) as nat);
        let mov = pos.possible_moves(false)[count - 1];
        let next = pos.after(mov);
        lemma_possible_moves_play(pos, false);
        lemma_play_keeps_range(pos, mov);
        if before.check is None && next.kings_alive {
            lemma_outcomes_agree(next, depth, before.best, pruning);
        }
    }
}

/// A search from the root that finds a move of the engine that counts
/// returns at least one move.
pub proof fn lemma_some_move_is_best(pos: Position, depth: nat, pruning: bool)
    requires
        pos.in_range(),
        depth > 0,
    ensures
        ({
            let whole = pos.search(depth, true, pruning);
            !whole.opponent_in_check && !whole.engine_no_moves ==> (whole.best_moves matches Some(
                moves,
            ) && moves.len() > 0)
        }),
{
    lemma_valid_moves_are_kept(pos, depth, pruning, pos.possible_moves(false).len());
}

} // verus!
