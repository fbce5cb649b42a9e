//! The root of a search, taken apart so that the replies to a candidate can
//! be analysed side by side: the search hands out the positions after the
//! replies, takes back what their analyses report, and goes on to the next
//! candidate.

use crate::agreement::{lemma_outcome_bounded, lemma_verdicts_agree, same_verdict};
use crate::gamestate::{GameState, Position};
use crate::material::lemma_possible_moves_play;
use crate::moves::Move;
use crate::pieces::SCORE_RANGE;
use crate::simulation::{
    advance, clip, expand_replies, lemma_probe_finds, lemma_radix_values, lemma_round_step,
    lemma_search_done, lemma_tally_stays, look_ahead, radix, score_ceiling, Analysis,
    AnalysisResult, MAX_DEPTH,
};
use vstd::prelude::*;

verus! {

/// Whether two reports read the same to the search one level up: the
/// outcome, its score, and the two flags.
pub open spec fn same_reading(a: Analysis, b: Analysis) -> bool {
    &&& a.score_buffer == b.score_buffer
    &&& a.end_score == b.end_score
    &&& a.opponent_in_check == b.opponent_in_check
    &&& a.engine_no_moves == b.engine_no_moves
}

/// Whether `report` is what the root of a search reports, but for the number
/// of moves tried out.
pub open spec fn root_verdict(report: Analysis, whole: Analysis) -> bool {
    &&& report.best_moves == whole.best_moves
    &&& report.score_buffer == whole.score_buffer
    &&& report.end_score == whole.end_score
    &&& report.opponent_in_check == whole.opponent_in_check
    &&& report.engine_no_moves == whole.engine_no_moves
    &&& report.valid_moves == clip(whole.valid_moves)
}

/// The root of a search between two of its steps.
pub struct RootSearch {
    game_state: GameState,
    depth: u8,
    moves: Vec<Move>,
    next: usize,
    pending: Option<GameState>,
    best_moves: Vec<Move>,
    best_score_buffer: u64,
    end_score: i16,
    sim_moves: u32,
    valid_moves: u32,
}

impl RootSearch {
    /// The position that is searched.
    pub closed spec fn position(&self) -> Position {
        self.game_state@
    }

    /// The depth of the search.
    pub closed spec fn depth(&self) -> nat {
        self.depth as nat
    }

    /// The position after the candidate whose replies are being analysed,
    /// while there is one.
    pub closed spec fn awaits(&self) -> Option<Position> {
        match self.pending {
            Some(state) => Some(state@),
            None => None,
        }
    }

    /// How many candidates have been dealt with.
    pub closed spec fn settled(&self) -> nat {
        self.next as nat
    }

    /// Whether every candidate has been dealt with.
    pub open spec fn done(&self) -> bool {
        self.awaits() is None && self.settled() == self.position().possible_moves(false).len()
    }

    /// The position after the candidate of index `i`.
    pub open spec fn candidate(&self, i: int) -> Position {
        self.position().after(self.position().possible_moves(false)[i])
    }

    /// Whether the search stands where the round of the candidates dealt
    /// with so far stands.
    pub closed spec fn wf(&self) -> bool {
        let pos = self.game_state@;
        let round = pos.round_upto(self.depth as nat, true, false, self.next as nat);
        &&& pos.in_range()
        &&& 1 <= self.depth <= MAX_DEPTH
        &&& self.moves@ == pos.possible_moves(false)
        &&& self.next <= self.moves.len()
        &&& forall|i: int| 0 <= i < self.moves.len() ==> (#[trigger] pos.after(self.moves@[i])).kings_alive
        &&& round.check is None
        &&& self.best_moves@ == round.best_moves
        &&& self.best_score_buffer == round.best
        &&& self.end_score == round.end_score
        &&& self.valid_moves == clip(round.valid_moves)
        &&& self.best_score_buffer < radix(self.depth as nat)
        &&& self.pending matches Some(state) ==> {
            &&& self.next < self.moves.len()
            &&& state@ == pos.after(self.moves@[self.next as int])
            &&& state@.in_range()
            &&& !state@.expansion().self_check
        }
    }

    /// Starts the search of a position.
    pub fn begin(game_state: &GameState, depth: u8) -> (search: RootSearch)
        requires
            game_state@.in_range(),
            game_state.kings_alive,
            1 <= depth <= MAX_DEPTH,
            !game_state@.probe().in_check,
        ensures
            search.wf(),
            search.position() == game_state@,
            search.depth() == depth,
            search.awaits() is None,
            search.settled() == 0,
    {
        let moves = game_state.get_possible_moves(false);
        let ghost pos = game_state@;
        proof {
            lemma_radix_values();
            assert forall|i: int| 0 <= i < moves.len() implies (#[trigger] pos.after(
                moves@[i],
            )).kings_alive by {
                if !pos.after(moves@[i]).kings_alive {
                    lemma_probe_finds(pos, i, moves.len() as nat);
                }
            }
        }
        RootSearch {
            game_state: *game_state,
            depth,
            moves,
            next: 0,
            pending: None,
            best_moves: Vec::new(),
            best_score_buffer: 0,
            end_score: 0,
            sim_moves: 0,
            valid_moves: 0,
        }
    }

    /// How many candidates have been dealt with.
    pub fn candidates_settled(&self) -> (count: usize)
        ensures
            count == self.settled(),
    {
        self.next
    }

    /// Goes on to the next candidate that counts, and returns the positions
    /// after the replies to it, each of which is to be analysed one level
    /// less deep, not as a root. Returns `None` once no candidate is left.
    pub fn dispatch(&mut self) -> (batch: Option<Vec<GameState>>)
        requires
            old(self).wf(),
            old(self).awaits() is None,
        ensures
            final(self).wf(),
            final(self).position() == old(self).position(),
            final(self).depth() == old(self).depth(),
            old(self).settled() <= final(self).settled(),
            forall|i: int|
                old(self).settled() <= i < final(self).settled() ==> (#[trigger] final(self).candidate(
                    i,
                )).expansion().self_check,
            match batch {
                Some(states) => final(self).awaits() matches Some(next) && {
                    &&& final(self).settled() < final(self).position().possible_moves(false).len()
                    &&& next == final(self).candidate(final(self).settled() as int)
                    &&& !next.expansion().self_check
                    &&& states.len() == next.possible_moves(true).len()
                    &&& forall|j: int|
                        0 <= j < states.len() ==> {
                            &&& (#[trigger] states[j])@ == next.reply(j)
                            &&& states[j].kings_alive
                            &&& states[j]@.in_range()
                        }
                },
                None => final(self).done(),
            },
    {
        let ghost pos = self.game_state@;
        let ghost level = self.depth as nat;
        proof {
            lemma_possible_moves_play(pos, false);
        }
        while self.next < self.moves.len()
            invariant
                self.wf(),
                self.pending is None,
                self.game_state@ == pos,
                self.depth == level,
                pos == old(self).game_state@,
                level == old(self).depth,
                old(self).next <= self.next,
                forall|i: int|
                    old(self).next <= i < self.next ==> (#[trigger] pos.after(
                        pos.possible_moves(false)[i],
                    )).expansion().self_check,
                forall|k: int|
                    0 <= k < pos.possible_moves(false).len() ==> pos.plays(
                        #[trigger] pos.possible_moves(false)[k],
                    ),
            decreases self.moves.len() - self.next,
        {
            let engine_move = self.moves[self.next];
            let game_state_1 = advance(&self.game_state, &engine_move);
            self.sim_moves = self.sim_moves.saturating_add(1);
            let (expanded, tried) = expand_replies(&game_state_1);
            self.sim_moves = self.sim_moves.saturating_add(tried);
            match expanded {
                Some(states) => {
                    self.pending = Some(game_state_1);
                    return Some(states);
                },
                None => {
                    proof {
                        lemma_round_step(pos, level, true, false, (self.next + 1) as nat);
                    }
                    self.next = self.next + 1;
                },
            }
        }
        None
    }

    /// Takes what the analyses of the positions that were handed out
    /// report, in the order of those positions, and settles the candidate.
    pub fn collect(&mut self, results: &Vec<AnalysisResult>)
        requires
            old(self).wf(),
            old(self).awaits() matches Some(next) && {
                &&& results.len() == next.possible_moves(true).len()
                &&& forall|j: int|
                    0 <= j < results.len() ==> same_reading(
                        (#[trigger] results[j])@,
                        next.reply(j).search((old(self).depth() - 1) as nat, false, false),
                    )
            },
        ensures
            final(self).wf(),
            final(self).awaits() is None,
            final(self).position() == old(self).position(),
            final(self).depth() == old(self).depth(),
            final(self).settled() == old(self).settled() + 1,
    {
        let ghost pos = self.game_state@;
        let ghost level = self.depth as nat;
        let game_state_1 = match self.pending {
            Some(state) => state,
            None => self.game_state,
        };
        let ghost next = game_state_1@;
        let best = self.best_score_buffer;
        proof {
            lemma_radix_values();
        }
        let mut worst_case_buffer: u64 = u64::MAX;
        let mut cor_end_score: i16 = 0;
        let mut found_valid_opponent_move = false;
        let mut stopped = false;
        let mut sim_moves = self.sim_moves;
        let mut j: usize = 0;
        while j < results.len() && !stopped
            invariant
                j <= results.len(),
                level >= 1,
                results.len() == next.possible_moves(true).len(),
                forall|k: int|
                    0 <= k < results.len() ==> same_reading(
                        (#[trigger] results[k])@,
                        next.reply(k).search((level - 1) as nat, false, false),
                    ),
                worst_case_buffer == next.tally_upto(level, best as int, false, j as nat).worst,
                cor_end_score == next.tally_upto(level, best as int, false, j as nat).end_score,
                found_valid_opponent_move == next.tally_upto(
                    level,
                    best as int,
                    false,
                    j as nat,
                ).found,
                stopped == next.tally_upto(level, best as int, false, j as nat).stopped,
            decreases results.len() - j,
        {
            let analysis = &results[j];
            sim_moves = sim_moves.saturating_add(analysis.sim_moves);
            if analysis.opponent_in_check {
                // Opponent can't put self in check
            } else {
                found_valid_opponent_move = true;
                if analysis.engine_no_moves {
                    // Could be checkmate or stalemate, reject both
                    worst_case_buffer = 0;
                    stopped = true;
                } else if analysis.score_buffer < worst_case_buffer {
                    worst_case_buffer = analysis.score_buffer;
                    cor_end_score = analysis.end_score;
                }
            }
            j = j + 1;
        }
        proof {
            if stopped {
                lemma_tally_stays(next, level, best as int, false, j as nat, results.len() as nat);
            }
            lemma_outcome_bounded(next, level, best as int);
            lemma_round_step(pos, level, true, false, (self.next + 1) as nat);
        }
        self.sim_moves = sim_moves;
        self.valid_moves = self.valid_moves.saturating_add(1);

        // Trapped opponent
        if !found_valid_opponent_move {
            let (in_check, score, looked) = look_ahead(&game_state_1);
            self.sim_moves = self.sim_moves.saturating_add(looked);
            worst_case_buffer = if in_check {
                score_ceiling(self.depth)
            } else {
                0
            };
            cor_end_score = score;
        }
        if worst_case_buffer >= self.best_score_buffer {
            if worst_case_buffer > self.best_score_buffer {
                self.best_moves.clear();
                self.best_score_buffer = worst_case_buffer;
                self.end_score = cor_end_score;
            }
            self.best_moves.push(self.moves[self.next]);
        }
        self.next = self.next + 1;
        self.pending = None;
    }

    /// What the search reports: what a search of the position from its root
    /// reports, whether or not that search prunes, but for the number of
    /// moves tried out.
    pub fn finish(self) -> (result: AnalysisResult)
        requires
            self.wf(),
            self.done(),
        ensures
            forall|pruning: bool|
                root_verdict(
                    result@,
                    #[trigger] self.position().search(self.depth(), true, pruning),
                ),
    {
        let ghost pos = self.game_state@;
        let ghost level = self.depth as nat;
        proof {
            lemma_radix_values();
            lemma_search_done(pos, level, true, false);
            assert forall|pruning: bool|
                same_verdict(
                    #[trigger] pos.search(level, true, pruning),
                    pos.search(level, true, false),
                ) by {
                lemma_verdicts_agree(pos, level, true, pruning);
            }
        }
        let engine_no_moves = self.valid_moves == 0;
        let score_buffer = self.best_score_buffer * SCORE_RANGE + self.game_state.get_normalized();
        AnalysisResult {
            best_moves: Some(self.best_moves),
            score_buffer,
            end_score: self.end_score,
            opponent_in_check: false,
            engine_no_moves,
            sim_moves: self.sim_moves,
            valid_moves: self.valid_moves,
        }
    }
}

} // verus!
