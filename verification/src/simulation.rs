//! The search: every move of the engine is answered by every reply of the
//! opponent, to a fixed depth, and the moves with the best guaranteed
//! outcome are returned.
//!
//! One level of the search is a move of the engine and the replies to it. A
//! move after which a reply takes the engine's king does not count. The
//! other replies are analysed one level less deep; a reply after which the
//! engine could take the opponent's king does not count either. A move
//! guarantees the worst of what the replies that count lead to, and the
//! search keeps the moves that guarantee the most. Where no reply counts,
//! the opponent is mated if the engine could take its king, which is the
//! best outcome there is, and stalemated if not, which is the worst.
//!
//! An outcome is a number in base `SCORE_RANGE`: each level puts the digit
//! of its own material score behind the digits that came up from below, so
//! that what is decided sooner weighs more. The counters of a search
//! saturate instead of overflowing.

use crate::gamestate::{GameState, Position};
use crate::material::{lemma_in_range_score, lemma_play_keeps_range, lemma_possible_moves_play};
use crate::moves::Move;
use crate::pieces::{MAX_SCORE, SCORE_RANGE};
use crate::settings::PRUNING;
use vstd::prelude::*;

verus! {

/// The greatest depth of a search: the encoding of its outcome has one
/// digit more than the depth, and must fit 64 bits.
pub const MAX_DEPTH: u8 = 4;

/// What a search reports.
#[derive(Clone, Debug, PartialEq, Eq)]
pub struct AnalysisResult {
    /// The moves with the best guaranteed outcome, in the order in which
    /// they were generated. Only the root of a search fills it.
    pub best_moves: Option<Vec<Move>>,
    /// The outcome, encoded so that a greater number is a better outcome.
    pub score_buffer: u64,
    /// The material score at the end of the line that decided the outcome.
    pub end_score: i16,
    /// Whether the engine can take the opponent's king at once.
    pub opponent_in_check: bool,
    /// Whether every move of the engine loses its king.
    pub engine_no_moves: bool,
    /// How many moves were tried out, up to `u32::MAX`.
    pub sim_moves: u32,
    /// How many moves of the engine do not lose its king, up to `u32::MAX`.
    pub valid_moves: u32,
}

/// The mathematical model of what a search reports, with counters that do
/// not saturate.
pub struct Analysis {
    pub best_moves: Option<Seq<Move>>,
    pub score_buffer: int,
    pub end_score: int,
    pub opponent_in_check: bool,
    pub engine_no_moves: bool,
    pub sim_moves: nat,
    pub valid_moves: nat,
}

/// A count as a counter of 32 bits holds it.
pub open spec fn clip(count: nat) -> nat {
    if count > u32::MAX {
        u32::MAX as nat
    } else {
        count
    }
}

impl Analysis {
    /// This report with its counters saturated.
    pub open spec fn clipped(self) -> Analysis {
        Analysis {
            sim_moves: clip(self.sim_moves),
            valid_moves: clip(self.valid_moves),
            ..self
        }
    }
}

impl View for AnalysisResult {
    type V = Analysis;

    open spec fn view(&self) -> Analysis {
        Analysis {
            best_moves: match self.best_moves {
                Some(moves) => Some(moves@),
                None => None,
            },
            score_buffer: self.score_buffer as int,
            end_score: self.end_score as int,
            opponent_in_check: self.opponent_in_check,
            engine_no_moves: self.engine_no_moves,
            sim_moves: self.sim_moves as nat,
            valid_moves: self.valid_moves as nat,
        }
    }
}

/// `SCORE_RANGE` to the power `digits`: the number of encodings with that
/// many digits.
pub open spec fn radix(digits: nat) -> nat
    decreases digits,
{
    if digits == 0 {
        1
    } else {
        SCORE_RANGE as nat * radix((digits - 1) as nat)
    }
}

/// The digit that stands for a material score.
pub open spec fn normalized(score: int) -> int {
    score + MAX_SCORE
}

/// What a look one move ahead finds.
pub struct Probe {
    /// Whether one of the engine's moves takes a king.
    pub in_check: bool,
    /// The score after the first such move, else the score as it stands.
    pub end_score: int,
    /// How many moves were tried out.
    pub sim_moves: nat,
}

/// What trying out the opponent's replies finds.
pub struct Expansion {
    /// Whether one of the replies takes a king.
    pub self_check: bool,
    /// How many replies were tried out.
    pub sim_moves: nat,
}

/// The worst outcome among the replies that were looked at.
pub struct Tally {
    pub worst: int,
    pub end_score: int,
    /// Whether a reply was found that does not leave the opponent's own
    /// king to be taken.
    pub found: bool,
    /// Whether the remaining replies need not be looked at.
    pub stopped: bool,
    pub sim_moves: nat,
}

/// What a candidate move of the engine guarantees.
pub struct Outcome {
    /// Whether no reply takes the engine's king.
    pub valid: bool,
    pub worst: int,
    pub end_score: int,
    pub sim_moves: nat,
}

/// The state of a search between two candidate moves.
pub struct Round {
    pub best_moves: Seq<Move>,
    pub best: int,
    pub end_score: int,
    pub sim_moves: nat,
    pub valid_moves: nat,
    /// The score after the move that took the opponent's king, once there
    /// was one.
    pub check: Option<int>,
}

/// The tally after one more reply has been analysed. A reply that leaves
/// the opponent's king to be taken does not count. One after which the
/// engine has no move is the worst there is, and ends the tally. Else the
/// first of the lowest outcomes is kept; with pruning the tally ends once it
/// is below `best`.
pub open spec fn absorb(tally: Tally, reply: Analysis, best: int, pruning: bool) -> Tally {
    let sim_moves = tally.sim_moves + reply.sim_moves;
    if reply.opponent_in_check {
        Tally { sim_moves, ..tally }
    } else if reply.engine_no_moves {
        Tally { worst: 0, found: true, stopped: true, sim_moves, ..tally }
    } else {
        let lower = reply.score_buffer < tally.worst;
        let worst = if lower {
            reply.score_buffer
        } else {
            tally.worst
        };
        Tally {
            worst,
            end_score: if lower {
                reply.end_score
            } else {
                tally.end_score
            },
            found: true,
            stopped: pruning && worst < best,
            sim_moves,
        }
    }
}

/// The tally before any reply.
pub open spec fn empty_tally() -> Tally {
    Tally { worst: u64::MAX as int, end_score: 0, found: false, stopped: false, sim_moves: 0 }
}

/// The round before any candidate.
pub open spec fn empty_round() -> Round {
    Round {
        best_moves: Seq::empty(),
        best: 0,
        end_score: 0,
        sim_moves: 0,
        valid_moves: 0,
        check: None,
    }
}

impl Round {
    /// The round after a candidate move with the given outcome, which took
    /// one try itself. A move that does not count changes the counter of
    /// tries alone. One whose outcome is lower than the best is dropped. One
    /// whose outcome is higher replaces the moves kept so far, and one whose
    /// outcome is the same joins them; only the root of a search keeps
    /// moves.
    pub open spec fn with_candidate(self, mov: Move, outcome: Outcome, root: bool) -> Round {
        let sim_moves = self.sim_moves + 1 + outcome.sim_moves;
        if !outcome.valid {
            Round { sim_moves, ..self }
        } else if outcome.worst < self.best {
            Round { sim_moves, valid_moves: self.valid_moves + 1, ..self }
        } else {
            let higher = outcome.worst > self.best;
            Round {
                best_moves: if !root {
                    Seq::empty()
                } else if higher {
                    Seq::empty().push(mov)
                } else {
                    self.best_moves.push(mov)
                },
                best: outcome.worst,
                end_score: if higher {
                    outcome.end_score
                } else {
                    self.end_score
                },
                sim_moves,
                valid_moves: self.valid_moves + 1,
                check: None,
            }
        }
    }
}

impl Position {
    /// What the search reports at depth zero: the material score, and
    /// nothing tried out.
    pub open spec fn leaf(self) -> Analysis {
        Analysis {
            best_moves: None,
            score_buffer: normalized(self.score),
            end_score: self.score,
            opponent_in_check: false,
            engine_no_moves: false,
            sim_moves: 0,
            valid_moves: 0,
        }
    }

    /// The look one move ahead over the first `count` moves of the engine:
    /// it ends at the first that takes a king.
    pub open spec fn probe_upto(self, count: nat) -> Probe
        decreases count,
    {
        if count == 0 {
            Probe { in_check: false, end_score: self.score, sim_moves: 0 }
        } else {
            let before = self.probe_upto((count - 1) as nat);
            let next = self.after(self.possible_moves(false)[count - 1]);
            if before.in_check {
                before
            } else if !next.kings_alive {
                Probe { in_check: true, end_score: next.score, sim_moves: before.sim_moves + 1 }
            } else {
                Probe { sim_moves: before.sim_moves + 1, ..before }
            }
        }
    }

    /// The look one move ahead: whether the engine, were it to move, could
    /// take a king.
    pub open spec fn probe(self) -> Probe {
        self.probe_upto(self.possible_moves(false).len())
    }

    /// The position after the opponent's reply of index `j`.
    pub open spec fn reply(self, j: int) -> Position {
        self.after(self.possible_moves(true)[j])
    }

    /// The first `count` replies tried out: trying ends at the first that
    /// takes a king.
    pub open spec fn expansion_upto(self, count: nat) -> Expansion
        decreases count,
    {
        if count == 0 {
            Expansion { self_check: false, sim_moves: 0 }
        } else {
            let before = self.expansion_upto((count - 1) as nat);
            if before.self_check {
                before
            } else {
                Expansion {
                    self_check: !self.reply(count - 1).kings_alive,
                    sim_moves: before.sim_moves + 1,
                }
            }
        }
    }

    /// All replies tried out.
    pub open spec fn expansion(self) -> Expansion {
        self.expansion_upto(self.possible_moves(true).len())
    }

    /// The tally of the first `count` replies, each analysed one level
    /// less deep.
    pub open spec fn tally_upto(self, depth: nat, best: int, pruning: bool, count: nat) -> Tally
        decreases depth, 0nat, count,
    {
        if count == 0 || depth == 0 {
            empty_tally()
        } else {
            let before = self.tally_upto(depth, best, pruning, (count - 1) as nat);
            if before.stopped {
                before
            } else {
                absorb(
                    before,
                    self.reply(count - 1).search((depth - 1) as nat, false, pruning),
                    best,
                    pruning,
                )
            }
        }
    }

    /// What this position guarantees the engine, which has just moved into
    /// it. Where a reply takes the engine's king, the move does not count.
    /// Else the tally of the replies decides; and where the opponent has no
    /// reply that counts, a look one move ahead does: if the engine could
    /// take the king, this is the best outcome that the depth can encode,
    /// else the worst.
    pub open spec fn outcome(self, depth: nat, best: int, pruning: bool) -> Outcome
        decreases depth, 1nat, 0nat,
    {
        let expansion = self.expansion();
        let tally = self.tally_upto(depth, best, pruning, self.possible_moves(true).len());
        if expansion.self_check {
            Outcome { valid: false, worst: 0, end_score: 0, sim_moves: expansion.sim_moves }
        } else if tally.found {
            Outcome {
                valid: true,
                worst: tally.worst,
                end_score: tally.end_score,
                sim_moves: expansion.sim_moves + tally.sim_moves,
            }
        } else {
            let probe = self.probe();
            Outcome {
                valid: true,
                worst: if probe.in_check {
                    radix(depth) - 1
                } else {
                    0
                },
                end_score: probe.end_score,
                sim_moves: expansion.sim_moves + tally.sim_moves + probe.sim_moves,
            }
        }
    }

    /// The round after the first `count` candidate moves of the engine. A
    /// move that takes the opponent's king ends the round. A move after
    /// which a reply takes the engine's king does not count. Of the others
    /// those with the highest outcome are kept, at the root of a search.
    pub open spec fn round_upto(self, depth: nat, root: bool, pruning: bool, count: nat) -> Round
        decreases depth, 2nat, count,
    {
        if count == 0 || depth == 0 {
            empty_round()
        } else {
            let before = self.round_upto(depth, root, pruning, (count - 1) as nat);
            let mov = self.possible_moves(false)[count - 1];
            let next = self.after(mov);
            if before.check is Some {
                before
            } else if !next.kings_alive {
                Round { check: Some(next.score), sim_moves: before.sim_moves + 1, ..before }
            } else {
                before.with_candidate(mov, next.outcome(depth, before.best, pruning), root)
            }
        }
    }

    /// What the search reports for this position, in which the engine is to
    /// move.
    pub open spec fn search(self, depth: nat, root: bool, pruning: bool) -> Analysis
        decreases depth, 3nat, 0nat,
    {
        if depth == 0 {
            self.leaf()
        } else {
            let round = self.round_upto(
                depth,
                root,
                pruning,
                self.possible_moves(false).len(),
            );
            match round.check {
                Some(score) => Analysis {
                    best_moves: None,
                    score_buffer: normalized(score),
                    end_score: score,
                    opponent_in_check: true,
                    engine_no_moves: false,
                    sim_moves: round.sim_moves,
                    valid_moves: 0,
                },
                None => Analysis {
                    best_moves: if root {
                        Some(round.best_moves)
                    } else {
                        None
                    },
                    score_buffer: round.best * SCORE_RANGE + normalized(self.score),
                    end_score: round.end_score,
                    opponent_in_check: false,
                    engine_no_moves: round.valid_moves == 0,
                    sim_moves: round.sim_moves,
                    valid_moves: round.valid_moves,
                },
            }
        }
    }
}

/// Once the look ahead has found a king to take, further moves change
/// nothing.
pub proof fn lemma_probe_stays(pos: Position, count: nat, more: nat)
    requires
        count <= more,
        pos.probe_upto(count).in_check,
    ensures
        pos.probe_upto(more) == pos.probe_upto(count),
    decreases more,
{
    if more > count {
        lemma_probe_stays(pos, count, (more - 1) as nat);
    }
}

/// The look ahead finds every move that takes a king.
pub proof fn lemma_probe_finds(pos: Position, i: int, count: nat)
    requires
        0 <= i < count,
        !pos.after(pos.possible_moves(false)[i]).kings_alive,
    ensures
        pos.probe_upto(count).in_check,
    decreases count,
{
    if i < count - 1 {
        lemma_probe_finds(pos, i, (count - 1) as nat);
    }
}

/// Where the look ahead finds no king to take, no move of the engine takes
/// one.
pub proof fn lemma_root_is_safe(pos: Position, i: int)
    requires
        !pos.probe().in_check,
        0 <= i < pos.possible_moves(false).len(),
    ensures
        pos.after(pos.possible_moves(false)[i]).kings_alive,
{
    if !pos.after(pos.possible_moves(false)[i]).kings_alive {
        lemma_probe_finds(pos, i, pos.possible_moves(false).len());
    }
}

/// A search from a root at which no move of the engine takes a king does
/// not report that one can be taken.
pub proof fn lemma_root_reports_no_check(pos: Position, depth: nat, pruning: bool)
    requires
        !pos.probe().in_check,
    ensures
        !pos.search(depth, true, pruning).opponent_in_check,
{
    if depth > 0 {
        lemma_round_is_safe(pos, depth, pruning, pos.possible_moves(false).len());
    }
}

/// A round from a root at which no move of the engine takes a king does
/// not end with a king taken.
proof fn lemma_round_is_safe(pos: Position, depth: nat, pruning: bool, count: nat)
    requires
        !pos.probe().in_check,
        count <= pos.possible_moves(false).len(),
    ensures
        pos.round_upto(depth, true, pruning, count).check is None,
    decreases count,
{
    if count > 0 && depth > 0 {
        lemma_round_is_safe(pos, depth, pruning, (count - 1) as nat);
        lemma_root_is_safe(pos, count - 1);
    }
}

/// Once a reply has taken a king, further replies change nothing.
pub proof fn lemma_expansion_stays(pos: Position, count: nat, more: nat)
    requires
        count <= more,
        pos.expansion_upto(count).self_check,
    ensures
        pos.expansion_upto(more) == pos.expansion_upto(count),
    decreases more,
{
    if more > count {
        lemma_expansion_stays(pos, count, (more - 1) as nat);
    }
}

/// Once a tally has stopped, further replies change nothing.
pub proof fn lemma_tally_stays(
    pos: Position,
    depth: nat,
    best: int,
    pruning: bool,
    count: nat,
    more: nat,
)
    requires
        count <= more,
        pos.tally_upto(depth, best, pruning, count).stopped,
    ensures
        pos.tally_upto(depth, best, pruning, more) == pos.tally_upto(depth, best, pruning, count),
    decreases more,
{
    if more > count {
        lemma_tally_stays(pos, depth, best, pruning, count, (more - 1) as nat);
    }
}

/// Once a round has ended with the opponent's king taken, further
/// candidates change nothing.
pub proof fn lemma_round_stays(
    pos: Position,
    depth: nat,
    root: bool,
    pruning: bool,
    count: nat,
    more: nat,
)
    requires
        count <= more,
        pos.round_upto(depth, root, pruning, count).check is Some,
    ensures
        pos.round_upto(depth, root, pruning, more) == pos.round_upto(depth, root, pruning, count),
    decreases more,
{
    if more > count {
        lemma_round_stays(pos, depth, root, pruning, count, (more - 1) as nat);
    }
}

/// The powers of `SCORE_RANGE` that a search can meet.
pub proof fn lemma_radix_values()
    ensures
        radix(0) == 1,
        radix(1) == 2_000,
        radix(2) == 4_000_000,
        radix(3) == 8_000_000_000,
        radix(4) == 16_000_000_000_000,
        radix(5) == 32_000_000_000_000_000,
{
    reveal_with_fuel(radix, 6);
}

/// The best outcome that a search of the given depth can encode.
pub fn score_ceiling(depth: u8) -> (top: u64)
    requires
        depth <= MAX_DEPTH,
    ensures
        top == radix(depth as nat) - 1,
{
    proof {
        lemma_radix_values();
    }
    let mut power: u64 = 1;
    let mut i: u8 = 0;
    while i < depth
        invariant
            i <= depth <= MAX_DEPTH,
            power == radix(i as nat),
            radix(0) == 1,
            radix(1) == 2_000,
            radix(2) == 4_000_000,
            radix(3) == 8_000_000_000,
            radix(4) == 16_000_000_000_000,
        decreases depth - i,
    {
        power = power * SCORE_RANGE;
        i = i + 1;
    }
    power - 1
}

impl GameState {
    /// The digit that stands for the material score of this position.
    pub fn get_normalized(&self) -> (digit: u64)
        requires
            self@.in_range(),
        ensures
            digit == normalized(self.score as int),
            digit < SCORE_RANGE,
    {
        proof {
            lemma_in_range_score(self@);
        }
        (self.score + MAX_SCORE) as u64
    }
}

/// Carries out a move of the kind that the engine generates.
pub fn advance(game_state: &GameState, mov: &Move) -> (next: GameState)
    requires
        game_state@.in_range(),
        game_state@.plays(*mov),
    ensures
        next@ == game_state@.after(*mov),
        next@.in_range(),
{
    proof {
        lemma_play_keeps_range(game_state@, *mov);
    }
    game_state.perform_move(mov)
}

/// Looks one move ahead: whether a move of the engine takes a king, the
/// score after the first such move (else the score as it stands), and the
/// number of moves tried out.
pub fn look_ahead(game_state: &GameState) -> (found: (bool, i16, u32))
    requires
        game_state@.in_range(),
    ensures
        found.0 == game_state@.probe().in_check,
        found.1 == game_state@.probe().end_score,
        found.2 == clip(game_state@.probe().sim_moves),
{
    let moves = game_state.get_possible_moves(false);
    let ghost pos = game_state@;
    proof {
        lemma_possible_moves_play(pos, false);
    }
    let mut sim_moves: u32 = 0;
    let mut i: usize = 0;
    while i < moves.len()
        invariant
            i <= moves.len(),
            pos == game_state@,
            pos.in_range(),
            moves@ == pos.possible_moves(false),
            forall|k: int| 0 <= k < moves.len() ==> pos.plays(#[trigger] moves@[k]),
            !pos.probe_upto(i as nat).in_check,
            pos.probe_upto(i as nat).end_score == pos.score,
            sim_moves == clip(pos.probe_upto(i as nat).sim_moves),
        decreases moves.len() - i,
    {
        let next = advance(game_state, &moves[i]);
        sim_moves = sim_moves.saturating_add(1);
        if !next.kings_alive {
            proof {
                lemma_probe_stays(pos, (i + 1) as nat, moves.len() as nat);
            }
            return (true, next.score, sim_moves);
        }
        i = i + 1;
    }
    (false, game_state.score, sim_moves)
}

/// Tries out the replies of the opponent. Returns the positions after them,
/// in the order of the replies, unless one of them takes a king; and the
/// number of replies tried out.
pub fn expand_replies(game_state: &GameState) -> (found: (Option<Vec<GameState>>, u32))
    requires
        game_state@.in_range(),
    ensures
        found.1 == clip(game_state@.expansion().sim_moves),
        found.0 is None == game_state@.expansion().self_check,
        found.0 matches Some(states) ==> {
            &&& states.len() == game_state@.possible_moves(true).len()
            &&& forall|j: int|
                0 <= j < states.len() ==> {
                    &&& (#[trigger] states[j])@ == game_state@.reply(j)
                    &&& states[j].kings_alive
                    &&& states[j]@.in_range()
                }
        },
{
    let replies = game_state.get_possible_moves(true);
    let ghost pos = game_state@;
    proof {
        lemma_possible_moves_play(pos, true);
    }
    let mut states: Vec<GameState> = Vec::new();
    let mut sim_moves: u32 = 0;
    let mut j: usize = 0;
    while j < replies.len()
        invariant
            j <= replies.len(),
            pos == game_state@,
            pos.in_range(),
            replies@ == pos.possible_moves(true),
            forall|k: int| 0 <= k < replies.len() ==> pos.plays(#[trigger] replies@[k]),
            !pos.expansion_upto(j as nat).self_check,
            sim_moves == clip(pos.expansion_upto(j as nat).sim_moves),
            states.len() == j,
            forall|k: int|
                0 <= k < j ==> {
                    &&& (#[trigger] states[k])@ == pos.reply(k)
                    &&& states[k].kings_alive
                    &&& states[k]@.in_range()
                },
        decreases replies.len() - j,
    {
        let next = advance(game_state, &replies[j]);
        sim_moves = sim_moves.saturating_add(1);
        if !next.kings_alive {
            proof {
                lemma_expansion_stays(pos, (j + 1) as nat, replies.len() as nat);
            }
            return (None, sim_moves);
        }
        states.push(next);
        j = j + 1;
    }
    (Some(states), sim_moves)
}

/// Analyses the positions after the replies, one level less deep, and
/// tallies what they report: the worst outcome, the score that belongs to
/// it, whether a reply counted, and the number of moves tried out.
fn tally_replies(
    game_state: &GameState,
    states: &Vec<GameState>,
    depth: u8,
    best: u64,
    pruning: bool,
) -> (tally: (u64, i16, bool, u32))
    requires
        1 <= depth <= MAX_DEPTH,
        states.len() == game_state@.possible_moves(true).len(),
        forall|k: int|
            0 <= k < states.len() ==> {
                &&& (#[trigger] states[k])@ == game_state@.reply(k)
                &&& states[k].kings_alive
                &&& states[k]@.in_range()
            },
    ensures
        ({
            let whole = game_state@.tally_upto(
                depth as nat,
                best as int,
                pruning,
                states.len() as nat,
            );
            &&& tally.0 == whole.worst
            &&& tally.1 == whole.end_score
            &&& tally.2 == whole.found
            &&& tally.3 == clip(whole.sim_moves)
            &&& whole.found ==> whole.worst < radix(depth as nat)
        }),
    decreases depth, 0nat,
{
    let ghost next = game_state@;
    let ghost level = depth as nat;
    let mut worst_case_buffer: u64 = u64::MAX;
    let mut cor_end_score: i16 = 0;
    let mut found_valid_opponent_move = false;
    let mut stopped = false;
    let mut sim_moves: u32 = 0;

    // Recursively analyse resulting gamestates for all moves
    let mut j: usize = 0;
    while j < states.len() && !stopped
        invariant
            j <= states.len(),
            level == depth,
            1 <= depth <= MAX_DEPTH,
            next == game_state@,
            states.len() == next.possible_moves(true).len(),
            forall|k: int|
                0 <= k < states.len() ==> {
                    &&& (#[trigger] states[k])@ == next.reply(k)
                    &&& states[k].kings_alive
                    &&& states[k]@.in_range()
                },
            worst_case_buffer == next.tally_upto(level, best as int, pruning, j as nat).worst,
            cor_end_score == next.tally_upto(level, best as int, pruning, j as nat).end_score,
            found_valid_opponent_move == next.tally_upto(
                level,
                best as int,
                pruning,
                j as nat,
            ).found,
            stopped == next.tally_upto(level, best as int, pruning, j as nat).stopped,
            sim_moves == clip(next.tally_upto(level, best as int, pruning, j as nat).sim_moves),
            found_valid_opponent_move ==> worst_case_buffer < radix(level),
        decreases states.len() - j,
    {
        let analysis = analyse_with(&states[j], depth - 1, false, pruning);
        sim_moves = sim_moves.saturating_add(analysis.sim_moves);
        if analysis.opponent_in_check {
            // Opponent can't put self in check
        } else {
            found_valid_opponent_move = true;
            if analysis.engine_no_moves {
                // Could be checkmate or stalemate, reject both
                worst_case_buffer = 0;
                stopped = true;
            } else {
                if analysis.score_buffer < worst_case_buffer {
                    worst_case_buffer = analysis.score_buffer;
                    cor_end_score = analysis.end_score;
                }
                // Prune remaining branches
                if pruning && worst_case_buffer < best {
                    stopped = true;
                }
            }
        }
        j = j + 1;
    }
    proof {
        if stopped {
            lemma_tally_stays(next, level, best as int, pruning, j as nat, states.len() as nat);
        }
    }
    (worst_case_buffer, cor_end_score, found_valid_opponent_move, sim_moves)
}

/// What the position, into which the engine has just moved, guarantees the
/// engine: whether the move counts, the outcome, the score that belongs to
/// it, and the number of moves tried out.
fn evaluate(game_state: &GameState, depth: u8, best: u64, pruning: bool) -> (outcome: (
    bool,
    u64,
    i16,
    u32,
))
    requires
        game_state@.in_range(),
        1 <= depth <= MAX_DEPTH,
    ensures
        ({
            let whole = game_state@.outcome(depth as nat, best as int, pruning);
            &&& outcome.0 == whole.valid
            &&& outcome.1 == whole.worst
            &&& outcome.2 == whole.end_score
            &&& outcome.3 == clip(whole.sim_moves)
            &&& whole.worst < radix(depth as nat)
        }),
    decreases depth, 1nat,
{
    proof {
        lemma_radix_values();
    }
    let (expanded, tried) = expand_replies(game_state);
    match expanded {
        None => (false, 0, 0, tried),
        Some(states) => {
            let (worst, score, found, analysed) = tally_replies(
                game_state,
                &states,
                depth,
                best,
                pruning,
            );
            let sim_moves = tried.saturating_add(analysed);
            if found {
                (true, worst, score, sim_moves)
            } else {
                // Trapped opponent
                let (in_check, score, looked) = look_ahead(game_state);
                // If checkmate the best there is, else worst possible
                let worst = if in_check {
                    score_ceiling(depth)
                } else {
                    0
                };
                (true, worst, score, sim_moves.saturating_add(looked))
            }
        },
    }
}

/// How a round goes on by one candidate.
pub proof fn lemma_round_step(pos: Position, depth: nat, root: bool, pruning: bool, count: nat)
    requires
        depth >= 1,
        count >= 1,
    ensures
        pos.round_upto(depth, root, pruning, count) == ({
            let before = pos.round_upto(depth, root, pruning, (count - 1) as nat);
            let mov = pos.possible_moves(false)[count - 1];
            let next = pos.after(mov);
            if before.check is Some {
                before
            } else if !next.kings_alive {
                Round { check: Some(next.score), sim_moves: before.sim_moves + 1, ..before }
            } else {
                before.with_candidate(mov, next.outcome(depth, before.best, pruning), root)
            }
        }),
{
}

/// What a search reports when the candidate of index `i` is the first to
/// take the opponent's king.
proof fn lemma_search_in_check(pos: Position, depth: nat, root: bool, pruning: bool, i: nat)
    requires
        depth >= 1,
        i < pos.possible_moves(false).len(),
        pos.round_upto(depth, root, pruning, i).check is None,
        !pos.after(pos.possible_moves(false)[i as int]).kings_alive,
    ensures
        pos.search(depth, root, pruning) == (Analysis {
            best_moves: None,
            score_buffer: normalized(pos.after(pos.possible_moves(false)[i as int]).score),
            end_score: pos.after(pos.possible_moves(false)[i as int]).score,
            opponent_in_check: true,
            engine_no_moves: false,
            sim_moves: pos.round_upto(depth, root, pruning, i).sim_moves + 1,
            valid_moves: 0,
        }),
{
    lemma_round_step(pos, depth, root, pruning, i + 1);
    lemma_round_stays(pos, depth, root, pruning, i + 1, pos.possible_moves(false).len());
}

/// What a search reports when no candidate takes the opponent's king.
pub proof fn lemma_search_done(pos: Position, depth: nat, root: bool, pruning: bool)
    requires
        depth >= 1,
        pos.round_upto(depth, root, pruning, pos.possible_moves(false).len()).check is None,
    ensures
        pos.search(depth, root, pruning) == ({
            let round = pos.round_upto(depth, root, pruning, pos.possible_moves(false).len());
            Analysis {
                best_moves: if root {
                    Some(round.best_moves)
                } else {
                    None
                },
                score_buffer: round.best * SCORE_RANGE + normalized(pos.score),
                end_score: round.end_score,
                opponent_in_check: false,
                engine_no_moves: round.valid_moves == 0,
                sim_moves: round.sim_moves,
                valid_moves: round.valid_moves,
            }
        }),
{
}

/// The search with pruning switched on or off.
pub fn analyse_with(game_state: &GameState, depth: u8, root: bool, pruning: bool) -> (result:
    AnalysisResult)
    requires
        game_state@.in_range(),
        game_state.kings_alive,
        depth <= MAX_DEPTH,
        root ==> !game_state@.probe().in_check,
    ensures
        result@ == game_state@.search(depth as nat, root, pruning).clipped(),
        result.score_buffer < radix((depth + 1) as nat),
        depth == 0 ==> {
            &&& result.end_score == game_state.score
            &&& result.score_buffer == game_state.score + MAX_SCORE
            &&& result.sim_moves == 0
        },
        root && depth > 0 ==> result.best_moves is Some,
    decreases depth, 2nat,
{
    let ghost pos = game_state@;
    proof {
        lemma_radix_values();
    }
    if depth == 0 {
        return AnalysisResult {
            best_moves: None,
            score_buffer: game_state.get_normalized(),
            end_score: game_state.score,
            opponent_in_check: false,
            engine_no_moves: false,
            sim_moves: 0,
            valid_moves: 0,
        };
    }
    let ghost level = depth as nat;
    let engine_possible_moves: Vec<Move> = game_state.get_possible_moves(false);
    proof {
        lemma_possible_moves_play(pos, false);
    }
    let mut sim_moves: u32 = 0;
    let mut valid_moves: u32 = 0;
    let mut best_moves: Vec<Move> = Vec::new();
    let mut best_score_buffer: u64 = 0;
    let mut end_score: i16 = 0;

    let mut i: usize = 0;
    while i < engine_possible_moves.len()
        invariant
            i <= engine_possible_moves.len(),
            pos == game_state@,
            pos.in_range(),
            level == depth,
            1 <= depth <= MAX_DEPTH,
            root ==> !pos.probe().in_check,
            engine_possible_moves@ == pos.possible_moves(false),
            forall|k: int|
                0 <= k < engine_possible_moves.len() ==> pos.plays(
                    #[trigger] engine_possible_moves@[k],
                ),
            pos.round_upto(level, root, pruning, i as nat).check is None,
            best_moves@ == pos.round_upto(level, root, pruning, i as nat).best_moves,
            !root ==> best_moves@ == Seq::<Move>::empty(),
            best_score_buffer == pos.round_upto(level, root, pruning, i as nat).best,
            end_score == pos.round_upto(level, root, pruning, i as nat).end_score,
            sim_moves == clip(pos.round_upto(level, root, pruning, i as nat).sim_moves),
            valid_moves == clip(pos.round_upto(level, root, pruning, i as nat).valid_moves),
            best_score_buffer < radix(level),
        decreases engine_possible_moves.len() - i,
    {
        let engine_move = engine_possible_moves[i];
        let game_state_1 = advance(game_state, &engine_move);
        proof {
            lemma_round_step(pos, level, root, pruning, (i + 1) as nat);
        }
        sim_moves = sim_moves.saturating_add(1);

        // If opponent king killable, immediately return
        if !game_state_1.kings_alive {
            proof {
                lemma_search_in_check(pos, level, root, pruning, i as nat);
                lemma_radix_values();
                if root {
                    lemma_root_is_safe(pos, i as int);
                }
            }
            return AnalysisResult {
                best_moves: None,
                score_buffer: game_state_1.get_normalized(),
                end_score: game_state_1.score,
                opponent_in_check: true,
                engine_no_moves: false,
                sim_moves,
                valid_moves: 0,
            };
        }
        let (valid, worst_case_buffer, cor_end_score, tried) = evaluate(
            &game_state_1,
            depth,
            best_score_buffer,
            pruning,
        );
        sim_moves = sim_moves.saturating_add(tried);
        if valid {
            valid_moves = valid_moves.saturating_add(1);

            // Prioritising recursive score followed by immediate score
            if worst_case_buffer >= best_score_buffer {
                if worst_case_buffer > best_score_buffer {
                    best_moves.clear();
                    best_score_buffer = worst_case_buffer;
                    end_score = cor_end_score;
                }
                if root {
                    best_moves.push(engine_move);
                }
            }
        }
        i = i + 1;
    }
    proof {
        lemma_radix_values();
        lemma_search_done(pos, level, root, pruning);
    }
    let engine_no_moves = valid_moves == 0;
    let score_buffer = best_score_buffer * SCORE_RANGE + game_state.get_normalized();
    AnalysisResult {
        best_moves: if root {
            Some(best_moves)
        } else {
            None
        },
        score_buffer,
        end_score,
        opponent_in_check: false,
        engine_no_moves,
        sim_moves,
        valid_moves,
    }
}

/// The search: the moves of the engine with the best guaranteed outcome
/// after `depth` moves of each side, and what that outcome is.
pub fn analyse(game_state: &GameState, depth: u8, root: bool) -> (result: AnalysisResult)
    requires
        game_state@.in_range(),
        game_state.kings_alive,
        depth <= MAX_DEPTH,
        root ==> !game_state@.probe().in_check,
    ensures
        result@ == game_state@.search(depth as nat, root, PRUNING).clipped(),
        result.score_buffer < radix((depth + 1) as nat),
        depth == 0 ==> {
            &&& result.end_score == game_state.score
            &&& result.score_buffer == game_state.score + MAX_SCORE
            &&& result.sim_moves == 0
        },
        root && depth > 0 ==> result.best_moves is Some,
{
    analyse_with(game_state, depth, root, PRUNING)
}

} // verus!
