//! The material on the board, and the range in which the score stays while
//! the moves that are played are those that the engine generates.

use crate::gamestate::{
    at, king_end, king_start, layout_position, midpoint, move_on_board, relocated, rook_end,
    rook_start, scanned, GameState, Position,
};
use crate::moves::{piece_at, side_type, square, square_index, square_type, Move, MoveType};
use crate::pieces::{
    bishop_steps, en_passant_rank, hop_moves, knight_steps, linear_moves, offset, pawn_capture,
    pawn_direction, pawn_double, pawn_forward, pawn_moves_of, pawn_start_rank, ray_moves,
    rook_steps, Piece, PieceClass, Squares, MAX_SCORE,
};
use crate::utils::{on_board, CastlingPossibilities, SquareType, Vect};
use vstd::prelude::*;

verus! {

/// The three sums that are taken over the pieces of a board.
pub enum Measure {
    /// The engine's material minus the opponent's.
    Balance,
    /// The material that the engine can still come to hold.
    EngineReach,
    /// The material that the opponent can still come to hold.
    OpponentReach,
}

/// The value that a piece can still reach: a pawn counts as the queen it
/// may become.
pub open spec fn worth(piece: Piece) -> int {
    if piece.class == PieceClass::Pawn {
        9
    } else {
        piece.value()
    }
}

/// What one square adds to a sum.
pub open spec fn weight(measure: Measure, held: Option<Piece>) -> int {
    match held {
        Some(piece) => match measure {
            Measure::Balance => if piece.enemy {
                -piece.value()
            } else {
                piece.value()
            },
            Measure::EngineReach => if piece.enemy {
                0
            } else {
                worth(piece)
            },
            Measure::OpponentReach => if piece.enemy {
                worth(piece)
            } else {
                0
            },
        },
        None => 0,
    }
}

/// The sum over the first `count` squares.
pub open spec fn weigh(squares: Squares, measure: Measure, count: nat) -> int
    decreases count,
{
    if count == 0 {
        0
    } else {
        weigh(squares, measure, (count - 1) as nat) + weight(measure, squares[count - 1])
    }
}

/// The larger of `value` and zero.
pub open spec fn positive_part(value: int) -> int {
    if value > 0 {
        value
    } else {
        0
    }
}

impl Position {
    /// The engine's material minus the opponent's.
    pub open spec fn balance(self) -> int {
        weigh(self.squares, Measure::Balance, 64)
    }

    /// By how much the score exceeds the balance of material. Taking en
    /// passant always adds one to the score, and castling scores nothing
    /// that it displaces, so the two can differ.
    pub open spec fn drift(self) -> int {
        self.score - self.balance()
    }

    /// A bound that the score cannot exceed, now or after any moves of the
    /// kind the engine generates.
    pub open spec fn ceiling(self) -> int {
        weigh(self.squares, Measure::EngineReach, 64) + positive_part(self.drift())
    }

    /// A bound that the score cannot fall below the negative of, now or
    /// after any moves of the kind the engine generates.
    pub open spec fn floor(self) -> int {
        weigh(self.squares, Measure::OpponentReach, 64) + positive_part(-self.drift())
    }

    /// Whether the en-passant target, where there is one, lies behind a pawn
    /// that can be taken: on the third rank behind a pawn of the engine, or
    /// on the sixth behind a pawn of the opponent.
    pub open spec fn target_sound(self) -> bool {
        match self.en_passant_midpoint {
            Some(target) => {
                &&& on_board(target)
                &&& target.y == 2 || target.y == 5
                &&& target.y == 2 ==> piece_at(self.squares, at(target.x as int, 3)) == Some(
                    Piece { class: PieceClass::Pawn, enemy: false },
                )
                &&& target.y == 5 ==> piece_at(self.squares, at(target.x as int, 4)) == Some(
                    Piece { class: PieceClass::Pawn, enemy: true },
                )
            },
            None => true,
        }
    }

    /// Whether the position has its 64 squares and a sound en-passant
    /// target.
    pub open spec fn sound(self) -> bool {
        self.squares.len() == 64 && self.target_sound()
    }

    /// Whether the position is one the search can work on: it is sound, and
    /// its score cannot leave `-MAX_SCORE .. MAX_SCORE`.
    #[verifier::opaque]
    pub open spec fn in_range(self) -> bool {
        &&& self.sound()
        &&& self.ceiling() < MAX_SCORE
        &&& self.floor() <= MAX_SCORE
    }

    /// Whether the move is one of those that are generated for its side in
    /// this position.
    pub open spec fn offers(self, mov: Move) -> bool {
        self.possible_moves(mov.enemy).contains(mov)
    }

    /// The position after the moves of `line`, one after the other.
    pub open spec fn after_all(self, line: Seq<Move>) -> Position
        decreases line.len(),
    {
        if line.len() == 0 {
            self
        } else {
            self.after_all(line.drop_last()).after(line.last())
        }
    }

    /// Whether each move of `line` is one of those that are generated in
    /// the position in which it is made.
    pub open spec fn follows(self, line: Seq<Move>) -> bool
        decreases line.len(),
    {
        line.len() == 0 || (self.follows(line.drop_last()) && self.after_all(
            line.drop_last(),
        ).offers(line.last()))
    }
}

/// Replacing what one square holds changes a sum by the difference of the
/// two weights.
pub proof fn lemma_weigh_update(
    squares: Squares,
    measure: Measure,
    count: nat,
    k: int,
    held: Option<Piece>,
)
    requires
        0 <= k < squares.len(),
        count <= squares.len(),
    ensures
        weigh(squares.update(k, held), measure, count) == weigh(squares, measure, count) + (if k
            < count {
            weight(measure, held) - weight(measure, squares[k])
        } else {
            0
        }),
    decreases count,
{
    if count > 0 {
        lemma_weigh_update(squares, measure, (count - 1) as nat, k, held);
    }
}

/// The balance lies between the negative of what the opponent can reach and
/// what the engine can reach.
pub proof fn lemma_balance_bounds(squares: Squares, count: nat)
    ensures
        -weigh(squares, Measure::OpponentReach, count) <= weigh(squares, Measure::Balance, count)
            <= weigh(squares, Measure::EngineReach, count),
        0 <= weigh(squares, Measure::OpponentReach, count),
        0 <= weigh(squares, Measure::EngineReach, count),
    decreases count,
{
    if count > 0 {
        lemma_balance_bounds(squares, (count - 1) as nat);
    }
}

/// The score of a position lies between the negative of its floor and its
/// ceiling.
pub proof fn lemma_score_within_bounds(pos: Position)
    ensures
        -pos.floor() <= pos.score <= pos.ceiling(),
{
    lemma_balance_bounds(pos.squares, 64);
}

/// What a relocation from `from` to another square `to` does to a sum: what
/// stood on `to` leaves it, and the mover's weight is replaced by that of
/// the piece that arrives.
pub proof fn lemma_weigh_relocated(
    squares: Squares,
    measure: Measure,
    from: Vect,
    to: Vect,
    new_piece: Option<Piece>,
)
    requires
        squares.len() == 64,
        on_board(from),
        on_board(to),
        from != to,
    ensures
        relocated(squares, from, to, new_piece).len() == 64,
        weigh(relocated(squares, from, to, new_piece), measure, 64) == weigh(squares, measure, 64)
            - weight(measure, piece_at(squares, to)) - weight(measure, piece_at(squares, from))
            + weight(
            measure,
            match new_piece {
                Some(piece) => Some(piece),
                None => piece_at(squares, from),
            },
        ),
{
    let lifted = squares.update(square_index(from), None);
    lemma_weigh_update(squares, measure, 64, square_index(from), None);
    lemma_weigh_update(
        lifted,
        measure,
        64,
        square_index(to),
        match new_piece {
            Some(piece) => Some(piece),
            None => piece_at(squares, from),
        },
    );
}

/// What holds of every move that the engine generates for `piece` on `pos`:
/// it starts on `pos`, it ends on the board and not on a piece of its own
/// side, and the special moves are those of a pawn in the right place.
pub open spec fn well_shaped(
    squares: Squares,
    en_passant_midpoint: Option<Vect>,
    piece: Piece,
    pos: Vect,
    mov: Move,
) -> bool {
    let enemy = piece.enemy;
    &&& mov.enemy == enemy
    &&& match mov.move_type {
        MoveType::Standard(from, to, _) => {
            &&& from == pos
            &&& on_board(to)
            &&& square_type(squares, to) != side_type(enemy)
        },
        MoveType::DoubleAdvance(from, to) => {
            &&& piece.class == PieceClass::Pawn
            &&& from == pos
            &&& pos.y == pawn_start_rank(enemy)
            &&& to == offset(pos, 0, 2 * pawn_direction(enemy))
            &&& on_board(to)
            &&& square_type(squares, to) == SquareType::Free
            &&& square_type(squares, offset(pos, 0, pawn_direction(enemy))) == SquareType::Free
        },
        MoveType::EnPassant(from, to, target) => {
            &&& piece.class == PieceClass::Pawn
            &&& from == pos
            &&& en_passant_midpoint == Some(to)
            &&& on_board(to)
            &&& square_type(squares, to) == SquareType::Free
            &&& to.y == en_passant_rank(enemy)
            &&& to.y == pos.y + pawn_direction(enemy)
            &&& to.x == pos.x - 1 || to.x == pos.x + 1
            &&& target == at(to.x as int, pos.y as int)
        },
        MoveType::Castling(_) => true,
        MoveType::Promotion(from, to, new_piece, _) => {
            &&& piece.class == PieceClass::Pawn
            &&& from == pos
            &&& on_board(to)
            &&& square_type(squares, to) != side_type(enemy)
            &&& new_piece == Piece { class: PieceClass::Queen, enemy }
        },
        MoveType::Null => false,
    }
}

/// Whether every move of `list` is well shaped.
pub open spec fn all_well_shaped(
    squares: Squares,
    en_passant_midpoint: Option<Vect>,
    piece: Piece,
    pos: Vect,
    list: Seq<Move>,
) -> bool {
    forall|i: int|
        0 <= i < list.len() ==> well_shaped(
            squares,
            en_passant_midpoint,
            piece,
            pos,
            #[trigger] list[i],
        )
}

/// The square from which a move starts, for every move but castling.
pub open spec fn origin(mov: Move) -> Option<Vect> {
    match mov.move_type {
        MoveType::Standard(from, _, _) => Some(from),
        MoveType::DoubleAdvance(from, _) => Some(from),
        MoveType::EnPassant(from, _, _) => Some(from),
        MoveType::Promotion(from, _, _, _) => Some(from),
        MoveType::Castling(_) => None,
        MoveType::Null => None,
    }
}

impl Position {
    /// Whether the move is of the kind that the engine generates in this
    /// position: castling, or a well-shaped move of the piece that stands
    /// on the square from which it starts.
    #[verifier::opaque]
    pub open spec fn plays(self, mov: Move) -> bool {
        match origin(mov) {
            Some(from) => {
                &&& on_board(from)
                &&& piece_at(self.squares, from) matches Some(piece)
                &&& well_shaped(self.squares, self.en_passant_midpoint, piece, from, mov)
            },
            None => mov.move_type is Castling,
        }
    }
}

/// The moves along one direction are well shaped.
proof fn lemma_ray_shaped(
    squares: Squares,
    en_passant_midpoint: Option<Vect>,
    piece: Piece,
    pos: Vect,
    from: Vect,
    step: Vect,
    reach: nat,
)
    ensures
        all_well_shaped(
            squares,
            en_passant_midpoint,
            piece,
            pos,
            ray_moves(squares, piece.enemy, pos, from, step, reach),
        ),
    decreases reach,
{
    if reach > 0 {
        lemma_ray_shaped(
            squares,
            en_passant_midpoint,
            piece,
            pos,
            from.plus(step),
            step,
            (reach - 1) as nat,
        );
    }
}

/// The moves of a sliding piece are well shaped.
proof fn lemma_linear_shaped(
    squares: Squares,
    en_passant_midpoint: Option<Vect>,
    piece: Piece,
    pos: Vect,
    steps: Seq<Vect>,
)
    ensures
        all_well_shaped(
            squares,
            en_passant_midpoint,
            piece,
            pos,
            linear_moves(squares, piece.enemy, pos, steps),
        ),
    decreases steps.len(),
{
    if steps.len() > 0 {
        lemma_linear_shaped(squares, en_passant_midpoint, piece, pos, steps.drop_last());
        lemma_ray_shaped(squares, en_passant_midpoint, piece, pos, pos, steps.last(), 8);
    }
}

/// The moves of a jumping piece are well shaped.
proof fn lemma_hops_shaped(
    squares: Squares,
    en_passant_midpoint: Option<Vect>,
    piece: Piece,
    pos: Vect,
    steps: Seq<Vect>,
)
    ensures
        all_well_shaped(
            squares,
            en_passant_midpoint,
            piece,
            pos,
            hop_moves(squares, piece.enemy, pos, steps),
        ),
    decreases steps.len(),
{
    if steps.len() > 0 {
        lemma_hops_shaped(squares, en_passant_midpoint, piece, pos, steps.drop_last());
    }
}

/// The moves of a pawn are well shaped.
proof fn lemma_pawn_shaped(
    squares: Squares,
    en_passant_midpoint: Option<Vect>,
    piece: Piece,
    pos: Vect,
)
    requires
        on_board(pos),
        piece.class == PieceClass::Pawn,
    ensures
        all_well_shaped(
            squares,
            en_passant_midpoint,
            piece,
            pos,
            pawn_moves_of(squares, piece.enemy, pos, en_passant_midpoint),
        ),
{
    let enemy = piece.enemy;
    let forward = pawn_forward(squares, enemy, pos);
    let left = pawn_capture(squares, enemy, pos, -1, en_passant_midpoint);
    let right = pawn_capture(squares, enemy, pos, 1, en_passant_midpoint);
    let double = pawn_double(squares, enemy, pos);
    assert(all_well_shaped(squares, en_passant_midpoint, piece, pos, forward));
    assert(all_well_shaped(squares, en_passant_midpoint, piece, pos, left));
    assert(all_well_shaped(squares, en_passant_midpoint, piece, pos, right));
    assert(all_well_shaped(squares, en_passant_midpoint, piece, pos, double));
    assert(all_well_shaped(squares, en_passant_midpoint, piece, pos, forward + left));
    assert(all_well_shaped(squares, en_passant_midpoint, piece, pos, forward + left + right));
}

/// Every move that is generated for a piece on a square of the board is
/// well shaped.
pub proof fn lemma_moves_well_shaped(
    squares: Squares,
    en_passant_midpoint: Option<Vect>,
    castling: CastlingPossibilities,
    piece: Piece,
    pos: Vect,
)
    requires
        on_board(pos),
    ensures
        all_well_shaped(
            squares,
            en_passant_midpoint,
            piece,
            pos,
            piece.moves_from(squares, pos, en_passant_midpoint, castling),
        ),
{
    match piece.class {
        PieceClass::Pawn => {
            lemma_pawn_shaped(squares, en_passant_midpoint, piece, pos);
        },
        PieceClass::Bishop => {
            lemma_linear_shaped(squares, en_passant_midpoint, piece, pos, bishop_steps());
        },
        PieceClass::Knight => {
            lemma_hops_shaped(squares, en_passant_midpoint, piece, pos, knight_steps());
        },
        PieceClass::Rook => {
            lemma_linear_shaped(squares, en_passant_midpoint, piece, pos, rook_steps());
        },
        PieceClass::Queen => {
            lemma_linear_shaped(squares, en_passant_midpoint, piece, pos, bishop_steps());
            lemma_linear_shaped(squares, en_passant_midpoint, piece, pos, rook_steps());
        },
        PieceClass::King => {
            lemma_hops_shaped(squares, en_passant_midpoint, piece, pos, bishop_steps());
            lemma_hops_shaped(squares, en_passant_midpoint, piece, pos, rook_steps());
        },
    }
}

/// The moves from the first squares of the scan are moves of their side,
/// and of the kind that `plays` describes.
proof fn lemma_moves_upto_play(pos: Position, enemy: bool, count: nat)
    requires
        count <= 64,
    ensures
        forall|i: int|
            0 <= i < pos.moves_upto(enemy, count).len() ==> {
                let mov = #[trigger] pos.moves_upto(enemy, count)[i];
                mov.enemy == enemy && pos.plays(mov)
            },
    decreases count,
{
    reveal(Position::plays);
    if count > 0 {
        lemma_moves_upto_play(pos, enemy, (count - 1) as nat);
        let from = scanned(count - 1);
        assert(on_board(from));
        match piece_at(pos.squares, from) {
            Some(piece) => {
                lemma_moves_well_shaped(
                    pos.squares,
                    pos.en_passant_midpoint,
                    pos.rights(enemy),
                    piece,
                    from,
                );
            },
            None => {},
        }
    }
}

/// Every move that is generated for a side is a move of that side, and of
/// the kind that `plays` describes.
pub proof fn lemma_possible_moves_play(pos: Position, enemy: bool)
    ensures
        forall|i: int|
            0 <= i < pos.possible_moves(enemy).len() ==> {
                let mov = #[trigger] pos.possible_moves(enemy)[i];
                mov.enemy == enemy && pos.plays(mov)
            },
{
    reveal(Position::possible_moves);
    lemma_moves_upto_play(pos, enemy, 64);
}

/// The score of a position that is in range lies in
/// `-MAX_SCORE .. MAX_SCORE`.
pub proof fn lemma_in_range_score(pos: Position)
    requires
        pos.in_range(),
    ensures
        -MAX_SCORE <= pos.score < MAX_SCORE,
{
    reveal(Position::in_range);
    lemma_score_within_bounds(pos);
}

/// The three sums after a relocation between two different squares.
proof fn lemma_relocation_sums(squares: Squares, from: Vect, to: Vect, new_piece: Option<Piece>)
    requires
        squares.len() == 64,
        on_board(from),
        on_board(to),
        from != to,
    ensures
        relocated(squares, from, to, new_piece).len() == 64,
        forall|measure: Measure|
            #[trigger] weigh(relocated(squares, from, to, new_piece), measure, 64) == weigh(
                squares,
                measure,
                64,
            ) - weight(measure, piece_at(squares, to)) - weight(measure, piece_at(squares, from))
                + weight(
                measure,
                match new_piece {
                    Some(piece) => Some(piece),
                    None => piece_at(squares, from),
                },
            ),
{
    assert forall|measure: Measure|
        #[trigger] weigh(relocated(squares, from, to, new_piece), measure, 64) == weigh(
            squares,
            measure,
            64,
        ) - weight(measure, piece_at(squares, to)) - weight(measure, piece_at(squares, from))
            + weight(
            measure,
            match new_piece {
                Some(piece) => Some(piece),
                None => piece_at(squares, from),
            },
        ) by {
        lemma_weigh_relocated(squares, measure, from, to, new_piece);
    }
}

/// A relocation that scores nothing lowers neither bound: what it displaces
/// leaves the material that its side can reach.
proof fn lemma_unscored_relocation(pos: Position, from: Vect, to: Vect)
    requires
        pos.squares.len() == 64,
        on_board(from),
        on_board(to),
        from != to,
    ensures
        ({
            let next = Position { squares: relocated(pos.squares, from, to, None), ..pos };
            &&& next.squares.len() == 64
            &&& next.ceiling() <= pos.ceiling()
            &&& next.floor() <= pos.floor()
        }),
{
    lemma_relocation_sums(pos.squares, from, to, None);
}

/// A move of the kind that the engine generates, made in a sound position,
/// leads to a sound position whose two bounds are no wider.
pub proof fn lemma_play_keeps_bounds(pos: Position, mov: Move)
    requires
        pos.sound(),
        pos.plays(mov),
    ensures
        mov.move_type !is Null,
        move_on_board(mov),
        pos.after(mov).sound(),
        pos.after(mov).ceiling() <= pos.ceiling(),
        pos.after(mov).floor() <= pos.floor(),
{
    reveal(Position::plays);
    reveal(Position::after);
    let next = pos.after(mov);
    let enemy = mov.enemy;
    match mov.move_type {
        MoveType::Standard(from, to, _) => {
            lemma_relocation_sums(pos.squares, from, to, None);
        },
        MoveType::DoubleAdvance(from, to) => {
            lemma_relocation_sums(pos.squares, from, to, None);
            let target = midpoint(from, to);
            assert(target == at(from.x as int, from.y + pawn_direction(enemy)));
            assert(piece_at(next.squares, to) == piece_at(pos.squares, from));
        },
        MoveType::EnPassant(from, to, target) => {
            lemma_relocation_sums(pos.squares, from, to, None);
            let moved = relocated(pos.squares, from, to, None);
            assert(piece_at(moved, target) == piece_at(pos.squares, target));
            assert forall|measure: Measure|
                #[trigger] weigh(next.squares, measure, 64) == weigh(moved, measure, 64)
                    - weight(measure, piece_at(pos.squares, target)) by {
                lemma_weigh_update(moved, measure, 64, square_index(target), None);
            }
            assert(weigh(next.squares, Measure::Balance, 64) == weigh(
                moved,
                Measure::Balance,
                64,
            ) - weight(Measure::Balance, piece_at(pos.squares, target)));
            assert(weigh(next.squares, Measure::EngineReach, 64) == weigh(
                moved,
                Measure::EngineReach,
                64,
            ) - weight(Measure::EngineReach, piece_at(pos.squares, target)));
            assert(weigh(next.squares, Measure::OpponentReach, 64) == weigh(
                moved,
                Measure::OpponentReach,
                64,
            ) - weight(Measure::OpponentReach, piece_at(pos.squares, target)));
        },
        MoveType::Castling(queenside) => {
            lemma_unscored_relocation(pos, rook_start(enemy, queenside), rook_end(enemy, queenside));
            let rook_gone = Position {
                squares: relocated(
                    pos.squares,
                    rook_start(enemy, queenside),
                    rook_end(enemy, queenside),
                    None,
                ),
                ..pos
            };
            lemma_unscored_relocation(rook_gone, king_start(enemy), king_end(enemy, queenside));
        },
        MoveType::Promotion(from, to, new_piece, _) => {
            lemma_relocation_sums(pos.squares, from, to, Some(new_piece));
        },
        MoveType::Null => {},
    }
}

/// A move of the kind that the engine generates, made in a position that is
/// in range, can be carried out and leads to a position that is in range.
pub proof fn lemma_play_keeps_range(pos: Position, mov: Move)
    requires
        pos.in_range(),
        pos.plays(mov),
    ensures
        pos.admits(mov),
        pos.after(mov).in_range(),
{
    reveal(Position::in_range);
    lemma_play_keeps_bounds(pos, mov);
    lemma_score_within_bounds(pos.after(mov));
}

/// A move that a position offers is of the kind that `plays` describes.
pub proof fn lemma_offered_move_plays(pos: Position, mov: Move)
    requires
        pos.offers(mov),
    ensures
        pos.plays(mov),
{
    lemma_possible_moves_play(pos, mov.enemy);
    let i = choose|i: int|
        0 <= i < pos.possible_moves(mov.enemy).len() && pos.possible_moves(mov.enemy)[i] == mov;
    assert(pos.plays(pos.possible_moves(mov.enemy)[i]));
}

/// Along any line of generated moves from a sound position, the position
/// stays sound, the two bounds never widen, and the score stays between the
/// negative of the floor and the ceiling of the position the line started
/// from.
pub proof fn lemma_line_keeps_bounds(pos: Position, line: Seq<Move>)
    requires
        pos.sound(),
        pos.follows(line),
    ensures
        pos.after_all(line).sound(),
        pos.after_all(line).ceiling() <= pos.ceiling(),
        pos.after_all(line).floor() <= pos.floor(),
        -pos.floor() <= pos.after_all(line).score <= pos.ceiling(),
    decreases line.len(),
{
    if line.len() > 0 {
        let before = pos.after_all(line.drop_last());
        lemma_line_keeps_bounds(pos, line.drop_last());
        lemma_offered_move_plays(before, line.last());
        lemma_play_keeps_bounds(before, line.last());
    }
    lemma_score_within_bounds(pos.after_all(line));
}

/// Where the score of a sound position is the balance of its material, the
/// score stays, along any line of generated moves, between the negative of
/// the material that the opponent can reach and the material that the
/// engine can reach, a pawn counted as the queen it may become.
pub proof fn lemma_score_within_material(pos: Position, line: Seq<Move>)
    requires
        pos.sound(),
        pos.score == pos.balance(),
        pos.follows(line),
    ensures
        -weigh(pos.squares, Measure::OpponentReach, 64) <= pos.after_all(line).score <= weigh(
            pos.squares,
            Measure::EngineReach,
            64,
        ),
{
    lemma_line_keeps_bounds(pos, line);
}

/// Along any line of generated moves from a position that is in range, every
/// move can be carried out, the position stays in range, and the score stays
/// in `-MAX_SCORE .. MAX_SCORE`.
pub proof fn lemma_line_keeps_range(pos: Position, line: Seq<Move>)
    requires
        pos.in_range(),
        pos.follows(line),
    ensures
        pos.after_all(line).in_range(),
        -MAX_SCORE <= pos.after_all(line).score < MAX_SCORE,
        line.len() > 0 ==> pos.after_all(line.drop_last()).admits(line.last()),
    decreases line.len(),
{
    if line.len() > 0 {
        let before = pos.after_all(line.drop_last());
        lemma_line_keeps_range(pos, line.drop_last());
        lemma_offered_move_plays(before, line.last());
        lemma_play_keeps_range(before, line.last());
    }
    lemma_in_range_score(pos.after_all(line));
}

/// The position that a layout describes is sound, and its score is the
/// balance of its material.
pub proof fn lemma_layout_is_sound(text: Seq<char>)
    ensures
        layout_position(text).sound(),
        layout_position(text).score == layout_position(text).balance(),
{
}

/// What one square adds to the three sums.
fn weights_of(held: Option<Piece>) -> (sums: (i32, i32, i32))
    ensures
        sums.0 == weight(Measure::Balance, held),
        sums.1 == weight(Measure::EngineReach, held),
        sums.2 == weight(Measure::OpponentReach, held),
        -500 <= sums.0 <= 500,
        0 <= sums.1 <= 500,
        0 <= sums.2 <= 500,
{
    match held {
        Some(piece) => {
            let value = piece.get_value() as i32;
            let reach: i32 = match piece.class {
                PieceClass::Pawn => 9,
                _ => value,
            };
            if piece.enemy {
                (-value, 0, reach)
            } else {
                (value, reach, 0)
            }
        },
        None => (0, 0, 0),
    }
}

impl GameState {
    /// Whether the en-passant target, where there is one, lies behind a pawn
    /// that can be taken.
    pub fn target_is_sound(&self) -> (sound: bool)
        ensures
            sound == self@.target_sound(),
    {
        match self.en_passant_midpoint {
            Some(target) => {
                if !(0 <= target.x && target.x < 8 && 0 <= target.y && target.y < 8) {
                    return false;
                }
                if target.y == 2 {
                    let beyond = Vect { x: target.x, y: 3 };
                    assert(beyond == at(target.x as int, 3));
                    match square(&self.board, &beyond) {
                        Some(piece) => piece.class == PieceClass::Pawn && !piece.enemy,
                        None => false,
                    }
                } else if target.y == 5 {
                    let beyond = Vect { x: target.x, y: 4 };
                    assert(beyond == at(target.x as int, 4));
                    match square(&self.board, &beyond) {
                        Some(piece) => piece.class == PieceClass::Pawn && piece.enemy,
                        None => false,
                    }
                } else {
                    false
                }
            },
            None => true,
        }
    }

    /// Whether the position is one the search can work on.
    pub fn is_in_range(&self) -> (fit: bool)
        ensures
            fit == self@.in_range(),
    {
        proof {
            reveal(Position::in_range);
        }
        if !self.target_is_sound() {
            return false;
        }
        let ghost squares = self@.squares;
        let mut balance: i32 = 0;
        let mut engine: i32 = 0;
        let mut opponent: i32 = 0;
        let mut y: i8 = 0;
        while y < 8
            invariant
                0 <= y <= 8,
                squares == self@.squares,
                balance == weigh(squares, Measure::Balance, (8 * y) as nat),
                engine == weigh(squares, Measure::EngineReach, (8 * y) as nat),
                opponent == weigh(squares, Measure::OpponentReach, (8 * y) as nat),
                -500 * (8 * y) <= balance <= 500 * (8 * y),
                0 <= engine <= 500 * (8 * y),
                0 <= opponent <= 500 * (8 * y),
            decreases 8 - y,
        {
            let mut x: i8 = 0;
            while x < 8
                invariant
                    0 <= x <= 8,
                    0 <= y < 8,
                    squares == self@.squares,
                    balance == weigh(squares, Measure::Balance, (8 * y + x) as nat),
                    engine == weigh(squares, Measure::EngineReach, (8 * y + x) as nat),
                    opponent == weigh(squares, Measure::OpponentReach, (8 * y + x) as nat),
                    -500 * (8 * y + x) <= balance <= 500 * (8 * y + x),
                    0 <= engine <= 500 * (8 * y + x),
                    0 <= opponent <= 500 * (8 * y + x),
                decreases 8 - x,
            {
                let pos = Vect { x, y };
                let (signed, ours, theirs) = weights_of(square(&self.board, &pos));
                balance = balance + signed;
                engine = engine + ours;
                opponent = opponent + theirs;
                x = x + 1;
            }
            y = y + 1;
        }
        let drift: i32 = self.score as i32 - balance;
        let ceiling = engine + if drift > 0 {
            drift
        } else {
            0
        };
        let floor = opponent + if drift < 0 {
            -drift
        } else {
            0
        };
        ceiling < MAX_SCORE as i32 && floor <= MAX_SCORE as i32
    }
}

} // verus!
