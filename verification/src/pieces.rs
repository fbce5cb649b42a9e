//! Pieces, the board, and the moves of each class of piece.

use crate::moves::{check_squre, piece_at, side_type, square, square_type, Move, MoveType};
use crate::settings::BOARD_WIDTH;
use crate::utils::{on_board, CastlingPossibilities, SquareType, Vect};
use vstd::prelude::*;

verus! {

/// The base of the positional score encoding: one digit per level of the
/// search.
pub const SCORE_RANGE: u64 = 2000;

/// The bound of the material score: it stays in `-MAX_SCORE .. MAX_SCORE`.
pub const MAX_SCORE: i16 = 1000;

/// The board, addressed `[rank][file]`.
pub type Board = [[Option<Piece>; 8]; 8];

/// The 64 squares of a board as a sequence: the square of file `x` and rank
/// `y` stands at index `8 * y + x`.
pub type Squares = Seq<Option<Piece>>;

/// The squares of `board`.
pub open spec fn board_squares(board: Board) -> Squares {
    Seq::new(64, |k: int| board[k / 8][k % 8])
}

/// The classes of piece.
#[derive(Clone, Copy, Debug, PartialEq, Eq, Structural)]
pub enum PieceClass {
    Pawn,
    Bishop,
    Knight,
    Rook,
    Queen,
    King,
}

/// A piece: its class and its side.
#[derive(Clone, Copy, Debug, PartialEq, Eq, Structural)]
pub struct Piece {
    pub class: PieceClass,
    /// `true` for the opponent, `false` for the engine.
    pub enemy: bool,
}

/// The four directions of a rook, in the order in which they are walked.
pub open spec fn rook_steps() -> Seq<Vect> {
    seq![Vect { x: 1, y: 0 }, Vect { x: 0, y: 1 }, Vect { x: -1i8, y: 0 }, Vect { x: 0, y: -1i8 }]
}

/// The four directions of a bishop, in the order in which they are walked.
pub open spec fn bishop_steps() -> Seq<Vect> {
    seq![Vect { x: 1, y: 1 }, Vect { x: -1i8, y: 1 }, Vect { x: -1i8, y: -1i8 }, Vect { x: 1, y: -1i8 }]
}

/// The eight jumps of a knight, in the order in which they are tried.
pub open spec fn knight_steps() -> Seq<Vect> {
    seq![
        Vect { x: 2, y: 1 },
        Vect { x: -2i8, y: 1 },
        Vect { x: 2, y: -1i8 },
        Vect { x: -2i8, y: -1i8 },
        Vect { x: 1, y: 2 },
        Vect { x: 1, y: -2i8 },
        Vect { x: -1i8, y: 2 },
        Vect { x: -1i8, y: -2i8 },
    ]
}

/// The eight steps of a king: the diagonal ones first.
pub open spec fn king_steps() -> Seq<Vect> {
    bishop_steps() + rook_steps()
}

/// The directions of a rook.
pub fn rook_vectors() -> (set: [Vect; 4])
    ensures
        set@ == rook_steps(),
{
    let set = [Vect { x: 1, y: 0 }, Vect { x: 0, y: 1 }, Vect { x: -1, y: 0 }, Vect { x: 0, y: -1 }];
    assert(set@ =~= rook_steps());
    set
}

/// The directions of a bishop.
pub fn bishop_vectors() -> (set: [Vect; 4])
    ensures
        set@ == bishop_steps(),
{
    let set = [
        Vect { x: 1, y: 1 },
        Vect { x: -1, y: 1 },
        Vect { x: -1, y: -1 },
        Vect { x: 1, y: -1 },
    ];
    assert(set@ =~= bishop_steps());
    set
}

/// The jumps of a knight.
pub fn knight_vectors() -> (set: [Vect; 8])
    ensures
        set@ == knight_steps(),
{
    let set = [
        Vect { x: 2, y: 1 },
        Vect { x: -2, y: 1 },
        Vect { x: 2, y: -1 },
        Vect { x: -2, y: -1 },
        Vect { x: 1, y: 2 },
        Vect { x: 1, y: -2 },
        Vect { x: -1, y: 2 },
        Vect { x: -1, y: -2 },
    ];
    assert(set@ =~= knight_steps());
    set
}

/// A displacement that a walk over the board can repeat: it is not zero, and
/// added to a square of the board it stays within the coordinate type.
pub open spec fn is_direction(step: Vect) -> bool {
    &&& step.x != 0 || step.y != 0
    &&& step.x <= i8::MAX - 7
    &&& step.y <= i8::MAX - 7
}

/// An upper bound of the number of squares of the board that a walk from
/// `from` in the direction `step` still meets, `from` included.
pub open spec fn squares_ahead(from: Vect, step: Vect) -> int {
    if step.x > 0 {
        8 - from.x
    } else if step.x < 0 {
        from.x + 1
    } else if step.y > 0 {
        8 - from.y
    } else {
        from.y + 1
    }
}

/// The move of a piece of the given side from `from` to `to`.
pub open spec fn plain_move(enemy: bool, from: Vect, to: Vect) -> Move {
    Move { enemy, move_type: MoveType::Standard(from, to, true) }
}

/// The moves of a sliding piece that stands on `origin`, along one direction,
/// beyond the square `from`: each free square up to the first obstacle, and
/// that obstacle too where it is a piece of the other side. `reach` bounds
/// the number of squares walked.
pub open spec fn ray_moves(
    squares: Squares,
    enemy: bool,
    origin: Vect,
    from: Vect,
    step: Vect,
    reach: nat,
) -> Seq<Move>
    decreases reach,
{
    let next = from.plus(step);
    let kind = square_type(squares, next);
    if reach == 0 || !from.can_add(step) || kind == SquareType::Invalid || kind == side_type(
        enemy,
    ) {
        Seq::empty()
    } else if kind == SquareType::Free {
        seq![plain_move(enemy, origin, next)] + ray_moves(
            squares,
            enemy,
            origin,
            next,
            step,
            (reach - 1) as nat,
        )
    } else {
        seq![plain_move(enemy, origin, next)]
    }
}

/// The squares that a sliding piece defends along one direction beyond
/// `from`: each square up to the first obstacle, and the obstacle itself.
pub open spec fn ray_defended(squares: Squares, from: Vect, step: Vect, reach: nat) -> Seq<Vect>
    decreases reach,
{
    let next = from.plus(step);
    let kind = square_type(squares, next);
    if reach == 0 || !from.can_add(step) || kind == SquareType::Invalid {
        Seq::empty()
    } else if kind == SquareType::Free {
        seq![next] + ray_defended(squares, next, step, (reach - 1) as nat)
    } else {
        seq![next]
    }
}

/// The moves of a sliding piece on `pos` along each of `steps`, in order.
pub open spec fn linear_moves(squares: Squares, enemy: bool, pos: Vect, steps: Seq<Vect>) -> Seq<
    Move,
>
    decreases steps.len(),
{
    if steps.len() == 0 {
        Seq::empty()
    } else {
        linear_moves(squares, enemy, pos, steps.drop_last()) + ray_moves(
            squares,
            enemy,
            pos,
            pos,
            steps.last(),
            8,
        )
    }
}

/// The squares that a sliding piece on `pos` defends along each of `steps`.
pub open spec fn linear_defended(squares: Squares, pos: Vect, steps: Seq<Vect>) -> Seq<Vect>
    decreases steps.len(),
{
    if steps.len() == 0 {
        Seq::empty()
    } else {
        linear_defended(squares, pos, steps.drop_last()) + ray_defended(
            squares,
            pos,
            steps.last(),
            8,
        )
    }
}

/// The squares that a list of moves defends when they are asked for, and
/// nothing when they are not.
pub open spec fn when_asked(find_defended: bool, defended: Seq<Vect>) -> Seq<Vect> {
    if find_defended {
        defended
    } else {
        Seq::empty()
    }
}

/// The moves of a piece that jumps from `pos` by each of `steps`: a jump is
/// a move unless it leaves the board or lands on a piece of its own side.
pub open spec fn hop_moves(squares: Squares, enemy: bool, pos: Vect, steps: Seq<Vect>) -> Seq<
    Move,
>
    decreases steps.len(),
{
    if steps.len() == 0 {
        Seq::empty()
    } else {
        let to = pos.plus(steps.last());
        let kind = square_type(squares, to);
        let rest = hop_moves(squares, enemy, pos, steps.drop_last());
        if !pos.can_add(steps.last()) || kind == SquareType::Invalid || kind == side_type(enemy) {
            rest
        } else {
            rest.push(plain_move(enemy, pos, to))
        }
    }
}

/// The squares that a piece defends which jumps from `pos` by each of
/// `steps`: every one of them that lies on the board.
pub open spec fn hop_defended(squares: Squares, pos: Vect, steps: Seq<Vect>) -> Seq<Vect>
    decreases steps.len(),
{
    if steps.len() == 0 {
        Seq::empty()
    } else {
        let to = pos.plus(steps.last());
        let rest = hop_defended(squares, pos, steps.drop_last());
        if !pos.can_add(steps.last()) || square_type(squares, to) == SquareType::Invalid {
            rest
        } else {
            rest.push(to)
        }
    }
}

impl Piece {
    /// The letter of the piece: lower case for the engine, upper case for
    /// the opponent.
    pub open spec fn letter(self) -> char {
        match (self.class, self.enemy) {
            (PieceClass::Pawn, false) => 'p',
            (PieceClass::Bishop, false) => 'b',
            (PieceClass::Knight, false) => 'n',
            (PieceClass::Rook, false) => 'r',
            (PieceClass::Queen, false) => 'q',
            (PieceClass::King, false) => 'k',
            (PieceClass::Pawn, true) => 'P',
            (PieceClass::Bishop, true) => 'B',
            (PieceClass::Knight, true) => 'N',
            (PieceClass::Rook, true) => 'R',
            (PieceClass::Queen, true) => 'Q',
            (PieceClass::King, true) => 'K',
        }
    }

    /// The material value of the piece.
    pub open spec fn value(self) -> int {
        match self.class {
            PieceClass::Pawn => 1,
            PieceClass::Bishop => 3,
            PieceClass::Knight => 3,
            PieceClass::Rook => 5,
            PieceClass::Queen => 9,
            PieceClass::King => 500,
        }
    }

    /// The letter of the piece.
    pub fn repr(&self) -> (letter: char)
        ensures
            letter == self.letter(),
    {
        match self.class {
            PieceClass::Pawn => if self.enemy {
                'P'
            } else {
                'p'
            },
            PieceClass::Bishop => if self.enemy {
                'B'
            } else {
                'b'
            },
            PieceClass::Knight => if self.enemy {
                'N'
            } else {
                'n'
            },
            PieceClass::Rook => if self.enemy {
                'R'
            } else {
                'r'
            },
            PieceClass::Queen => if self.enemy {
                'Q'
            } else {
                'q'
            },
            PieceClass::King => if self.enemy {
                'K'
            } else {
                'k'
            },
        }
    }

    /// The material value of the piece.
    pub fn get_value(&self) -> (value: i16)
        ensures
            value == self.value(),
    {
        match self.class {
            PieceClass::Pawn => 1,
            PieceClass::Bishop => 3,
            PieceClass::Knight => 3,
            PieceClass::Rook => 5,
            PieceClass::Queen => 9,
            PieceClass::King => 500,
        }
    }

    /// The moves of this piece as a sliding piece on `pos` along the four
    /// directions of `vect_set`, and the squares it defends along them.
    pub fn get_linear_moves(
        &self,
        board: &Board,
        pos: Vect,
        vect_set: [Vect; 4],
        find_defended: bool,
    ) -> (found: (Vec<Move>, Vec<Vect>))
        requires
            on_board(pos),
            forall|i: int| 0 <= i < 4 ==> is_direction(#[trigger] vect_set[i]),
        ensures
            found.0@ == linear_moves(board_squares(*board), self.enemy, pos, vect_set@),
            found.1@ == when_asked(
                find_defended,
                linear_defended(board_squares(*board), pos, vect_set@),
            ),
    {
        let mut moves: Vec<Move> = Vec::new();
        let mut defended: Vec<Vect> = Vec::new();
        let own = if self.enemy {
            SquareType::Enemy
        } else {
            SquareType::Own
        };
        let ghost squares = board_squares(*board);
        let mut i: usize = 0;
        while i < 4
            invariant
                i <= 4,
                on_board(pos),
                squares == board_squares(*board),
                own == side_type(self.enemy),
                forall|i: int| 0 <= i < 4 ==> is_direction(#[trigger] vect_set[i]),
                moves@ == linear_moves(squares, self.enemy, pos, vect_set@.take(i as int)),
                defended@ == when_asked(
                    find_defended,
                    linear_defended(squares, pos, vect_set@.take(i as int)),
                ),
            decreases 4 - i,
        {
            let step = vect_set[i];
            let mut square = pos;
            let ghost mut reach: nat = 8;
            let ghost moves_before = moves@;
            let ghost defended_before = defended@;
            loop
                invariant_except_break
                    on_board(square),
                    squares_ahead(square, step) <= reach,
                    moves_before + ray_moves(squares, self.enemy, pos, pos, step, 8) == moves@
                        + ray_moves(squares, self.enemy, pos, square, step, reach),
                    when_asked(
                        find_defended,
                        defended_before + ray_defended(squares, pos, step, 8),
                    ) == defended@ + when_asked(
                        find_defended,
                        ray_defended(squares, square, step, reach),
                    ),
                invariant
                    is_direction(step),
                    squares == board_squares(*board),
                    own == side_type(self.enemy),
                ensures
                    moves@ == moves_before + ray_moves(squares, self.enemy, pos, pos, step, 8),
                    defended@ == when_asked(
                        find_defended,
                        defended_before + ray_defended(squares, pos, step, 8),
                    ),
                decreases reach,
            {
                square.add(&step);
                let state = check_squre(board, &square);
                if state == SquareType::Invalid {
                    break ;
                }
                if find_defended {
                    defended.push(square);
                }
                if state == own {
                    break ;
                }
                moves.push(Move { enemy: self.enemy, move_type: MoveType::Standard(pos, square, true) });
                if state != SquareType::Free {
                    break ;
                }
                proof {
                    reach = (reach - 1) as nat;
                }
            }
            proof {
                let taken = vect_set@.take(i as int + 1);
                assert(taken.drop_last() == vect_set@.take(i as int));
                assert(taken.last() == step);
            }
            i = i + 1;
        }
        assert(vect_set@.take(4) == vect_set@);
        (moves, defended)
    }
}

/// Appends to `moves` and `defended` what a piece of `piece`'s side on `pos`
/// reaches by one jump of each of `steps`.
fn push_hops<const N: usize>(
    piece: &Piece,
    board: &Board,
    pos: Vect,
    steps: &[Vect; N],
    find_defended: bool,
    moves: &mut Vec<Move>,
    defended: &mut Vec<Vect>,
)
    requires
        on_board(pos),
        forall|i: int| 0 <= i < N ==> pos.can_add(#[trigger] steps[i]),
    ensures
        final(moves)@ == old(moves)@ + hop_moves(
            board_squares(*board),
            piece.enemy,
            pos,
            steps@,
        ),
        final(defended)@ == old(defended)@ + when_asked(
            find_defended,
            hop_defended(board_squares(*board), pos, steps@),
        ),
{
    let own = if piece.enemy {
        SquareType::Enemy
    } else {
        SquareType::Own
    };
    let ghost squares = board_squares(*board);
    let mut i: usize = 0;
    while i < N
        invariant
            i <= N,
            on_board(pos),
            squares == board_squares(*board),
            own == side_type(piece.enemy),
            forall|i: int| 0 <= i < N ==> pos.can_add(#[trigger] steps[i]),
            moves@ == old(moves)@ + hop_moves(squares, piece.enemy, pos, steps@.take(i as int)),
            defended@ == old(defended)@ + when_asked(
                find_defended,
                hop_defended(squares, pos, steps@.take(i as int)),
            ),
        decreases N - i,
    {
        let mut square = pos;
        square.add(&steps[i]);
        proof {
            let taken = steps@.take(i as int + 1);
            assert(taken.drop_last() == steps@.take(i as int));
            assert(taken.last() == steps[i as int]);
        }
        let state = check_squre(board, &square);
        if state != SquareType::Invalid {
            if find_defended {
                defended.push(square);
            }
            if state != own {
                moves.push(Move { enemy: piece.enemy, move_type: MoveType::Standard(pos, square, true) });
            }
        }
        i = i + 1;
    }
    assert(steps@.take(N as int) == steps@);
}

/// The moves of a knight on `pos`.
pub open spec fn knight_moves_of(squares: Squares, enemy: bool, pos: Vect) -> Seq<Move> {
    hop_moves(squares, enemy, pos, knight_steps())
}

/// The squares that a knight on `pos` defends.
pub open spec fn knight_defended(squares: Squares, pos: Vect) -> Seq<Vect> {
    hop_defended(squares, pos, knight_steps())
}

/// The moves of a king on `pos`, castling apart.
pub open spec fn king_moves_of(squares: Squares, enemy: bool, pos: Vect) -> Seq<Move> {
    hop_moves(squares, enemy, pos, bishop_steps()) + hop_moves(squares, enemy, pos, rook_steps())
}

/// The squares that a king on `pos` defends.
pub open spec fn king_defended(squares: Squares, pos: Vect) -> Seq<Vect> {
    hop_defended(squares, pos, bishop_steps()) + hop_defended(squares, pos, rook_steps())
}

/// The moves of a bishop on `pos`.
pub open spec fn bishop_moves_of(squares: Squares, enemy: bool, pos: Vect) -> Seq<Move> {
    linear_moves(squares, enemy, pos, bishop_steps())
}

/// The squares that a bishop on `pos` defends.
pub open spec fn bishop_defended(squares: Squares, pos: Vect) -> Seq<Vect> {
    linear_defended(squares, pos, bishop_steps())
}

/// The moves of a queen on `pos`: those of a bishop, then those of a rook.
pub open spec fn queen_moves_of(squares: Squares, enemy: bool, pos: Vect) -> Seq<Move> {
    linear_moves(squares, enemy, pos, bishop_steps()) + linear_moves(
        squares,
        enemy,
        pos,
        rook_steps(),
    )
}

/// The squares that a queen on `pos` defends.
pub open spec fn queen_defended(squares: Squares, pos: Vect) -> Seq<Vect> {
    linear_defended(squares, pos, bishop_steps()) + linear_defended(squares, pos, rook_steps())
}

/// The moves of the knight `piece` on `pos`, and the squares it defends.
pub fn knight_moves(piece: &Piece, board: &Board, pos: Vect, find_defended: bool) -> (found: (
    Vec<Move>,
    Vec<Vect>,
))
    requires
        on_board(pos),
    ensures
        found.0@ == knight_moves_of(board_squares(*board), piece.enemy, pos),
        found.1@ == when_asked(find_defended, knight_defended(board_squares(*board), pos)),
{
    let mut moves: Vec<Move> = Vec::new();
    let mut defended: Vec<Vect> = Vec::new();
    let steps = knight_vectors();
    push_hops(piece, board, pos, &steps, find_defended, &mut moves, &mut defended);
    (moves, defended)
}

/// The moves of the bishop `piece` on `pos`, and the squares it defends.
pub fn bishop_moves(piece: &Piece, board: &Board, pos: Vect, find_defended: bool) -> (found: (
    Vec<Move>,
    Vec<Vect>,
))
    requires
        on_board(pos),
    ensures
        found.0@ == bishop_moves_of(board_squares(*board), piece.enemy, pos),
        found.1@ == when_asked(find_defended, bishop_defended(board_squares(*board), pos)),
{
    piece.get_linear_moves(board, pos, bishop_vectors(), find_defended)
}

/// The moves of the queen `piece` on `pos`, and the squares it defends.
pub fn queen_moves(piece: &Piece, board: &Board, pos: Vect, find_defended: bool) -> (found: (
    Vec<Move>,
    Vec<Vect>,
))
    requires
        on_board(pos),
    ensures
        found.0@ == queen_moves_of(board_squares(*board), piece.enemy, pos),
        found.1@ == when_asked(find_defended, queen_defended(board_squares(*board), pos)),
{
    let (mut moves, mut defended) = piece.get_linear_moves(
        board,
        pos,
        bishop_vectors(),
        find_defended,
    );
    let (mut moves_2, mut defended_2) = piece.get_linear_moves(
        board,
        pos,
        rook_vectors(),
        find_defended,
    );
    moves.append(&mut moves_2);
    defended.append(&mut defended_2);
    (moves, defended)
}

/// The moves of the king `piece` on `pos`, castling apart, and the squares
/// it defends.
pub fn king_moves(piece: &Piece, board: &Board, pos: Vect, find_defended: bool) -> (found: (
    Vec<Move>,
    Vec<Vect>,
))
    requires
        on_board(pos),
    ensures
        found.0@ == king_moves_of(board_squares(*board), piece.enemy, pos),
        found.1@ == when_asked(find_defended, king_defended(board_squares(*board), pos)),
{
    let mut moves: Vec<Move> = Vec::new();
    let mut defended: Vec<Vect> = Vec::new();
    let diagonal = bishop_vectors();
    let straight = rook_vectors();
    push_hops(piece, board, pos, &diagonal, find_defended, &mut moves, &mut defended);
    push_hops(piece, board, pos, &straight, find_defended, &mut moves, &mut defended);
    (moves, defended)
}

/// The square that lies `dx` files and `dy` ranks from `pos`.
pub open spec fn offset(pos: Vect, dx: int, dy: int) -> Vect {
    Vect { x: (pos.x + dx) as i8, y: (pos.y + dy) as i8 }
}

/// The direction in which the pawns of a side advance.
pub open spec fn pawn_direction(enemy: bool) -> int {
    if enemy {
        -1
    } else {
        1
    }
}

/// The rank on which the pawns of a side start.
pub open spec fn pawn_start_rank(enemy: bool) -> int {
    if enemy {
        BOARD_WIDTH - 2
    } else {
        1
    }
}

/// The rank on which a pawn of the given side lands when it takes en
/// passant.
pub open spec fn en_passant_rank(enemy: bool) -> int {
    if enemy {
        2
    } else {
        BOARD_WIDTH - 3
    }
}

/// The move of a pawn from `from` to `to`: a promotion to a queen where `to`
/// lies on the first or the last rank, else a standard move.
pub open spec fn pawn_step(enemy: bool, from: Vect, to: Vect, self_defended: bool) -> Move {
    Move {
        enemy,
        move_type: if to.y == 0 || to.y == BOARD_WIDTH - 1 {
            MoveType::Promotion(
                from,
                to,
                Piece { class: PieceClass::Queen, enemy },
                self_defended,
            )
        } else {
            MoveType::Standard(from, to, self_defended)
        },
    }
}

/// The advance of a pawn by one square: only onto a free square.
pub open spec fn pawn_forward(squares: Squares, enemy: bool, pos: Vect) -> Seq<Move> {
    let ahead = offset(pos, 0, pawn_direction(enemy));
    if square_type(squares, ahead) == SquareType::Free {
        seq![pawn_step(enemy, pos, ahead, false)]
    } else {
        Seq::empty()
    }
}

/// What a pawn can do on the diagonal square towards `side` (-1 or 1): take
/// a piece of the other side that stands there, or take en passant where the
/// square is free, lies on the side's en-passant rank and is the current
/// target.
pub open spec fn pawn_capture(
    squares: Squares,
    enemy: bool,
    pos: Vect,
    side: int,
    en_passant_midpoint: Option<Vect>,
) -> Seq<Move> {
    let to = offset(pos, side, pawn_direction(enemy));
    let kind = square_type(squares, to);
    if kind == SquareType::Invalid || kind == side_type(enemy) {
        Seq::empty()
    } else if kind == SquareType::Free {
        if to.y == en_passant_rank(enemy) && en_passant_midpoint == Some(to) {
            seq![Move { enemy, move_type: MoveType::EnPassant(pos, to, offset(pos, side, 0)) }]
        } else {
            Seq::empty()
        }
    } else {
        seq![pawn_step(enemy, pos, to, true)]
    }
}

/// The advance of a pawn by two squares: only from the starting rank of its
/// side, and only over a free square onto a free square.
pub open spec fn pawn_double(squares: Squares, enemy: bool, pos: Vect) -> Seq<Move> {
    let ahead = offset(pos, 0, pawn_direction(enemy));
    let beyond = offset(pos, 0, 2 * pawn_direction(enemy));
    if pos.y == pawn_start_rank(enemy) && square_type(squares, ahead) == SquareType::Free
        && square_type(squares, beyond) == SquareType::Free {
        seq![Move { enemy, move_type: MoveType::DoubleAdvance(pos, beyond) }]
    } else {
        Seq::empty()
    }
}

/// The moves of a pawn on `pos`: forward, the two diagonals, the double
/// advance. A pawn with no square ahead of it on the board has none.
pub open spec fn pawn_moves_of(
    squares: Squares,
    enemy: bool,
    pos: Vect,
    en_passant_midpoint: Option<Vect>,
) -> Seq<Move> {
    if !on_board(offset(pos, 0, pawn_direction(enemy))) {
        Seq::empty()
    } else {
        pawn_forward(squares, enemy, pos) + pawn_capture(
            squares,
            enemy,
            pos,
            -1,
            en_passant_midpoint,
        ) + pawn_capture(squares, enemy, pos, 1, en_passant_midpoint) + pawn_double(
            squares,
            enemy,
            pos,
        )
    }
}

/// The diagonal square of a pawn towards `side`, where it lies on the board.
pub open spec fn pawn_diagonal(enemy: bool, pos: Vect, side: int) -> Seq<Vect> {
    let to = offset(pos, side, pawn_direction(enemy));
    if on_board(to) {
        seq![to]
    } else {
        Seq::empty()
    }
}

/// The squares that a pawn on `pos` defends: its two diagonal squares.
pub open spec fn pawn_defended(enemy: bool, pos: Vect) -> Seq<Vect> {
    if !on_board(offset(pos, 0, pawn_direction(enemy))) {
        Seq::empty()
    } else {
        pawn_diagonal(enemy, pos, -1) + pawn_diagonal(enemy, pos, 1)
    }
}

/// The move of the pawn `piece` from `from` to `to`: a promotion to a queen
/// on the first and the last rank, else a standard move.
pub fn promotion_or_standard(piece: &Piece, from: Vect, to: Vect, self_defended: bool) -> (mov:
    Move)
    ensures
        mov == pawn_step(piece.enemy, from, to, self_defended),
{
    Move {
        enemy: piece.enemy,
        move_type: if to.y == 0 || to.y == BOARD_WIDTH - 1 {
            MoveType::Promotion(
                from,
                to,
                Piece { class: PieceClass::Queen, enemy: piece.enemy },
                self_defended,
            )
        } else {
            MoveType::Standard(from, to, self_defended)
        },
    }
}

/// The moves of the pawn `piece` on `pos`, and the squares it defends.
pub fn pawn_moves(
    piece: &Piece,
    board: &Board,
    pos: Vect,
    find_defended: bool,
    en_passant_midpoint: &Option<Vect>,
) -> (found: (Vec<Move>, Vec<Vect>))
    requires
        on_board(pos),
    ensures
        found.0@ == pawn_moves_of(
            board_squares(*board),
            piece.enemy,
            pos,
            *en_passant_midpoint,
        ),
        found.1@ == when_asked(find_defended, pawn_defended(piece.enemy, pos)),
{
    let mut moves: Vec<Move> = Vec::new();
    let mut defended: Vec<Vect> = Vec::new();
    let ghost squares = board_squares(*board);
    let move_direction: i8 = if piece.enemy {
        -1
    } else {
        1
    };
    let own = if piece.enemy {
        SquareType::Enemy
    } else {
        SquareType::Own
    };

    // One forward
    let mut one_forward = false;
    let forwards_pos = Vect { x: pos.x, y: pos.y + move_direction };
    let state = check_squre(board, &forwards_pos);
    if state == SquareType::Free {
        moves.push(promotion_or_standard(piece, pos, forwards_pos, false));
        one_forward = true;
    } else if state == SquareType::Invalid {
        return (moves, defended);
    }
    assert(moves@ == pawn_forward(squares, piece.enemy, pos));

    // Diagonal attack and en passant
    let sides: [i8; 2] = [-1, 1];
    let mut i: usize = 0;
    while i < 2
        invariant
            i <= 2,
            on_board(pos),
            on_board(forwards_pos),
            forwards_pos == offset(pos, 0, pawn_direction(piece.enemy)),
            squares == board_squares(*board),
            own == side_type(piece.enemy),
            move_direction == pawn_direction(piece.enemy),
            sides[0] == -1,
            sides[1] == 1,
            moves@ == pawn_forward(squares, piece.enemy, pos) + (if i >= 1 {
                pawn_capture(squares, piece.enemy, pos, -1, *en_passant_midpoint)
            } else {
                Seq::empty()
            }) + (if i >= 2 {
                pawn_capture(squares, piece.enemy, pos, 1, *en_passant_midpoint)
            } else {
                Seq::empty()
            }),
            defended@ == when_asked(
                find_defended,
                (if i >= 1 {
                    pawn_diagonal(piece.enemy, pos, -1)
                } else {
                    Seq::empty()
                }) + (if i >= 2 {
                    pawn_diagonal(piece.enemy, pos, 1)
                } else {
                    Seq::empty()
                }),
            ),
        decreases 2 - i,
    {
        let x = sides[i];
        let diagonal_pos = Vect { x: pos.x + x, y: pos.y + move_direction };
        assert(diagonal_pos == offset(pos, x as int, pawn_direction(piece.enemy)));
        let state = check_squre(board, &diagonal_pos);
        if state != SquareType::Invalid {
            if find_defended {
                defended.push(diagonal_pos);
            }
            if state == SquareType::Free {
                let rank: i8 = if piece.enemy {
                    2
                } else {
                    BOARD_WIDTH - 3
                };
                if diagonal_pos.y == rank {
                    match en_passant_midpoint {
                        Some(midpoint) => {
                            if diagonal_pos.equals(midpoint) {
                                let en_passant_target = Vect { x: pos.x + x, y: pos.y };
                                assert(en_passant_target == offset(pos, x as int, 0));
                                moves.push(
                                    Move {
                                        enemy: piece.enemy,
                                        move_type: MoveType::EnPassant(
                                            pos,
                                            diagonal_pos,
                                            en_passant_target,
                                        ),
                                    },
                                );
                            }
                        },
                        None => (),
                    }
                }
            } else if state != own {
                moves.push(promotion_or_standard(piece, pos, diagonal_pos, true));
            }
        }
        i = i + 1;
    }

    // Double advance
    if (pos.y == 1 || pos.y == BOARD_WIDTH - 2) && one_forward {
        let forwards_pos = Vect { x: pos.x, y: pos.y + 2 * move_direction };
        assert(forwards_pos == offset(pos, 0, 2 * pawn_direction(piece.enemy)));
        let state = check_squre(board, &forwards_pos);
        if state == SquareType::Free {
            moves.push(Move { enemy: piece.enemy, move_type: MoveType::DoubleAdvance(pos, forwards_pos) });
        }
    }
    (moves, defended)
}

/// Whether a walk along the rank from `from`, by `dx` files at a time, meets
/// a king of the given side before any other piece and before the edge.
pub open spec fn meets_own_king(squares: Squares, enemy: bool, from: Vect, dx: int, reach: nat) -> bool
    decreases reach,
{
    let next = offset(from, dx, 0);
    if reach == 0 || !on_board(next) {
        false
    } else {
        match piece_at(squares, next) {
            Some(found) => found.class == PieceClass::King && found.enemy == enemy,
            None => meets_own_king(squares, enemy, next, dx, (reach - 1) as nat),
        }
    }
}

/// The castling move that a rook on `pos` offers: on the queenside for a
/// rook on the first file, else on the kingside; only while its side still
/// has that right, and only where the walk towards the centre meets the
/// king of its side first.
pub open spec fn rook_castling(
    squares: Squares,
    enemy: bool,
    pos: Vect,
    castling: CastlingPossibilities,
) -> Seq<Move> {
    let queenside = pos.x == 0;
    let allowed = if queenside {
        castling.queenside
    } else {
        castling.kingside
    };
    let dx: int = if queenside {
        1
    } else {
        -1
    };
    if BOARD_WIDTH == 8 && allowed && meets_own_king(squares, enemy, pos, dx, 8) {
        seq![Move { enemy, move_type: MoveType::Castling(queenside) }]
    } else {
        Seq::empty()
    }
}

/// The moves of a rook on `pos`: along its four directions, then castling.
pub open spec fn rook_moves_of(
    squares: Squares,
    enemy: bool,
    pos: Vect,
    castling: CastlingPossibilities,
) -> Seq<Move> {
    linear_moves(squares, enemy, pos, rook_steps()) + rook_castling(squares, enemy, pos, castling)
}

/// The squares that a rook on `pos` defends.
pub open spec fn rook_defended(squares: Squares, pos: Vect) -> Seq<Vect> {
    linear_defended(squares, pos, rook_steps())
}

/// The moves of the rook `piece` on `pos`, and the squares it defends.
pub fn rook_moves(
    piece: &Piece,
    board: &Board,
    pos: Vect,
    find_defended: bool,
    castling: &CastlingPossibilities,
) -> (found: (Vec<Move>, Vec<Vect>))
    requires
        on_board(pos),
    ensures
        found.0@ == rook_moves_of(board_squares(*board), piece.enemy, pos, *castling),
        found.1@ == when_asked(find_defended, rook_defended(board_squares(*board), pos)),
{
    let (mut moves, defended) = piece.get_linear_moves(board, pos, rook_vectors(), find_defended);
    let ghost squares = board_squares(*board);

    // Castling
    if BOARD_WIDTH != 8 {
        return (moves, defended);
    }
    // True: Queenside, False: Kingside
    let queenside = pos.x == 0;

    // Only proceed if castling is possible
    if !castling.kingside && !queenside || !castling.queenside && queenside {
        return (moves, defended);
    }
    let move_vect = Vect { x: if queenside {
        1
    } else {
        -1
    }, y: 0 };
    let mut target = pos;
    let ghost mut reach: nat = 8;
    let mut found_king = false;
    loop
        invariant_except_break
            on_board(target),
            squares_ahead(target, move_vect) <= reach,
            meets_own_king(squares, piece.enemy, pos, move_vect.x as int, 8) == meets_own_king(
                squares,
                piece.enemy,
                target,
                move_vect.x as int,
                reach,
            ),
        invariant
            squares == board_squares(*board),
            move_vect.y == 0,
            move_vect.x == 1 || move_vect.x == -1,
        ensures
            found_king == meets_own_king(squares, piece.enemy, pos, move_vect.x as int, 8),
        decreases reach,
    {
        // Check path to king is clear and that king is reached
        target.add(&move_vect);
        if check_squre(board, &target) == SquareType::Invalid {
            found_king = false;
            break ;
        }
        match square(board, &target) {
            Some(king) => {
                found_king = king.class == PieceClass::King && king.enemy == piece.enemy;
                break ;
            },
            None => (),
        }
        proof {
            reach = (reach - 1) as nat;
        }
    }
    if found_king {
        moves.push(Move { enemy: piece.enemy, move_type: MoveType::Castling(queenside) });
    }
    (moves, defended)
}

impl Piece {
    /// The moves of a piece on `pos`, by its class.
    pub open spec fn moves_from(
        self,
        squares: Squares,
        pos: Vect,
        en_passant_midpoint: Option<Vect>,
        castling: CastlingPossibilities,
    ) -> Seq<Move> {
        match self.class {
            PieceClass::Pawn => pawn_moves_of(squares, self.enemy, pos, en_passant_midpoint),
            PieceClass::Bishop => bishop_moves_of(squares, self.enemy, pos),
            PieceClass::Knight => knight_moves_of(squares, self.enemy, pos),
            PieceClass::Rook => rook_moves_of(squares, self.enemy, pos, castling),
            PieceClass::Queen => queen_moves_of(squares, self.enemy, pos),
            PieceClass::King => king_moves_of(squares, self.enemy, pos),
        }
    }

    /// The squares that a piece on `pos` defends, by its class: those it
    /// could move to or take on, whichever side stands there.
    pub open spec fn defended_from(self, squares: Squares, pos: Vect) -> Seq<Vect> {
        match self.class {
            PieceClass::Pawn => pawn_defended(self.enemy, pos),
            PieceClass::Bishop => bishop_defended(squares, pos),
            PieceClass::Knight => knight_defended(squares, pos),
            PieceClass::Rook => rook_defended(squares, pos),
            PieceClass::Queen => queen_defended(squares, pos),
            PieceClass::King => king_defended(squares, pos),
        }
    }

    /// The moves of this piece on `pos` and, where `find_defended` asks for
    /// them, the squares it defends.
    pub fn all_moves(
        &self,
        board: &Board,
        pos: Vect,
        find_defended: bool,
        en_passant_midpoint: &Option<Vect>,
        castling: &CastlingPossibilities,
    ) -> (found: (Vec<Move>, Vec<Vect>))
        requires
            on_board(pos),
        ensures
            found.0@ == self.moves_from(
                board_squares(*board),
                pos,
                *en_passant_midpoint,
                *castling,
            ),
            found.1@ == when_asked(find_defended, self.defended_from(board_squares(*board), pos)),
    {
        match self.class {
            PieceClass::Pawn => pawn_moves(self, board, pos, find_defended, en_passant_midpoint),
            PieceClass::Bishop => bishop_moves(self, board, pos, find_defended),
            PieceClass::Knight => knight_moves(self, board, pos, find_defended),
            PieceClass::Rook => rook_moves(self, board, pos, find_defended, castling),
            PieceClass::Queen => queen_moves(self, board, pos, find_defended),
            PieceClass::King => king_moves(self, board, pos, find_defended),
        }
    }
}

} // verus!
