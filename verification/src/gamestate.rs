//! Positions: the board with its derived state, the moves of a side, and
//! the transition from a position and a move to the next position.

use crate::moves::{piece_at, set_square, square, square_index, Move, MoveType};
use crate::pieces::{board_squares, Board, Piece, PieceClass, Squares};
use crate::material::{weigh, Measure};
use crate::settings::{BOARD_WIDTH, CASTLING, ENGINE_BLACK};
use crate::utils::{
    decimal, file_letter, on_board, push_decimal, string_of, CastlingPossibilities, Vect, LETTERS,
};
use vstd::prelude::*;

verus! {

/// A position of the game.
#[derive(Clone, Copy, Debug, PartialEq, Eq)]
pub struct GameState {
    pub board: Board,
    /// The material score: positive where the engine is ahead.
    pub score: i16,
    /// `false` once a king has been taken.
    pub kings_alive: bool,
    pub engine_castling: CastlingPossibilities,
    pub opponent_castling: CastlingPossibilities,
    /// The square that a pawn has just passed over in a double advance.
    pub en_passant_midpoint: Option<Vect>,
}

/// The mathematical model of a position.
pub struct Position {
    pub squares: Squares,
    pub score: int,
    pub kings_alive: bool,
    pub engine_castling: CastlingPossibilities,
    pub opponent_castling: CastlingPossibilities,
    pub en_passant_midpoint: Option<Vect>,
}

impl View for GameState {
    type V = Position;

    open spec fn view(&self) -> Position {
        Position {
            squares: board_squares(self.board),
            score: self.score as int,
            kings_alive: self.kings_alive,
            engine_castling: self.engine_castling,
            opponent_castling: self.opponent_castling,
            en_passant_midpoint: self.en_passant_midpoint,
        }
    }
}

/// What taking `taken` adds to the score: its value where it was the
/// opponent's, minus its value where it was the engine's.
pub open spec fn capture_delta(taken: Option<Piece>) -> int {
    match taken {
        Some(piece) => if piece.enemy {
            piece.value()
        } else {
            -piece.value()
        },
        None => 0,
    }
}

/// What the promotion of a pawn to `new_piece` adds to the score.
pub open spec fn promotion_delta(new_piece: Option<Piece>) -> int {
    match new_piece {
        Some(piece) => if piece.enemy {
            1 - piece.value()
        } else {
            piece.value() - 1
        },
        None => 0,
    }
}

/// The castling rights of a side after `mover` has left the square `from`:
/// a king gives up both, a rook the one of its wing.
pub open spec fn rights_after(
    castling: CastlingPossibilities,
    mover: Option<Piece>,
    from: Vect,
) -> CastlingPossibilities {
    match mover {
        Some(piece) => match piece.class {
            PieceClass::King => CastlingPossibilities { queenside: false, kingside: false },
            PieceClass::Rook => if from.x == 0 {
                CastlingPossibilities { queenside: false, kingside: castling.kingside }
            } else {
                CastlingPossibilities { queenside: castling.queenside, kingside: false }
            },
            _ => castling,
        },
        None => castling,
    }
}

/// The squares after what stands on `from` has gone to `to`, as itself or
/// as `new_piece`.
pub open spec fn relocated(squares: Squares, from: Vect, to: Vect, new_piece: Option<Piece>) -> Squares {
    squares.update(square_index(from), None).update(
        square_index(to),
        match new_piece {
            Some(piece) => Some(piece),
            None => piece_at(squares, from),
        },
    )
}

/// What the relocation adds to the score.
pub open spec fn relocation_delta(
    squares: Squares,
    from: Vect,
    to: Vect,
    new_piece: Option<Piece>,
) -> int {
    capture_delta(piece_at(squares, to)) + promotion_delta(new_piece)
}

/// Whether the relocation takes a king.
pub open spec fn takes_king(squares: Squares, to: Vect) -> bool {
    match piece_at(squares, to) {
        Some(piece) => piece.class == PieceClass::King,
        None => false,
    }
}

/// Whether the mover counted among the defenders of its destination: true
/// of every relocation but a pawn's onto a free square.
pub open spec fn was_defending(squares: Squares, from: Vect, to: Vect) -> bool {
    match piece_at(squares, from) {
        Some(piece) => !(piece.class == PieceClass::Pawn && piece_at(squares, to) is None),
        None => true,
    }
}

/// Whether the squares that a move names lie on the board.
pub open spec fn move_on_board(mov: Move) -> bool {
    match mov.move_type {
        MoveType::Standard(from, to, _) => on_board(from) && on_board(to),
        MoveType::DoubleAdvance(from, to) => on_board(from) && on_board(to),
        MoveType::EnPassant(from, to, target) => on_board(from) && on_board(to) && on_board(target),
        MoveType::Castling(_) => true,
        MoveType::Promotion(from, to, _, _) => on_board(from) && on_board(to),
        MoveType::Null => true,
    }
}

/// The rank on which a side castles.
pub open spec fn home_rank(enemy: bool) -> int {
    if enemy {
        BOARD_WIDTH - 1
    } else {
        0
    }
}

/// The square of file `x` and rank `y`.
pub open spec fn at(x: int, y: int) -> Vect {
    Vect { x: x as i8, y: y as i8 }
}

/// The square from which the rook castles.
pub open spec fn rook_start(enemy: bool, queenside: bool) -> Vect {
    at(if queenside { 0 } else { 7 }, home_rank(enemy))
}

/// The square to which the rook castles.
pub open spec fn rook_end(enemy: bool, queenside: bool) -> Vect {
    at(if queenside { 3 } else { 5 }, home_rank(enemy))
}

/// The square from which the king castles.
pub open spec fn king_start(enemy: bool) -> Vect {
    at(4, home_rank(enemy))
}

/// The square to which the king castles.
pub open spec fn king_end(enemy: bool, queenside: bool) -> Vect {
    at(if queenside { 2 } else { 6 }, home_rank(enemy))
}

/// The square between the two squares of a double advance.
pub open spec fn midpoint(from: Vect, to: Vect) -> Vect {
    at((from.x + to.x) / 2, (from.y + to.y) / 2)
}

impl Position {
    /// The castling rights of the given side.
    pub open spec fn rights(self, enemy: bool) -> CastlingPossibilities {
        if enemy {
            self.opponent_castling
        } else {
            self.engine_castling
        }
    }

    /// This position with the castling rights of the given side replaced.
    pub open spec fn with_rights(self, enemy: bool, castling: CastlingPossibilities) -> Position {
        if enemy {
            Position { opponent_castling: castling, ..self }
        } else {
            Position { engine_castling: castling, ..self }
        }
    }

    /// The position after the piece on `from` has gone to `to`, as itself or
    /// as `new_piece`: what stood on `to` is taken and scored, a king taken
    /// ends the life of the kings, and a king or a rook that moves gives up
    /// castling rights of the side `enemy`. No en-passant target is left.
    pub open spec fn relocate(
        self,
        enemy: bool,
        from: Vect,
        to: Vect,
        new_piece: Option<Piece>,
    ) -> Position {
        Position {
            squares: relocated(self.squares, from, to, new_piece),
            score: self.score + relocation_delta(self.squares, from, to, new_piece),
            kings_alive: self.kings_alive && !takes_king(self.squares, to),
            en_passant_midpoint: None,
            ..self
        }.with_rights(enemy, rights_after(self.rights(enemy), piece_at(self.squares, from), from))
    }

    /// The position after the given side has castled: the rook and then the
    /// king go to their squares, nothing is scored, and the side has no
    /// castling right left.
    pub open spec fn castle(self, enemy: bool, queenside: bool) -> Position {
        let rook_gone = relocated(
            self.squares,
            rook_start(enemy, queenside),
            rook_end(enemy, queenside),
            None,
        );
        Position {
            squares: relocated(rook_gone, king_start(enemy), king_end(enemy, queenside), None),
            en_passant_midpoint: None,
            ..self
        }.with_rights(enemy, CastlingPossibilities { queenside: false, kingside: false })
    }

    /// The position after the move.
    #[verifier::opaque]
    pub open spec fn after(self, mov: Move) -> Position {
        match mov.move_type {
            MoveType::Standard(from, to, _) => self.relocate(mov.enemy, from, to, None),
            MoveType::DoubleAdvance(from, to) => Position {
                en_passant_midpoint: Some(midpoint(from, to)),
                ..self.relocate(mov.enemy, from, to, None)
            },
            MoveType::EnPassant(from, to, target) => {
                let moved = self.relocate(mov.enemy, from, to, None);
                Position {
                    squares: moved.squares.update(square_index(target), None),
                    score: self.score + 1,
                    kings_alive: self.kings_alive,
                    ..moved
                }
            },
            MoveType::Castling(queenside) => self.castle(mov.enemy, queenside),
            MoveType::Promotion(from, to, piece, _) => self.relocate(
                mov.enemy,
                from,
                to,
                Some(piece),
            ),
            MoveType::Null => Position { en_passant_midpoint: None, ..self },
        }
    }

    /// Whether the mover itself counted among the defenders of the square
    /// it went to.
    pub open spec fn self_defended(self, mov: Move) -> bool {
        match mov.move_type {
            MoveType::Standard(from, to, _) => was_defending(self.squares, from, to),
            MoveType::DoubleAdvance(_, _) => false,
            MoveType::EnPassant(_, _, _) => true,
            MoveType::Castling(_) => false,
            MoveType::Promotion(from, to, _, _) => was_defending(self.squares, from, to),
            MoveType::Null => true,
        }
    }

    /// Whether the move can be carried out: it is a move, its squares lie on
    /// the board, and the score that results fits the score's type.
    pub open spec fn admits(self, mov: Move) -> bool {
        &&& mov.move_type !is Null
        &&& move_on_board(mov)
        &&& i16::MIN <= self.after(mov).score <= i16::MAX
    }
}

/// Carries what stands on `from` to `to`, as itself or as `new_piece`.
/// Returns what this adds to the score, whether a king was taken, and
/// whether the mover counted among the defenders of `to`.
fn standard_move(
    board: &mut Board,
    from: &Vect,
    to: &Vect,
    new_piece: Option<Piece>,
    castling: &mut CastlingPossibilities,
) -> (outcome: (i16, bool, bool))
    requires
        on_board(*from),
        on_board(*to),
    ensures
        board_squares(*final(board)) == relocated(
            board_squares(*old(board)),
            *from,
            *to,
            new_piece,
        ),
        *final(castling) == rights_after(
            *old(castling),
            piece_at(board_squares(*old(board)), *from),
            *from,
        ),
        outcome.0 == relocation_delta(board_squares(*old(board)), *from, *to, new_piece),
        outcome.1 == takes_king(board_squares(*old(board)), *to),
        outcome.2 == was_defending(board_squares(*old(board)), *from, *to),
{
    let start_piece = square(board, from);
    let end_piece = square(board, to);
    set_square(board, from, None);

    let mut king_killed = false;
    let mut score_delta: i16 = 0;
    let mut subtract = true;

    // Disable castling if piece moved
    match start_piece {
        Some(piece) => match piece.class {
            PieceClass::King => {
                castling.kingside = false;
                castling.queenside = false;
            },
            PieceClass::Rook => {
                if from.x == 0 {
                    castling.queenside = false;
                } else {
                    castling.kingside = false;
                }
            },
            PieceClass::Pawn => match end_piece {
                Some(_) => (),
                None => {
                    subtract = false;
                },
            },
            _ => (),
        },
        None => (),
    }

    // Find change in score and check if king was killed
    match end_piece {
        Some(piece) => {
            if piece.enemy {
                score_delta = piece.get_value();
            } else {
                score_delta = -piece.get_value();
            }
            match piece.class {
                PieceClass::King => {
                    king_killed = true;
                },
                _ => (),
            }
        },
        None => (),
    }

    // Handle promotion
    let replacement_piece = match new_piece {
        Some(piece) => {
            if piece.enemy {
                score_delta = score_delta + (1 - piece.get_value());
            } else {
                score_delta = score_delta + (piece.get_value() - 1);
            }
            Some(piece)
        },
        None => start_piece,
    };
    set_square(board, to, replacement_piece);
    (score_delta, king_killed, subtract)
}

impl GameState {
    /// Carries out the move. Returns the position that results and whether
    /// the mover itself counted among the defenders of the square it went
    /// to.
    pub fn perform_move_subtract(&self, mov: &Move) -> (next: (GameState, bool))
        requires
            self@.admits(*mov),
        ensures
            next.0@ == self@.after(*mov),
            next.1 == self@.self_defended(*mov),
    {
        proof {
            reveal(Position::after);
        }
        let mut board = self.board;
        let mut score = self.score;
        let mut kings_alive = self.kings_alive;
        let mut engine_castling = self.engine_castling;
        let mut opponent_castling = self.opponent_castling;
        let mut en_passant_midpoint: Option<Vect> = None;

        // The castling possibilities of the player that moves
        let mut castling = if mov.enemy {
            opponent_castling
        } else {
            engine_castling
        };
        let subtract;
        match mov.move_type {
            MoveType::Standard(from, to, _) => {
                let (score_delta, king_killed, sub) = standard_move(
                    &mut board,
                    &from,
                    &to,
                    None,
                    &mut castling,
                );
                score = score + score_delta;
                kings_alive = !king_killed && kings_alive;
                subtract = sub;
            },
            MoveType::DoubleAdvance(from, to) => {
                let (score_delta, king_killed, _) = standard_move(
                    &mut board,
                    &from,
                    &to,
                    None,
                    &mut castling,
                );
                score = score + score_delta;
                kings_alive = !king_killed && kings_alive;

                // Update en passant destination square
                en_passant_midpoint = Some(
                    Vect { x: (from.x + to.x) / 2, y: (from.y + to.y) / 2 },
                );
                subtract = false;
            },
            MoveType::EnPassant(from, to, target) => {
                // Simply move piece: nothing it meets is scored
                standard_move(&mut board, &from, &to, None, &mut castling);
                score = score + 1;
                set_square(&mut board, &target, None);
                subtract = true;
            },
            MoveType::Promotion(from, to, piece, _) => {
                let (score_delta, king_killed, sub) = standard_move(
                    &mut board,
                    &from,
                    &to,
                    Some(piece),
                    &mut castling,
                );
                score = score + score_delta;
                kings_alive = !king_killed && kings_alive;
                subtract = sub;
            },
            MoveType::Castling(queenside) => {
                let y: i8 = if mov.enemy {
                    7
                } else {
                    0
                };
                let rook_from = Vect { x: if queenside {
                    0
                } else {
                    7
                }, y };
                let rook_to = Vect { x: if queenside {
                    3
                } else {
                    5
                }, y };
                let king_from = Vect { x: 4, y };
                let king_to = Vect { x: if queenside {
                    2
                } else {
                    6
                }, y };
                standard_move(&mut board, &rook_from, &rook_to, None, &mut castling);
                standard_move(&mut board, &king_from, &king_to, None, &mut castling);
                castling.kingside = false;
                castling.queenside = false;
                subtract = false;
            },
            MoveType::Null => {
                subtract = true;
            },
        }
        if mov.enemy {
            opponent_castling = castling;
        } else {
            engine_castling = castling;
        }
        let state = GameState {
            board,
            score,
            kings_alive,
            engine_castling,
            opponent_castling,
            en_passant_midpoint,
        };
        assert(state@ == self@.after(*mov));
        (state, subtract)
    }

    /// The position after the move.
    pub fn perform_move(&self, mov: &Move) -> (next: GameState)
        requires
            self@.admits(*mov),
        ensures
            next@ == self@.after(*mov),
    {
        let (game_state, _) = self.perform_move_subtract(mov);
        game_state
    }
}

/// The square that the scan of the board visits at step `k`: file by file,
/// and within a file from the first rank to the last.
pub open spec fn scanned(k: int) -> Vect {
    at(k / 8, k % 8)
}

impl Position {
    /// The moves of the piece on the square `pos`, where it is of the given
    /// side.
    pub open spec fn moves_on(self, enemy: bool, pos: Vect) -> Seq<Move> {
        match piece_at(self.squares, pos) {
            Some(piece) => if piece.enemy == enemy {
                piece.moves_from(self.squares, pos, self.en_passant_midpoint, self.rights(enemy))
            } else {
                Seq::empty()
            },
            None => Seq::empty(),
        }
    }

    /// The moves of the given side from the first `count` squares of the
    /// scan.
    pub open spec fn moves_upto(self, enemy: bool, count: nat) -> Seq<Move>
        decreases count,
    {
        if count == 0 {
            Seq::empty()
        } else {
            self.moves_upto(enemy, (count - 1) as nat) + self.moves_on(
                enemy,
                scanned(count - 1),
            )
        }
    }

    /// The moves of the given side, in the order of the scan.
    #[verifier::opaque]
    pub open spec fn possible_moves(self, enemy: bool) -> Seq<Move> {
        self.moves_upto(enemy, 64)
    }

    /// The squares that the engine's piece on `pos` defends, where there is
    /// one.
    pub open spec fn defended_on(self, pos: Vect) -> Seq<Vect> {
        match piece_at(self.squares, pos) {
            Some(piece) => if !piece.enemy {
                piece.defended_from(self.squares, pos)
            } else {
                Seq::empty()
            },
            None => Seq::empty(),
        }
    }

    /// The squares that the engine's pieces on the first `count` squares of
    /// the scan defend, each as often as it is defended.
    pub open spec fn defended_upto(self, count: nat) -> Seq<Vect>
        decreases count,
    {
        if count == 0 {
            Seq::empty()
        } else {
            self.defended_upto((count - 1) as nat) + self.defended_on(scanned(count - 1))
        }
    }

    /// How many pieces of the engine defend the square `pos`.
    pub open spec fn defenders(self, pos: Vect) -> nat {
        occurrences(self.defended_upto(64), pos)
    }
}

/// How often `pos` occurs in `list`.
pub open spec fn occurrences(list: Seq<Vect>, pos: Vect) -> nat
    decreases list.len(),
{
    if list.len() == 0 {
        0
    } else {
        occurrences(list.drop_last(), pos) + if list.last() == pos {
            1nat
        } else {
            0nat
        }
    }
}

impl GameState {
    /// The moves of the given side: those of each of its pieces, file by
    /// file and within a file from the first rank to the last.
    pub fn get_possible_moves(&self, enemy: bool) -> (moves: Vec<Move>)
        ensures
            moves@ == self@.possible_moves(enemy),
    {
        proof {
            reveal(Position::possible_moves);
        }
        let mut moves: Vec<Move> = Vec::new();
        let mut x: i8 = 0;
        while x < BOARD_WIDTH
            invariant
                0 <= x <= 8,
                moves@ == self@.moves_upto(enemy, (8 * x) as nat),
            decreases 8 - x,
        {
            let mut y: i8 = 0;
            while y < BOARD_WIDTH
                invariant
                    0 <= x < 8,
                    0 <= y <= 8,
                    moves@ == self@.moves_upto(enemy, (8 * x + y) as nat),
                decreases 8 - y,
            {
                let pos = Vect { x, y };
                assert(pos == scanned(8 * x + y));
                match square(&self.board, &pos) {
                    Some(piece) => {
                        if piece.enemy == enemy {
                            // Ignore defended positions and pass castling possibilities for given player
                            let (mut new_moves, _) = piece.all_moves(
                                &self.board,
                                pos,
                                false,
                                &self.en_passant_midpoint,
                                if enemy {
                                    &self.opponent_castling
                                } else {
                                    &self.engine_castling
                                },
                            );
                            moves.append(&mut new_moves);
                        }
                    },
                    None => (),
                }
                y = y + 1;
            }
            x = x + 1;
        }
        moves
    }

    /// For each square, addressed `[rank][file]`, the number of pieces of
    /// the engine that defend it.
    pub fn get_defended_matrix(&self) -> (matrix: [[usize; 8]; 8])
        ensures
            forall|x: int, y: int|
                0 <= x < 8 && 0 <= y < 8 ==> #[trigger] matrix[y][x] == self@.defenders(at(x, y)),
    {
        let mut defended: Vec<Vect> = Vec::new();
        let mut x: i8 = 0;
        while x < BOARD_WIDTH
            invariant
                0 <= x <= 8,
                defended@ == self@.defended_upto((8 * x) as nat),
            decreases 8 - x,
        {
            let mut y: i8 = 0;
            while y < BOARD_WIDTH
                invariant
                    0 <= x < 8,
                    0 <= y <= 8,
                    defended@ == self@.defended_upto((8 * x + y) as nat),
                decreases 8 - y,
            {
                let pos = Vect { x, y };
                assert(pos == scanned(8 * x + y));
                match square(&self.board, &pos) {
                    Some(piece) => {
                        if !piece.enemy {
                            let (_, mut new_defended) = piece.all_moves(
                                &self.board,
                                pos,
                                true,
                                &self.en_passant_midpoint,
                                &self.engine_castling,
                            );
                            defended.append(&mut new_defended);
                        }
                    },
                    None => (),
                }
                y = y + 1;
            }
            x = x + 1;
        }
        let mut matrix: [[usize; 8]; 8] = [[0; 8]; 8];
        let mut i: usize = 0;
        while i < defended.len()
            invariant
                i <= defended.len(),
                forall|x: int, y: int|
                    0 <= x < 8 && 0 <= y < 8 ==> #[trigger] matrix[y][x] == occurrences(
                        defended@.take(i as int),
                        at(x, y),
                    ),
                forall|x: int, y: int| 0 <= x < 8 && 0 <= y < 8 ==> #[trigger] matrix[y][x] <= i,
            decreases defended.len() - i,
        {
            let pos = defended[i];
            proof {
                assert(defended@.take(i as int + 1).drop_last() == defended@.take(i as int));
            }
            if 0 <= pos.x && pos.x < 8 && 0 <= pos.y && pos.y < 8 {
                let count = matrix[pos.y as usize][pos.x as usize];
                matrix[pos.y as usize][pos.x as usize] = count + 1;
                assert(pos == at(pos.x as int, pos.y as int));
            }
            i = i + 1;
        }
        assert(defended@.take(defended.len() as int) == defended@);
        matrix
    }
}

/// The standard starting layout.
pub const DEFAULT_LAYOUT: &'static str = "\nR N B Q K B N R\nP P P P P P P P\n. . . . . . . .\n. . . . . . . .\n. . . . . . . .\n. . . . . . . .\np p p p p p p p\nr n b q k b n r\n";

/// What a character of a layout stands for: `.` for a free square, a lower
/// case letter for a piece of the engine, an upper case letter for one of
/// the opponent. `None` for any other character.
pub open spec fn square_of_letter(letter: char) -> Option<Option<Piece>> {
    if letter == '.' {
        Some(None)
    } else if letter == 'p' {
        Some(Some(Piece { class: PieceClass::Pawn, enemy: false }))
    } else if letter == 'b' {
        Some(Some(Piece { class: PieceClass::Bishop, enemy: false }))
    } else if letter == 'n' {
        Some(Some(Piece { class: PieceClass::Knight, enemy: false }))
    } else if letter == 'r' {
        Some(Some(Piece { class: PieceClass::Rook, enemy: false }))
    } else if letter == 'q' {
        Some(Some(Piece { class: PieceClass::Queen, enemy: false }))
    } else if letter == 'k' {
        Some(Some(Piece { class: PieceClass::King, enemy: false }))
    } else if letter == 'P' {
        Some(Some(Piece { class: PieceClass::Pawn, enemy: true }))
    } else if letter == 'B' {
        Some(Some(Piece { class: PieceClass::Bishop, enemy: true }))
    } else if letter == 'N' {
        Some(Some(Piece { class: PieceClass::Knight, enemy: true }))
    } else if letter == 'R' {
        Some(Some(Piece { class: PieceClass::Rook, enemy: true }))
    } else if letter == 'Q' {
        Some(Some(Piece { class: PieceClass::Queen, enemy: true }))
    } else if letter == 'K' {
        Some(Some(Piece { class: PieceClass::King, enemy: true }))
    } else {
        None
    }
}

/// The character that stands for what a square holds.
pub open spec fn letter_of_square(held: Option<Piece>) -> char {
    match held {
        Some(piece) => piece.letter(),
        None => '.',
    }
}

/// The length of a layout: a line break, then eight lines of fifteen
/// characters and a line break.
pub open spec fn layout_len() -> int {
    129
}

/// Where a layout holds the square of file `x` and rank `y`: the last rank
/// stands on the first line.
pub open spec fn layout_index(x: int, y: int) -> int {
    1 + 16 * (7 - y) + 2 * x
}

/// Whether `text` is a layout: it starts with a line break; each of its
/// eight lines holds eight letters that stand for squares, with one space
/// between two of them, and ends with a line break; nothing follows.
pub open spec fn is_layout_text(text: Seq<char>) -> bool {
    &&& text.len() == layout_len()
    &&& text[0] == '\n'
    &&& forall|x: int, y: int|
        0 <= x < 8 && 0 <= y < 8 ==> square_of_letter(#[trigger] text[layout_index(x, y)]) is Some
    &&& forall|x: int, y: int|
        0 <= x < 8 && 0 <= y < 8 ==> #[trigger] text[layout_index(x, y) + 1] == (if x == 7 {
            '\n'
        } else {
            ' '
        })
}

/// The squares that a layout describes.
pub open spec fn layout_squares(text: Seq<char>) -> Squares {
    Seq::new(64, |k: int| square_of_letter(text[layout_index(k % 8, k / 8)]).unwrap())
}

/// The position that a layout describes: its score is the balance of the
/// material, the kings live, and each side has the castling rights that
/// `CASTLING` grants.
pub open spec fn layout_position(text: Seq<char>) -> Position {
    Position {
        squares: layout_squares(text),
        score: weigh(layout_squares(text), Measure::Balance, 64),
        kings_alive: true,
        engine_castling: CastlingPossibilities { queenside: CASTLING, kingside: CASTLING },
        opponent_castling: CastlingPossibilities { queenside: CASTLING, kingside: CASTLING },
        en_passant_midpoint: None,
    }
}

/// Reads one letter of a layout.
fn read_letter(letter: char) -> (held: Option<Option<Piece>>)
    ensures
        held == square_of_letter(letter),
{
    if letter == '.' {
        Some(None)
    } else if letter == 'p' {
        Some(Some(Piece { class: PieceClass::Pawn, enemy: false }))
    } else if letter == 'b' {
        Some(Some(Piece { class: PieceClass::Bishop, enemy: false }))
    } else if letter == 'n' {
        Some(Some(Piece { class: PieceClass::Knight, enemy: false }))
    } else if letter == 'r' {
        Some(Some(Piece { class: PieceClass::Rook, enemy: false }))
    } else if letter == 'q' {
        Some(Some(Piece { class: PieceClass::Queen, enemy: false }))
    } else if letter == 'k' {
        Some(Some(Piece { class: PieceClass::King, enemy: false }))
    } else if letter == 'P' {
        Some(Some(Piece { class: PieceClass::Pawn, enemy: true }))
    } else if letter == 'B' {
        Some(Some(Piece { class: PieceClass::Bishop, enemy: true }))
    } else if letter == 'N' {
        Some(Some(Piece { class: PieceClass::Knight, enemy: true }))
    } else if letter == 'R' {
        Some(Some(Piece { class: PieceClass::Rook, enemy: true }))
    } else if letter == 'Q' {
        Some(Some(Piece { class: PieceClass::Queen, enemy: true }))
    } else if letter == 'K' {
        Some(Some(Piece { class: PieceClass::King, enemy: true }))
    } else {
        None
    }
}

/// Whether `layout` is a layout that `parse_layout` reads.
pub fn is_layout(layout: &str) -> (valid: bool)
    ensures
        valid == is_layout_text(layout@),
{
    if layout.unicode_len() != 129 {
        return false;
    }
    let ghost text = layout@;
    if layout.get_char(0) != '\n' {
        return false;
    }
    let mut y: usize = 0;
    while y < 8
        invariant
            0 <= y <= 8,
            text == layout@,
            text.len() == layout_len(),
            forall|i: int, j: int|
                0 <= i < 8 && 0 <= j < y ==> square_of_letter(
                    #[trigger] text[layout_index(i, j)],
                ) is Some,
            forall|i: int, j: int|
                0 <= i < 8 && 0 <= j < y ==> #[trigger] text[layout_index(i, j) + 1] == (if i
                    == 7 {
                    '\n'
                } else {
                    ' '
                }),
        decreases 8 - y,
    {
        let mut x: usize = 0;
        while x < 8
            invariant
                0 <= x <= 8,
                0 <= y < 8,
                text == layout@,
                text.len() == layout_len(),
                forall|i: int, j: int|
                    0 <= i < 8 && (0 <= j < y || (j == y && i < x)) ==> square_of_letter(
                        #[trigger] text[layout_index(i, j)],
                    ) is Some,
                forall|i: int, j: int|
                    0 <= i < 8 && (0 <= j < y || (j == y && i < x)) ==> #[trigger] text[layout_index(
                        i,
                        j,
                    ) + 1] == (if i == 7 {
                        '\n'
                    } else {
                        ' '
                    }),
            decreases 8 - x,
        {
            let index = 1 + 16 * (7 - y) + 2 * x;
            assert(index == layout_index(x as int, y as int));
            if read_letter(layout.get_char(index)).is_none() {
                return false;
            }
            let gap = if x == 7 {
                '\n'
            } else {
                ' '
            };
            if layout.get_char(index + 1) != gap {
                return false;
            }
            x = x + 1;
        }
        y = y + 1;
    }
    true
}

/// Sets up the position that a layout describes.
pub fn parse_layout(layout: &str) -> (state: GameState)
    requires
        is_layout_text(layout@),
    ensures
        state@ == layout_position(layout@),
{
    let mut board: Board = [[None; 8]; 8];
    let mut score: i16 = 0;
    let ghost text = layout@;
    let ghost squares = layout_squares(text);
    let mut y: i8 = 0;
    while y < BOARD_WIDTH
        invariant
            0 <= y <= 8,
            text == layout@,
            is_layout_text(text),
            squares == layout_squares(text),
            forall|k: int| 0 <= k < 8 * y ==> board_squares(board)[k] == squares[k],
            score == weigh(squares, Measure::Balance, (8 * y) as nat),
            -500 * (8 * y) <= score <= 500 * (8 * y),
        decreases 8 - y,
    {
        let mut x: i8 = 0;
        while x < BOARD_WIDTH
            invariant
                0 <= x <= 8,
                0 <= y < 8,
                text == layout@,
                is_layout_text(text),
                squares == layout_squares(text),
                forall|k: int| 0 <= k < 8 * y + x ==> board_squares(board)[k] == squares[k],
                score == weigh(squares, Measure::Balance, (8 * y + x) as nat),
                -500 * (8 * y + x) <= score <= 500 * (8 * y + x),
            decreases 8 - x,
        {
            let index = (1 + 16 * (7 - y) + 2 * x) as usize;
            assert(index == layout_index(x as int, y as int));
            let held = match read_letter(layout.get_char(index)) {
                Some(held) => held,
                None => None,
            };
            assert(held == squares[8 * y + x]);
            match held {
                Some(piece) => {
                    if piece.enemy {
                        score = score - piece.get_value();
                    } else {
                        score = score + piece.get_value();
                    }
                },
                None => (),
            }
            let pos = Vect { x, y };
            set_square(&mut board, &pos, held);
            x = x + 1;
        }
        y = y + 1;
    }
    assert(board_squares(board) =~= squares);
    GameState {
        board,
        score,
        kings_alive: true,
        engine_castling: CastlingPossibilities { queenside: CASTLING, kingside: CASTLING },
        opponent_castling: CastlingPossibilities { queenside: CASTLING, kingside: CASTLING },
        en_passant_midpoint: None,
    }
}

/// The file that is shown in column `i`: the files run backwards when the
/// board is shown from the side of an engine that plays black.
pub open spec fn shown_file(i: int, direct: bool) -> int {
    if ENGINE_BLACK && !direct {
        BOARD_WIDTH - 1 - i
    } else {
        i
    }
}

/// The text of column `i` on line `j`: the letter of the square, after a
/// space unless it opens a line of the plain form.
pub open spec fn cell_text(squares: Squares, j: int, i: int, direct: bool) -> Seq<char> {
    let letter = letter_of_square(squares[8 * (7 - j) + shown_file(i, direct)]);
    if !direct || i != 0 {
        seq![' ', letter]
    } else {
        seq![letter]
    }
}

/// The text of the first `count` columns of line `j`.
pub open spec fn cells_upto(squares: Squares, j: int, direct: bool, count: nat) -> Seq<char>
    decreases count,
{
    if count == 0 {
        Seq::empty()
    } else {
        cells_upto(squares, j, direct, (count - 1) as nat) + cell_text(
            squares,
            j,
            count - 1,
            direct,
        )
    }
}

/// What line `j` starts with: nothing in the plain form, else the label of
/// its rank.
pub open spec fn line_label(j: int, direct: bool) -> Seq<char> {
    if direct {
        Seq::empty()
    } else {
        decimal(if ENGINE_BLACK {
            j + 1
        } else {
            BOARD_WIDTH - j
        })
    }
}

/// The text of line `j`, the last rank being line 0.
pub open spec fn line_text(squares: Squares, j: int, direct: bool) -> Seq<char> {
    line_label(j, direct) + cells_upto(squares, j, direct, 8) + seq!['\n']
}

/// The text of the first `count` lines.
pub open spec fn lines_upto(squares: Squares, direct: bool, count: nat) -> Seq<char>
    decreases count,
{
    if count == 0 {
        Seq::empty()
    } else {
        lines_upto(squares, direct, (count - 1) as nat) + line_text(squares, count - 1, direct)
    }
}

/// The letters of the first `count` columns, each after a space.
pub open spec fn files_upto(count: nat) -> Seq<char>
    decreases count,
{
    if count == 0 {
        Seq::empty()
    } else {
        files_upto((count - 1) as nat) + seq![' ', file_letter(shown_file(count - 1, false))]
    }
}

/// The text of a board. The plain form is a layout followed by a line
/// break. The other form labels each line with its rank and adds a line
/// with the letters of the files.
pub open spec fn board_text(squares: Squares, direct: bool) -> Seq<char> {
    seq!['\n'] + lines_upto(squares, direct, 8) + (if direct {
        Seq::empty()
    } else {
        seq![' '] + files_upto(8) + seq!['\n']
    }) + seq!['\n']
}

/// The text of the board, in the plain form or with labels.
fn print_board(board: &Board, direct: bool) -> (out: Vec<char>)
    ensures
        out@ == board_text(board_squares(*board), direct),
{
    let ghost squares = board_squares(*board);
    let mut out: Vec<char> = Vec::new();
    out.push('\n');
    let mut j: i8 = 0;
    while j < BOARD_WIDTH
        invariant
            0 <= j <= 8,
            squares == board_squares(*board),
            out@ == seq!['\n'] + lines_upto(squares, direct, j as nat),
        decreases 8 - j,
    {
        let ghost line_start = out@;
        if !direct {
            push_decimal(
                &mut out,
                if ENGINE_BLACK {
                    j as i16 + 1
                } else {
                    BOARD_WIDTH as i16 - j as i16
                },
            );
        }
        let mut i: i8 = 0;
        while i < BOARD_WIDTH
            invariant
                0 <= i <= 8,
                0 <= j < 8,
                squares == board_squares(*board),
                out@ == line_start + line_label(j as int, direct) + cells_upto(
                    squares,
                    j as int,
                    direct,
                    i as nat,
                ),
            decreases 8 - i,
        {
            let pos = Vect { x: if ENGINE_BLACK && !direct {
                BOARD_WIDTH - 1 - i
            } else {
                i
            }, y: BOARD_WIDTH - 1 - j };
            let letter = match square(board, &pos) {
                Some(piece) => piece.repr(),
                None => '.',
            };
            if !direct || i != 0 {
                out.push(' ');
            }
            out.push(letter);
            assert(out@ == line_start + line_label(j as int, direct) + cells_upto(
                squares,
                j as int,
                direct,
                (i + 1) as nat,
            ));
            i = i + 1;
        }
        out.push('\n');
        assert(out@ == line_start + line_text(squares, j as int, direct));
        j = j + 1;
    }
    if !direct {
        let ghost lines = out@;
        out.push(' ');
        let mut i: i8 = 0;
        while i < BOARD_WIDTH
            invariant
                0 <= i <= 8,
                out@ == lines + seq![' '] + files_upto(i as nat),
            decreases 8 - i,
        {
            out.push(' ');
            out.push(
                LETTERS[(if ENGINE_BLACK {
                    BOARD_WIDTH - i - 1
                } else {
                    i
                }) as usize],
            );
            assert(out@ == lines + seq![' '] + files_upto((i + 1) as nat));
            i = i + 1;
        }
        out.push('\n');
        assert(out@ == lines + (seq![' '] + files_upto(8) + seq!['\n']));
    }
    out.push('\n');
    out
}

impl GameState {
    /// The text of the board with the ranks and the files labelled.
    pub fn print(&self) -> (text: String)
        ensures
            text@ == board_text(self@.squares, false),
    {
        string_of(&print_board(&self.board, false))
    }

    /// The text of the board in the plain form: a layout, and a line break.
    pub fn print_direct(&self) -> (text: String)
        ensures
            text@ == board_text(self@.squares, true),
    {
        string_of(&print_board(&self.board, true))
    }
}

/// The character at place `c` of line `j` of the plain form.
pub open spec fn plain_char(squares: Squares, j: int, c: int) -> char {
    if c == 15 {
        '\n'
    } else if c % 2 == 1 {
        ' '
    } else {
        letter_of_square(squares[8 * (7 - j) + c / 2])
    }
}

/// The characters of the first columns of a line of the plain form.
proof fn lemma_plain_cells(squares: Squares, j: int, count: nat)
    requires
        1 <= count <= 8,
    ensures
        cells_upto(squares, j, true, count).len() == 2 * count - 1,
        forall|c: int|
            0 <= c < 2 * count - 1 ==> #[trigger] cells_upto(squares, j, true, count)[c]
                == plain_char(squares, j, c),
    decreases count,
{
    reveal_with_fuel(cells_upto, 2);
    if count > 1 {
        lemma_plain_cells(squares, j, (count - 1) as nat);
    }
}

/// The characters of the first lines of the plain form.
proof fn lemma_plain_lines(squares: Squares, count: nat)
    requires
        count <= 8,
    ensures
        lines_upto(squares, true, count).len() == 16 * count,
        forall|j: int, c: int|
            0 <= j < count && 0 <= c < 16 ==> #[trigger] lines_upto(squares, true, count)[16 * j
                + c] == plain_char(squares, j, c),
    decreases count,
{
    if count > 0 {
        lemma_plain_lines(squares, (count - 1) as nat);
        lemma_plain_cells(squares, count - 1, 8);
        let before = lines_upto(squares, true, (count - 1) as nat);
        let line = line_text(squares, count - 1, true);
        assert(line.len() == 16);
        assert forall|j: int, c: int| 0 <= j < count && 0 <= c < 16 implies #[trigger] lines_upto(
            squares,
            true,
            count,
        )[16 * j + c] == plain_char(squares, j, c) by {
            if j < count - 1 {
                assert((before + line)[16 * j + c] == before[16 * j + c]);
            } else {
                assert((before + line)[16 * j + c] == line[c]);
                if c < 15 {
                    assert(line[c] == cells_upto(squares, count - 1, true, 8)[c]);
                }
            }
        }
    }
}

/// The plain text of a board, without its last line break, is a layout, and
/// the layout describes the squares of that board.
pub proof fn lemma_text_reads_back(squares: Squares)
    requires
        squares.len() == 64,
    ensures
        is_layout_text(board_text(squares, true).drop_last()),
        layout_squares(board_text(squares, true).drop_last()) == squares,
{
    lemma_plain_lines(squares, 8);
    let lines = lines_upto(squares, true, 8);
    let layout = board_text(squares, true).drop_last();
    assert(layout =~= seq!['\n'] + lines);
    assert forall|x: int, y: int| 0 <= x < 8 && 0 <= y < 8 implies #[trigger] layout[layout_index(
        x,
        y,
    )] == letter_of_square(squares[8 * y + x]) by {
        assert(layout[layout_index(x, y)] == lines[16 * (7 - y) + 2 * x]);
    }
    assert forall|x: int, y: int| 0 <= x < 8 && 0 <= y < 8 implies #[trigger] layout[layout_index(
        x,
        y,
    ) + 1] == (if x == 7 {
        '\n'
    } else {
        ' '
    }) by {
        assert(layout[layout_index(x, y) + 1] == lines[16 * (7 - y) + (2 * x + 1)]);
    }
    assert forall|held: Option<Piece>| square_of_letter(#[trigger] letter_of_square(held)) == Some(held) by {
    }
    assert forall|k: int| 0 <= k < 64 implies #[trigger] layout_squares(layout)[k] == squares[k] by {
        assert(layout[layout_index(k % 8, k / 8)] == letter_of_square(squares[8 * (k / 8) + k % 8]));
    }
    assert(layout_squares(layout) =~= squares);
}

/// A layout is the plain text of the squares it describes, without the last
/// line break of that text.
pub proof fn lemma_layout_shows_again(text: Seq<char>)
    requires
        is_layout_text(text),
    ensures
        board_text(layout_squares(text), true) == text.push('\n'),
{
    let squares = layout_squares(text);
    lemma_plain_lines(squares, 8);
    let lines = lines_upto(squares, true, 8);
    let shown = board_text(squares, true);
    assert(shown =~= (seq!['\n'] + lines).push('\n'));
    assert forall|k: int| 0 <= k < 129 implies (seq!['\n'] + lines)[k] == text[k] by {
        if k > 0 {
            let j = (k - 1) / 16;
            let c = (k - 1) % 16;
            assert(lines[16 * j + c] == plain_char(squares, j, c));
            let y = 7 - j;
            if c == 15 {
                assert(k == layout_index(7, y) + 1);
            } else if c % 2 == 1 {
                assert(k == layout_index(c / 2, y) + 1);
            } else {
                let x = c / 2;
                assert(k == layout_index(x, y));
                assert(squares[8 * y + x] == square_of_letter(text[layout_index(x, y)]).unwrap());
                assert(square_of_letter(text[k]) is Some);
            }
        }
    }
    assert(seq!['\n'] + lines =~= text);
}

/// What taking `taken` adds to the score.
fn taking_adds(taken: Option<Piece>) -> (delta: i32)
    ensures
        delta == capture_delta(taken),
        -500 <= delta <= 500,
{
    match taken {
        Some(piece) => if piece.enemy {
            piece.get_value() as i32
        } else {
            -(piece.get_value() as i32)
        },
        None => 0,
    }
}

/// Whether `pos` lies on the board.
pub fn is_on_board(pos: &Vect) -> (on: bool)
    ensures
        on == on_board(*pos),
{
    0 <= pos.x && pos.x < BOARD_WIDTH && 0 <= pos.y && pos.y < BOARD_WIDTH
}

impl GameState {
    /// Whether the move can be carried out in this position.
    pub fn admits(&self, mov: &Move) -> (can: bool)
        ensures
            can == self@.admits(*mov),
    {
        proof {
            reveal(Position::after);
        }
        let score = self.score as i32;
        let next: i32 = match mov.move_type {
            MoveType::Standard(from, to, _) => {
                if !(is_on_board(&from) && is_on_board(&to)) {
                    return false;
                }
                score + taking_adds(square(&self.board, &to))
            },
            MoveType::DoubleAdvance(from, to) => {
                if !(is_on_board(&from) && is_on_board(&to)) {
                    return false;
                }
                score + taking_adds(square(&self.board, &to))
            },
            MoveType::EnPassant(from, to, target) => {
                if !(is_on_board(&from) && is_on_board(&to) && is_on_board(&target)) {
                    return false;
                }
                score + 1
            },
            MoveType::Castling(_) => score,
            MoveType::Promotion(from, to, piece, _) => {
                if !(is_on_board(&from) && is_on_board(&to)) {
                    return false;
                }
                let value = piece.get_value() as i32;
                score + taking_adds(square(&self.board, &to)) + if piece.enemy {
                    1 - value
                } else {
                    value - 1
                }
            },
            MoveType::Null => {
                return false;
            },
        };
        -32768 <= next && next <= 32767
    }
}

} // verus!
