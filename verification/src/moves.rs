//! Moves, and what a square of the board holds.

use crate::gamestate::{GameState, Position};
use crate::pieces::{board_squares, Board, Piece, PieceClass, Squares};
use crate::settings::{BOARD_WIDTH, ENGINE_BLACK};
use crate::utils::{
    notation, on_board, push_notation, push_text, string_of, SquareType, Vect, LETTERS,
};
use vstd::prelude::*;

verus! {

/// The shapes a move can take.
#[derive(Clone, Copy, Debug, PartialEq, Eq, Structural)]
pub enum MoveType {
    /// From, to, and whether the mover itself counted among the defenders of
    /// the destination.
    Standard(Vect, Vect, bool),
    /// A pawn's advance by two squares: from, to.
    DoubleAdvance(Vect, Vect),
    /// From, to, and the square of the pawn that is taken.
    EnPassant(Vect, Vect, Vect),
    /// `true` for the queenside.
    Castling(bool),
    /// From, to, the piece the pawn becomes, and the flag of `Standard`.
    Promotion(Vect, Vect, Piece, bool),
    /// No move: a placeholder before a search has run.
    Null,
}

/// A move and the side that makes it.
#[derive(Clone, Copy, Debug, PartialEq, Eq, Structural)]
pub struct Move {
    /// `true` for the opponent, `false` for the engine.
    pub enemy: bool,
    pub move_type: MoveType,
}

/// The index of the square `pos` in the sequence of the 64 squares.
pub open spec fn square_index(pos: Vect) -> int {
    BOARD_WIDTH * pos.y + pos.x
}

/// The piece on the square `pos`, which lies on the board.
pub open spec fn piece_at(squares: Squares, pos: Vect) -> Option<Piece> {
    squares[square_index(pos)]
}

/// What the square `pos` holds: `Invalid` off the board, else free, or a
/// piece of the engine (`Own`) or of the opponent (`Enemy`).
pub open spec fn square_type(squares: Squares, pos: Vect) -> SquareType {
    if !on_board(pos) {
        SquareType::Invalid
    } else {
        match piece_at(squares, pos) {
            Some(piece) => if piece.enemy {
                SquareType::Enemy
            } else {
                SquareType::Own
            },
            None => SquareType::Free,
        }
    }
}

/// How a square that holds a piece of the given side is classified.
pub open spec fn side_type(enemy: bool) -> SquareType {
    if enemy {
        SquareType::Enemy
    } else {
        SquareType::Own
    }
}

/// Reads the square `pos` of the board.
pub fn square(board: &Board, pos: &Vect) -> (held: Option<Piece>)
    requires
        on_board(*pos),
    ensures
        held == piece_at(board_squares(*board), *pos),
{
    board[pos.y as usize][pos.x as usize]
}

/// Puts `held` on the square `pos` of the board.
pub fn set_square(board: &mut Board, pos: &Vect, held: Option<Piece>)
    requires
        on_board(*pos),
    ensures
        board_squares(*final(board)) == board_squares(*old(board)).update(square_index(*pos), held),
{
    board[pos.y as usize][pos.x as usize] = held;
    assert(board_squares(*board) =~= board_squares(*old(board)).update(square_index(*pos), held));
}

/// Classifies the square `pos`, on or off the board.
pub fn check_squre(board: &Board, pos: &Vect) -> (kind: SquareType)
    ensures
        kind == square_type(board_squares(*board), *pos),
{
    let (x, y) = (pos.x, pos.y);
    if x >= BOARD_WIDTH || x < 0 {
        return SquareType::Invalid;
    }
    if y >= BOARD_WIDTH || y < 0 {
        return SquareType::Invalid;
    }
    match square(board, pos) {
        Some(piece) => {
            if piece.enemy {
                SquareType::Enemy
            } else {
                SquareType::Own
            }
        },
        None => SquareType::Free,
    }
}

/// The text of a move from one square to another, such as `e2 -> e4`.
pub open spec fn step_notation(from: Vect, to: Vect) -> Seq<char> {
    notation(from) + " -> "@ + notation(to)
}

/// The text of a move without its side: the two squares, with the letter of
/// the new piece after a promotion; `0-0` and `0-0-0` for castling.
pub open spec fn move_notation(move_type: MoveType) -> Seq<char> {
    match move_type {
        MoveType::Standard(from, to, _) => step_notation(from, to),
        MoveType::DoubleAdvance(from, to) => step_notation(from, to),
        MoveType::EnPassant(from, to, _) => step_notation(from, to),
        MoveType::Castling(queenside) => if queenside {
            "0-0-0"@
        } else {
            "0-0"@
        },
        MoveType::Promotion(from, to, piece, _) => step_notation(from, to) + " ("@ + seq![
            piece.letter(),
        ] + ")"@,
        MoveType::Null => "NULL"@,
    }
}

impl Move {
    /// The text of the move: its side, then the move, in single quotes.
    pub open spec fn text(self) -> Seq<char> {
        "'"@ + (if self.enemy {
            "Opponent"@
        } else {
            "Engine"@
        }) + ": "@ + move_notation(self.move_type) + "'"@
    }

    /// The text of the move, such as `'Engine: e2 -> e4'`.
    pub fn repr(&self) -> (text: String)
        ensures
            text@ == self.text(),
    {
        let mut out: Vec<char> = Vec::new();
        push_text(&mut out, "'");
        push_text(&mut out, if self.enemy {
            "Opponent"
        } else {
            "Engine"
        });
        push_text(&mut out, ": ");
        match self.move_type {
            MoveType::Standard(from, to, _) => push_step(&mut out, &from, &to),
            MoveType::DoubleAdvance(from, to) => push_step(&mut out, &from, &to),
            MoveType::EnPassant(from, to, _) => push_step(&mut out, &from, &to),
            MoveType::Castling(queenside) => push_text(&mut out, if queenside {
                "0-0-0"
            } else {
                "0-0"
            }),
            MoveType::Promotion(from, to, piece, _) => {
                push_step(&mut out, &from, &to);
                push_text(&mut out, " (");
                out.push(piece.repr());
                push_text(&mut out, ")");
            },
            MoveType::Null => push_text(&mut out, "NULL"),
        }
        push_text(&mut out, "'");
        string_of(&out)
    }
}

/// Appends the text of a move from one square to another.
fn push_step(out: &mut Vec<char>, from: &Vect, to: &Vect)
    ensures
        final(out)@ == old(out)@ + step_notation(*from, *to),
{
    push_notation(out, from);
    push_text(out, " -> ");
    push_notation(out, to);
}

/// The text of a move from one square to another, such as `e2 -> e4`.
pub fn standard_move_notation(from: &Vect, to: &Vect) -> (text: String)
    ensures
        text@ == step_notation(*from, *to),
{
    let mut out: Vec<char> = Vec::new();
    push_step(&mut out, from, to);
    string_of(&out)
}

/// Why a text is not the name of a square.
#[derive(Clone, Copy, Debug, PartialEq, Eq, Structural)]
pub enum PositionError {
    /// It does not have two characters.
    Length,
    /// Its first character is not the letter of a file.
    File,
    /// Its second character is not a digit.
    Digit,
    /// Its second character is not the number of a rank.
    Rank,
}

/// The file that a letter names.
pub open spec fn file_of_letter(letter: char) -> Option<int> {
    if letter == 'a' {
        Some(0)
    } else if letter == 'b' {
        Some(1)
    } else if letter == 'c' {
        Some(2)
    } else if letter == 'd' {
        Some(3)
    } else if letter == 'e' {
        Some(4)
    } else if letter == 'f' {
        Some(5)
    } else if letter == 'g' {
        Some(6)
    } else if letter == 'h' {
        Some(7)
    } else {
        None
    }
}

/// The number that a digit stands for.
pub open spec fn number_of_digit(digit: char) -> Option<int> {
    if '0' <= digit <= '9' {
        Some(digit as int - '0' as int)
    } else {
        None
    }
}

/// The row that a rank number names: ranks count from 1, and from the far
/// side when the engine plays black.
pub open spec fn row_of_rank(rank: int) -> int {
    if ENGINE_BLACK {
        BOARD_WIDTH - rank
    } else {
        rank - 1
    }
}

/// The square that a text names, or why it names none.
pub open spec fn named_square(text: Seq<char>) -> Result<Vect, PositionError> {
    if text.len() != 2 {
        Err(PositionError::Length)
    } else {
        match file_of_letter(text[0]) {
            None => Err(PositionError::File),
            Some(x) => match number_of_digit(text[1]) {
                None => Err(PositionError::Digit),
                Some(rank) => if 0 < rank <= BOARD_WIDTH {
                    Ok(Vect { x: x as i8, y: row_of_rank(rank) as i8 })
                } else {
                    Err(PositionError::Rank)
                },
            },
        }
    }
}

/// Reads the name of a square, such as `e4`.
pub fn get_position(text: &str) -> (named: Result<Vect, PositionError>)
    ensures
        named == named_square(text@),
        named matches Ok(pos) ==> on_board(pos),
{
    if text.unicode_len() != 2 {
        return Err(PositionError::Length);
    }
    let letter = text.get_char(0);
    let mut x: i8 = 0;
    let mut found = false;
    let mut i: usize = 0;
    while i < 8
        invariant
            i <= 8,
            found ==> file_of_letter(letter) == Some(x as int),
            !found ==> forall|k: int| 0 <= k < i ==> LETTERS[k] != letter,
        decreases 8 - i,
    {
        if !found && LETTERS[i] == letter {
            x = i as i8;
            found = true;
        }
        i = i + 1;
    }
    if !found {
        assert(LETTERS[0] != letter && LETTERS[1] != letter && LETTERS[2] != letter && LETTERS[3]
            != letter && LETTERS[4] != letter && LETTERS[5] != letter && LETTERS[6] != letter
            && LETTERS[7] != letter);
        return Err(PositionError::File);
    }
    let digit = text.get_char(1);
    if digit < '0' || digit > '9' {
        return Err(PositionError::Digit);
    }
    let rank: i8 = (digit as u8 - '0' as u8) as i8;
    if rank > 0 && rank <= BOARD_WIDTH {
        Ok(Vect { x, y: if ENGINE_BLACK {
            BOARD_WIDTH - rank
        } else {
            rank - 1
        } })
    } else {
        Err(PositionError::Rank)
    }
}

/// The class that a pawn is promoted to by choice: a bishop, a knight or a
/// rook by their letters, else a queen.
pub open spec fn promoted_class(letter: char) -> PieceClass {
    if letter == 'b' {
        PieceClass::Bishop
    } else if letter == 'n' {
        PieceClass::Knight
    } else if letter == 'r' {
        PieceClass::Rook
    } else {
        PieceClass::Queen
    }
}

/// Whether `choice` names a kind of move that goes from one square to
/// another.
pub open spec fn is_step_choice(choice: char) -> bool {
    choice == '1' || choice == '2' || choice == '3' || choice == '5'
}

/// The move that a choice builds: `1` a standard move, `2` a double advance,
/// `3` taking en passant the pawn that stands beside the mover on the file
/// of the destination, `5` a promotion.
pub open spec fn chosen_move(
    choice: char,
    from: Vect,
    to: Vect,
    subtract: bool,
    enemy: bool,
    promotion: char,
) -> Move {
    Move {
        enemy,
        move_type: if choice == '1' {
            MoveType::Standard(from, to, subtract)
        } else if choice == '2' {
            MoveType::DoubleAdvance(from, to)
        } else if choice == '3' {
            MoveType::EnPassant(from, to, Vect { x: to.x, y: from.y })
        } else {
            MoveType::Promotion(
                from,
                to,
                Piece { class: promoted_class(promotion), enemy },
                subtract,
            )
        },
    }
}

/// Builds the move of a choice made by hand.
pub fn gen_move(choice: char, from: Vect, to: Vect, subtract: bool, enemy: bool, promotion: char) -> (mov:
    Move)
    requires
        is_step_choice(choice),
    ensures
        mov == chosen_move(choice, from, to, subtract, enemy, promotion),
{
    let move_type = if choice == '1' {
        MoveType::Standard(from, to, subtract)
    } else if choice == '2' {
        MoveType::DoubleAdvance(from, to)
    } else if choice == '3' {
        MoveType::EnPassant(from, to, Vect { x: to.x, y: from.y })
    } else {
        let class = if promotion == 'b' {
            PieceClass::Bishop
        } else if promotion == 'n' {
            PieceClass::Knight
        } else if promotion == 'r' {
            PieceClass::Rook
        } else {
            PieceClass::Queen
        };
        MoveType::Promotion(from, to, Piece { class, enemy }, subtract)
    };
    Move { enemy, move_type }
}

/// The move that was entered by hand: castling for the choice `4`, a move
/// between two squares for `1`, `2`, `3` and `5`, with the flag that
/// carrying it out in `pos` gives, and no move for any other choice.
pub open spec fn entered_move(
    pos: Position,
    choice: char,
    queenside: bool,
    from: Vect,
    to: Vect,
    promotion: char,
    enemy: bool,
) -> Move {
    if choice == '4' {
        Move { enemy, move_type: MoveType::Castling(queenside) }
    } else if is_step_choice(choice) {
        chosen_move(
            choice,
            from,
            to,
            pos.self_defended(chosen_move(choice, from, to, true, enemy, promotion)),
            enemy,
            promotion,
        )
    } else {
        Move { enemy, move_type: MoveType::Null }
    }
}

/// Builds the move that was entered by hand, and finds its flag by trying
/// the move out.
pub fn get_move(
    game_state: &GameState,
    choice: char,
    queenside: bool,
    from: Vect,
    to: Vect,
    promotion: char,
    enemy: bool,
) -> (mov: Move)
    requires
        is_step_choice(choice) ==> game_state@.admits(
            chosen_move(choice, from, to, true, enemy, promotion),
        ),
    ensures
        mov == entered_move(game_state@, choice, queenside, from, to, promotion, enemy),
{
    if choice == '4' {
        return Move { move_type: MoveType::Castling(queenside), enemy };
    }
    if !(choice == '1' || choice == '2' || choice == '3' || choice == '5') {
        return Move { move_type: MoveType::Null, enemy };
    }
    let mut mov = gen_move(choice, from, to, true, enemy, promotion);
    let (_, subtract) = game_state.perform_move_subtract(&mov);
    if !subtract {
        mov = gen_move(choice, from, to, false, enemy, promotion);
    }
    mov
}

} // verus!
