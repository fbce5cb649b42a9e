//! Board coordinates and the small value types shared by the whole engine.

use crate::settings::{BOARD_WIDTH, ENGINE_BLACK};
use vstd::prelude::*;

verus! {

/// The letters of the eight files.
pub const LETTERS: [char; 8] = ['a', 'b', 'c', 'd', 'e', 'f', 'g', 'h'];

/// A square of the board, file `x` and rank `y`, or a displacement between
/// two squares.
#[derive(Clone, Copy, Debug, PartialEq, Eq, Structural)]
pub struct Vect {
    pub x: i8,
    pub y: i8,
}

impl Vect {
    /// Whether the component-wise sum with `other` fits the coordinate type.
    pub open spec fn can_add(self, other: Vect) -> bool {
        &&& i8::MIN <= self.x + other.x <= i8::MAX
        &&& i8::MIN <= self.y + other.y <= i8::MAX
    }

    /// The component-wise sum, where it fits.
    pub open spec fn plus(self, other: Vect) -> Vect {
        Vect { x: (self.x + other.x) as i8, y: (self.y + other.y) as i8 }
    }

    /// Moves this square by the displacement `other`.
    pub fn add(&mut self, other: &Vect)
        requires
            old(self).can_add(*other),
        ensures
            *final(self) == old(self).plus(*other),
            final(self).x == old(self).x + other.x,
            final(self).y == old(self).y + other.y,
    {
        self.x = self.x + other.x;
        self.y = self.y + other.y;
    }

    /// Whether both coordinates agree.
    pub fn equals(&self, other: &Vect) -> (same: bool)
        ensures
            same == (*self == *other),
    {
        self.x == other.x && self.y == other.y
    }
}

/// What a square holds, seen from the engine's side.
#[derive(Clone, Copy, Debug, PartialEq, Eq, Structural)]
pub enum SquareType {
    Free,
    Own,
    Enemy,
    Invalid,
}

/// The castling rights of one side.
#[derive(Clone, Copy, Debug, PartialEq, Eq, Structural)]
pub struct CastlingPossibilities {
    pub queenside: bool,
    pub kingside: bool,
}

/// Which of two score encodings stands for the better outcome.
#[derive(Clone, Copy, Debug, PartialEq, Eq, Structural)]
pub enum BetterBuffer {
    Left,
    Right,
    Equal,
}

/// Whether `pos` lies on the board.
pub open spec fn on_board(pos: Vect) -> bool {
    0 <= pos.x < BOARD_WIDTH && 0 <= pos.y < BOARD_WIDTH
}

/// The character of the decimal digit `d`.
pub open spec fn digit_char(d: int) -> char {
    if d == 0 {
        '0'
    } else if d == 1 {
        '1'
    } else if d == 2 {
        '2'
    } else if d == 3 {
        '3'
    } else if d == 4 {
        '4'
    } else if d == 5 {
        '5'
    } else if d == 6 {
        '6'
    } else if d == 7 {
        '7'
    } else if d == 8 {
        '8'
    } else {
        '9'
    }
}

/// The decimal digits of `n`, most significant first, without leading zeros.
pub open spec fn digits(n: nat) -> Seq<char>
    decreases n,
{
    if n < 10 {
        seq![digit_char(n as int)]
    } else {
        digits(n / 10).push(digit_char((n % 10) as int))
    }
}

/// The decimal text of `n`, with a minus sign where it is negative.
pub open spec fn decimal(n: int) -> Seq<char> {
    if n < 0 {
        seq!['-'] + digits((-n) as nat)
    } else {
        digits(n as nat)
    }
}

/// The letter of file `x`, or `X` where there is no such file.
pub open spec fn file_letter(x: int) -> char {
    if 0 <= x < 8 {
        LETTERS[x]
    } else {
        'X'
    }
}

/// The rank of row `y` as it is shown: counted from 1, and from the far side
/// when the engine plays black.
pub open spec fn rank_label(y: int) -> int {
    if ENGINE_BLACK {
        BOARD_WIDTH - y
    } else {
        y + 1
    }
}

/// The text of a square: the letter of its file, then its rank.
pub open spec fn notation(pos: Vect) -> Seq<char> {
    seq![file_letter(pos.x as int)] + decimal(rank_label(pos.y as int))
}

/// The character of the digit `d`.
fn digit_to_char(d: u16) -> (c: char)
    requires
        d < 10,
    ensures
        c == digit_char(d as int),
{
    if d == 0 {
        '0'
    } else if d == 1 {
        '1'
    } else if d == 2 {
        '2'
    } else if d == 3 {
        '3'
    } else if d == 4 {
        '4'
    } else if d == 5 {
        '5'
    } else if d == 6 {
        '6'
    } else if d == 7 {
        '7'
    } else if d == 8 {
        '8'
    } else {
        '9'
    }
}

/// Appends the decimal digits of `n` to `out`.
fn push_digits(out: &mut Vec<char>, n: u16)
    ensures
        final(out)@ == old(out)@ + digits(n as nat),
    decreases n,
{
    if n >= 10 {
        push_digits(out, n / 10);
    }
    out.push(digit_to_char(n % 10));
}

/// Appends the decimal text of `n` to `out`.
pub fn push_decimal(out: &mut Vec<char>, n: i16)
    ensures
        final(out)@ == old(out)@ + decimal(n as int),
{
    if n < 0 {
        out.push('-');
        let magnitude: u16 = if n == i16::MIN {
            32768
        } else {
            (-n) as u16
        };
        push_digits(out, magnitude);
    } else {
        push_digits(out, n as u16);
    }
}

/// `String::from_iter` over the characters of `chars`: the string that
/// holds exactly these characters, in this order.
#[verifier::external_body]
pub(crate) fn string_of(chars: &Vec<char>) -> (text: String)
    ensures
        text@ == chars@,
{
    String::from_iter(chars.iter())
}

/// Appends the text of the square `pos` to `out`.
pub fn push_notation(out: &mut Vec<char>, pos: &Vect)
    ensures
        final(out)@ == old(out)@ + notation(*pos),
{
    let letter: char = if 0 <= pos.x && pos.x < 8 {
        LETTERS[pos.x as usize]
    } else {
        'X'
    };
    let y: i16 = pos.y as i16;
    let label: i16 = if ENGINE_BLACK {
        BOARD_WIDTH as i16 - y
    } else {
        y + 1
    };
    out.push(letter);
    push_decimal(out, label);
}

/// The text of a square, such as `e4`.
pub fn pos_notation(pos: &Vect) -> (text: String)
    ensures
        text@ == notation(*pos),
{
    let mut out: Vec<char> = Vec::new();
    push_notation(&mut out, pos);
    string_of(&out)
}

/// Appends the characters of `text` to `out`.
pub fn push_text(out: &mut Vec<char>, text: &str)
    ensures
        final(out)@ == old(out)@ + text@,
{
    let count = text.unicode_len();
    let mut i: usize = 0;
    while i < count
        invariant
            i <= count,
            count == text@.len(),
            out@ == old(out)@ + text@.take(i as int),
        decreases count - i,
    {
        out.push(text.get_char(i));
        assert(text@.take(i as int + 1) == text@.take(i as int).push(text@[i as int]));
        i = i + 1;
    }
    assert(text@.take(count as int) == text@);
}

} // verus!
