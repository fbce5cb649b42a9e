//! Compile-time settings of the engine.

use vstd::prelude::*;

verus! {

/// Number of files and of ranks. Castling is written for a width of 8.
pub const BOARD_WIDTH: i8 = 8;

/// `false`: the engine starts on ranks 1 and 2. `true`: it starts on ranks
/// 7 and 8, and rank labels are counted from the far side.
pub const ENGINE_BLACK: bool = false;

/// The castling rights that a freshly set up position gives to both sides.
pub const CASTLING: bool = true;

/// Whether the replies to a root candidate are analysed on separate workers.
pub const THREADING: bool = true;

/// Whether the search abandons a candidate as soon as it is known to lose
/// against the best one found so far.
pub const PRUNING: bool = false;

/// The share of a move's development that is left to chance, in hundredths.
pub const RANDOM_PERCENT: u64 = 35;

/// Whether a game starts from the standard layout rather than from `LAYOUT`.
pub const STANDARD_BOARD: bool = true;

/// The custom starting layout: the far rank first, one line per rank.
pub const LAYOUT: &'static str = "\n. . . . . . K .\n. . . . . . . .\n. r . . . . . .\n. . . . . . . .\n. r . . . . . .\n. . . . . . . .\n. . . . . . . .\n. . . k . . . .\n";

} // verus!
