//! What holds of the special moves: when taking en passant is on offer, and
//! that castling rights, once lost, are not won back.

use crate::gamestate::{midpoint, scanned, Position};
use crate::material::{lemma_offered_move_plays, lemma_possible_moves_play};
use crate::moves::{piece_at, square_type, Move, MoveType};
use crate::pieces::{
    en_passant_rank, offset, pawn_capture, pawn_direction, pawn_double, pawn_forward, Piece,
    PieceClass, Squares,
};
use crate::utils::{on_board, CastlingPossibilities, SquareType, Vect};
use vstd::prelude::*;

verus! {

/// Whether a pawn of the given side stands beside the square `to`, on the
/// file towards `side` (-1 or 1).
pub open spec fn pawn_beside(squares: Squares, to: Vect, side: int, enemy: bool) -> bool {
    let beside = offset(to, side, 0);
    on_board(beside) && piece_at(squares, beside) == Some(
        Piece { class: PieceClass::Pawn, enemy },
    )
}

/// Whether one of the moves that are generated for the given side takes en
/// passant.
pub open spec fn offers_en_passant(pos: Position, enemy: bool) -> bool {
    exists|i: int|
        0 <= i < pos.possible_moves(enemy).len() && (#[trigger] pos.possible_moves(
            enemy,
        )[i]).move_type is EnPassant
}

/// Every move of the piece on a square of the board is among the moves of
/// its side.
pub proof fn lemma_square_moves_are_possible(pos: Position, enemy: bool, from: Vect, mov: Move)
    requires
        on_board(from),
        pos.moves_on(enemy, from).contains(mov),
    ensures
        pos.possible_moves(enemy).contains(mov),
{
    reveal(Position::possible_moves);
    let k = 8 * from.x + from.y;
    assert(scanned(k) == from);
    lemma_moves_upto_include(pos, enemy, k as nat, 64, mov);
}

/// The moves of the piece on a scanned square are among the moves from
/// the squares scanned up to it and beyond.
proof fn lemma_moves_upto_include(pos: Position, enemy: bool, k: nat, count: nat, mov: Move)
    requires
        k < count,
        pos.moves_on(enemy, scanned(k as int)).contains(mov),
    ensures
        pos.moves_upto(enemy, count).contains(mov),
    decreases count,
{
    let before = pos.moves_upto(enemy, (count - 1) as nat);
    let added = pos.moves_on(enemy, scanned(count - 1));
    if k == count - 1 {
        let i = choose|i: int| 0 <= i < added.len() && added[i] == mov;
        assert((before + added)[before.len() + i] == mov);
    } else {
        lemma_moves_upto_include(pos, enemy, k, (count - 1) as nat, mov);
        let i = choose|i: int| 0 <= i < before.len() && before[i] == mov;
        assert((before + added)[i] == mov);
    }
}

/// After a double advance that the position offered, the other side is
/// offered taking en passant if and only if one of its pawns stands beside
/// the pawn that has advanced.
pub proof fn lemma_double_advance_exposes(pos: Position, mov: Move)
    requires
        pos.squares.len() == 64,
        pos.offers(mov),
        mov.move_type is DoubleAdvance,
    ensures
        ({
            let to = mov.move_type->DoubleAdvance_1;
            let next = pos.after(mov);
            offers_en_passant(next, !mov.enemy) <==> (pawn_beside(
                next.squares,
                to,
                -1,
                !mov.enemy,
            ) || pawn_beside(next.squares, to, 1, !mov.enemy))
        }),
{
    reveal(Position::after);
    reveal(Position::plays);
    lemma_offered_move_plays(pos, mov);
    let from = mov.move_type->DoubleAdvance_0;
    let to = mov.move_type->DoubleAdvance_1;
    let enemy = mov.enemy;
    let other = !enemy;
    let next = pos.after(mov);
    let target = offset(from, 0, pawn_direction(enemy));
    assert(midpoint(from, to) == target);
    assert(next.en_passant_midpoint == Some(target));
    assert(square_type(next.squares, target) == SquareType::Free);
    if offers_en_passant(next, other) {
        let i = choose|i: int|
            0 <= i < next.possible_moves(other).len() && (#[trigger] next.possible_moves(
                other,
            )[i]).move_type is EnPassant;
        let taking = next.possible_moves(other)[i];
        lemma_possible_moves_play(next, other);
        assert(next.plays(taking));
        let start = taking.move_type->EnPassant_0;
        if start.x == to.x - 1 {
            assert(start == offset(to, -1, 0));
            assert(pawn_beside(next.squares, to, -1, other));
        } else {
            assert(start == offset(to, 1, 0));
            assert(pawn_beside(next.squares, to, 1, other));
        }
    }
    if pawn_beside(next.squares, to, -1, other) {
        lemma_pawn_beside_takes(next, to, target, -1, other);
    }
    if pawn_beside(next.squares, to, 1, other) {
        lemma_pawn_beside_takes(next, to, target, 1, other);
    }
}

/// A pawn beside the pawn that has advanced is offered taking it en
/// passant.
proof fn lemma_pawn_beside_takes(next: Position, to: Vect, target: Vect, side: int, other: bool)
    requires
        side == 1 || side == -1,
        on_board(to),
        pawn_beside(next.squares, to, side, other),
        next.en_passant_midpoint == Some(target),
        target == offset(to, 0, pawn_direction(other)),
        target.y == en_passant_rank(other),
        square_type(next.squares, target) == SquareType::Free,
    ensures
        offers_en_passant(next, other),
{
    let start = offset(to, side, 0);
    let taking = Move { enemy: other, move_type: MoveType::EnPassant(start, target, to) };
    let ep = next.en_passant_midpoint;
    let forward = pawn_forward(next.squares, other, start);
    let left = pawn_capture(next.squares, other, start, -1, ep);
    let right = pawn_capture(next.squares, other, start, 1, ep);
    let double = pawn_double(next.squares, other, start);
    assert(offset(start, -side, pawn_direction(other)) == target);
    assert(offset(start, -side, 0) == to);
    let all = forward + left + right + double;
    if side == 1 {
        assert(left == seq![taking]);
        assert(all[forward.len() as int] == taking);
    } else {
        assert(right == seq![taking]);
        assert(all[(forward.len() + left.len()) as int] == taking);
    }
    assert(next.moves_on(other, start) == all);
    assert(next.moves_on(other, start).contains(taking));
    lemma_square_moves_are_possible(next, other, start, taking);
    let i = choose|i: int|
        0 <= i < next.possible_moves(other).len() && next.possible_moves(other)[i] == taking;
    assert(next.possible_moves(other)[i].move_type is EnPassant);
}

/// Whether no castling right of `after` is missing from `before`.
pub open spec fn none_gained(before: CastlingPossibilities, after: CastlingPossibilities) -> bool {
    &&& after.queenside ==> before.queenside
    &&& after.kingside ==> before.kingside
}

/// No move gives a side a castling right that it did not have.
pub proof fn lemma_move_gains_no_right(pos: Position, mov: Move)
    ensures
        none_gained(pos.engine_castling, pos.after(mov).engine_castling),
        none_gained(pos.opponent_castling, pos.after(mov).opponent_castling),
{
    reveal(Position::after);
}

/// A side that castles, or moves its king, has no castling right left; a
/// rook that leaves the first file spends the queenside right of its side,
/// and a rook that leaves another file the kingside right.
pub proof fn lemma_rights_are_spent(pos: Position, mov: Move)
    ensures
        mov.move_type is Castling ==> pos.after(mov).rights(mov.enemy) == (CastlingPossibilities {
            queenside: false,
            kingside: false,
        }),
        mov.move_type matches MoveType::Standard(from, _, _) ==> (piece_at(pos.squares, from)
            matches Some(piece) ==> {
            &&& piece.class == PieceClass::King ==> pos.after(mov).rights(mov.enemy) == (
            CastlingPossibilities { queenside: false, kingside: false })
            &&& piece.class == PieceClass::Rook && from.x == 0 ==> !pos.after(mov).rights(
                mov.enemy,
            ).queenside
            &&& piece.class == PieceClass::Rook && from.x != 0 ==> !pos.after(mov).rights(
                mov.enemy,
            ).kingside
        }),
{
    reveal(Position::after);
}

/// Whatever moves are made, one after the other, no side has a castling
/// right at the end that it did not have at the start.
pub proof fn lemma_rights_never_return(pos: Position, line: Seq<Move>)
    ensures
        none_gained(pos.engine_castling, pos.after_all(line).engine_castling),
        none_gained(pos.opponent_castling, pos.after_all(line).opponent_castling),
    decreases line.len(),
{
    if line.len() > 0 {
        lemma_rights_never_return(pos, line.drop_last());
        lemma_move_gains_no_right(pos.after_all(line.drop_last()), line.last());
    }
}

} // verus!
