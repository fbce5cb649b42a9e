//! The two forms of the encoding of an outcome: a number with one digit in
//! base `SCORE_RANGE` for each level of the search, and the list of those
//! digits. Both order the outcomes alike.

use crate::pieces::SCORE_RANGE;
use crate::simulation::radix;
use crate::utils::BetterBuffer;
use vstd::prelude::*;

verus! {

/// The last `count` digits of `value`, the most significant first.
pub open spec fn digits_of(value: nat, count: nat) -> Seq<u64>
    decreases count,
{
    if count == 0 {
        Seq::empty()
    } else {
        digits_of(value / (SCORE_RANGE as nat), (count - 1) as nat).push(
            (value % (SCORE_RANGE as nat)) as u64,
        )
    }
}

/// Which of two numbers is the better outcome: the greater.
pub open spec fn better_value(left: int, right: int) -> BetterBuffer {
    if left > right {
        BetterBuffer::Left
    } else if left < right {
        BetterBuffer::Right
    } else {
        BetterBuffer::Equal
    }
}

/// Which of two lists of digits is the better outcome, from the place `from`
/// on: the one with the greater digit at the first place where they differ;
/// where one ends before they differ, the shorter.
pub open spec fn better_from(left: Seq<u64>, right: Seq<u64>, from: int) -> BetterBuffer
    decreases left.len() - from,
{
    if from < 0 || from >= left.len() || from >= right.len() {
        better_value(right.len() as int, left.len() as int)
    } else if left[from] != right[from] {
        better_value(left[from] as int, right[from] as int)
    } else {
        better_from(left, right, from + 1)
    }
}

/// Which of two lists of digits is the better outcome.
pub open spec fn better_digits(left: Seq<u64>, right: Seq<u64>) -> BetterBuffer {
    better_from(left, right, 0)
}

/// Which of two encoded outcomes is the better.
pub fn compare_buffers(left: u64, right: u64) -> (better: BetterBuffer)
    ensures
        better == better_value(left as int, right as int),
{
    if left > right {
        BetterBuffer::Left
    } else if left < right {
        BetterBuffer::Right
    } else {
        BetterBuffer::Equal
    }
}

/// Which of two lists of digits is the better outcome.
pub fn compare_digits(left: &Vec<u64>, right: &Vec<u64>) -> (better: BetterBuffer)
    ensures
        better == better_digits(left@, right@),
{
    let mut i: usize = 0;
    while i < left.len() && i < right.len()
        invariant
            i <= left.len(),
            i <= right.len(),
            better_digits(left@, right@) == better_from(left@, right@, i as int),
        decreases left.len() - i,
    {
        if left[i] > right[i] {
            return BetterBuffer::Left;
        }
        if left[i] < right[i] {
            return BetterBuffer::Right;
        }
        i = i + 1;
    }
    if left.len() < right.len() {
        BetterBuffer::Left
    } else if left.len() > right.len() {
        BetterBuffer::Right
    } else {
        BetterBuffer::Equal
    }
}

/// Appends the last `count` digits of `value` to `out`.
fn push_digits_of(out: &mut Vec<u64>, value: u64, count: u8)
    ensures
        final(out)@ == old(out)@ + digits_of(value as nat, count as nat),
    decreases count,
{
    if count > 0 {
        push_digits_of(out, value / SCORE_RANGE, count - 1);
        out.push(value % SCORE_RANGE);
    }
}

/// The last `count` digits of an encoded outcome, the most significant
/// first.
pub fn buffer_digits(buffer: u64, count: u8) -> (digits: Vec<u64>)
    ensures
        digits@ == digits_of(buffer as nat, count as nat),
{
    let mut digits: Vec<u64> = Vec::new();
    push_digits_of(&mut digits, buffer, count);
    digits
}

/// A number has as many digits as were asked for.
proof fn lemma_digits_len(value: nat, count: nat)
    ensures
        digits_of(value, count).len() == count,
    decreases count,
{
    if count > 0 {
        lemma_digits_len(value / (SCORE_RANGE as nat), (count - 1) as nat);
    }
}

/// Two lists of one length with a digit added to each compare as the
/// lists do, and as the added digits where the lists are equal.
proof fn lemma_better_with_last(left: Seq<u64>, right: Seq<u64>, x: u64, y: u64, from: int)
    requires
        left.len() == right.len(),
        0 <= from <= left.len(),
    ensures
        better_from(left.push(x), right.push(y), from) == (if better_from(left, right, from)
            == BetterBuffer::Equal {
            better_value(x as int, y as int)
        } else {
            better_from(left, right, from)
        }),
    decreases left.len() - from,
{
    if from < left.len() {
        lemma_better_with_last(left, right, x, y, from + 1);
    } else {
        reveal_with_fuel(better_from, 2);
    }
}

/// Two outcomes with `count` digits each stand to each other as their lists
/// of digits do.
pub proof fn lemma_orders_agree(left: nat, right: nat, count: nat)
    requires
        left < radix(count),
        right < radix(count),
    ensures
        better_digits(digits_of(left, count), digits_of(right, count)) == better_value(
            left as int,
            right as int,
        ),
    decreases count,
{
    if count > 0 {
        let base = SCORE_RANGE as nat;
        let rest = (count - 1) as nat;
        lemma_orders_agree(left / base, right / base, rest);
        lemma_digits_len(left / base, rest);
        lemma_digits_len(right / base, rest);
        lemma_better_with_last(
            digits_of(left / base, rest),
            digits_of(right / base, rest),
            (left % base) as u64,
            (right % base) as u64,
            0,
        );
    }
}

} // verus!
