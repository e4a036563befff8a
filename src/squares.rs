use vstd::prelude::*;

use crate::bitboard::{flanked, flips, moves_of};

verus! {

// Square-level statements of the Othello rules. Squares are numbered 0 to 63
// row by row; bit `sq` of a mask stands for square `sq`. A line is given by a
// sense (`shr`: toward lower squares) and a step of 1, 7, 8 or 9 squares, so
// the eight pairs are the eight directions of the board.

/// Whether square `sq` is set in `x`.
pub open spec fn in_mask(x: u64, sq: u64) -> bool {
    (x >> sq) & 1 == 1
}

/// Whether the line of `k` squares in the sense `shr` leaves `sq` on the
/// board: it must not run off the top or bottom, nor across the A or H file.
pub open spec fn can_step(sq: u64, shr: bool, k: u64) -> bool {
    &&& if shr { sq >= k } else { sq + k < 64 }
    &&& ((shr && (k == 1 || k == 9)) || (!shr && k == 7)) ==> sq % 8 != 0
    &&& ((!shr && (k == 1 || k == 9)) || (shr && k == 7)) ==> sq % 8 != 7
}

/// The square one step from `sq` along the line.
pub open spec fn next_sq(sq: u64, shr: bool, k: u64) -> u64 {
    if shr { (sq - k) as u64 } else { (sq + k) as u64 }
}

/// From `sq`, the line passes through at most `fuel` more `op` squares and
/// then reaches a `me` square.
pub open spec fn closed_within(me: u64, op: u64, sq: u64, shr: bool, k: u64, fuel: u64) -> bool
    decreases fuel,
{
    let n = next_sq(sq, shr, k);
    can_step(sq, shr, k) && (in_mask(me, n) || (fuel > 0 && in_mask(op, n) && closed_within(
        me,
        op,
        n,
        shr,
        k,
        (fuel - 1) as u64,
    )))
}

/// Playing `sq` flanks a run of `op` disks along the line: the next square
/// holds an `op` disk and the run ends on a `me` disk.
pub open spec fn flanks(me: u64, op: u64, sq: u64, shr: bool, k: u64) -> bool {
    let n = next_sq(sq, shr, k);
    can_step(sq, shr, k) && in_mask(op, n) && closed_within(me, op, n, shr, k, 5)
}

/// From `sq`, the line passes through contiguous `op` squares, at most
/// `fuel + 1` of them, and `t` is one of them.
pub open spec fn run_reaches(op: u64, sq: u64, t: u64, shr: bool, k: u64, fuel: u64) -> bool
    decreases fuel,
{
    let n = next_sq(sq, shr, k);
    can_step(sq, shr, k) && in_mask(op, n) && (n == t || (fuel > 0 && run_reaches(
        op,
        n,
        t,
        shr,
        k,
        (fuel - 1) as u64,
    )))
}

/// Along the line, the disk played on `sq` closes a run of `op` disks (maybe
/// an empty one) with a `me` disk, and `t` is `sq` or in that run.
pub open spec fn turns_along(me: u64, op: u64, sq: u64, t: u64, shr: bool, k: u64) -> bool {
    closed_within(me, op, sq, shr, k, 6) && (t == sq || run_reaches(op, sq, t, shr, k, 5))
}

/// Playing `sq` is legal: the square is empty, and along some direction the
/// next square holds an opponent disk and the run of opponent disks ends on
/// a disk of the side to move.
pub open spec fn legal_square(me: u64, op: u64, sq: u64) -> bool {
    !(in_mask(me, sq) || in_mask(op, sq)) && (flanks(me, op, sq, true, 1)
        || flanks(me, op, sq, true, 7)
        || flanks(me, op, sq, true, 8)
        || flanks(me, op, sq, true, 9)
        || flanks(me, op, sq, false, 1)
        || flanks(me, op, sq, false, 7)
        || flanks(me, op, sq, false, 8)
        || flanks(me, op, sq, false, 9))
}

/// Square `t` changes hands, or is taken, when `sq` is played.
pub open spec fn turned(me: u64, op: u64, sq: u64, t: u64) -> bool {
    turns_along(me, op, sq, t, true, 1)
        || turns_along(me, op, sq, t, true, 7)
        || turns_along(me, op, sq, t, true, 8)
        || turns_along(me, op, sq, t, true, 9)
        || turns_along(me, op, sq, t, false, 1)
        || turns_along(me, op, sq, t, false, 7)
        || turns_along(me, op, sq, t, false, 8)
        || turns_along(me, op, sq, t, false, 9)
}

/// The legal-move mask holds exactly the squares on which a disk may be
/// placed by the rules of Othello.
pub proof fn lemma_legal_square(me: u64, op: u64, sq: u64)
    by (bit_vector)
    requires
        sq < 64,
        me & op == 0,
    ensures
        in_mask(moves_of(me, op), sq) == legal_square(me, op, sq),
{
}

proof fn lemma_flanked_toward_low_1(me: u64, op: u64, sq: u64, t: u64)
    by (bit_vector)
    requires
        sq < 64,
        t < 64,
        me & op == 0,
    ensures
        in_mask(flanked(1u64 << sq, me, op, true, 1), t) == turns_along(me, op, sq, t, true, 1),
{
}

proof fn lemma_flanked_toward_low_7(me: u64, op: u64, sq: u64, t: u64)
    by (bit_vector)
    requires
        sq < 64,
        t < 64,
        me & op == 0,
    ensures
        in_mask(flanked(1u64 << sq, me, op, true, 7), t) == turns_along(me, op, sq, t, true, 7),
{
}

proof fn lemma_flanked_toward_low_8(me: u64, op: u64, sq: u64, t: u64)
    by (bit_vector)
    requires
        sq < 64,
        t < 64,
        me & op == 0,
    ensures
        in_mask(flanked(1u64 << sq, me, op, true, 8), t) == turns_along(me, op, sq, t, true, 8),
{
}

proof fn lemma_flanked_toward_low_9(me: u64, op: u64, sq: u64, t: u64)
    by (bit_vector)
    requires
        sq < 64,
        t < 64,
        me & op == 0,
    ensures
        in_mask(flanked(1u64 << sq, me, op, true, 9), t) == turns_along(me, op, sq, t, true, 9),
{
}

proof fn lemma_flanked_toward_high_1(me: u64, op: u64, sq: u64, t: u64)
    by (bit_vector)
    requires
        sq < 64,
        t < 64,
        me & op == 0,
    ensures
        in_mask(flanked(1u64 << sq, me, op, false, 1), t) == turns_along(me, op, sq, t, false, 1),
{
}

proof fn lemma_flanked_toward_high_7(me: u64, op: u64, sq: u64, t: u64)
    by (bit_vector)
    requires
        sq < 64,
        t < 64,
        me & op == 0,
    ensures
        in_mask(flanked(1u64 << sq, me, op, false, 7), t) == turns_along(me, op, sq, t, false, 7),
{
}

proof fn lemma_flanked_toward_high_8(me: u64, op: u64, sq: u64, t: u64)
    by (bit_vector)
    requires
        sq < 64,
        t < 64,
        me & op == 0,
    ensures
        in_mask(flanked(1u64 << sq, me, op, false, 8), t) == turns_along(me, op, sq, t, false, 8),
{
}

proof fn lemma_flanked_toward_high_9(me: u64, op: u64, sq: u64, t: u64)
    by (bit_vector)
    requires
        sq < 64,
        t < 64,
        me & op == 0,
    ensures
        in_mask(flanked(1u64 << sq, me, op, false, 9), t) == turns_along(me, op, sq, t, false, 9),
{
}

/// The squares that change hands when `sq` is played are the played square
/// and the opponent runs that it closes, along each direction where a disk
/// of the side to move closes the line.
pub proof fn lemma_flipped_square(me: u64, op: u64, sq: u64, t: u64)
    requires
        sq < 64,
        t < 64,
        me & op == 0,
    ensures
        in_mask(flips(1u64 << sq, me, op), t) == turned(me, op, sq, t),
{
    lemma_flanked_toward_low_1(me, op, sq, t);
    lemma_flanked_toward_low_7(me, op, sq, t);
    lemma_flanked_toward_low_8(me, op, sq, t);
    lemma_flanked_toward_low_9(me, op, sq, t);
    lemma_flanked_toward_high_1(me, op, sq, t);
    lemma_flanked_toward_high_7(me, op, sq, t);
    lemma_flanked_toward_high_8(me, op, sq, t);
    lemma_flanked_toward_high_9(me, op, sq, t);
    let m = 1u64 << sq;
    let f0 = flanked(m, me, op, true, 1);
    let f1 = flanked(m, me, op, true, 7);
    let f2 = flanked(m, me, op, true, 8);
    let f3 = flanked(m, me, op, true, 9);
    let f4 = flanked(m, me, op, false, 1);
    let f5 = flanked(m, me, op, false, 7);
    let f6 = flanked(m, me, op, false, 8);
    let f7 = flanked(m, me, op, false, 9);
    assert(in_mask(f0 | f1 | f2 | f3 | (f4 | f5 | f6 | f7), t) == (in_mask(f0, t) || in_mask(f1, t) || in_mask(f2, t)
        || in_mask(f3, t) || in_mask(f4, t) || in_mask(f5, t) || in_mask(f6, t) || in_mask(f7, t))) by (bit_vector)
        requires
            t < 64,
    ;
}

/// How a square of a mask built with `|` and `&` with a complement reads.
pub proof fn lemma_in_mask_or_and_not(a: u64, b: u64, t: u64)
    by (bit_vector)
    requires
        t < 64,
    ensures
        in_mask(a | b, t) == (in_mask(a, t) || in_mask(b, t)),
        in_mask(a & !b, t) == (in_mask(a, t) && !in_mask(b, t)),
{
}

} // verus!
