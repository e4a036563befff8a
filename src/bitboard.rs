use vstd::prelude::*;

use crate::squares::{
    in_mask, legal_square, lemma_flipped_square, lemma_in_mask_or_and_not, lemma_legal_square, turned,
};

verus! {

/// Mask of all squares that are not on the A file.
pub const NOT_A_FILE: u64 = 0xfefefefefefefefe;

/// Mask of all squares that are not on the H file.
pub const NOT_H_FILE: u64 = 0x7f7f7f7f7f7f7f7f;

/// Mask of a filled board.
pub const FILLED: u64 = 0xffffffffffffffff;

/// Moves `x` by `k` bit positions, toward lower bits when `shr` holds and
/// toward higher bits otherwise.
pub open spec fn shifted(x: u64, shr: bool, k: u64) -> u64 {
    if shr {
        x >> k
    } else {
        x << k
    }
}

/// The squares that may be entered by one step of `k` bit positions in the
/// given sense without wrapping around a board edge.
pub open spec fn edge_mask(shr: bool, k: u64) -> u64 {
    if k == 8 {
        FILLED
    } else if shr == (k != 7) {
        NOT_H_FILE
    } else {
        NOT_A_FILE
    }
}

/// One step of every square of `x` along the line given by `shr` and `k`;
/// squares that would leave the board disappear.
pub open spec fn step(x: u64, shr: bool, k: u64) -> u64 {
    shifted(x, shr, k) & edge_mask(shr, k)
}

/// One round of growth of `g` into the squares of `p` adjacent along the line.
pub open spec fn grow(g: u64, p: u64, shr: bool, k: u64) -> u64 {
    g | (step(g, shr, k) & p)
}

/// The squares reachable from `gen` along the line through contiguous squares
/// of `pro`, `gen` included. Seven steps cross the whole board.
pub open spec fn ray(gen: u64, pro: u64, shr: bool, k: u64) -> u64 {
    grow(grow(grow(grow(grow(grow(grow(gen, pro, shr, k), pro, shr, k), pro, shr, k), pro, shr, k), pro, shr, k), pro, shr, k), pro, shr, k)
}

/// The line directions that one sense covers: steps of 1, 7, 8 and 9 squares.
pub open spec fn is_lane(k: u64) -> bool {
    k == 1 || k == 7 || k == 8 || k == 9
}

/// The Kogge-Stone form of `ray`: the propagator is doubled instead of
/// stepping seven times.
pub open spec fn doubling_fill(gen: u64, pro: u64, shr: bool, k: u64) -> u64 {
    let p0 = pro & edge_mask(shr, k);
    let g1 = gen | (p0 & shifted(gen, shr, k));
    let p1 = p0 & shifted(p0, shr, k);
    let g2 = g1 | (p1 & shifted(g1, shr, k << 1u64));
    let p2 = p1 & shifted(p1, shr, k << 1u64);
    g2 | (p2 & shifted(g2, shr, k << 2u64))
}

/// Three doubling rounds fill as far as seven single steps, toward lower
/// squares.
proof fn lemma_doubling_fill_shr(gen: u64, pro: u64)
    by (bit_vector)
    ensures
        doubling_fill(gen, pro, true, 1) == ray(gen, pro, true, 1),
        doubling_fill(gen, pro, true, 7) == ray(gen, pro, true, 7),
        doubling_fill(gen, pro, true, 8) == ray(gen, pro, true, 8),
        doubling_fill(gen, pro, true, 9) == ray(gen, pro, true, 9),
{
}

/// The same toward higher squares.
proof fn lemma_doubling_fill_shl(gen: u64, pro: u64)
    by (bit_vector)
    ensures
        doubling_fill(gen, pro, false, 1) == ray(gen, pro, false, 1),
        doubling_fill(gen, pro, false, 7) == ray(gen, pro, false, 7),
        doubling_fill(gen, pro, false, 8) == ray(gen, pro, false, 8),
        doubling_fill(gen, pro, false, 9) == ray(gen, pro, false, 9),
{
}


/// The edge mask of a lane.
fn lane_mask(shr: bool, k: u64) -> (r: u64)
    requires
        is_lane(k),
    ensures
        r == edge_mask(shr, k),
{
    if k == 8 {
        FILLED
    } else if shr == (k != 7) {
        NOT_H_FILE
    } else {
        NOT_A_FILE
    }
}

/// A plain shift by `k` positions in the given sense.
fn shift_by(x: u64, shr: bool, k: u64) -> (r: u64)
    requires
        k < 64,
    ensures
        r == shifted(x, shr, k),
{
    if shr {
        x >> k
    } else {
        x << k
    }
}

/// Kogge-Stone flood fill of one lane: grows `gen` through contiguous squares
/// of `pro` along the line of `k` squares in the sense `shr`, stopping at the
/// board edges.
fn lane_fill(gen: u64, pro: u64, shr: bool, k: u64) -> (r: u64)
    requires
        is_lane(k),
    ensures
        r == ray(gen, pro, shr, k),
{
    proof {
        assert((k << 1u64) < 64 && (k << 2u64) < 64) by (bit_vector)
            requires
                k <= 9,
        ;
    }
    let mut g = gen;
    let mut p = pro & lane_mask(shr, k);
    g = g | (p & shift_by(g, shr, k));
    p = p & shift_by(p, shr, k);
    g = g | (p & shift_by(g, shr, k << 1u64));
    p = p & shift_by(p, shr, k << 1u64);
    let r = g | (p & shift_by(g, shr, k << 2u64));
    proof {
        assert(r == doubling_fill(gen, pro, shr, k));
        lemma_doubling_fill_shr(gen, pro);
        lemma_doubling_fill_shl(gen, pro);
    }
    r
}

/// One step of every square of `x` along one lane, without accumulation.
fn lane_shift(x: u64, shr: bool, k: u64) -> (r: u64)
    requires
        is_lane(k),
    ensures
        r == step(x, shr, k),
{
    shift_by(x, shr, k) & lane_mask(shr, k)
}


/// The squares just beyond each run of `op` disks that starts next to a `me`
/// disk, over the four lines of one sense.
pub open spec fn beyond_runs(me: u64, op: u64, shr: bool) -> u64 {
    step(ray(me, op, shr, 1) & op, shr, 1) | step(ray(me, op, shr, 7) & op, shr, 7) | step(
        ray(me, op, shr, 8) & op,
        shr,
        8,
    ) | step(ray(me, op, shr, 9) & op, shr, 9)
}

/// The legal moves for the side owning `me`: the empty squares that lie just
/// beyond a run of opponent disks adjacent to one of its own, along one of the
/// eight lines.
pub open spec fn moves_of(me: u64, op: u64) -> u64 {
    (beyond_runs(me, op, true) | beyond_runs(me, op, false)) & !(me | op)
}

/// The run of `op` disks from `m` along one line, `m` included, when a `me`
/// disk closes it; nothing otherwise.
pub open spec fn flanked(m: u64, me: u64, op: u64, shr: bool, k: u64) -> u64 {
    if step(ray(m, op, shr, k), shr, k) & me != 0 {
        ray(m, op, shr, k)
    } else {
        0
    }
}

/// The flanked runs from `m` over the four lines of one sense.
pub open spec fn flanked_toward(m: u64, me: u64, op: u64, shr: bool) -> u64 {
    flanked(m, me, op, shr, 1) | flanked(m, me, op, shr, 7) | flanked(m, me, op, shr, 8) | flanked(
        m,
        me,
        op,
        shr,
        9,
    )
}

/// The squares that change hands when `m` is played: the flanked runs of the
/// eight directions, each of which starts with `m` itself.
pub open spec fn flips(m: u64, me: u64, op: u64) -> u64 {
    flanked_toward(m, me, op, true) | flanked_toward(m, me, op, false)
}

/// The number of set bits of `x` among its `n` lowest.
pub open spec fn ones_below(x: u64, n: nat) -> nat
    decreases n,
{
    if n == 0 {
        0
    } else {
        ones_below(x, (n - 1) as nat) + if (x >> (n - 1) as u64) & 1 == 1 {
            1nat
        } else {
            0nat
        }
    }
}

/// The number of set bits of `x`.
pub open spec fn ones(x: u64) -> nat {
    ones_below(x, 64)
}

/// Counts the set bits of `x`.
pub fn count_ones(x: u64) -> (r: u32)
    ensures
        r == ones(x),
        r <= 64,
{
    let mut n: u32 = 0;
    let mut i: u64 = 0;
    while i < 64
        invariant
            i <= 64,
            n == ones_below(x, i as nat),
            n <= i,
        decreases 64 - i,
    {
        if (x >> i) & 1 == 1 {
            n = n + 1;
        }
        i = i + 1;
    }
    n
}

/// The landing squares of one sense: just beyond the runs of `op` disks that
/// start next to a `me` disk.
fn captures_toward(me: u64, op: u64, shr: bool) -> (r: u64)
    ensures
        r == beyond_runs(me, op, shr),
{
    lane_shift(lane_fill(me, op, shr, 1) & op, shr, 1) | lane_shift(
        lane_fill(me, op, shr, 7) & op,
        shr,
        7,
    ) | lane_shift(lane_fill(me, op, shr, 8) & op, shr, 8) | lane_shift(
        lane_fill(me, op, shr, 9) & op,
        shr,
        9,
    )
}

/// The fill of one lane from `m`, kept only where a `me` disk closes it.
fn lane_flanked(m: u64, me: u64, op: u64, shr: bool, k: u64) -> (r: u64)
    requires
        is_lane(k),
    ensures
        r == flanked(m, me, op, shr, k),
{
    let fill = lane_fill(m, op, shr, k);
    if lane_shift(fill, shr, k) & me != 0 {
        fill
    } else {
        0
    }
}

/// The flipped squares of one sense.
fn flips_toward(m: u64, me: u64, op: u64, shr: bool) -> (r: u64)
    ensures
        r == flanked_toward(m, me, op, shr),
{
    lane_flanked(m, me, op, shr, 1) | lane_flanked(m, me, op, shr, 7) | lane_flanked(
        m,
        me,
        op,
        shr,
        8,
    ) | lane_flanked(m, me, op, shr, 9)
}

/// An Othello position relative to the side to move: `me` holds its disks,
/// `op` those of its opponent. No square holds both.
#[derive(Clone, Copy)]
pub struct Bitboard {
    me: u64,
    op: u64,
}

impl Bitboard {
    #[verifier::type_invariant]
    spec fn disjoint(self) -> bool {
        self.me & self.op == 0
    }

    /// The disks of the side to move.
    pub closed spec fn mine(self) -> u64 {
        self.me
    }

    /// The disks of the other side.
    pub closed spec fn theirs(self) -> u64 {
        self.op
    }

    /// The position with the turn handed over and no disk changed.
    pub closed spec fn passed(self) -> Bitboard {
        Bitboard { me: self.op, op: self.me }
    }

    /// The position after the side to move plays `m`, seen from the other side.
    pub closed spec fn after(self, m: u64) -> Bitboard {
        let f = flips(m, self.me, self.op);
        Bitboard { me: self.op & !f, op: self.me | f }
    }

    /// The Othello starting position, as seen by the first side to move.
    pub closed spec fn opening() -> Bitboard {
        Bitboard { me: 0x0000000810000000, op: 0x0000001008000000 }
    }

    /// The legal moves of the side to move.
    pub open spec fn legal(self) -> u64 {
        moves_of(self.mine(), self.theirs())
    }

    /// The material balance for the side to move.
    pub open spec fn material(self) -> int {
        ones(self.mine()) - ones(self.theirs())
    }

    /// Returns a mask of the empty squares.
    pub fn empties(self) -> (r: u64)
        ensures
            r == !(self.mine() | self.theirs()),
    {
        !(self.me | self.op)
    }

    /// Returns a mask of all legal moves.
    pub fn get_moves(self) -> (r: u64)
        ensures
            r == self.legal(),
            forall|sq: u64|
                sq < 64 ==> (#[trigger] in_mask(r, sq) <==> legal_square(self.mine(), self.theirs(), sq)),
    {
        let shr = captures_toward(self.me, self.op, true);
        let shl = captures_toward(self.me, self.op, false);
        let r = (shr | shl) & self.empties();
        proof {
            use_type_invariant(self);
            assert forall|sq: u64| sq < 64 implies (#[trigger] in_mask(r, sq) <==> legal_square(
                self.me,
                self.op,
                sq,
            )) by {
                lemma_legal_square(self.me, self.op, sq);
            }
        }
        r
    }

    /// Returns the position after a pass.
    ///
    /// This does not check that passing is legal.
    pub fn pass(self) -> (r: Self)
        ensures
            r == self.passed(),
            r.mine() == self.theirs(),
            r.theirs() == self.mine(),
            r.mine() & r.theirs() == 0,
    {
        proof {
            use_type_invariant(self);
            let (me, op) = (self.me, self.op);
            assert(op & me == 0) by (bit_vector)
                requires
                    me & op == 0,
            ;
        }
        Self { me: self.op, op: self.me }
    }

    /// Returns the position after the square of `move_mask` is played.
    ///
    /// This does not check that the move is legal.
    pub fn make_move(self, move_mask: u64) -> (r: Self)
        ensures
            r == self.after(move_mask),
            r.mine() == self.theirs() & !flips(move_mask, self.mine(), self.theirs()),
            r.theirs() == self.mine() | flips(move_mask, self.mine(), self.theirs()),
            r.mine() & r.theirs() == 0,
            forall|sq: u64, t: u64|
                #![trigger turned(self.mine(), self.theirs(), sq, t)]
                move_mask == 1u64 << sq && sq < 64 && t < 64 ==> {
                    &&& in_mask(r.theirs(), t) <==> in_mask(self.mine(), t) || turned(
                        self.mine(),
                        self.theirs(),
                        sq,
                        t,
                    )
                    &&& in_mask(r.mine(), t) <==> in_mask(self.theirs(), t) && !turned(
                        self.mine(),
                        self.theirs(),
                        sq,
                        t,
                    )
                },
    {
        let swaps = flips_toward(move_mask, self.me, self.op, true) | flips_toward(
            move_mask,
            self.me,
            self.op,
            false,
        );
        proof {
            use_type_invariant(self);
            let (me, op) = (self.me, self.op);
            assert((op & !swaps) & (me | swaps) == 0) by (bit_vector)
                requires
                    me & op == 0,
            ;
            assert forall|sq: u64, t: u64|
                #![trigger turned(me, op, sq, t)]
                move_mask == 1u64 << sq && sq < 64 && t < 64 implies {
                    &&& in_mask(me | swaps, t) <==> in_mask(me, t) || turned(me, op, sq, t)
                    &&& in_mask(op & !swaps, t) <==> in_mask(op, t) && !turned(me, op, sq, t)
                } by {
                lemma_flipped_square(me, op, sq, t);
                lemma_in_mask_or_and_not(me, swaps, t);
                lemma_in_mask_or_and_not(op, swaps, t);
            }
        }
        Self { me: self.op & !swaps, op: self.me | swaps }
    }

    /// Returns the number of disks of the side to move minus those of the
    /// other side.
    pub fn score(self) -> (r: i32)
        ensures
            r == self.material(),
            -64 <= r <= 64,
    {
        count_ones(self.me) as i32 - count_ones(self.op) as i32
    }

    /// Returns the disks of the side to move.
    pub fn get_me(self) -> (r: u64)
        ensures
            r == self.mine(),
    {
        self.me
    }

    /// Returns the disks of the other side.
    pub fn get_op(self) -> (r: u64)
        ensures
            r == self.theirs(),
    {
        self.op
    }
}

impl Default for Bitboard {
    /// The Othello starting position.
    fn default() -> (r: Self)
        ensures
            r == Bitboard::opening(),
            r.mine() == 0x0000000810000000,
            r.theirs() == 0x0000001008000000,
            r.mine() & r.theirs() == 0,
    {
        proof {
            assert(0x0000000810000000u64 & 0x0000001008000000u64 == 0) by (bit_vector);
        }
        Self { me: 0x0000000810000000, op: 0x0000001008000000 }
    }
}

/// Playing any square and passing both keep the two sides' disks apart, so
/// no position reached from the start has a square held by both sides.
pub proof fn lemma_disjoint_kept(b: Bitboard, m: u64)
    requires
        b.mine() & b.theirs() == 0,
    ensures
        b.after(m).mine() & b.after(m).theirs() == 0,
        b.passed().mine() & b.passed().theirs() == 0,
{
    let (me, op) = (b.me, b.op);
    let f = flips(m, me, op);
    assert((op & !f) & (me | f) == 0 && op & me == 0) by (bit_vector)
        requires
            me & op == 0,
    ;
}

/// Passing twice gives back the position passed from.
pub proof fn lemma_pass_twice(b: Bitboard)
    ensures
        b.passed().passed() == b,
{
}

} // verus!
