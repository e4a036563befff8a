use vstd::prelude::*;

use crate::bitboard::Bitboard;
use crate::squares::in_mask;
use crate::state::{GameState, MoveType};

verus! {

/// The index of the lowest set bit of `x`; 64 when `x` is zero.
pub open spec fn low_index(x: u64) -> u64 {
    x.trailing_zeros() as u64
}

/// The lowest set bit of `x` alone; zero when `x` is zero.
pub open spec fn low_bit(x: u64) -> u64 {
    if x == 0 {
        0
    } else {
        1u64 << low_index(x)
    }
}

/// `x` with its lowest set bit cleared.
pub open spec fn without_low(x: u64) -> u64 {
    x & !low_bit(x)
}

proof fn lemma_lowest_of(x: u64, t: u64)
    by (bit_vector)
    requires
        t < 64,
        (x >> t) & 1 == 1,
        x << ((64 - t) as u64) == 0,
    ensures
        x & ((!x + 1) as u64) == 1u64 << t,
        x & !(1u64 << t) < x,
        !x < 0xffffffffffffffff,
{
}

/// What the lowest set bit of a nonzero mask is, and that clearing it makes
/// the mask smaller.
pub proof fn lemma_low_bit(x: u64)
    requires
        x != 0,
    ensures
        low_index(x) < 64,
        (x >> low_index(x)) & 1 == 1,
        x & ((!x + 1) as u64) == low_bit(x),
        without_low(x) < x,
        !x < 0xffffffffffffffff,
{
    vstd::std_specs::bits::axiom_u64_trailing_zeros(x);
    lemma_lowest_of(x, low_index(x));
}

#[via_fn]
proof fn plays_decreases(mask: u64) {
    if mask != 0 {
        lemma_low_bit(mask);
    }
}

/// A move: a disk placed on a square (0 to 63, row-major), or a pass.
#[derive(Clone, Copy, Debug, PartialEq, Eq, Structural)]
pub enum Move {
    Play(u8),
    Pass,
}

/// The squares of `mask` as moves, in increasing order of index.
pub open spec fn plays(mask: u64) -> Seq<Move>
    decreases mask,
    via plays_decreases
{
    if mask == 0 {
        seq![]
    } else {
        seq![Move::Play(low_index(mask) as u8)] + plays(without_low(mask))
    }
}

/// The moves that a legal-move mask offers: its squares, or a pass alone when
/// it has none.
pub open spec fn move_list(mask: u64) -> Seq<Move> {
    if mask == 0 {
        seq![Move::Pass]
    } else {
        plays(mask)
    }
}

/// Returns the lowest set bit of `x` alone.
pub fn extract_lsb(x: u64) -> (r: u64)
    ensures
        r == low_bit(x),
{
    if x == 0 {
        return 0;
    }
    proof {
        lemma_low_bit(x);
    }
    x & (!x).wrapping_add(1)
}

/// The error of a move that is not legal in the position.
#[derive(Clone, Copy, Debug, PartialEq, Eq, Structural)]
pub struct InvalidMoveError;

/// Whether `m` is legal in the position `b`.
pub open spec fn is_legal(b: Bitboard, m: Move) -> bool {
    match m {
        Move::Play(i) => i < 64 && in_mask(b.legal(), i as u64),
        Move::Pass => b.legal() == 0,
    }
}

/// An Othello game in progress: the disks together with who is to move and
/// how the last move went.
pub struct Board {
    bitboard: Bitboard,
    game_state: GameState,
}

impl Board {
    /// The disks, relative to the side to move.
    pub closed spec fn disks(self) -> Bitboard {
        self.bitboard
    }

    /// The state beside the disks.
    pub closed spec fn state(self) -> GameState {
        self.game_state
    }

    /// Returns the legal moves in increasing order of square, or a pass alone
    /// when no square is legal.
    pub fn get_moves(&self) -> (r: Vec<Move>)
        ensures
            r@ == move_list(self.disks().legal()),
            r@.len() >= 1,
    {
        let all = self.bitboard.get_moves();
        let mut valid_moves = all;
        let mut moves: Vec<Move> = Vec::new();
        while valid_moves > 0
            invariant
                moves@ + plays(valid_moves) == plays(all),
            decreases valid_moves,
        {
            let move_mask = extract_lsb(valid_moves);
            proof {
                lemma_low_bit(valid_moves);
            }
            let idx = valid_moves.trailing_zeros();
            let ghost before = valid_moves;
            valid_moves &= !move_mask;
            moves.push(Move::Play(idx as u8));
            proof {
                assert(plays(before) == seq![Move::Play(idx as u8)] + plays(valid_moves));
                assert(moves@ + plays(valid_moves) =~= plays(all));
            }
        }
        if moves.len() == 0 {
            assert(plays(all).len() == 0);
            moves.push(Move::Pass);
        }
        moves
    }

    /// Plays `m`, or leaves the game as it is and fails when `m` is not legal:
    /// a square out of range or not among the legal moves, or a pass while a
    /// square is legal.
    pub fn play(&mut self, m: Move) -> (r: Result<(), InvalidMoveError>)
        ensures
            r is Ok <==> is_legal(old(self).disks(), m),
            r is Err ==> final(self).disks() == old(self).disks() && final(self).state() == old(
                self,
            ).state(),
            r is Ok ==> match m {
                Move::Play(i) => final(self).disks() == old(self).disks().after(1u64 << i as u64)
                    && final(self).state() == old(self).state().played(),
                Move::Pass => final(self).disks() == old(self).disks().passed()
                    && final(self).state() == old(self).state().passed(),
            },
    {
        let valid_moves = self.bitboard.get_moves();
        match m {
            Move::Play(idx) => {
                if idx >= 64 {
                    return Err(InvalidMoveError);
                }
                let move_mask: u64 = 1u64 << idx;
                proof {
                    let i = idx as u64;
                    assert((valid_moves & (1u64 << i) == 0) == ((valid_moves >> i) & 1 != 1))
                        by (bit_vector)
                        requires
                            i < 64,
                    ;
                }
                if valid_moves & move_mask == 0 {
                    return Err(InvalidMoveError);
                }
                self.bitboard = self.bitboard.make_move(move_mask);
                self.game_state = self.game_state.play();
            },
            Move::Pass => {
                if valid_moves != 0 {
                    return Err(InvalidMoveError);
                }
                self.bitboard = self.bitboard.pass();
                self.game_state = self.game_state.pass();
            },
        }
        Ok(())
    }

    /// Returns the disks, relative to the side to move.
    pub fn get_bitboard(&self) -> (r: Bitboard)
        ensures
            r == self.disks(),
    {
        self.bitboard
    }

    /// Returns the state beside the disks.
    pub fn get_game_state(&self) -> (r: GameState)
        ensures
            r == self.state(),
    {
        self.game_state
    }
}

impl Default for Board {
    /// The Othello starting position, Black to move.
    fn default() -> (r: Self)
        ensures
            r.disks() == Bitboard::opening(),
            r.state() == GameState::opening(),
            r.disks().mine() == 0x0000000810000000,
            r.disks().theirs() == 0x0000001008000000,
            r.state().side() == crate::state::Side::Black,
            r.state().last() == MoveType::Play,
    {
        Self { bitboard: Bitboard::default(), game_state: GameState::default() }
    }
}

} // verus!
