use vstd::prelude::*;

use crate::bitboard::Bitboard;
use crate::board::{extract_lsb, lemma_low_bit, low_bit, without_low};
use crate::search::mask_bound;
use crate::state::{GameState, MoveType};

verus! {

/// The number of move sequences `depth` plies long from a position, where a
/// pass counts as a ply and a finished game as a single sequence.
pub open spec fn perft_count(b: Bitboard, s: GameState, depth: nat) -> nat
    decreases depth, mask_bound(),
{
    if depth == 0 {
        1
    } else if b.legal() == 0 {
        if s.last() == MoveType::Pass {
            1
        } else {
            perft_count(b.passed(), s.passed(), (depth - 1) as nat)
        }
    } else {
        perft_moves(b, s, b.legal(), depth)
    }
}

/// The sum of the counts after each square of `moves`.
pub open spec fn perft_moves(b: Bitboard, s: GameState, moves: u64, depth: nat) -> nat
    decreases depth, moves,
    via perft_moves_decreases
{
    if depth == 0 || moves == 0 {
        0
    } else {
        perft_count(b.after(low_bit(moves)), s.played(), (depth - 1) as nat) + perft_moves(
            b,
            s,
            without_low(moves),
            depth,
        )
    }
}

#[via_fn]
proof fn perft_moves_decreases(b: Bitboard, s: GameState, moves: u64, depth: nat) {
    if moves != 0 {
        lemma_low_bit(moves);
    }
}

/// Counts the move sequences from a position, or fails when the count does
/// not fit in 64 bits.
fn perft_impl(board: Bitboard, state: GameState, depth: u8) -> (r: Option<u64>)
    ensures
        r is Some <==> perft_count(board, state, depth as nat) <= u64::MAX,
        r matches Some(n) ==> n == perft_count(board, state, depth as nat),
    decreases depth,
{
    if depth == 0 {
        return Some(1);
    }
    let all = board.get_moves();
    let mut moves = all;
    if moves == 0 {
        if let MoveType::Pass = state.get_last() {
            return Some(1);
        }
        return perft_impl(board.pass(), state.pass(), depth - 1);
    }
    let mut nodes: u64 = 0;
    while moves > 0
        invariant
            depth > 0,
            all == board.legal(),
            all != 0,
            perft_count(board, state, depth as nat) == nodes + perft_moves(
                board,
                state,
                moves,
                depth as nat,
            ),
        decreases moves,
    {
        let move_mask = extract_lsb(moves);
        proof {
            lemma_low_bit(moves);
        }
        let below = perft_impl(board.make_move(move_mask), state.play(), depth - 1);
        let ghost before = moves;
        moves &= !move_mask;
        match below {
            Some(n) => match nodes.checked_add(n) {
                Some(sum) => {
                    nodes = sum;
                },
                None => {
                    return None;
                },
            },
            None => {
                return None;
            },
        }
        assert(perft_moves(board, state, before, depth as nat) == perft_count(
            board.after(low_bit(before)),
            state.played(),
            (depth - 1) as nat,
        ) + perft_moves(board, state, moves, depth as nat));
    }
    Some(nodes)
}

/// Counts the move sequences `depth` plies long from the starting position,
/// or returns nothing when the count does not fit in 64 bits.
pub fn perft(depth: u8) -> (r: Option<u64>)
    ensures
        r is Some <==> perft_count(Bitboard::opening(), GameState::opening(), depth as nat)
            <= u64::MAX,
        r matches Some(n) ==> n == perft_count(
            Bitboard::opening(),
            GameState::opening(),
            depth as nat,
        ),
{
    perft_impl(Bitboard::default(), GameState::default(), depth)
}

} // verus!
