use vstd::prelude::*;

use crate::bitboard::{ones_below, Bitboard};
use crate::board::{extract_lsb, lemma_low_bit, low_bit, move_list, plays, without_low, Board, Move};
use crate::state::{GameState, MoveType};

verus! {

/// Bigger than any move mask: bounds the second part of the search's measure.
pub open spec fn mask_bound() -> int {
    0x10000000000000000
}

/// The fail-hard alpha-beta negamax value of a position searched `depth`
/// plies deep in the window from `alpha` to `beta`, relative to the side to
/// move. Two passes in a row end the game.
pub open spec fn ab_value(b: Bitboard, s: GameState, alpha: int, beta: int, depth: nat) -> int
    decreases depth, mask_bound(),
{
    if depth == 0 {
        b.material()
    } else if b.legal() == 0 {
        if s.last() == MoveType::Pass {
            b.material()
        } else {
            -ab_value(b.passed(), s.passed(), -beta, -alpha, (depth - 1) as nat)
        }
    } else {
        ab_moves(b, s, b.legal(), alpha, beta, depth)
    }
}

/// The alpha-beta loop over the squares of `moves`, lowest first: a reply
/// worth at least `beta` cuts the search off with `beta`, a better one raises
/// `alpha`, and `alpha` is the value once every move is tried.
pub open spec fn ab_moves(
    b: Bitboard,
    s: GameState,
    moves: u64,
    alpha: int,
    beta: int,
    depth: nat,
) -> int
    decreases depth, moves,
    via ab_moves_decreases
{
    if depth == 0 || moves == 0 {
        alpha
    } else {
        let score = -ab_value(
            b.after(low_bit(moves)),
            s.played(),
            -beta,
            -alpha,
            (depth - 1) as nat,
        );
        if score >= beta {
            beta
        } else {
            ab_moves(
                b,
                s,
                without_low(moves),
                if score > alpha {
                    score
                } else {
                    alpha
                },
                beta,
                depth,
            )
        }
    }
}

#[via_fn]
proof fn ab_moves_decreases(
    b: Bitboard,
    s: GameState,
    moves: u64,
    alpha: int,
    beta: int,
    depth: nat,
) {
    if moves != 0 {
        lemma_low_bit(moves);
    }
}

/// The value of playing `m` at the root of a search `depth` plies deep: the
/// reply searched one ply less in the widest window, negated.
pub open spec fn root_value(b: Bitboard, s: GameState, m: Move, depth: nat) -> int {
    match m {
        Move::Play(i) => -ab_value(
            b.after(1u64 << i as u64),
            s.played(),
            i32::MIN + 1,
            i32::MAX as int,
            (depth - 1) as nat,
        ),
        Move::Pass => -ab_value(
            b.passed(),
            s.passed(),
            i32::MIN + 1,
            i32::MAX as int,
            (depth - 1) as nat,
        ),
    }
}

/// The first of the moves `ms` whose value in `vals` is greatest, with that
/// value.
pub open spec fn best_of(ms: Seq<Move>, vals: Seq<int>) -> (Move, int)
    decreases ms.len(),
{
    if ms.len() <= 1 {
        (ms[0], vals[0])
    } else {
        let (m, v) = best_of(ms.drop_last(), vals.take(ms.len() - 1));
        if vals[ms.len() - 1] > v {
            (ms[ms.len() - 1], vals[ms.len() - 1])
        } else {
            (m, v)
        }
    }
}

/// What a search of `depth` plies reports for `board`: nothing at depth zero
/// or when the game is over, else the best root move and its value.
pub open spec fn search_result(board: Board, depth: nat) -> Option<(Move, int)> {
    let b = board.disks();
    let s = board.state();
    let ms = move_list(b.legal());
    if depth == 0 || (b.legal() == 0 && s.last() == MoveType::Pass) {
        None
    } else {
        Some(best_of(ms, ms.map_values(|m: Move| root_value(b, s, m, depth))))
    }
}

/// The plain negamax value of a position searched `depth` plies deep, with
/// no pruning: the best negated reply value over every legal move.
pub open spec fn minimax(b: Bitboard, s: GameState, depth: nat) -> int
    decreases depth, mask_bound(),
{
    if depth == 0 {
        b.material()
    } else if b.legal() == 0 {
        if s.last() == MoveType::Pass {
            b.material()
        } else {
            -minimax(b.passed(), s.passed(), (depth - 1) as nat)
        }
    } else {
        best_reply(b, s, b.legal(), depth)
    }
}

/// The greatest negated reply value over the squares of `moves`.
pub open spec fn best_reply(b: Bitboard, s: GameState, moves: u64, depth: nat) -> int
    decreases depth, moves,
    via best_reply_decreases
{
    if depth == 0 || moves == 0 {
        b.material()
    } else {
        let c = -minimax(b.after(low_bit(moves)), s.played(), (depth - 1) as nat);
        if without_low(moves) == 0 {
            c
        } else {
            let rest = best_reply(b, s, without_low(moves), depth);
            if c >= rest {
                c
            } else {
                rest
            }
        }
    }
}

#[via_fn]
proof fn best_reply_decreases(b: Bitboard, s: GameState, moves: u64, depth: nat) {
    if moves != 0 {
        lemma_low_bit(moves);
    }
}

/// `x` tells the truth about `v` as far as the window from `alpha` to `beta`
/// can: exact inside it, on the same side of it outside.
pub open spec fn agrees(x: int, v: int, alpha: int, beta: int) -> bool {
    &&& (alpha < v < beta ==> x == v)
    &&& (v <= alpha ==> x <= alpha)
    &&& (v >= beta ==> x >= beta)
}

/// The value of playing `m` at the root, searched without pruning.
pub open spec fn root_minimax(b: Bitboard, s: GameState, m: Move, depth: nat) -> int {
    match m {
        Move::Play(i) => -minimax(b.after(1u64 << i as u64), s.played(), (depth - 1) as nat),
        Move::Pass => -minimax(b.passed(), s.passed(), (depth - 1) as nat),
    }
}

/// What a full-width search without pruning reports for `board`.
pub open spec fn minimax_result(board: Board, depth: nat) -> Option<(Move, int)> {
    let b = board.disks();
    let s = board.state();
    let ms = move_list(b.legal());
    if depth == 0 || (b.legal() == 0 && s.last() == MoveType::Pass) {
        None
    } else {
        Some(best_of(ms, ms.map_values(|m: Move| root_minimax(b, s, m, depth))))
    }
}

proof fn lemma_ones_below_bound(x: u64, n: nat)
    ensures
        ones_below(x, n) <= n,
    decreases n,
{
    if n > 0 {
        lemma_ones_below_bound(x, (n - 1) as nat);
    }
}

/// The material balance lies between -64 and 64.
proof fn lemma_material_bound(b: Bitboard)
    ensures
        -64 <= b.material() <= 64,
{
    lemma_ones_below_bound(b.mine(), 64);
    lemma_ones_below_bound(b.theirs(), 64);
}

/// Plain negamax values lie between -64 and 64.
proof fn lemma_minimax_bound(b: Bitboard, s: GameState, depth: nat)
    ensures
        -64 <= minimax(b, s, depth) <= 64,
    decreases depth, mask_bound(),
{
    lemma_material_bound(b);
    if depth > 0 {
        if b.legal() == 0 {
            lemma_minimax_bound(b.passed(), s.passed(), (depth - 1) as nat);
        } else {
            lemma_best_reply_bound(b, s, b.legal(), depth);
        }
    }
}

proof fn lemma_best_reply_bound(b: Bitboard, s: GameState, moves: u64, depth: nat)
    ensures
        -64 <= best_reply(b, s, moves, depth) <= 64,
    decreases depth, moves,
{
    lemma_material_bound(b);
    if depth > 0 && moves != 0 {
        lemma_low_bit(moves);
        lemma_minimax_bound(b.after(low_bit(moves)), s.played(), (depth - 1) as nat);
        if without_low(moves) != 0 {
            lemma_best_reply_bound(b, s, without_low(moves), depth);
        }
    }
}

/// Alpha-beta search agrees with plain negamax in every window: the exact
/// value when that value lies inside the window, a bound on the right side
/// of it otherwise.
pub proof fn lemma_ab_agrees(b: Bitboard, s: GameState, alpha: int, beta: int, depth: nat)
    requires
        alpha < beta,
    ensures
        agrees(ab_value(b, s, alpha, beta, depth), minimax(b, s, depth), alpha, beta),
    decreases depth, mask_bound(),
{
    if depth > 0 {
        if b.legal() == 0 {
            if s.last() != MoveType::Pass {
                lemma_ab_agrees(b.passed(), s.passed(), -beta, -alpha, (depth - 1) as nat);
            }
        } else {
            lemma_ab_moves_agrees(b, s, b.legal(), alpha, beta, depth);
        }
    }
}

proof fn lemma_ab_moves_agrees(
    b: Bitboard,
    s: GameState,
    moves: u64,
    alpha: int,
    beta: int,
    depth: nat,
)
    requires
        alpha < beta,
        depth > 0,
        moves != 0,
    ensures
        agrees(ab_moves(b, s, moves, alpha, beta, depth), best_reply(b, s, moves, depth), alpha, beta),
        alpha <= ab_moves(b, s, moves, alpha, beta, depth) <= beta,
    decreases depth, moves,
{
    lemma_low_bit(moves);
    let child = b.after(low_bit(moves));
    lemma_ab_agrees(child, s.played(), -beta, -alpha, (depth - 1) as nat);
    let score = -ab_value(child, s.played(), -beta, -alpha, (depth - 1) as nat);
    let rest = without_low(moves);
    let next = if score > alpha {
        score
    } else {
        alpha
    };
    let c = -minimax(child, s.played(), (depth - 1) as nat);
    assert(ab_moves(b, s, moves, alpha, beta, depth) == if score >= beta {
        beta
    } else {
        ab_moves(b, s, rest, next, beta, depth)
    });
    if rest == 0 {
        assert(best_reply(b, s, moves, depth) == c);
    } else {
        let r = best_reply(b, s, rest, depth);
        assert(best_reply(b, s, moves, depth) == if c >= r {
            c
        } else {
            r
        });
        if score < beta {
            lemma_ab_moves_agrees(b, s, rest, next, beta, depth);
        }
    }
}

/// Pruning changes nothing at the root: the search reports the same move and
/// value as a full-width search without pruning.
pub proof fn lemma_pruning_exact(board: Board, depth: nat)
    ensures
        search_result(board, depth) == minimax_result(board, depth),
{
    let b = board.disks();
    let s = board.state();
    let ms = move_list(b.legal());
    if depth > 0 {
        let pruned = ms.map_values(|m: Move| root_value(b, s, m, depth));
        let full = ms.map_values(|m: Move| root_minimax(b, s, m, depth));
        assert forall|k: int| 0 <= k < ms.len() implies pruned[k] == full[k] by {
            let (c, cs) = match ms[k] {
                Move::Play(i) => (b.after(1u64 << i as u64), s.played()),
                Move::Pass => (b.passed(), s.passed()),
            };
            lemma_minimax_bound(c, cs, (depth - 1) as nat);
            lemma_ab_agrees(c, cs, i32::MIN + 1, i32::MAX as int, (depth - 1) as nat);
        }
        assert(pruned =~= full);
    }
}

/// A position where the side to move has no move right after a pass is over:
/// its value is its material balance, however deep the search was to go.
pub proof fn lemma_terminal(b: Bitboard, s: GameState, alpha: int, beta: int, depth: nat)
    requires
        b.legal() == 0,
        s.last() == MoveType::Pass,
    ensures
        ab_value(b, s, alpha, beta, depth) == b.material(),
{
}

/// Every element of `plays(mask)` places a disk on the board.
proof fn lemma_plays_on_board(mask: u64)
    ensures
        forall|k: int| 0 <= k < plays(mask).len() ==> (#[trigger] plays(mask)[k] matches Move::Play(i) && i < 64),
    decreases mask,
{
    if mask != 0 {
        lemma_low_bit(mask);
        lemma_plays_on_board(without_low(mask));
        let rest = plays(without_low(mask));
        assert forall|k: int| 0 <= k < plays(mask).len() implies (#[trigger] plays(mask)[k] matches Move::Play(i) && i < 64) by {
            if k > 0 {
                assert(plays(mask)[k] == rest[k - 1]);
            }
        }
    }
}

/// The fail-hard alpha-beta search below the root.
fn negamax_impl(bitboard: Bitboard, game_state: GameState, alpha: i32, beta: i32, depth: u8) -> (r: i32)
    requires
        alpha > i32::MIN,
        beta > i32::MIN,
    ensures
        r == ab_value(bitboard, game_state, alpha as int, beta as int, depth as nat),
        r > i32::MIN,
    decreases depth,
{
    if depth == 0 {
        return bitboard.score();
    }
    let all = bitboard.get_moves();
    let mut valid_moves = all;
    if valid_moves == 0 {
        if let MoveType::Pass = game_state.get_last() {
            return bitboard.score();
        }
        return -negamax_impl(bitboard.pass(), game_state.pass(), -beta, -alpha, depth - 1);
    }
    let mut lower = alpha;
    while valid_moves > 0
        invariant
            depth > 0,
            lower > i32::MIN,
            alpha > i32::MIN,
            beta > i32::MIN,
            all == bitboard.legal(),
            all != 0,
            ab_value(bitboard, game_state, alpha as int, beta as int, depth as nat) == ab_moves(
                bitboard,
                game_state,
                valid_moves,
                lower as int,
                beta as int,
                depth as nat,
            ),
        decreases valid_moves,
    {
        let move_mask = extract_lsb(valid_moves);
        proof {
            lemma_low_bit(valid_moves);
        }
        valid_moves &= !move_mask;
        let score = -negamax_impl(
            bitboard.make_move(move_mask),
            game_state.play(),
            -beta,
            -lower,
            depth - 1,
        );
        if score >= beta {
            return beta;
        }
        if score > lower {
            lower = score;
        }
    }
    lower
}

/// Searches `board` `depth` plies deep and returns the best move with its
/// value for the side to move; ties go to the move listed first. Returns
/// nothing at depth zero or when neither side can move. The pruning loses
/// nothing: the result is that of a full-width search.
pub fn negamax(board: &Board, depth: u8) -> (r: Option<(Move, i32)>)
    ensures
        depth == 0 ==> r is None,
        board.disks().legal() == 0 && board.state().last() == MoveType::Pass ==> r is None,
        r is None <==> search_result(*board, depth as nat) is None,
        r matches Some((m, v)) ==> search_result(*board, depth as nat) == Some((m, v as int)),
        r matches Some((m, v)) ==> minimax_result(*board, depth as nat) == Some((m, v as int)),
{
    proof {
        lemma_pruning_exact(*board, depth as nat);
    }
    if depth == 0 {
        return None;
    }
    let moves = board.get_moves();
    let bitboard = board.get_bitboard();
    let game_state = board.get_game_state();
    let ghost ms = moves@;
    let ghost vals = ms.map_values(|m: Move| root_value(bitboard, game_state, m, depth as nat));
    proof {
        lemma_plays_on_board(bitboard.legal());
    }
    let mut best_score = i32::MIN;
    let mut best_move = moves[0];
    let mut i: usize = 0;
    while i < moves.len()
        invariant
            ms == moves@,
            ms == move_list(bitboard.legal()),
            ms.len() >= 1,
            bitboard == board.disks(),
            game_state == board.state(),
            depth > 0,
            i <= ms.len(),
            vals == ms.map_values(|m: Move| root_value(bitboard, game_state, m, depth as nat)),
            forall|k: int| 0 <= k < plays(bitboard.legal()).len() ==> (#[trigger] plays(bitboard.legal())[k] matches Move::Play(j) && j < 64),
            i == 0 ==> best_score == i32::MIN,
            i > 0 && bitboard.legal() == 0 ==> game_state.last() != MoveType::Pass,
            i > 0 ==> (best_move, best_score as int) == best_of(ms.take(i as int), vals.take(i as int)),
        decreases ms.len() - i,
    {
        let mv = moves[i];
        let score = match mv {
            Move::Play(idx) => {
                proof {
                    if bitboard.legal() == 0 {
                        assert(ms[i as int] == Move::Pass);
                    } else {
                        assert(plays(bitboard.legal())[i as int] == mv);
                    }
                }
                let move_mask: u64 = 1u64 << idx;
                -negamax_impl(
                    bitboard.make_move(move_mask),
                    game_state.play(),
                    i32::MIN + 1,
                    i32::MAX,
                    depth - 1,
                )
            },
            Move::Pass => {
                proof {
                    if bitboard.legal() != 0 {
                        assert(plays(bitboard.legal())[i as int] == mv);
                    }
                }
                if let MoveType::Pass = game_state.get_last() {
                    return None;
                }
                -negamax_impl(bitboard.pass(), game_state.pass(), i32::MIN + 1, i32::MAX, depth - 1)
            },
        };
        assert(score == vals[i as int]);
        proof {
            let n = (i + 1) as int;
            assert(ms.take(n).drop_last() =~= ms.take(i as int));
            assert(vals.take(n).take(n - 1) =~= vals.take(i as int));
        }
        if score > best_score {
            best_score = score;
            best_move = mv;
        }
        i = i + 1;
    }
    proof {
        assert(ms.take(ms.len() as int) =~= ms);
        assert(vals.take(ms.len() as int) =~= vals);
    }
    Some((best_move, best_score))
}

} // verus!
