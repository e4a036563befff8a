use runelore::bitboard::count_ones;
use runelore::{extract_lsb, negamax, perft};
use runelore::{Bitboard, Board, GameState, InvalidMoveError, Move, MoveType, Side};

fn lowest(x: u64) -> u64 {
    x & x.wrapping_neg()
}

/// The board after `plies` moves, each the first one listed.
fn first_moves(plies: usize) -> Board {
    let mut board = Board::default();
    for _ in 0..plies {
        let m = board.get_moves()[0];
        board.play(m).unwrap();
    }
    board
}

fn is_over(board: &Board) -> bool {
    board.get_moves()[0] == Move::Pass && board.get_game_state().get_last() == MoveType::Pass
}

/// The number of plies of the game in which every move is the first listed.
fn first_move_game_length() -> usize {
    let mut board = Board::default();
    let mut plies = 0;
    while !is_over(&board) {
        let m = board.get_moves()[0];
        board.play(m).unwrap();
        plies += 1;
    }
    plies
}

fn full_width(b: Bitboard, s: GameState, depth: u8) -> i32 {
    if depth == 0 {
        return b.score();
    }
    let mut moves = b.get_moves();
    if moves == 0 {
        if s.get_last() == MoveType::Pass {
            return b.score();
        }
        return -full_width(b.pass(), s.pass(), depth - 1);
    }
    let mut best = i32::MIN;
    while moves != 0 {
        let m = lowest(moves);
        moves &= !m;
        let v = -full_width(b.make_move(m), s.play(), depth - 1);
        if v > best {
            best = v;
        }
    }
    best
}

fn full_width_root(board: &Board, depth: u8) -> Option<(Move, i32)> {
    let b = board.get_bitboard();
    let s = board.get_game_state();
    let moves = board.get_moves();
    if depth == 0 || (moves[0] == Move::Pass && s.get_last() == MoveType::Pass) {
        return None;
    }
    let mut best: Option<(Move, i32)> = None;
    for m in moves {
        let v = match m {
            Move::Play(i) => -full_width(b.make_move(1u64 << i), s.play(), depth - 1),
            Move::Pass => -full_width(b.pass(), s.pass(), depth - 1),
        };
        match best {
            Some((_, bv)) if v <= bv => {}
            _ => best = Some((m, v)),
        }
    }
    best
}

#[test]
fn opening_has_four_moves() {
    let b = Bitboard::default();
    let moves = b.get_moves();
    assert_eq!(moves.count_ones(), 4);
    assert_eq!(moves, 0x0000102004080000);
}

#[test]
fn opening_score_is_zero() {
    assert_eq!(Bitboard::default().score(), 0);
}

#[test]
fn opening_masks() {
    let b = Bitboard::default();
    assert_eq!(b.get_me(), 0x0000000810000000);
    assert_eq!(b.get_op(), 0x0000001008000000);
    assert_eq!(b.empties(), !0x0000001818000000u64);
}

#[test]
fn double_pass_is_identity() {
    let b = Bitboard::default();
    let c = b.pass();
    assert_eq!(c.get_me(), b.get_op());
    assert_eq!(c.get_op(), b.get_me());
    let d = c.pass();
    assert_eq!(d.get_me(), b.get_me());
    assert_eq!(d.get_op(), b.get_op());
    let e = b.make_move(1u64 << 19);
    let f = e.pass().pass();
    assert_eq!(f.get_me(), e.get_me());
    assert_eq!(f.get_op(), e.get_op());
}

#[test]
fn make_move_flips_and_swaps() {
    let b = Bitboard::default().make_move(1u64 << 19);
    assert_eq!(b.get_me(), 0x0000001000000000);
    assert_eq!(b.get_op(), 0x0000000818080000);
    assert_eq!(b.score(), -3);
}

#[test]
fn make_move_on_each_opening_square() {
    let b = Bitboard::default();
    for sq in [19u64, 26, 37, 44] {
        let after = b.make_move(1u64 << sq);
        assert_eq!(count_ones(after.get_op()), 4);
        assert_eq!(count_ones(after.get_me()), 1);
        assert_eq!(after.get_op() & (1u64 << sq), 1u64 << sq);
    }
}

#[test]
fn no_square_held_twice() {
    let mut board = Board::default();
    while !is_over(&board) {
        let bb = board.get_bitboard();
        assert_eq!(bb.get_me() & bb.get_op(), 0);
        let m = board.get_moves()[0];
        board.play(m).unwrap();
    }
    let mut b = Bitboard::default();
    let mut s = GameState::default();
    for round in 0..60u64 {
        let moves = b.get_moves();
        if moves == 0 {
            b = b.pass();
            s = s.pass();
        } else {
            let mut m = moves;
            for _ in 0..(round % count_ones(moves) as u64) {
                m &= !lowest(m);
            }
            b = b.make_move(lowest(m));
            s = s.play();
        }
        assert_eq!(b.get_me() & b.get_op(), 0);
    }
}

#[test]
fn perft_reference_counts() {
    assert_eq!(perft(0), Some(1));
    assert_eq!(perft(1), Some(4));
    assert_eq!(perft(2), Some(12));
    assert_eq!(perft(3), Some(56));
    assert_eq!(perft(4), Some(244));
    assert_eq!(perft(5), Some(1396));
    assert_eq!(perft(6), Some(8200));
    assert_eq!(perft(7), Some(55092));
}

#[test]
fn negamax_depth_zero_is_none() {
    let board = Board::default();
    assert_eq!(negamax(&board, 0), None);
    let mut later = Board::default();
    later.play(Move::Play(19)).unwrap();
    assert_eq!(negamax(&later, 0), None);
}

#[test]
fn negamax_depth_one_from_opening() {
    let board = Board::default();
    assert_eq!(negamax(&board, 1), Some((Move::Play(19), 3)));
}

#[test]
fn negamax_matches_full_width() {
    let mut board = Board::default();
    for ply in 0..6 {
        for depth in 1..=4u8 {
            assert_eq!(negamax(&board, depth), full_width_root(&board, depth));
        }
        let moves = board.get_moves();
        let m = moves[ply % moves.len()];
        board.play(m).unwrap();
    }
}

#[test]
fn negamax_at_game_end_is_none() {
    let last = first_moves(first_move_game_length());
    assert_eq!(last.get_moves(), vec![Move::Pass]);
    assert_eq!(last.get_game_state().get_last(), MoveType::Pass);
    for depth in 1..=5u8 {
        assert_eq!(negamax(&last, depth), None);
    }
}

#[test]
fn extract_lsb_values() {
    assert_eq!(extract_lsb(0), 0);
    assert_eq!(extract_lsb(0b1100), 0b100);
    assert_eq!(extract_lsb(1u64 << 63), 1u64 << 63);
    assert_eq!(extract_lsb(u64::MAX), 1);
}

#[test]
fn count_ones_values() {
    assert_eq!(count_ones(0), 0);
    assert_eq!(count_ones(u64::MAX), 64);
    assert_eq!(count_ones(0x0000102004080000), 4);
}

#[test]
fn board_lists_moves_in_order() {
    let board = Board::default();
    assert_eq!(
        board.get_moves(),
        vec![Move::Play(19), Move::Play(26), Move::Play(37), Move::Play(44)]
    );
}

#[test]
fn board_rejects_illegal_moves() {
    let mut board = Board::default();
    assert_eq!(board.play(Move::Play(0)), Err(InvalidMoveError));
    assert_eq!(board.play(Move::Play(64)), Err(InvalidMoveError));
    assert_eq!(board.play(Move::Pass), Err(InvalidMoveError));
    assert_eq!(board.get_bitboard().get_me(), 0x0000000810000000);
    assert_eq!(board.get_game_state().get_side(), Side::Black);
    assert_eq!(board.play(Move::Play(19)), Ok(()));
    assert_eq!(board.get_game_state().get_side(), Side::White);
    assert_eq!(board.get_game_state().get_last(), MoveType::Play);
    assert_eq!(board.get_bitboard().get_me(), 0x0000001000000000);
}

#[test]
fn board_pass_when_forced() {
    // The game ends with two passes: the ply before the end is a forced pass.
    let n = first_move_game_length();
    let mut before = first_moves(n - 1);
    assert_eq!(before.get_moves(), vec![Move::Pass]);
    assert_eq!(before.play(Move::Play(0)), Err(InvalidMoveError));
    assert_eq!(before.play(Move::Pass), Ok(()));
    assert_eq!(before.get_game_state().get_last(), MoveType::Pass);
    assert!(is_over(&before));
}

#[test]
fn game_state_transitions() {
    let s = GameState::default();
    assert_eq!(s.get_side(), Side::Black);
    assert_eq!(s.get_last(), MoveType::Play);
    let p = s.pass();
    assert_eq!(p.get_side(), Side::White);
    assert_eq!(p.get_last(), MoveType::Pass);
    let q = p.play();
    assert_eq!(q.get_side(), Side::Black);
    assert_eq!(q.get_last(), MoveType::Play);
    assert_eq!(Side::Black.flip(), Side::White);
}

const DIRECTIONS: [(i32, i32); 8] = [(-1, -1), (-1, 0), (-1, 1), (0, -1), (0, 1), (1, -1), (1, 0), (1, 1)];

fn at(x: u64, r: i32, c: i32) -> bool {
    (x >> (r * 8 + c)) & 1 == 1
}

fn on_board(r: i32, c: i32) -> bool {
    (0..8).contains(&r) && (0..8).contains(&c)
}

/// The squares flipped along one direction by playing (r, c), square by square.
fn run_flips(me: u64, op: u64, r: i32, c: i32, dr: i32, dc: i32) -> u64 {
    let mut run = 0u64;
    let (mut y, mut x) = (r + dr, c + dc);
    while on_board(y, x) && at(op, y, x) {
        run |= 1u64 << (y * 8 + x);
        y += dr;
        x += dc;
    }
    if run != 0 && on_board(y, x) && at(me, y, x) {
        run
    } else {
        0
    }
}

fn square_moves(me: u64, op: u64) -> u64 {
    let mut moves = 0u64;
    for r in 0..8 {
        for c in 0..8 {
            if at(me | op, r, c) {
                continue;
            }
            if DIRECTIONS.iter().any(|&(dr, dc)| run_flips(me, op, r, c, dr, dc) != 0) {
                moves |= 1u64 << (r * 8 + c);
            }
        }
    }
    moves
}

#[test]
fn moves_and_flips_match_square_rules() {
    for seed in 0..20u64 {
        let mut b = Bitboard::default();
        let mut s = GameState::default();
        let mut choice = seed;
        loop {
            let moves = b.get_moves();
            assert_eq!(moves, square_moves(b.get_me(), b.get_op()));
            if moves == 0 {
                if s.get_last() == MoveType::Pass {
                    break;
                }
                b = b.pass();
                s = s.pass();
                continue;
            }
            choice = choice.wrapping_mul(6364136223846793005).wrapping_add(1442695040888963407);
            let mut m = moves;
            for _ in 0..((choice >> 33) % count_ones(moves) as u64) {
                m &= !lowest(m);
            }
            let m = lowest(m);
            let sq = m.trailing_zeros() as i32;
            let mut flipped = 0u64;
            for &(dr, dc) in DIRECTIONS.iter() {
                flipped |= run_flips(b.get_me(), b.get_op(), sq / 8, sq % 8, dr, dc);
            }
            let after = b.make_move(m);
            assert_eq!(after.get_op(), b.get_me() | flipped | m);
            assert_eq!(after.get_me(), b.get_op() & !flipped);
            b = after;
            s = s.play();
        }
        assert_eq!(b.get_me() & b.get_op(), 0);
    }
}
