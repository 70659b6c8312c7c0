//! Pruning must not change the chosen move: on a fixed position and depth,
//! the alpha-beta search picks the same root move as an unpruned full-width
//! minimax over the same tree — same move order, same extension policy, and
//! the static evaluation at the horizon, which does not depend on the
//! search window.

use std::str::FromStr;

use chess_ai::eval::evaluate;
use chess_ai::model::{Move, EXTENSION_BUDGET, INF_SCORE, MATE_SCORE};
use chess_ai::ordering::order_moves;
use chess_ai::search::negamax_ab;

fn lib_move(m: chess::ChessMove) -> Move {
    Move {
        from: m.get_source().to_index() as u8,
        to: m.get_dest().to_index() as u8,
        promotion: None,
    }
}

fn board_move(m: &Move) -> chess::ChessMove {
    chess::ChessMove::new(
        chess::ALL_SQUARES[(m.from & 63) as usize],
        chess::ALL_SQUARES[(m.to & 63) as usize],
        None,
    )
}

/// Full-width negamax without any pruning: every move of every node is
/// searched, with the engine's extension policy and the engine's static
/// evaluation at the horizon.
fn full_minimax(b: &chess::Board, depth: u32, ext: u32, color: i32) -> i32 {
    match b.status() {
        chess::BoardStatus::Checkmate => -color * MATE_SCORE,
        chess::BoardStatus::Stalemate => 0,
        chess::BoardStatus::Ongoing => {
            if depth == 0 {
                let v = evaluate(b);
                if color == 1 {
                    v
                } else {
                    -v
                }
            } else {
                let mut best: i32 = -INF_SCORE;
                for m in chess::MoveGen::new_legal(b) {
                    let tactical = b.piece_on(m.get_dest()).is_some()
                        || m.get_promotion().is_some()
                        || b.make_move_new(m).checkers().popcnt() > 0;
                    let (d2, e2) = if tactical && ext > 0 {
                        (depth, ext - 1)
                    } else {
                        (depth - 1, ext)
                    };
                    let s = -full_minimax(&b.make_move_new(m), d2, e2, -color);
                    if s > best {
                        best = s;
                    }
                }
                best
            }
        }
    }
}

/// Picks the root move by folding `score` over the engine's own move order
/// with the engine's tie-breaking: strictly greater wins, first seen stays.
fn pick_root<F: FnMut(&chess::Board, Move, i32) -> i32>(
    b: &chess::Board,
    mut score: F,
) -> (Move, i32) {
    let moves: Vec<Move> = chess::MoveGen::new_legal(b).map(lib_move).collect();
    let ordered = order_moves(b, &moves);
    let mut best_score: i32 = i32::MIN;
    let mut best_move = None;
    for &(m, key) in &ordered {
        let s = score(b, m, key);
        if s > best_score {
            best_score = s;
            best_move = Some(m);
        }
    }
    (best_move.expect("position has moves"), best_score)
}

#[test]
fn pruned_and_unpruned_choose_the_same_move() {
    let b = chess::Board::from_str("k7/8/8/3q4/8/8/3Q4/K7 b - - 0 1").expect("valid position");
    let color: i32 = -1;
    for effective_depth in [2u32, 3] {
        let (pruned_move, pruned_score) = pick_root(&b, |b, m, key| {
            let (d2, e2) = if key < 0 {
                (effective_depth, EXTENSION_BUDGET - 1)
            } else {
                (effective_depth - 1, EXTENSION_BUDGET)
            };
            let child = b.make_move_new(board_move(&m));
            let mut nodes = 0u64;
            -negamax_ab(&child, d2, e2, -INF_SCORE, INF_SCORE, -color, false, 0, &mut nodes)
        });
        let (unpruned_move, unpruned_score) = pick_root(&b, |b, m, key| {
            let (d2, e2) = if key < 0 {
                (effective_depth, EXTENSION_BUDGET - 1)
            } else {
                (effective_depth - 1, EXTENSION_BUDGET)
            };
            let child = b.make_move_new(board_move(&m));
            -full_minimax(&child, d2, e2, -color)
        });
        assert_eq!(pruned_move, unpruned_move, "at depth {}", effective_depth);
        assert_eq!(pruned_score, unpruned_score, "at depth {}", effective_depth);
    }
}
