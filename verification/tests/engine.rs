use std::str::FromStr;

use chess_ai::eval::{evaluate, stand_pat};
use chess_ai::model::{
    Difficulty, Move, PieceKind, EXTENSION_BUDGET, INF_SCORE, MATE_SCORE, QUIESCENCE_FUEL,
};
use chess_ai::ordering::order_moves;
use chess_ai::policy::{choose_best_move_ab, root_candidates};
use chess_ai::search::{negamax_ab, quiescence_search};

fn board(fen: &str) -> chess::Board {
    chess::Board::from_str(fen).expect("valid position")
}

fn sq(s: chess::Square) -> u8 {
    s.to_index() as u8
}

fn lib_move(m: chess::ChessMove) -> Move {
    Move {
        from: sq(m.get_source()),
        to: sq(m.get_dest()),
        promotion: m.get_promotion().map(|p| match p {
            chess::Piece::Pawn => PieceKind::Pawn,
            chess::Piece::Knight => PieceKind::Knight,
            chess::Piece::Bishop => PieceKind::Bishop,
            chess::Piece::Rook => PieceKind::Rook,
            chess::Piece::Queen => PieceKind::Queen,
            chess::Piece::King => PieceKind::King,
        }),
    }
}

fn chess_move(m: &Move) -> chess::ChessMove {
    chess::ChessMove::new(
        chess::ALL_SQUARES[m.from as usize],
        chess::ALL_SQUARES[m.to as usize],
        m.promotion.map(|k| match k {
            PieceKind::Pawn => chess::Piece::Pawn,
            PieceKind::Knight => chess::Piece::Knight,
            PieceKind::Bishop => chess::Piece::Bishop,
            PieceKind::Rook => chess::Piece::Rook,
            PieceKind::Queen => chess::Piece::Queen,
            PieceKind::King => chess::Piece::King,
        }),
    )
}

fn legal_vec(b: &chess::Board) -> Vec<Move> {
    chess::MoveGen::new_legal(b).map(lib_move).collect()
}

/// A position in which White has been checkmated (fool's mate).
const MATED_WHITE: &str = "rnb1kbnr/pppp1ppp/8/4p3/6Pq/5P2/PPPPP2P/RNBQKBNR w KQkq - 1 3";

/// A position in which Black, to move, is stalemated.
const STALEMATED_BLACK: &str = "7k/5Q2/6K1/8/8/8/8/8 b - - 0 1";

/// Black to move can capture White's undefended queen on d2.
const HANGING_QUEEN: &str = "k7/8/8/3q4/8/8/3Q4/K7 b - - 0 1";

#[test]
fn evaluate_start_is_zero() {
    assert_eq!(evaluate(&chess::Board::default()), 0);
}

#[test]
fn evaluate_pawn_and_center_and_mobility() {
    // White: pawn d4 (100 material + 20 centre), 4 legal moves (d5, Ka2,
    // Kb1, Kb2); Black: 3 king moves. 120 + 5 * (4 - 3) = 125.
    let b = board("k7/8/8/8/3P4/8/8/K7 w - - 0 1");
    assert_eq!(evaluate(&b), 125);
}

#[test]
fn evaluate_antisymmetric_on_mirrored_position() {
    // The second position is the first with colours exchanged and ranks
    // mirrored, so the evaluations must be exact negations.
    let b1 = board("rnbqkbnr/pppppppp/8/8/4P3/8/PPPP1PPP/RNBQKBNR b KQkq - 0 1");
    let b2 = board("rnbqkbnr/pppp1ppp/8/4p3/8/8/PPPPPPPP/RNBQKBNR w KQkq - 0 1");
    assert_eq!(evaluate(&b1), -evaluate(&b2));
}

#[test]
fn stand_pat_start_is_zero() {
    let b = chess::Board::default();
    assert_eq!(stand_pat(&b, 1), 0);
    assert_eq!(stand_pat(&b, -1), 0);
}

#[test]
fn stand_pat_developed_knight_and_castled_king() {
    // White king g1 (castled file, +20) and knight f3 (off the back rank,
    // +10); Black has only the king on a8.
    let b = board("k7/8/8/8/8/5N2/8/6K1 w - - 0 1");
    assert_eq!(stand_pat(&b, 1), 30);
    assert_eq!(stand_pat(&b, -1), -30);
}

#[test]
fn order_moves_puts_capture_first() {
    // White can capture exd5; every other move is quiet.
    let b = board("k7/8/8/3p4/4P3/8/8/K7 w - - 0 1");
    let moves = legal_vec(&b);
    assert_eq!(moves.len(), 5);
    let ordered = order_moves(&b, &moves);
    assert_eq!(ordered.len(), 5);
    assert_eq!(ordered[0].0.from, sq(chess::Square::E4));
    assert_eq!(ordered[0].0.to, sq(chess::Square::D5));
    assert_eq!(ordered[0].1, -10000);
    for k in 1..ordered.len() {
        assert!(ordered[k - 1].1 <= ordered[k].1);
        assert_eq!(ordered[k].1, 0);
    }
}

#[test]
fn order_moves_prioritizes_checks_over_quiet_moves() {
    // The rook can give check from e8 or a2; those moves sort before the
    // quiet ones and carry the check key.
    let b = board("k7/8/8/8/8/8/4R3/K7 w - - 0 1");
    let moves = legal_vec(&b);
    let ordered = order_moves(&b, &moves);
    let check_move = Move { from: sq(chess::Square::E2), to: sq(chess::Square::E8), promotion: None };
    let quiet_move = Move { from: sq(chess::Square::E2), to: sq(chess::Square::E4), promotion: None };
    let check_key = ordered.iter().find(|e| e.0 == check_move).expect("Re8 is legal").1;
    let quiet_key = ordered.iter().find(|e| e.0 == quiet_move).expect("Re4 is legal").1;
    assert_eq!(check_key, -5000);
    assert_eq!(quiet_key, 0);
    assert!(ordered[0].1 == -5000);
}

#[test]
fn quiescence_stand_pat_beta_cutoff() {
    // The starting position stands pat at 0, at or above any negative beta.
    let b = chess::Board::default();
    let mut nodes = 0u64;
    assert_eq!(quiescence_search(&b, -100, -50, 1, QUIESCENCE_FUEL, &mut nodes), -50);
}

#[test]
fn quiescence_checkmate_is_mate_score() {
    let b = board(MATED_WHITE);
    let mut nodes = 0u64;
    assert_eq!(
        quiescence_search(&b, -INF_SCORE, INF_SCORE, 1, QUIESCENCE_FUEL, &mut nodes),
        -MATE_SCORE
    );
}

#[test]
fn search_checkmate_at_any_depth() {
    // Terminal correctness: a checkmate scores the mate sentinel against
    // the side to move at every depth.
    let b = board(MATED_WHITE);
    for depth in [0u32, 1, 2, 4] {
        let mut nodes = 0u64;
        let v = negamax_ab(
            &b,
            depth,
            EXTENSION_BUDGET,
            -INF_SCORE,
            INF_SCORE,
            1,
            true,
            QUIESCENCE_FUEL,
            &mut nodes,
        );
        assert_eq!(v, -MATE_SCORE);
    }
}

#[test]
fn search_stalemate_is_zero_at_any_depth() {
    let b = board(STALEMATED_BLACK);
    for depth in [0u32, 1, 2, 4] {
        let mut nodes = 0u64;
        let v = negamax_ab(
            &b,
            depth,
            EXTENSION_BUDGET,
            -INF_SCORE,
            INF_SCORE,
            -1,
            true,
            QUIESCENCE_FUEL,
            &mut nodes,
        );
        assert_eq!(v, 0);
    }
}

#[test]
fn deeper_search_never_visits_fewer_nodes() {
    // Depth monotonicity of the node count, from the same position.
    let b = chess::Board::default();
    let mut previous = 0u64;
    for depth in 1u32..=3 {
        let mut nodes = 0u64;
        negamax_ab(
            &b,
            depth,
            EXTENSION_BUDGET,
            -INF_SCORE,
            INF_SCORE,
            1,
            true,
            QUIESCENCE_FUEL,
            &mut nodes,
        );
        assert!(nodes >= previous, "depth {} visited {} nodes, fewer than {}", depth, nodes, previous);
        previous = nodes;
    }
}

#[test]
fn root_candidates_exclude_banned_move() {
    // The reverse of the last played move never reaches the search.
    let b = chess::Board::default();
    let moves = legal_vec(&b);
    assert_eq!(moves.len(), 20);
    let banned = Move { from: sq(chess::Square::G1), to: sq(chess::Square::F3), promotion: None };
    assert!(moves.contains(&banned));
    let cands = root_candidates(&moves, &Some(banned));
    assert_eq!(cands.len(), 19);
    assert!(!cands.contains(&banned));
}

#[test]
fn root_candidates_keep_everything_without_ban() {
    let b = chess::Board::default();
    let moves = legal_vec(&b);
    let cands = root_candidates(&moves, &None);
    assert_eq!(cands, moves);
}

#[test]
fn chosen_move_is_never_the_banned_reverse() {
    let b = chess::Board::default();
    let history = vec![Move { from: sq(chess::Square::F3), to: sq(chess::Square::G1), promotion: None }];
    let banned = Move { from: sq(chess::Square::G1), to: sq(chess::Square::F3), promotion: None };
    let chosen = choose_best_move_ab(&b, &history, 2, Difficulty::Medium, 10_000);
    let m = chosen.expect("a move must be found");
    assert_ne!(m, banned);
    assert!(b.legal(chess_move(&m)));
}

#[test]
fn no_candidate_left_returns_none() {
    // White's only legal move is Ka1-a2; with exactly that move banned the
    // candidate set is empty and the engine reports no move.
    let b = board("8/8/8/8/8/8/2k5/K7 w - - 0 1");
    assert_eq!(legal_vec(&b).len(), 1);
    let history = vec![Move { from: sq(chess::Square::A2), to: sq(chess::Square::A1), promotion: None }];
    let chosen = choose_best_move_ab(&b, &history, 3, Difficulty::Medium, 10_000);
    assert_eq!(chosen, None);
}

#[test]
fn opening_move_at_depth_three() {
    // Starting board, depth 3, Medium, empty history: a legal White move.
    let b = chess::Board::default();
    let history: Vec<Move> = Vec::new();
    let chosen = choose_best_move_ab(&b, &history, 3, Difficulty::Medium, 30_000);
    let m = chosen.expect("the starting position has moves");
    assert!(b.legal(chess_move(&m)));
}

#[test]
fn tiny_time_budget_still_returns_a_move() {
    // A deep request under a 1 ms budget stops after the first finished
    // root candidate and still hands back a legal move.
    let b = chess::Board::default();
    let history: Vec<Move> = Vec::new();
    let started = std::time::Instant::now();
    let chosen = choose_best_move_ab(&b, &history, 4, Difficulty::Medium, 1);
    let m = chosen.expect("the starting position has moves");
    assert!(b.legal(chess_move(&m)));
    assert!(started.elapsed().as_secs() < 15);
}

#[test]
fn easy_difficulty_returns_a_candidate() {
    let b = chess::Board::default();
    let history: Vec<Move> = Vec::new();
    for _ in 0..10 {
        let m = choose_best_move_ab(&b, &history, 3, Difficulty::Easy, 10_000)
            .expect("the starting position has moves");
        assert!(b.legal(chess_move(&m)));
    }
}

#[test]
fn black_takes_the_hanging_queen() {
    // Black to move captures the undefended queen at depth two and deeper.
    let b = board(HANGING_QUEEN);
    let capture = Move { from: sq(chess::Square::D5), to: sq(chess::Square::D2), promotion: None };
    let history: Vec<Move> = Vec::new();
    for base_depth in [2u32, 3] {
        let m = choose_best_move_ab(&b, &history, base_depth, Difficulty::Medium, 30_000)
            .expect("a move must be found");
        assert_eq!(m, capture, "at depth {}", base_depth);
    }
}

#[test]
fn reversed_swaps_squares_and_keeps_promotion() {
    let m = Move { from: 8, to: 0, promotion: Some(PieceKind::Queen) };
    let r = m.reversed();
    assert_eq!(r, Move { from: 0, to: 8, promotion: Some(PieceKind::Queen) });
}

#[test]
fn moves_equal_compares_all_fields() {
    let a = Move { from: 8, to: 16, promotion: None };
    let b = Move { from: 8, to: 16, promotion: Some(PieceKind::Knight) };
    assert!(chess_ai::model::moves_equal(&a, &a));
    assert!(!chess_ai::model::moves_equal(&a, &b));
}
