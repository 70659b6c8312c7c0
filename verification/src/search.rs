//! The negamax / alpha-beta search core.
//!
//! `negamax_ab` explores the game tree to a bounded depth, extending
//! tactically significant plies (captures, promotions, checks) out of a
//! separate extension budget, and prunes with an `(alpha, beta)` window.
//! At the horizon it either evaluates statically or runs `quiescence_search`,
//! which follows only captures and promotions until a bounded fuel runs out,
//! so that an exchange in flight is not misjudged. Both functions return
//! exactly the value of their specification-level twins `spec_negamax` and
//! `spec_quiesce`, which pin the whole algorithm — terminal scoring, move
//! order, extension policy, window updates and cutoffs — over the rules
//! provider's answers.

use vstd::prelude::*;
use crate::model::{GameStatus, Move, Occupant, INF_SCORE, MATE_SCORE};
use crate::eval::{dev_sum, evaluate, spec_evaluate, stand_pat};
use crate::ordering::{is_tactical_key, lemma_ordered_elements, order_moves, spec_ordered};
use crate::rules::{
    apply_move, board_status, child_of, legal_moves, moves_of, read_squares, squares_of, status_of,
};

verus! {

/// A move that lands on an occupied square or promotes: the only moves the
/// quiescence search follows.
pub open spec fn spec_is_noisy(b: chess::Board, m: Move) -> bool {
    squares_of(b)[m.to as int] is Some || m.promotion is Some
}

/// The noisy moves among the first `n` legal moves of `b`, in order.
pub open spec fn noisy_prefix(b: chess::Board, n: int) -> Seq<Move>
    decreases n,
{
    if n <= 0 {
        Seq::empty()
    } else {
        noisy_prefix(b, n - 1) + if spec_is_noisy(b, moves_of(b)[n - 1]) {
            seq![moves_of(b)[n - 1]]
        } else {
            Seq::empty()
        }
    }
}

/// All noisy legal moves of `b`, in enumeration order.
pub open spec fn spec_noisy(b: chess::Board) -> Seq<Move> {
    noisy_prefix(b, moves_of(b).len() as int)
}

/// The value the quiescence search assigns to `b`, seen from the side whose
/// sign is `color`, within the window `(alpha, beta)`. Checkmate is
/// catastrophic for the mover; any draw is zero. Otherwise the stand-pat
/// score may already refute the position (`beta`), else it raises `alpha`,
/// and the noisy moves are searched best-first while `fuel` lasts.
pub open spec fn spec_quiesce(b: chess::Board, alpha: int, beta: int, color: int, fuel: nat) -> int
    decreases fuel, 1int, 0int,
{
    if status_of(b) == GameStatus::Checkmate {
        -color * (MATE_SCORE as int)
    } else if status_of(b) != GameStatus::Ongoing {
        0
    } else {
        let sp = color * dev_sum(squares_of(b), 64);
        if sp >= beta {
            beta as int
        } else {
            let raised = if alpha < sp {
                sp
            } else {
                alpha
            };
            if fuel == 0 {
                raised
            } else {
                spec_qloop(b, spec_ordered(b, spec_noisy(b)), 0, raised, beta, color, fuel)
            }
        }
    }
}

/// The quiescence loop over the ordered noisy moves `ord` of `b`, from index
/// `i` on: each child is searched with the negated, swapped window and one
/// unit less fuel; a child score at or above `beta` cuts off, a better one
/// raises `alpha`, and the raised `alpha` is the result.
pub open spec fn spec_qloop(
    b: chess::Board,
    ord: Seq<(Move, i32)>,
    i: int,
    alpha: int,
    beta: int,
    color: int,
    fuel: nat,
) -> int
    decreases fuel, 0int, ord.len() - i,
{
    if fuel == 0 || i < 0 || i >= ord.len() {
        alpha
    } else {
        let s = -spec_quiesce(child_of(b, ord[i].0), -beta, -alpha, -color, (fuel - 1) as nat);
        if s >= beta {
            beta as int
        } else {
            let raised = if s > alpha {
                s
            } else {
                alpha
            };
            spec_qloop(b, ord, i + 1, raised, beta, color, fuel)
        }
    }
}

/// The value `negamax_ab` assigns to `b` from the perspective of the side
/// whose sign is `color`. Terminal positions score immediately; at depth
/// zero the quiescence value (or the static evaluation) is taken with the
/// mover's sign; otherwise the legal moves are searched best-first.
pub open spec fn spec_negamax(
    b: chess::Board,
    depth: nat,
    ext: nat,
    alpha: int,
    beta: int,
    color: int,
    use_quiescence: bool,
    qfuel: nat,
) -> int
    decreases depth + ext, 1int, 0int,
{
    if status_of(b) == GameStatus::Checkmate {
        -color * (MATE_SCORE as int)
    } else if status_of(b) != GameStatus::Ongoing {
        0
    } else if depth == 0 {
        if use_quiescence {
            color * spec_quiesce(b, alpha, beta, color, qfuel)
        } else {
            color * spec_evaluate(b)
        }
    } else {
        spec_nloop(
            b,
            spec_ordered(b, moves_of(b)),
            0,
            depth,
            ext,
            alpha,
            beta,
            -(INF_SCORE as int),
            color,
            use_quiescence,
            qfuel,
        )
    }
}

/// The search loop over the ordered moves `ord` of `b`, from index `i` on,
/// folding the running window `alpha` and the running best score. A
/// tactically significant move (negative key) spends one unit of the
/// extension budget instead of one unit of depth, so the child ply is one
/// deeper than it would be. When `alpha` reaches `beta` the remaining
/// moves are pruned and the best score so far is the result.
pub open spec fn spec_nloop(
    b: chess::Board,
    ord: Seq<(Move, i32)>,
    i: int,
    depth: nat,
    ext: nat,
    alpha: int,
    beta: int,
    best: int,
    color: int,
    use_quiescence: bool,
    qfuel: nat,
) -> int
    decreases depth + ext, 0int, ord.len() - i,
{
    if depth == 0 || i < 0 || i >= ord.len() {
        best
    } else {
        let extended = is_tactical_key(ord[i].1) && ext > 0;
        let d2 = if extended {
            depth
        } else {
            (depth - 1) as nat
        };
        let e2 = if extended {
            (ext - 1) as nat
        } else {
            ext
        };
        let s = -spec_negamax(
            child_of(b, ord[i].0),
            d2,
            e2,
            -beta,
            -alpha,
            -color,
            use_quiescence,
            qfuel,
        );
        let best2 = if s > best {
            s
        } else {
            best
        };
        let raised = if s > alpha {
            s
        } else {
            alpha
        };
        if raised >= beta {
            best2
        } else {
            spec_nloop(b, ord, i + 1, depth, ext, raised, beta, best2, color, use_quiescence, qfuel)
        }
    }
}

/// Law: terminal correctness. On a checkmate the search returns the mate
/// sentinel with the sign that makes it the worst possible outcome for the
/// side to move, at every depth, extension budget and window; on a
/// stalemate or any other draw it returns exactly zero.
pub proof fn lemma_terminal_correctness(
    b: chess::Board,
    depth: nat,
    ext: nat,
    alpha: int,
    beta: int,
    color: int,
    use_quiescence: bool,
    qfuel: nat,
)
    ensures
        status_of(b) == GameStatus::Checkmate ==> spec_negamax(
            b,
            depth,
            ext,
            alpha,
            beta,
            color,
            use_quiescence,
            qfuel,
        ) == -color * (MATE_SCORE as int),
        status_of(b) == GameStatus::Stalemate || status_of(b) == GameStatus::OtherDraw
            ==> spec_negamax(b, depth, ext, alpha, beta, color, use_quiescence, qfuel) == 0,
        status_of(b) == GameStatus::Checkmate ==> spec_quiesce(b, alpha, beta, color, qfuel)
            == -color * (MATE_SCORE as int),
        status_of(b) == GameStatus::Stalemate || status_of(b) == GameStatus::OtherDraw
            ==> spec_quiesce(b, alpha, beta, color, qfuel) == 0,
{
}

/// Counts one visited node, saturating rather than wrapping.
fn count_node(nodes: &mut u64)
    ensures
        *final(nodes) >= *old(nodes),
{
    if *nodes < u64::MAX {
        *nodes = *nodes + 1;
    }
}

/// The noisy moves of `board`, filtered out of its full legal move list.
fn noisy_candidates(board: &chess::Board, moves: &Vec<Move>, sqs: &Vec<Option<Occupant>>) -> (r:
    Vec<Move>)
    requires
        moves@ == moves_of(*board),
        forall|i: int| 0 <= i < moves@.len() ==> (#[trigger] moves@[i]).wf(),
        sqs@ == squares_of(*board),
        sqs@.len() == 64,
    ensures
        r@ == spec_noisy(*board),
        forall|i: int| 0 <= i < r@.len() ==> moves_of(*board).contains(#[trigger] r@[i])
            && r@[i].wf(),
{
    let mut r: Vec<Move> = Vec::new();
    let mut i: usize = 0;
    while i < moves.len()
        invariant
            0 <= i <= moves@.len(),
            moves@ == moves_of(*board),
            forall|k: int| 0 <= k < moves@.len() ==> (#[trigger] moves@[k]).wf(),
            sqs@ == squares_of(*board),
            sqs@.len() == 64,
            r@ == noisy_prefix(*board, i as int),
            forall|k: int| 0 <= k < r@.len() ==> moves_of(*board).contains(#[trigger] r@[k])
                && r@[k].wf(),
        decreases moves@.len() - i,
    {
        let m = moves[i];
        if sqs[m.to as usize].is_some() || m.promotion.is_some() {
            r.push(m);
            proof {
                assert(moves_of(*board)[i as int] == m);
                assert(r@ =~= noisy_prefix(*board, i as int) + seq![m]);
            }
        } else {
            proof {
                assert(r@ =~= noisy_prefix(*board, i as int) + Seq::<Move>::empty());
            }
        }
        i = i + 1;
    }
    r
}

/// The quiescence search: resolves only captures and promotions, starting
/// from the stand-pat baseline, inside the window `(alpha, beta)` and for at
/// most `fuel` plies. Returns exactly `spec_quiesce` of its arguments and
/// only ever adds to the node counter.
pub fn quiescence_search(
    board: &chess::Board,
    alpha: i32,
    beta: i32,
    color: i32,
    fuel: u32,
    nodes: &mut u64,
) -> (r: i32)
    requires
        color == 1 || color == -1,
        -INF_SCORE <= alpha < beta <= INF_SCORE,
    ensures
        r as int == spec_quiesce(*board, alpha as int, beta as int, color as int, fuel as nat),
        -INF_SCORE <= r <= INF_SCORE,
        *final(nodes) >= *old(nodes),
    decreases fuel,
{
    count_node(nodes);
    match board_status(board) {
        GameStatus::Checkmate => if color == 1 {
            -MATE_SCORE
        } else {
            MATE_SCORE
        },
        GameStatus::Stalemate => 0,
        GameStatus::OtherDraw => 0,
        GameStatus::Ongoing => {
            let sp = stand_pat(board, color);
            if sp >= beta {
                return beta;
            }
            let mut a = if alpha < sp {
                sp
            } else {
                alpha
            };
            if fuel == 0 {
                return a;
            }
            let moves = legal_moves(board);
            let sqs = read_squares(board);
            let noisy = noisy_candidates(board, &moves, &sqs);
            let ord = order_moves(board, &noisy);
            let ghost osp = spec_ordered(*board, spec_noisy(*board));
            proof {
                lemma_ordered_elements(*board, spec_noisy(*board));
                assert(spec_quiesce(*board, alpha as int, beta as int, color as int, fuel as nat)
                    == spec_qloop(
                    *board,
                    osp,
                    0,
                    a as int,
                    beta as int,
                    color as int,
                    fuel as nat,
                ));
            }
            let mut i: usize = 0;
            while i < ord.len()
                invariant
                    0 <= i <= ord@.len(),
                    ord@ == osp,
                    osp == spec_ordered(*board, spec_noisy(*board)),
                    color == 1 || color == -1,
                    fuel >= 1,
                    -INF_SCORE <= a < beta <= INF_SCORE,
                    forall|k: int| 0 <= k < spec_noisy(*board).len() ==> moves_of(
                        *board,
                    ).contains(#[trigger] spec_noisy(*board)[k]),
                    spec_quiesce(*board, alpha as int, beta as int, color as int, fuel as nat)
                        == spec_qloop(
                        *board,
                        osp,
                        i as int,
                        a as int,
                        beta as int,
                        color as int,
                        fuel as nat,
                    ),
                    *nodes >= *old(nodes),
                decreases ord@.len() - i,
            {
                proof {
                    lemma_ordered_elements(*board, spec_noisy(*board));
                    assert(spec_noisy(*board).contains(osp[i as int].0));
                    assert(moves_of(*board).contains(osp[i as int].0));
                }
                let (m, _key) = ord[i];
                let chl = apply_move(board, &m);
                let v = quiescence_search(&chl, -beta, -a, -color, fuel - 1, nodes);
                let s = -v;
                if s >= beta {
                    return beta;
                }
                if s > a {
                    a = s;
                }
                i = i + 1;
            }
            a
        },
    }
}

/// The alpha-beta negamax search of `board`, `depth` plies deep with an
/// extension budget of `ext` tactical plies, inside the window
/// `(alpha, beta)`, from the perspective of the side whose sign is `color`.
/// At the horizon it takes the quiescence value when `use_quiescence` is
/// set, else the static evaluation, with the mover's sign. Returns exactly
/// `spec_negamax` of its arguments and only ever adds to the node counter.
pub fn negamax_ab(
    board: &chess::Board,
    depth: u32,
    ext: u32,
    alpha: i32,
    beta: i32,
    color: i32,
    use_quiescence: bool,
    qfuel: u32,
    nodes: &mut u64,
) -> (r: i32)
    requires
        color == 1 || color == -1,
        -INF_SCORE <= alpha < beta <= INF_SCORE,
    ensures
        r as int == spec_negamax(
            *board,
            depth as nat,
            ext as nat,
            alpha as int,
            beta as int,
            color as int,
            use_quiescence,
            qfuel as nat,
        ),
        -INF_SCORE <= r <= INF_SCORE,
        *final(nodes) >= *old(nodes),
    decreases depth + ext,
{
    count_node(nodes);
    match board_status(board) {
        GameStatus::Checkmate => if color == 1 {
            -MATE_SCORE
        } else {
            MATE_SCORE
        },
        GameStatus::Stalemate => 0,
        GameStatus::OtherDraw => 0,
        GameStatus::Ongoing => {
            if depth == 0 {
                if use_quiescence {
                    let v = quiescence_search(board, alpha, beta, color, qfuel, nodes);
                    if color == 1 {
                        v
                    } else {
                        -v
                    }
                } else {
                    let v = evaluate(board);
                    if color == 1 {
                        v
                    } else {
                        -v
                    }
                }
            } else {
                let moves = legal_moves(board);
                let ord = order_moves(board, &moves);
                let ghost osp = spec_ordered(*board, moves_of(*board));
                proof {
                    lemma_ordered_elements(*board, moves_of(*board));
                    assert(spec_negamax(
                        *board,
                        depth as nat,
                        ext as nat,
                        alpha as int,
                        beta as int,
                        color as int,
                        use_quiescence,
                        qfuel as nat,
                    ) == spec_nloop(
                        *board,
                        osp,
                        0,
                        depth as nat,
                        ext as nat,
                        alpha as int,
                        beta as int,
                        -(INF_SCORE as int),
                        color as int,
                        use_quiescence,
                        qfuel as nat,
                    ));
                }
                let mut best: i32 = -INF_SCORE;
                let mut a = alpha;
                let mut i: usize = 0;
                while i < ord.len()
                    invariant
                        0 <= i <= ord@.len(),
                        ord@ == osp,
                        osp == spec_ordered(*board, moves_of(*board)),
                        color == 1 || color == -1,
                        depth >= 1,
                        -INF_SCORE <= a < beta <= INF_SCORE,
                        -INF_SCORE <= best <= INF_SCORE,
                        a >= alpha,
                        spec_negamax(
                            *board,
                            depth as nat,
                            ext as nat,
                            alpha as int,
                            beta as int,
                            color as int,
                            use_quiescence,
                            qfuel as nat,
                        ) == spec_nloop(
                            *board,
                            osp,
                            i as int,
                            depth as nat,
                            ext as nat,
                            a as int,
                            beta as int,
                            best as int,
                            color as int,
                            use_quiescence,
                            qfuel as nat,
                        ),
                        *nodes >= *old(nodes),
                    decreases ord@.len() - i,
                {
                    proof {
                        lemma_ordered_elements(*board, moves_of(*board));
                        assert(moves_of(*board).contains(osp[i as int].0));
                    }
                    let (m, key) = ord[i];
                    let extended = key < 0 && ext > 0;
                    let d2 = if extended {
                        depth
                    } else {
                        depth - 1
                    };
                    let e2 = if extended {
                        ext - 1
                    } else {
                        ext
                    };
                    let chl = apply_move(board, &m);
                    let v = negamax_ab(
                        &chl,
                        d2,
                        e2,
                        -beta,
                        -a,
                        -color,
                        use_quiescence,
                        qfuel,
                        nodes,
                    );
                    let s = -v;
                    if s > best {
                        best = s;
                    }
                    if s > a {
                        a = s;
                    }
                    if a >= beta {
                        return best;
                    }
                    i = i + 1;
                }
                best
            }
        },
    }
}

} // verus!
