//! The difficulty and time policy: the root driver of the search.
//!
//! `choose_best_move_ab` turns a difficulty setting, a base depth, a time
//! budget and a repetition-avoidance constraint into concrete search calls
//! and picks the root move. The banned move — the exact reverse of the last
//! played move — is filtered out of the root candidates; Easy play mostly
//! short-circuits to a random candidate; the wall-clock deadline is polled
//! after each finished root candidate, so a started subtree always runs to
//! completion and the best move found so far is always well defined.

use vstd::prelude::*;
use crate::model::{
    Difficulty, Move, EXTENSION_BUDGET, INF_SCORE, QUIESCENCE_FUEL,
};
use crate::ordering::{lemma_ordered_elements, order_moves, spec_ordered};
use crate::rules::{
    apply_move, child_of, clock_now, elapsed_ms, legal_moves, moves_of, random_below, side_white,
    white_to_move,
};
use crate::search::{negamax_ab, spec_negamax};

verus! {

/// The root's banned move: the exact reverse of the last played move, if
/// any. A lightweight anti-repetition heuristic, not a legality constraint.
pub open spec fn spec_banned(history: Seq<Move>) -> Option<Move> {
    if history.len() == 0 {
        None
    } else {
        Some(history.last().spec_reversed())
    }
}

/// The first `n` moves of `ms` with the banned move removed, in order.
pub open spec fn candidates_prefix(ms: Seq<Move>, banned: Option<Move>, n: int) -> Seq<Move>
    decreases n,
{
    if n <= 0 {
        Seq::empty()
    } else {
        candidates_prefix(ms, banned, n - 1) + if banned == Some(ms[n - 1]) {
            Seq::empty()
        } else {
            seq![ms[n - 1]]
        }
    }
}

/// The root candidate set: the legal moves with the banned move removed.
pub open spec fn spec_candidates(ms: Seq<Move>, banned: Option<Move>) -> Seq<Move> {
    candidates_prefix(ms, banned, ms.len() as int)
}

/// The root candidates of `b` under the played `history`.
pub open spec fn spec_root_candidates(b: chess::Board, history: Seq<Move>) -> Seq<Move> {
    spec_candidates(moves_of(b), spec_banned(history))
}

/// The effective search depth for a difficulty setting: Easy plays shallow,
/// Hard looks two plies past the base depth.
pub open spec fn spec_effective_depth(base: nat, difficulty: Difficulty) -> nat {
    match difficulty {
        Difficulty::Easy => 2,
        Difficulty::Medium => base,
        Difficulty::Hard => base + 2,
    }
}

/// The score of the keyed root candidate `e` of `b`: its child position,
/// one ply deeper when the move is tactical (spending extension budget),
/// searched over the full window with quiescence on, and negated back to
/// the root mover's perspective.
pub open spec fn spec_root_score(b: chess::Board, e: (Move, i32), ed: nat) -> int {
    let color: int = if white_to_move(b) {
        1
    } else {
        -1
    };
    let extended = crate::ordering::is_tactical_key(e.1);
    let d2 = if extended {
        ed
    } else {
        (ed - 1) as nat
    };
    let e2 = if extended {
        (EXTENSION_BUDGET - 1) as nat
    } else {
        EXTENSION_BUDGET as nat
    };
    -spec_negamax(
        child_of(b, e.0),
        d2,
        e2,
        -(INF_SCORE as int),
        INF_SCORE as int,
        -color,
        true,
        QUIESCENCE_FUEL as nat,
    )
}

/// The best of the first `k` ordered root candidates of `b` and its score:
/// the strictly greatest score wins, and of equal scores the first seen.
pub open spec fn spec_root_best(b: chess::Board, ord: Seq<(Move, i32)>, k: int, ed: nat) -> (
    Move,
    int,
)
    decreases k,
{
    if k <= 1 {
        (ord[0].0, spec_root_score(b, ord[0], ed))
    } else {
        let prev = spec_root_best(b, ord, k - 1, ed);
        let s = spec_root_score(b, ord[k - 1], ed);
        if s > prev.1 {
            (ord[k - 1].0, s)
        } else {
            prev
        }
    }
}

/// No prefix of the filtered candidates holds the banned move.
proof fn lemma_candidates_prefix_excludes(ms: Seq<Move>, banned: Move, n: int)
    ensures
        !candidates_prefix(ms, Some(banned), n).contains(banned),
    decreases n,
{
    if n > 0 {
        lemma_candidates_prefix_excludes(ms, banned, n - 1);
        let pre = candidates_prefix(ms, Some(banned), n - 1);
        let whole = candidates_prefix(ms, Some(banned), n);
        assert forall|j: int| 0 <= j < whole.len() implies whole[j] != banned by {
            if j < pre.len() {
                assert(whole[j] == pre[j]);
                assert(pre[j] != banned);
            }
        }
    }
}

/// Law: banned-move exclusion. Whatever the legal moves are, the root
/// candidate set handed to the search never contains the banned move — the
/// reverse of the last played move, promotion field included.
pub proof fn lemma_banned_excluded(ms: Seq<Move>, banned: Move)
    ensures
        !spec_candidates(ms, Some(banned)).contains(banned),
{
    lemma_candidates_prefix_excludes(ms, banned, ms.len() as int);
}

/// Filters the banned move out of the legal moves, keeping their order.
pub fn root_candidates(moves: &Vec<Move>, banned: &Option<Move>) -> (r: Vec<Move>)
    ensures
        r@ == spec_candidates(moves@, *banned),
        forall|i: int| 0 <= i < r@.len() ==> moves@.contains(#[trigger] r@[i]),
{
    let mut r: Vec<Move> = Vec::new();
    let mut i: usize = 0;
    while i < moves.len()
        invariant
            0 <= i <= moves@.len(),
            r@ == candidates_prefix(moves@, *banned, i as int),
            forall|k: int| 0 <= k < r@.len() ==> moves@.contains(#[trigger] r@[k]),
        decreases moves@.len() - i,
    {
        let m = moves[i];
        let keep = match banned {
            None => true,
            Some(bm) => !crate::model::moves_equal(&m, bm),
        };
        if keep {
            r.push(m);
            proof {
                assert(moves@.contains(moves@[i as int]));
                assert(r@ =~= candidates_prefix(moves@, *banned, i as int) + seq![m]);
            }
        } else {
            proof {
                assert(r@ =~= candidates_prefix(moves@, *banned, i as int) + Seq::<Move>::empty());
            }
        }
        i = i + 1;
    }
    r
}

/// Searches one keyed root candidate of `board`: its child position, one
/// ply deeper when the move is tactical, over the full window, negated back
/// to the root mover's perspective.
fn root_score(board: &chess::Board, e: (Move, i32), ed: u32, color: i32, nodes: &mut u64) -> (s:
    i32)
    requires
        moves_of(*board).contains(e.0),
        ed >= 1,
        color as int == (if white_to_move(*board) {
            1int
        } else {
            -1int
        }),
    ensures
        s as int == spec_root_score(*board, e, ed as nat),
        *final(nodes) >= *old(nodes),
{
    let extended = e.1 < 0;
    let d2 = if extended {
        ed
    } else {
        ed - 1
    };
    let e2 = if extended {
        EXTENSION_BUDGET - 1
    } else {
        EXTENSION_BUDGET
    };
    let chl = apply_move(board, &e.0);
    let v = negamax_ab(&chl, d2, e2, -INF_SCORE, INF_SCORE, -color, true, QUIESCENCE_FUEL, nodes);
    -v
}

/// Chooses the move the engine plays in `board`, or `None` when no root
/// candidate is left. The candidates are the legal moves less the banned
/// reverse of the last played move. Easy play searches two plies deep and
/// mostly short-circuits to a uniformly random candidate; Medium searches
/// `base_depth` plies and Hard two more. The wall-clock deadline is polled
/// after each finished root candidate; whatever the clock and the random
/// generator do, the returned move is a root candidate, and without the
/// random short-circuit it is the best of the first `k` ordered candidates
/// for some `k` — all of them, unless the deadline struck first.
pub fn choose_best_move_ab(
    board: &chess::Board,
    history: &Vec<Move>,
    base_depth: u32,
    difficulty: Difficulty,
    time_budget_ms: u64,
) -> (r: Option<Move>)
    requires
        1 <= base_depth <= 0xffff_fffd,
    ensures
        (r is Some) <==> spec_root_candidates(*board, history@).len() > 0,
        r matches Some(m) ==> spec_root_candidates(*board, history@).contains(m) && moves_of(
            *board,
        ).contains(m),
        r matches Some(m) ==> (history@.len() > 0 ==> m != history@.last().spec_reversed()),
        r matches Some(m) ==> (difficulty != Difficulty::Easy ==> exists|k: int|
            1 <= k <= spec_root_candidates(*board, history@).len() && m == spec_root_best(
                *board,
                spec_ordered(*board, spec_root_candidates(*board, history@)),
                k,
                spec_effective_depth(base_depth as nat, difficulty),
            ).0),
{
    let start = clock_now();
    let moves = legal_moves(board);
    let banned: Option<Move> = if history.len() > 0 {
        Some(history[history.len() - 1].reversed())
    } else {
        None
    };
    proof {
        assert(banned == spec_banned(history@));
        if history@.len() > 0 {
            lemma_banned_excluded(moves@, history@.last().spec_reversed());
        }
    }
    let cands = root_candidates(&moves, &banned);
    if cands.len() == 0 {
        return None;
    }
    match difficulty {
        Difficulty::Easy => {
            if random_below(10) < 7 {
                let j = random_below(cands.len() as u64);
                let jx = j as usize;
                return Some(cands[jx]);
            }
        },
        _ => {},
    }
    let ed: u32 = match difficulty {
        Difficulty::Easy => 2,
        Difficulty::Medium => base_depth,
        Difficulty::Hard => base_depth + 2,
    };
    let ghost edn = spec_effective_depth(base_depth as nat, difficulty);
    proof {
        assert forall|i: int| 0 <= i < cands@.len() implies moves_of(*board).contains(
            #[trigger] cands@[i],
        ) && cands@[i].wf() by {
            assert(moves@.contains(cands@[i]));
            let w = choose|w: int| 0 <= w < moves@.len() && moves@[w] == cands@[i];
            assert(moves@[w].wf());
        }
    }
    let ord = order_moves(board, &cands);
    let ghost rosp = spec_ordered(*board, spec_root_candidates(*board, history@));
    proof {
        lemma_ordered_elements(*board, spec_root_candidates(*board, history@));
        assert(spec_root_candidates(*board, history@).contains(rosp[0].0));
    }
    let color: i32 = if side_white(board) {
        1
    } else {
        -1
    };
    let mut nodes: u64 = 0;
    let s0 = root_score(board, ord[0], ed, color, &mut nodes);
    let mut best_move: Move = ord[0].0;
    let mut best_score: i32 = s0;
    let mut i: usize = 1;
    loop
        invariant
            1 <= i <= ord@.len(),
            ord@ == rosp,
            rosp == spec_ordered(*board, spec_root_candidates(*board, history@)),
            rosp.len() == spec_root_candidates(*board, history@).len(),
            color as int == (if white_to_move(*board) {
                1int
            } else {
                -1int
            }),
            ed >= 1,
            ed as nat == edn,
            forall|k: int| 0 <= k < spec_root_candidates(*board, history@).len() ==> moves_of(
                *board,
            ).contains(#[trigger] spec_root_candidates(*board, history@)[k]),
            (best_move, best_score as int) == spec_root_best(*board, rosp, i as int, edn),
            spec_root_candidates(*board, history@).contains(best_move),
        ensures
            exists|k: int|
                1 <= k <= rosp.len() && (best_move, best_score as int) == spec_root_best(
                    *board,
                    rosp,
                    k,
                    edn,
                ) && spec_root_candidates(*board, history@).contains(best_move),
        decreases ord@.len() - i,
    {
        if i >= ord.len() {
            break;
        }
        if elapsed_ms(&start) >= time_budget_ms {
            break;
        }
        proof {
            lemma_ordered_elements(*board, spec_root_candidates(*board, history@));
            assert(spec_root_candidates(*board, history@).contains(rosp[i as int].0));
        }
        let s = root_score(board, ord[i], ed, color, &mut nodes);
        if s > best_score {
            best_score = s;
            best_move = ord[i].0;
        }
        i = i + 1;
    }
    proof {
        lemma_ordered_elements(*board, spec_root_candidates(*board, history@));
        if history@.len() > 0 {
            lemma_banned_excluded(moves_of(*board), history@.last().spec_reversed());
        }
    }
    Some(best_move)
}

} // verus!
