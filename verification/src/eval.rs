//! The position evaluator.
//!
//! `evaluate` maps a position to a signed score from White's perspective:
//! material, mobility and centre control, all additive. `stand_pat` is the
//! lighter development/king-safety score that the quiescence search uses as
//! its baseline, already turned to the searching side's perspective.

use vstd::prelude::*;
use crate::model::Occupant;
use crate::model::PieceKind;
use crate::rules::{
    legal_moves, moves_of, null_board, null_of, read_squares, side_white, squares_of,
    white_to_move,
};

verus! {

/// Material value of a piece kind. The king carries no material value here;
/// mate is handled by the search's terminal shortcut.
pub open spec fn piece_value(k: PieceKind) -> int {
    match k {
        PieceKind::Pawn => 100,
        PieceKind::Knight => 320,
        PieceKind::Bishop => 330,
        PieceKind::Rook => 500,
        PieceKind::Queen => 900,
        PieceKind::King => 0,
    }
}

/// The four centre squares d4, e4, d5, e5, as square indices.
pub open spec fn is_center_square(i: int) -> bool {
    i == 27 || i == 28 || i == 35 || i == 36
}

/// Bonus for occupying a centre square: small for a pawn, largest for a
/// minor piece, smaller again for the heavy pieces.
pub open spec fn center_bonus(k: PieceKind) -> int {
    match k {
        PieceKind::Pawn => 20,
        PieceKind::Knight => 30,
        PieceKind::Bishop => 30,
        PieceKind::Rook => 25,
        PieceKind::Queen => 15,
        PieceKind::King => 10,
    }
}

/// Material and centre-control contribution of one square, White-positive.
pub open spec fn square_term(occ: Option<Occupant>, i: int) -> int {
    match occ {
        None => 0,
        Some(p) => {
            let magnitude = piece_value(p.kind) + if is_center_square(i) {
                center_bonus(p.kind)
            } else {
                0
            };
            if p.by_white {
                magnitude
            } else {
                -magnitude
            }
        }
    }
}

/// Sum of `square_term` over the first `n` squares.
pub open spec fn terms_sum(sqs: Seq<Option<Occupant>>, n: int) -> int
    decreases n,
{
    if n <= 0 {
        0
    } else {
        terms_sum(sqs, n - 1) + square_term(sqs[n - 1], n - 1)
    }
}

/// Material plus centre control over the whole board, White-positive.
pub open spec fn material_center_score(sqs: Seq<Option<Occupant>>) -> int {
    terms_sum(sqs, 64)
}

/// A side's legal-move count, capped so that the mobility term stays small
/// against material.
pub open spec fn capped_count(n: nat) -> int {
    if n > 1000 {
        1000
    } else {
        n as int
    }
}

/// Weight of one legal move in the mobility term.
pub open spec fn mobility_weight() -> int {
    5
}

/// Mobility contribution, White-positive, from the two sides' capped
/// legal-move counts.
pub open spec fn mobility_term(white_count: nat, black_count: nat) -> int {
    mobility_weight() * (capped_count(white_count) - capped_count(black_count))
}

/// White's legal-move count in `b`: the mover's own count when White is to
/// move, else the count after passing the turn (zero when the mover is in
/// check, so no null probe exists).
pub open spec fn white_mobility_of(b: chess::Board) -> nat {
    if white_to_move(b) {
        moves_of(b).len()
    } else {
        match null_of(b) {
            Some(nb) => moves_of(nb).len(),
            None => 0,
        }
    }
}

/// Black's legal-move count in `b`, symmetric to `white_mobility_of`.
pub open spec fn black_mobility_of(b: chess::Board) -> nat {
    if white_to_move(b) {
        match null_of(b) {
            Some(nb) => moves_of(nb).len(),
            None => 0,
        }
    } else {
        moves_of(b).len()
    }
}

/// The full static evaluation of `b`, White-positive.
pub open spec fn spec_evaluate(b: chess::Board) -> int {
    material_center_score(squares_of(b)) + mobility_term(
        white_mobility_of(b),
        black_mobility_of(b),
    )
}

/// The two sides' legal-move counts for `board`: the mover's own count, and
/// the opponent's count obtained by the null-move probe (zero when the mover
/// is in check).
fn mobility_counts(board: &chess::Board) -> (r: (usize, usize))
    ensures
        r.0 == white_mobility_of(*board),
        r.1 == black_mobility_of(*board),
{
    let own = legal_moves(board).len();
    let other = match null_board(board) {
        Some(nb) => legal_moves(&nb).len(),
        None => 0,
    };
    if side_white(board) {
        (own, other)
    } else {
        (other, own)
    }
}

/// Static evaluation of `board` from White's perspective: material, centre
/// control and mobility, all additive. Deterministic and side-effect free.
pub fn evaluate(board: &chess::Board) -> (r: i32)
    ensures
        r as int == spec_evaluate(*board),
        -70000 <= r <= 70000,
{
    let sqs = read_squares(board);
    let mut score: i32 = 0;
    let mut i: usize = 0;
    while i < 64
        invariant
            0 <= i <= 64,
            sqs@ == squares_of(*board),
            sqs@.len() == 64,
            score as int == terms_sum(sqs@, i as int),
            -930 * i <= score as int <= 930 * i,
        decreases 64 - i,
    {
        let t: i32 = match sqs[i] {
            None => 0,
            Some(p) => {
                let base: i32 = match p.kind {
                    PieceKind::Pawn => 100,
                    PieceKind::Knight => 320,
                    PieceKind::Bishop => 330,
                    PieceKind::Rook => 500,
                    PieceKind::Queen => 900,
                    PieceKind::King => 0,
                };
                let bonus: i32 = if i == 27 || i == 28 || i == 35 || i == 36 {
                    match p.kind {
                        PieceKind::Pawn => 20,
                        PieceKind::Knight => 30,
                        PieceKind::Bishop => 30,
                        PieceKind::Rook => 25,
                        PieceKind::Queen => 15,
                        PieceKind::King => 10,
                    }
                } else {
                    0
                };
                if p.by_white {
                    base + bonus
                } else {
                    -(base + bonus)
                }
            },
        };
        score = score + t;
        i = i + 1;
    }
    let (wm, bm) = mobility_counts(board);
    let wc: i32 = if wm > 1000 {
        1000
    } else {
        wm as i32
    };
    let bc: i32 = if bm > 1000 {
        1000
    } else {
        bm as i32
    };
    score + 5 * (wc - bc)
}

/// The square with the same file and the mirrored rank.
pub open spec fn mirror_index(i: int) -> int {
    (7 - i / 8) * 8 + i % 8
}

/// The same piece with its colour exchanged.
pub open spec fn flip_occupant(o: Option<Occupant>) -> Option<Occupant> {
    match o {
        None => None,
        Some(p) => Some(Occupant { kind: p.kind, by_white: !p.by_white }),
    }
}

/// `b` is the board `a` with colours exchanged and ranks mirrored.
pub open spec fn is_color_mirror(a: Seq<Option<Occupant>>, b: Seq<Option<Occupant>>) -> bool {
    &&& a.len() == 64
    &&& b.len() == 64
    &&& forall|i: int| 0 <= i < 64 ==> b[i] == flip_occupant(a[mirror_index(i)])
}

/// Sum of `square_term` over one rank, written out square by square.
pub open spec fn rank_sum(s: Seq<Option<Occupant>>, r: int) -> int {
    square_term(s[8 * r + 0], 8 * r + 0) + square_term(s[8 * r + 1], 8 * r + 1) + square_term(
        s[8 * r + 2],
        8 * r + 2,
    ) + square_term(s[8 * r + 3], 8 * r + 3) + square_term(s[8 * r + 4], 8 * r + 4) + square_term(
        s[8 * r + 5],
        8 * r + 5,
    ) + square_term(s[8 * r + 6], 8 * r + 6) + square_term(s[8 * r + 7], 8 * r + 7)
}

/// Extending the prefix sum by one full rank adds that rank's sum.
proof fn lemma_terms_by_rank(s: Seq<Option<Occupant>>, k: int)
    requires
        0 <= k < 8,
    ensures
        terms_sum(s, 8 * k + 8) == terms_sum(s, 8 * k) + rank_sum(s, k),
{
    reveal_with_fuel(terms_sum, 9);
}

/// A rank of the mirrored board sums to the negation of the mirrored rank of
/// the original board.
proof fn lemma_rank_mirror(a: Seq<Option<Occupant>>, b: Seq<Option<Occupant>>, r: int)
    requires
        is_color_mirror(a, b),
        0 <= r < 8,
    ensures
        rank_sum(b, r) == -rank_sum(a, 7 - r),
{
    lemma_square_mirror(a, b, 8 * r + 0);
    lemma_square_mirror(a, b, 8 * r + 1);
    lemma_square_mirror(a, b, 8 * r + 2);
    lemma_square_mirror(a, b, 8 * r + 3);
    lemma_square_mirror(a, b, 8 * r + 4);
    lemma_square_mirror(a, b, 8 * r + 5);
    lemma_square_mirror(a, b, 8 * r + 6);
    lemma_square_mirror(a, b, 8 * r + 7);
    assert(mirror_index(8 * r + 0) == 8 * (7 - r) + 0);
    assert(mirror_index(8 * r + 1) == 8 * (7 - r) + 1);
    assert(mirror_index(8 * r + 2) == 8 * (7 - r) + 2);
    assert(mirror_index(8 * r + 3) == 8 * (7 - r) + 3);
    assert(mirror_index(8 * r + 4) == 8 * (7 - r) + 4);
    assert(mirror_index(8 * r + 5) == 8 * (7 - r) + 5);
    assert(mirror_index(8 * r + 6) == 8 * (7 - r) + 6);
    assert(mirror_index(8 * r + 7) == 8 * (7 - r) + 7);
}

/// One square of the mirrored board scores the exact negation of its mirror
/// square on the original board.
proof fn lemma_square_mirror(a: Seq<Option<Occupant>>, b: Seq<Option<Occupant>>, i: int)
    requires
        is_color_mirror(a, b),
        0 <= i < 64,
    ensures
        square_term(b[i], i) == -square_term(a[mirror_index(i)], mirror_index(i)),
{
    assert(b[i] == flip_occupant(a[mirror_index(i)]));
}

/// Law: the material and centre-control score is antisymmetric under a
/// colour-and-rank mirror, and the whole static evaluation is antisymmetric
/// once the two sides' mobility counts are exchanged along with the board.
pub proof fn lemma_evaluate_antisymmetric(
    a: Seq<Option<Occupant>>,
    b: Seq<Option<Occupant>>,
    white_count: nat,
    black_count: nat,
)
    requires
        is_color_mirror(a, b),
    ensures
        material_center_score(b) == -material_center_score(a),
        material_center_score(b) + mobility_term(black_count, white_count) == -(
        material_center_score(a) + mobility_term(white_count, black_count)),
{
    lemma_terms_by_rank(a, 0);
    lemma_terms_by_rank(a, 1);
    lemma_terms_by_rank(a, 2);
    lemma_terms_by_rank(a, 3);
    lemma_terms_by_rank(a, 4);
    lemma_terms_by_rank(a, 5);
    lemma_terms_by_rank(a, 6);
    lemma_terms_by_rank(a, 7);
    lemma_terms_by_rank(b, 0);
    lemma_terms_by_rank(b, 1);
    lemma_terms_by_rank(b, 2);
    lemma_terms_by_rank(b, 3);
    lemma_terms_by_rank(b, 4);
    lemma_terms_by_rank(b, 5);
    lemma_terms_by_rank(b, 6);
    lemma_terms_by_rank(b, 7);
    lemma_rank_mirror(a, b, 0);
    lemma_rank_mirror(a, b, 1);
    lemma_rank_mirror(a, b, 2);
    lemma_rank_mirror(a, b, 3);
    lemma_rank_mirror(a, b, 4);
    lemma_rank_mirror(a, b, 5);
    lemma_rank_mirror(a, b, 6);
    lemma_rank_mirror(a, b, 7);
}

/// Law: a position with colours exchanged and ranks mirrored, whose two
/// mobility counts are likewise exchanged, evaluates to the exact negation.
pub proof fn lemma_spec_evaluate_antisymmetric(b1: chess::Board, b2: chess::Board)
    requires
        is_color_mirror(squares_of(b1), squares_of(b2)),
        white_mobility_of(b2) == black_mobility_of(b1),
        black_mobility_of(b2) == white_mobility_of(b1),
    ensures
        spec_evaluate(b2) == -spec_evaluate(b1),
{
    lemma_evaluate_antisymmetric(
        squares_of(b1),
        squares_of(b2),
        white_mobility_of(b1),
        black_mobility_of(b1),
    );
}

/// Development / king-safety contribution of one square, White-positive:
/// minor pieces off the back rank, rooks off the back rank, and a king on a
/// castled file (g or c).
pub open spec fn dev_term(occ: Option<Occupant>, i: int) -> int {
    match occ {
        None => 0,
        Some(p) => {
            let rank = i / 8;
            let file = i % 8;
            if p.by_white {
                match p.kind {
                    PieceKind::Knight | PieceKind::Bishop => if rank > 1 { 10 } else { 0 },
                    PieceKind::Rook => if rank > 0 { 5 } else { 0 },
                    PieceKind::King => if file == 6 || file == 2 { 20 } else { 0 },
                    _ => 0,
                }
            } else {
                match p.kind {
                    PieceKind::Knight | PieceKind::Bishop => if rank < 6 { -10 } else { 0 },
                    PieceKind::Rook => if rank < 7 { -5 } else { 0 },
                    PieceKind::King => if file == 6 || file == 2 { -20 } else { 0 },
                    _ => 0,
                }
            }
        }
    }
}

/// Sum of `dev_term` over the first `n` squares.
pub open spec fn dev_sum(sqs: Seq<Option<Occupant>>, n: int) -> int
    decreases n,
{
    if n <= 0 {
        0
    } else {
        dev_sum(sqs, n - 1) + dev_term(sqs[n - 1], n - 1)
    }
}

/// The stand-pat score of `b` from the perspective of the side whose sign is
/// `color`.
pub open spec fn spec_stand_pat(b: chess::Board, color: int) -> int {
    color * dev_sum(squares_of(b), 64)
}

/// The quiescence search's static baseline for `board`: development and
/// king-safety bonuses, turned to the perspective of the side whose sign is
/// `color`.
pub fn stand_pat(board: &chess::Board, color: i32) -> (r: i32)
    requires
        color == 1 || color == -1,
    ensures
        r as int == spec_stand_pat(*board, color as int),
        -1280 <= r <= 1280,
{
    let sqs = read_squares(board);
    let mut score: i32 = 0;
    let mut i: usize = 0;
    while i < 64
        invariant
            0 <= i <= 64,
            sqs@ == squares_of(*board),
            sqs@.len() == 64,
            score as int == dev_sum(sqs@, i as int),
            -20 * i <= score as int <= 20 * i,
        decreases 64 - i,
    {
        let rank = i / 8;
        let file = i % 8;
        let t: i32 = match sqs[i] {
            None => 0,
            Some(p) => {
                if p.by_white {
                    match p.kind {
                        PieceKind::Knight | PieceKind::Bishop => if rank > 1 { 10 } else { 0 },
                        PieceKind::Rook => if rank > 0 { 5 } else { 0 },
                        PieceKind::King => if file == 6 || file == 2 { 20 } else { 0 },
                        _ => 0,
                    }
                } else {
                    match p.kind {
                        PieceKind::Knight | PieceKind::Bishop => if rank < 6 { -10 } else { 0 },
                        PieceKind::Rook => if rank < 7 { -5 } else { 0 },
                        PieceKind::King => if file == 6 || file == 2 { -20 } else { 0 },
                        _ => 0,
                    }
                }
            },
        };
        score = score + t;
        i = i + 1;
    }
    if color == 1 {
        score
    } else {
        -score
    }
}

} // verus!
