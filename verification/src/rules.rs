//! The rules provider boundary.
//!
//! The engine never re-derives chess legality: move generation, move
//! application and terminal classification come from the `chess` crate, and
//! the clock and the random generator from `std` and `rand`. This module
//! holds the trusted declarations for those calls. Each uninterpreted spec
//! function below names the (deterministic) answer of one such call, so that
//! the verified code's contracts can speak about it; each `external_body`
//! function makes one call and converts its result to the engine's own plain
//! data.

use vstd::prelude::*;
use crate::model::{GameStatus, Move, Occupant, PieceKind};

verus! {

#[verifier::external_type_specification]
#[verifier::external_body]
pub struct ExBoard(chess::Board);

#[verifier::external_type_specification]
#[verifier::external_body]
pub struct ExInstant(std::time::Instant);

/// What stands on each of the 64 squares of `b`, in square-index order
/// (a1, b1, ..., h8).
pub uninterp spec fn squares_of(b: chess::Board) -> Seq<Option<Occupant>>;

/// The legal moves of `b`, in the move generator's enumeration order.
pub uninterp spec fn moves_of(b: chess::Board) -> Seq<Move>;

/// The terminal classification of `b`.
pub uninterp spec fn status_of(b: chess::Board) -> GameStatus;

/// Whether White is the side to move in `b`.
pub uninterp spec fn white_to_move(b: chess::Board) -> bool;

/// The position reached from `b` by playing the legal move `m`.
pub uninterp spec fn child_of(b: chess::Board, m: Move) -> chess::Board;

/// How many opposing pieces give check to the side to move in `b`.
pub uninterp spec fn checkers_of(b: chess::Board) -> u32;

/// The position `b` with the move passed to the opponent, if passing is
/// possible (the side to move is not in check).
pub uninterp spec fn null_of(b: chess::Board) -> Option<chess::Board>;

/// Relies on `chess::Board::status`: `Ongoing` exactly when the position has
/// a legal move; with none, `Checkmate` if the mover is in check, else
/// `Stalemate`. (This provider never reports any other draw.)
#[verifier::external_body]
pub(crate) fn board_status(b: &chess::Board) -> (r: GameStatus)
    ensures
        r == status_of(*b),
        (r == GameStatus::Ongoing) <==> moves_of(*b).len() > 0,
{
    match b.status() {
        chess::BoardStatus::Ongoing => GameStatus::Ongoing,
        chess::BoardStatus::Stalemate => GameStatus::Stalemate,
        chess::BoardStatus::Checkmate => GameStatus::Checkmate,
    }
}

/// Relies on `chess::MoveGen::new_legal`: every legal move of `b`, each made
/// of two squares of the board and an optional promotion piece.
#[verifier::external_body]
pub(crate) fn legal_moves(b: &chess::Board) -> (r: Vec<Move>)
    ensures
        r@ == moves_of(*b),
        forall|i: int| 0 <= i < r@.len() ==> (#[trigger] r@[i]).wf(),
{
    chess::MoveGen::new_legal(b)
        .map(|m| Move {
            from: m.get_source().to_index() as u8,
            to: m.get_dest().to_index() as u8,
            promotion: match m.get_promotion() {
                None => None,
                Some(chess::Piece::Pawn) => Some(PieceKind::Pawn),
                Some(chess::Piece::Knight) => Some(PieceKind::Knight),
                Some(chess::Piece::Bishop) => Some(PieceKind::Bishop),
                Some(chess::Piece::Rook) => Some(PieceKind::Rook),
                Some(chess::Piece::Queen) => Some(PieceKind::Queen),
                Some(chess::Piece::King) => Some(PieceKind::King),
            },
        })
        .collect()
}

/// Relies on `chess::Board::piece_on` and `chess::Board::color_on`, asked for
/// each of the 64 squares in index order.
#[verifier::external_body]
pub(crate) fn read_squares(b: &chess::Board) -> (r: Vec<Option<Occupant>>)
    ensures
        r@ == squares_of(*b),
        r@.len() == 64,
{
    chess::ALL_SQUARES.iter().map(|&sq| match (b.piece_on(sq), b.color_on(sq)) {
        (Some(p), Some(c)) => Some(Occupant {
            kind: match p {
                chess::Piece::Pawn => PieceKind::Pawn, chess::Piece::Knight => PieceKind::Knight,
                chess::Piece::Bishop => PieceKind::Bishop, chess::Piece::Rook => PieceKind::Rook,
                chess::Piece::Queen => PieceKind::Queen, chess::Piece::King => PieceKind::King,
            },
            by_white: c == chess::Color::White,
        }),
        _ => None,
    }).collect()
}

/// Relies on `chess::Board::make_move_new`: the position after playing a
/// legal move on `b`. It can panic only on an illegal move, which the
/// precondition excludes.
#[verifier::external_body]
pub(crate) fn apply_move(b: &chess::Board, m: &Move) -> (r: chess::Board)
    requires
        moves_of(*b).contains(*m),
    ensures
        r == child_of(*b, *m),
{
    let source = chess::ALL_SQUARES[(m.from & 63) as usize];
    let dest = chess::ALL_SQUARES[(m.to & 63) as usize];
    let promotion = match m.promotion {
        None => None,
        Some(PieceKind::Pawn) => Some(chess::Piece::Pawn),
        Some(PieceKind::Knight) => Some(chess::Piece::Knight),
        Some(PieceKind::Bishop) => Some(chess::Piece::Bishop),
        Some(PieceKind::Rook) => Some(chess::Piece::Rook),
        Some(PieceKind::Queen) => Some(chess::Piece::Queen),
        Some(PieceKind::King) => Some(chess::Piece::King),
    };
    b.make_move_new(chess::ChessMove::new(source, dest, promotion))
}

/// Relies on `chess::Board::checkers` and `chess::BitBoard::popcnt`: how many
/// opposing pieces give check to the side to move.
#[verifier::external_body]
pub(crate) fn checkers_count(b: &chess::Board) -> (r: u32)
    ensures
        r == checkers_of(*b),
{
    b.checkers().popcnt()
}

/// Relies on `chess::Board::null_move`: the same position with the turn
/// passed to the opponent; `None` exactly when the side to move is in check.
#[verifier::external_body]
pub(crate) fn null_board(b: &chess::Board) -> (r: Option<chess::Board>)
    ensures
        r == null_of(*b),
        r.is_some() <==> checkers_of(*b) == 0,
{
    b.null_move()
}

/// Relies on `chess::Board::side_to_move`.
#[verifier::external_body]
pub(crate) fn side_white(b: &chess::Board) -> (r: bool)
    ensures
        r == white_to_move(*b),
{
    b.side_to_move() == chess::Color::White
}

/// Relies on `std::time::Instant::now`: a reading of the monotonic clock.
#[verifier::external_body]
pub(crate) fn clock_now() -> (r: std::time::Instant) {
    std::time::Instant::now()
}

/// Relies on `std::time::Instant::elapsed`: whole milliseconds since
/// `start`. The value depends on the clock, so nothing is promised of it.
#[verifier::external_body]
pub(crate) fn elapsed_ms(start: &std::time::Instant) -> (r: u64) {
    start.elapsed().as_millis().try_into().unwrap_or(u64::MAX)
}

/// Relies on `rand::Rng::gen_range` over `rand::thread_rng`: an integer
/// drawn uniformly from `0..n`. Which one depends on the generator's state,
/// so only the bound is promised.
#[verifier::external_body]
pub(crate) fn random_below(n: u64) -> (r: u64)
    requires
        n > 0,
    ensures
        r < n,
{
    rand::Rng::gen_range(&mut rand::thread_rng(), 0..n)
}

} // verus!
