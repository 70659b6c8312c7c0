//! Plain data types shared by the whole engine: piece kinds, moves, game
//! status, difficulty levels, and the score constants.

use vstd::prelude::*;

verus! {

/// The kind of a chess piece, without its colour.
#[derive(Clone, Copy, Debug, PartialEq, Eq, Structural)]
pub enum PieceKind {
    Pawn,
    Knight,
    Bishop,
    Rook,
    Queen,
    King,
}

/// A piece standing on a square: its kind and whether it belongs to White.
#[derive(Clone, Copy, Debug, PartialEq, Eq, Structural)]
pub struct Occupant {
    pub kind: PieceKind,
    pub by_white: bool,
}

/// A move: source square, destination square, and an optional promotion
/// piece. Squares are indices `rank * 8 + file` in `0..64` (a1 = 0, h8 = 63).
/// Equality is by these three fields.
#[derive(Clone, Copy, Debug, PartialEq, Eq)]
pub struct Move {
    pub from: u8,
    pub to: u8,
    pub promotion: Option<PieceKind>,
}

/// The terminal classification of a position, as the rules provider reports
/// it. Terminal statuses end the search immediately.
#[derive(Clone, Copy, Debug, PartialEq, Eq, Structural)]
pub enum GameStatus {
    Ongoing,
    Checkmate,
    Stalemate,
    OtherDraw,
}

/// The coarse skill setting, fixed for the duration of one move selection.
#[derive(Clone, Copy, Debug, PartialEq, Eq, Structural)]
pub enum Difficulty {
    Easy,
    Medium,
    Hard,
}

/// The mate sentinel: a checkmated position scores this magnitude, with the
/// sign `-color` set against the side to move. Far above any material score.
pub const MATE_SCORE: i32 = 1_000_000;

/// The search window's outermost bounds. Strictly above `MATE_SCORE`, and
/// far enough from the `i32` limits that negating any score in
/// `[-INF_SCORE, INF_SCORE]` cannot overflow.
pub const INF_SCORE: i32 = 2_000_000;

/// How many tactical extensions one line of search may spend. Each capture,
/// promotion or check extends its child ply by one out of this budget, so
/// forced sequences resolve past the nominal depth while the search still
/// provably terminates.
pub const EXTENSION_BUDGET: u32 = 32;

/// How many plies of captures and promotions the quiescence pass may follow
/// before it stands pat: a bound no real exchange sequence reaches, kept so
/// that the pass provably terminates.
pub const QUIESCENCE_FUEL: u32 = 32;

impl Move {
    /// A move's squares both lie on the board.
    pub open spec fn wf(self) -> bool {
        self.from < 64 && self.to < 64
    }

    /// The exact reverse of a move: source and destination swapped, the
    /// promotion field kept.
    pub open spec fn spec_reversed(self) -> Move {
        Move { from: self.to, to: self.from, promotion: self.promotion }
    }

    /// Builds the exact reverse of `self`.
    pub fn reversed(&self) -> (r: Move)
        ensures
            r == self.spec_reversed(),
    {
        Move { from: self.to, to: self.from, promotion: self.promotion }
    }
}

/// Field-by-field equality of two moves.
pub fn moves_equal(a: &Move, b: &Move) -> (r: bool)
    ensures
        r == (*a == *b),
{
    let promo_equal = match (a.promotion, b.promotion) {
        (None, None) => true,
        (Some(p), Some(q)) => p == q,
        _ => false,
    };
    a.from == b.from && a.to == b.to && promo_equal
}

} // verus!
