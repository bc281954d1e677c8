//! The evaluation model: what a capture or a mate is worth.
//!
//! Weights are whole points. The two multipliers are percentages, so every
//! score in the library counts hundredths of a point. Scores are `i64`; sums
//! and products that leave its range stop at the end they ran over, the way
//! the widest search bounds absorb whatever is added to them.

use crate::rules::PieceKind;
use vstd::prelude::*;

verus! {

/// The multiplier that leaves a weight as it is.
pub const PERCENT: i64 = 100;

/// The point values of everything the engine can gain or lose.
///
/// The search scores captures and mates. The values of a draw and of a check
/// are part of the tuning but are not scored.
#[derive(Clone, Copy, Debug, PartialEq, Eq)]
pub struct Outcomes {
    pub draw: i64,
    /// What the engine loses when it is mated.
    pub my_checkmate: i64,
    pub my_check: i64,
    /// What the engine gains when it mates.
    pub their_checkmate: i64,
    pub their_check: i64,
    pub queen: i64,
    pub knight: i64,
    pub bishop: i64,
    pub rook: i64,
    pub pawn: i64,
}

/// Everything that tunes a search.
#[derive(Clone, Copy, Debug, PartialEq, Eq)]
pub struct Settings {
    pub outcomes: Outcomes,
    /// Percentage applied to a mate's value.
    pub outcomes_multiplier: i64,
    /// Percentage applied to a piece's value when the engine takes it; a piece
    /// the engine loses counts at exactly its value.
    pub take_piece_multiplier: i64,
    /// The ply at which the search stops descending.
    pub max_depth: u32,
    /// How many workers the root moves are spread over where they are scored
    /// side by side. The library itself scores them one after the other.
    pub worker_count: usize,
}

/// `x` if it is an `i64`, else the end of the range it lies beyond.
pub open spec fn clamp_score(x: int) -> int {
    if x < i64::MIN {
        i64::MIN as int
    } else if x > i64::MAX {
        i64::MAX as int
    } else {
        x
    }
}

/// The sum of two scores, kept within range.
pub fn add_scores(a: i64, b: i64) -> (sum: i64)
    ensures
        sum == clamp_score(a + b),
{
    match a.checked_add(b) {
        Some(sum) => sum,
        None => if b > 0 {
            i64::MAX
        } else {
            i64::MIN
        },
    }
}

/// A weight scaled by a percentage, kept within range.
pub fn scale_score(weight: i64, percent: i64) -> (scaled: i64)
    ensures
        scaled == clamp_score(weight * percent),
{
    match weight.checked_mul(percent) {
        Some(scaled) => scaled,
        None => {
            assert(weight * percent > 0 <==> (weight > 0) == (percent > 0)) by (nonlinear_arith)
                requires
                    weight * percent > i64::MAX || weight * percent < i64::MIN,
            ;
            if (weight > 0) == (percent > 0) {
                i64::MAX
            } else {
                i64::MIN
            }
        },
    }
}

/// A score with its sign turned, kept within range.
pub fn negate_score(score: i64) -> (negated: i64)
    ensures
        negated == clamp_score(-score),
{
    if score == i64::MIN {
        i64::MAX
    } else {
        -score
    }
}

impl Outcomes {
    /// The standard weights.
    pub open spec fn standard() -> Outcomes {
        Outcomes {
            draw: 500,
            my_checkmate: 1000,
            my_check: 100,
            their_checkmate: 1000,
            their_check: 100,
            queen: 100,
            knight: 50,
            bishop: 50,
            rook: 50,
            pawn: 1,
        }
    }

    /// The weight of a piece. A king is never taken and weighs nothing.
    pub open spec fn material(self, kind: PieceKind) -> int {
        match kind {
            PieceKind::Rook => self.rook as int,
            PieceKind::Queen => self.queen as int,
            PieceKind::Pawn => self.pawn as int,
            PieceKind::Knight => self.knight as int,
            PieceKind::Bishop => self.bishop as int,
            PieceKind::King => 0,
        }
    }

    /// The weight of a mate: the opponent's when `ours` is set, else the
    /// engine's own.
    pub open spec fn checkmate(self, ours: bool) -> int {
        if ours {
            self.their_checkmate as int
        } else {
            self.my_checkmate as int
        }
    }

    /// The weight of a piece.
    pub fn material_value(&self, kind: PieceKind) -> (weight: i64)
        ensures
            weight == self.material(kind),
    {
        match kind {
            PieceKind::Rook => self.rook,
            PieceKind::Queen => self.queen,
            PieceKind::Pawn => self.pawn,
            PieceKind::Knight => self.knight,
            PieceKind::Bishop => self.bishop,
            PieceKind::King => 0,
        }
    }

    /// The weight of a mate, the engine's own or the opponent's.
    pub fn checkmate_value(&self, ours: bool) -> (weight: i64)
        ensures
            weight == self.checkmate(ours),
    {
        if ours {
            self.their_checkmate
        } else {
            self.my_checkmate
        }
    }
}

impl Default for Outcomes {
    fn default() -> (outcomes: Outcomes)
        ensures
            outcomes == Outcomes::standard(),
    {
        Outcomes {
            draw: 500,
            my_checkmate: 1000,
            my_check: 100,
            their_checkmate: 1000,
            their_check: 100,
            queen: 100,
            knight: 50,
            bishop: 50,
            rook: 50,
            pawn: 1,
        }
    }
}

impl Settings {
    /// The standard tuning: mates count two and a half times, a piece taken
    /// one percent more than a piece lost, five plies, eight workers.
    pub open spec fn standard() -> Settings {
        Settings {
            outcomes: Outcomes::standard(),
            outcomes_multiplier: 250,
            take_piece_multiplier: 101,
            max_depth: 5,
            worker_count: 8,
        }
    }

    /// How many workers to start where the root moves are scored side by
    /// side: as many as the settings ask for, and one where they ask for none.
    pub fn workers(&self) -> (count: usize)
        ensures
            self.worker_count == 0 ==> count == 1,
            self.worker_count >= 1 ==> count == self.worker_count,
    {
        if self.worker_count == 0 {
            1
        } else {
            self.worker_count
        }
    }

    /// What a capture adds for the side that moves: the piece's weight at the
    /// take multiplier when the engine takes, its plain weight, negated, when
    /// the engine loses it.
    pub open spec fn capture_gain(self, taken: Option<PieceKind>, maximizing: bool) -> int {
        match taken {
            Some(kind) => if maximizing {
                clamp_score(self.outcomes.material(kind) * self.take_piece_multiplier)
            } else {
                clamp_score(-clamp_score(self.outcomes.material(kind) * PERCENT))
            },
            None => 0,
        }
    }

    /// What a mate adds for the side that moves.
    pub open spec fn mate_gain(self, mates: bool, maximizing: bool) -> int {
        if !mates {
            0
        } else if maximizing {
            clamp_score(self.outcomes.checkmate(true) * self.outcomes_multiplier)
        } else {
            clamp_score(-clamp_score(self.outcomes.checkmate(false) * self.outcomes_multiplier))
        }
    }

    /// The contribution of one move, seen from the engine: positive on its
    /// own plies, negative on the opponent's.
    pub open spec fn local_score(
        self,
        taken: Option<PieceKind>,
        mates: bool,
        maximizing: bool,
    ) -> int {
        clamp_score(self.capture_gain(taken, maximizing) + self.mate_gain(mates, maximizing))
    }

    /// Scores one move by what it takes and whether it mates.
    pub fn score_move(
        &self,
        taken: Option<PieceKind>,
        mates: bool,
        maximizing: bool,
    ) -> (score: i64)
        ensures
            score == self.local_score(taken, mates, maximizing),
    {
        let capture: i64 = match taken {
            Some(kind) => {
                let weight: i64 = self.outcomes.material_value(kind);
                if maximizing {
                    scale_score(weight, self.take_piece_multiplier)
                } else {
                    negate_score(scale_score(weight, PERCENT))
                }
            },
            None => 0,
        };
        let mate: i64 = if !mates {
            0
        } else {
            let weight: i64 = self.outcomes.checkmate_value(maximizing);
            let scaled: i64 = scale_score(weight, self.outcomes_multiplier);
            if maximizing {
                scaled
            } else {
                negate_score(scaled)
            }
        };
        add_scores(capture, mate)
    }
}

/// Raising the weight of a piece never sets back a move that takes it.
///
/// Take two settings that differ at most in the weight of `kind`, the second
/// giving it no less than the first, with a take multiplier that is not
/// negative. With the same value `rest` below them, the move that takes the
/// piece scores no less under the second, and the move that takes nothing
/// scores the same. So wherever the capture was ahead of the quiet move, it
/// still is.
pub proof fn lemma_heavier_piece_keeps_capture_ahead(
    lighter: Settings,
    heavier: Settings,
    kind: PieceKind,
    mates: bool,
    rest: int,
)
    requires
        lighter.take_piece_multiplier == heavier.take_piece_multiplier,
        lighter.take_piece_multiplier >= 0,
        lighter.outcomes_multiplier == heavier.outcomes_multiplier,
        lighter.outcomes.their_checkmate == heavier.outcomes.their_checkmate,
        lighter.outcomes.material(kind) <= heavier.outcomes.material(kind),
    ensures
        clamp_score(lighter.local_score(Some(kind), mates, true) + rest) <= clamp_score(
            heavier.local_score(Some(kind), mates, true) + rest,
        ),
        lighter.local_score(None, mates, true) == heavier.local_score(None, mates, true),
        clamp_score(lighter.local_score(Some(kind), mates, true) + rest) > clamp_score(
            lighter.local_score(None, mates, true) + rest,
        ) ==> clamp_score(heavier.local_score(Some(kind), mates, true) + rest) > clamp_score(
            heavier.local_score(None, mates, true) + rest,
        ),
{
    let factor = lighter.take_piece_multiplier as int;
    let light = lighter.outcomes.material(kind);
    let heavy = heavier.outcomes.material(kind);
    assert(light * factor <= heavy * factor) by (nonlinear_arith)
        requires
            light <= heavy,
            factor >= 0,
    ;
}

impl Default for Settings {
    fn default() -> (settings: Settings)
        ensures
            settings == Settings::standard(),
    {
        Settings {
            outcomes: Outcomes::default(),
            outcomes_multiplier: 250,
            take_piece_multiplier: 101,
            max_depth: 5,
            worker_count: 8,
        }
    }
}

} // verus!
