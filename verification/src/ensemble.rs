//! Ensembles of weighted algorithms.
//!
//! Each ensemble mode puts its own constraints on the weights. The weights
//! themselves are floating-point numbers, so the library takes what was
//! measured of them (how many there are, which first one is not finite,
//! whether any is negative, whether the total is one) and decides
//! which constraint, if any, is broken.
use vstd::prelude::*;

verus! {

/// The constraints an ensemble's weights must meet.
#[derive(Debug, Clone, Copy, PartialEq, Eq, Structural)]
pub enum EnsembleConfig {
    /// No limits on weights (can be negative, no sum requirement).
    Linear,
    /// Weights must be >= 0.0.
    Conical,
    /// Weights must sum to 1.0, but can be negative.
    Affine,
    /// Weights must sum to 1.0 and must be >= 0.0 (Probability Distribution).
    Convex,
}

/// What was measured of an ensemble's weights.
#[derive(Debug, Clone, Copy, PartialEq, Eq, Structural)]
pub struct WeightSummary {
    /// The number of weighted algorithms.
    pub count: usize,
    /// The position of the first weight that is not finite, if any.
    pub first_non_finite: Option<usize>,
    /// Whether some weight is below zero.
    pub has_negative: bool,
    /// Whether the weights add up to one, within the tolerance.
    pub total_is_one: bool,
}

/// The constraint an ensemble breaks.
#[derive(Debug, Clone, Copy, PartialEq, Eq, Structural)]
pub enum WeightProblem {
    /// There are no algorithms.
    Empty,
    /// The weight at this position is not finite.
    NonFinite(usize),
    /// A weight is negative where the mode forbids it.
    Negative,
    /// The weights do not add up to one where the mode asks for it.
    NotUnitSum,
}

impl EnsembleConfig {
    /// Whether the mode forbids negative weights.
    pub open spec fn nonnegative_only(self) -> bool {
        self == EnsembleConfig::Conical || self == EnsembleConfig::Convex
    }

    /// Whether the mode asks the weights to add up to one.
    pub open spec fn unit_sum(self) -> bool {
        self == EnsembleConfig::Affine || self == EnsembleConfig::Convex
    }

    /// The verdict on weights with summary `s`: the first broken
    /// constraint, in the order emptiness, finiteness, sign, total.
    pub open spec fn verdict(self, s: WeightSummary) -> Result<(), WeightProblem> {
        if s.count == 0 {
            Err(WeightProblem::Empty)
        } else if s.first_non_finite is Some {
            Err(WeightProblem::NonFinite(s.first_non_finite->0))
        } else if self.nonnegative_only() && s.has_negative {
            Err(WeightProblem::Negative)
        } else if self.unit_sum() && !s.total_is_one {
            Err(WeightProblem::NotUnitSum)
        } else {
            Ok(())
        }
    }

    /// Checks the weights with summary `s` against the mode.
    pub fn check_weights(self, s: WeightSummary) -> (r: Result<(), WeightProblem>)
        ensures r == self.verdict(s),
    {
        if s.count == 0 {
            return Err(WeightProblem::Empty);
        }
        if let Some(i) = s.first_non_finite {
            return Err(WeightProblem::NonFinite(i));
        }
        let nonnegative_only = match self {
            EnsembleConfig::Conical | EnsembleConfig::Convex => true,
            _ => false,
        };
        if nonnegative_only && s.has_negative {
            return Err(WeightProblem::Negative);
        }
        match self {
            EnsembleConfig::Affine | EnsembleConfig::Convex => {
                if s.total_is_one { Ok(()) } else { Err(WeightProblem::NotUnitSum) }
            },
            EnsembleConfig::Linear | EnsembleConfig::Conical => Ok(()),
        }
    }
}

/// The stricter modes accept less: weights accepted as convex are accepted
/// as affine and as conical, and weights accepted by any mode are accepted
/// as linear. Linear accepts every non-empty set of finite weights, and
/// conical refuses only negative ones.
pub proof fn law_convex_strictest(s: WeightSummary)
    ensures
        EnsembleConfig::Convex.verdict(s) is Ok ==> EnsembleConfig::Affine.verdict(s) is Ok,
        EnsembleConfig::Convex.verdict(s) is Ok ==> EnsembleConfig::Conical.verdict(s) is Ok,
        EnsembleConfig::Affine.verdict(s) is Ok ==> EnsembleConfig::Linear.verdict(s) is Ok,
        EnsembleConfig::Conical.verdict(s) is Ok ==> EnsembleConfig::Linear.verdict(s) is Ok,
        EnsembleConfig::Linear.verdict(s) is Ok <==> (s.count > 0 && s.first_non_finite is None),
        EnsembleConfig::Conical.verdict(s) is Ok <==> (s.count > 0 && s.first_non_finite is None && !s.has_negative),
{
}

} // verus!
