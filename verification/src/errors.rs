//! Error taxonomy of the decision pipeline: validation failures at entity
//! construction and "not found" conditions. Soft absences (no odds yet for a
//! fresh match) are not errors; they surface as zero-strength signals.

use vstd::prelude::*;

verus! {

/// Everything that can go wrong inside the core. Offending values are carried
/// as plain fixed-point integers rather than pre-rendered strings.
#[derive(Debug, Clone, PartialEq, Eq)]
pub enum QuantsError {
    /// Decimal odds outside the representable band `(1.0, 1000.0]`.
    InvalidOdds { odds: u64 },
    /// A probability outside `[0, 1]` or a distribution too far from 1.
    InvalidProbability { prob: u64 },
    /// A stake that is zero, negative, beyond the money ceiling, or beyond
    /// the available bankroll.
    InvalidStake { amount: i64 },
    /// No active bet or odds entry under the given identifier.
    MatchNotFound { match_id: String },
    /// A model could not turn features into a valid distribution.
    PredictionFailed { reason: String },
    /// A configuration value that the core cannot accept.
    Config { reason: String },
}

impl QuantsError {
    /// Stable short code for each variant, for logs and API surfaces that
    /// cannot see the enum.
    pub fn code(&self) -> (r: u32)
        ensures
            r == self.spec_code(),
    {
        match self {
            QuantsError::InvalidOdds { .. } => 1,
            QuantsError::InvalidProbability { .. } => 2,
            QuantsError::InvalidStake { .. } => 3,
            QuantsError::MatchNotFound { .. } => 4,
            QuantsError::PredictionFailed { .. } => 5,
            QuantsError::Config { .. } => 6,
        }
    }

    /// The code each variant maps to.
    pub open spec fn spec_code(&self) -> u32 {
        match self {
            QuantsError::InvalidOdds { .. } => 1,
            QuantsError::InvalidProbability { .. } => 2,
            QuantsError::InvalidStake { .. } => 3,
            QuantsError::MatchNotFound { .. } => 4,
            QuantsError::PredictionFailed { .. } => 5,
            QuantsError::Config { .. } => 6,
        }
    }
}

} // verus!
