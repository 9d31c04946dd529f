//! Probabilistic outcome predictions: a three-way distribution over
//! home/draw/away with a confidence scalar, plus the per-model performance
//! ledger. All probabilities are fixed-point integers scaled by
//! [`crate::fixed::SCALE`].

use vstd::prelude::*;

use crate::errors::QuantsError;
use crate::ext;
use crate::fixed::PROB_ONE;

verus! {

/// Tolerance on the probability sum of a finalized distribution: one part in
/// a thousand of a whole probability.
pub const PROB_TOLERANCE: u64 = 1_000;

/// Fixed-point value of the first entry in `s` whose name reads `name`;
/// `None` when no entry does.
pub open spec fn spec_feature_get(s: Seq<(String, i64)>, name: Seq<char>) -> Option<i64>
    decreases s.len(),
{
    if s.len() == 0 {
        None
    } else if s[0].0@ == name {
        Some(s[0].1)
    } else {
        spec_feature_get(s.drop_first(), name)
    }
}

/// If none of the first `i` entries carries `name`, the lookup is decided by
/// the remainder of the list.
proof fn lemma_feature_get_skip(s: Seq<(String, i64)>, name: Seq<char>, i: int)
    requires
        0 <= i <= s.len(),
        forall|k: int| 0 <= k < i ==> s[k].0@ != name,
    ensures
        spec_feature_get(s, name) == spec_feature_get(s.skip(i), name),
    decreases i,
{
    if i > 0 {
        lemma_feature_get_skip(s, name, i - 1);
        assert(s.skip(i - 1).len() > 0);
        assert(s.skip(i - 1)[0] == s[i - 1]);
        assert(s.skip(i - 1).drop_first() =~= s.skip(i));
    } else {
        assert(s.skip(0) =~= s);
    }
}

/// Flat numeric snapshot of a match at one point in time: a list of
/// name/value pairs in which the first entry under a name wins, so that
/// recording a feature again shadows the earlier value.
#[derive(Debug, Clone)]
pub struct FeatureVector {
    pub match_id: String,
    pub features: Vec<(String, i64)>,
    pub timestamp: i64,
}

impl FeatureVector {
    /// The value this snapshot holds under `name`.
    pub open spec fn spec_get(&self, name: Seq<char>) -> Option<i64> {
        spec_feature_get(self.features@, name)
    }

    /// An empty snapshot for the given match.
    pub fn new(match_id: String, timestamp: i64) -> (r: FeatureVector)
        ensures
            r.features@.len() == 0,
            r.match_id == match_id,
            r.timestamp == timestamp,
    {
        FeatureVector { match_id, features: Vec::new(), timestamp }
    }

    /// Record `value` under `name`, shadowing any earlier entry of that name.
    pub fn set_feature(&mut self, name: &str, value: i64)
        ensures
            final(self).spec_get(name@) == Some(value),
            forall|other: Seq<char>| other != name@
                ==> final(self).spec_get(other) == old(self).spec_get(other),
            final(self).features@.len() == old(self).features@.len() + 1,
            final(self).match_id == old(self).match_id,
            final(self).timestamp == old(self).timestamp,
    {
        let pair = (name.to_string(), value);
        self.features.insert(0, pair);
        proof {
            assert(self.features@[0].0@ == name@);
            assert(self.features@.drop_first() =~= old(self).features@);
        }
    }

    /// Look a feature up by name; the first entry under the name wins.
    pub fn get_feature(&self, name: &str) -> (r: Option<i64>)
        ensures
            r == self.spec_get(name@),
    {
        let key: String = name.to_string();
        let n = self.features.len();
        let mut i: usize = 0;
        while i < n
            invariant
                n == self.features@.len(),
                i <= n,
                key@ == name@,
                forall|k: int| 0 <= k < i ==> self.features@[k].0@ != name@,
            decreases n - i,
        {
            if self.features[i].0 == key {
                proof {
                    lemma_feature_get_skip(self.features@, name@, i as int);
                    assert(self.features@.skip(i as int)[0] == self.features@[i as int]);
                }
                return Some(self.features[i].1);
            }
            i += 1;
        }
        proof {
            lemma_feature_get_skip(self.features@, name@, n as int);
            assert(self.features@.skip(n as int).len() == 0);
        }
        None
    }

    /// A feature value with a default of zero, the convention every model
    /// uses for an absent feature.
    pub fn feature_or_zero(&self, name: &str) -> (r: i64)
        ensures
            r == match self.spec_get(name@) {
                Some(v) => v,
                None => 0,
            },
    {
        match self.get_feature(name) {
            Some(v) => v,
            None => 0,
        }
    }
}

/// The outcome a distribution puts the most weight on.
#[derive(Debug, Clone, Copy, PartialEq, Eq, Structural)]
pub enum PredictedOutcome {
    HomeWin,
    Draw,
    AwayWin,
}

/// A three-way outcome distribution for one match, immutable once finalized.
#[derive(Debug, Clone)]
pub struct Prediction {
    pub id: String,
    pub match_id: String,
    pub model_name: String,
    pub model_version: String,
    pub home_win_prob: u64,
    pub draw_prob: Option<u64>,
    pub away_win_prob: u64,
    pub confidence: u64,
    pub expected_goals_home: Option<u64>,
    pub expected_goals_away: Option<u64>,
    pub features_used: Vec<String>,
    pub prediction_timestamp: i64,
    pub match_timestamp: i64,
}

impl Prediction {
    /// Sum of the probabilities that are present.
    pub open spec fn spec_prob_sum(&self) -> int {
        self.home_win_prob + self.away_win_prob + match self.draw_prob {
            Some(d) => d as int,
            None => 0,
        }
    }

    /// The invariant every constructed prediction satisfies: each present
    /// probability lies in `[0, 1]`, the set sums to 1 within
    /// [`PROB_TOLERANCE`], and the confidence lies in `[0, 1]`.
    pub open spec fn wf(&self) -> bool {
        &&& self.home_win_prob <= PROB_ONE
        &&& self.away_win_prob <= PROB_ONE
        &&& match self.draw_prob {
            Some(d) => d <= PROB_ONE,
            None => true,
        }
        &&& PROB_ONE - PROB_TOLERANCE <= self.spec_prob_sum() <= PROB_ONE + PROB_TOLERANCE
        &&& self.confidence <= PROB_ONE
    }

    /// Build a prediction from home and away probabilities; the draw
    /// probability is the remainder to a whole 1. Fails if and only if a
    /// probability is above 1 or the two sum above 1.
    pub fn new(
        match_id: String,
        model_name: String,
        model_version: String,
        home_win_prob: u64,
        away_win_prob: u64,
        match_timestamp: i64,
    ) -> (r: Result<Prediction, QuantsError>)
        ensures
            r is Ok <==> home_win_prob <= PROB_ONE && away_win_prob <= PROB_ONE
                && home_win_prob + away_win_prob <= PROB_ONE,
            r matches Err(e) ==> e is InvalidProbability,
            r matches Ok(p) ==> {
                &&& p.wf()
                &&& p.match_id == match_id
                &&& p.model_name == model_name
                &&& p.model_version == model_version
                &&& p.home_win_prob == home_win_prob
                &&& p.away_win_prob == away_win_prob
                &&& p.draw_prob == if home_win_prob + away_win_prob < PROB_ONE {
                    Some((PROB_ONE - home_win_prob - away_win_prob) as u64)
                } else {
                    None::<u64>
                }
                &&& p.confidence == 0
                &&& (p.expected_goals_home is None)
                &&& (p.expected_goals_away is None)
                &&& p.features_used@.len() == 0
                &&& p.match_timestamp == match_timestamp
            },
    {
        if home_win_prob > PROB_ONE {
            return Err(QuantsError::InvalidProbability { prob: home_win_prob });
        }
        if away_win_prob > PROB_ONE {
            return Err(QuantsError::InvalidProbability { prob: away_win_prob });
        }
        let total = home_win_prob + away_win_prob;
        if total > PROB_ONE {
            return Err(QuantsError::InvalidProbability { prob: total });
        }
        let draw_prob = if total < PROB_ONE {
            Some(PROB_ONE - total)
        } else {
            None
        };
        Ok(Prediction {
            id: ext::fresh_id(),
            match_id,
            model_name,
            model_version,
            home_win_prob,
            draw_prob,
            away_win_prob,
            confidence: 0,
            expected_goals_home: None,
            expected_goals_away: None,
            features_used: Vec::new(),
            prediction_timestamp: ext::now_unix_seconds(),
            match_timestamp,
        })
    }

    /// Replace the draw probability. Fails if and only if a probability is
    /// above 1 or the resulting sum leaves the tolerance band.
    pub fn with_draw_prob(self, draw_prob: u64) -> (r: Result<Prediction, QuantsError>)
        ensures
            r is Ok <==> draw_prob <= PROB_ONE && self.home_win_prob <= PROB_ONE
                && self.away_win_prob <= PROB_ONE
                && PROB_ONE - PROB_TOLERANCE
                    <= self.home_win_prob + self.away_win_prob + draw_prob
                && self.home_win_prob + self.away_win_prob + draw_prob
                    <= PROB_ONE + PROB_TOLERANCE,
            r matches Ok(p) ==> p == (Prediction { draw_prob: Some(draw_prob), ..self }),
            r matches Ok(p) ==> self.confidence <= PROB_ONE ==> p.wf(),
            r matches Err(e) ==> e is InvalidProbability,
    {
        if draw_prob > PROB_ONE {
            return Err(QuantsError::InvalidProbability { prob: draw_prob });
        }
        if self.home_win_prob > PROB_ONE {
            return Err(QuantsError::InvalidProbability { prob: self.home_win_prob });
        }
        if self.away_win_prob > PROB_ONE {
            return Err(QuantsError::InvalidProbability { prob: self.away_win_prob });
        }
        let total = self.home_win_prob + self.away_win_prob + draw_prob;
        if total < PROB_ONE - PROB_TOLERANCE || total > PROB_ONE + PROB_TOLERANCE {
            return Err(QuantsError::InvalidProbability { prob: total });
        }
        Ok(Prediction { draw_prob: Some(draw_prob), ..self })
    }

    /// Replace the confidence. Fails if and only if the value is above 1.
    pub fn with_confidence(self, confidence: u64) -> (r: Result<Prediction, QuantsError>)
        ensures
            r is Ok <==> confidence <= PROB_ONE,
            r matches Ok(p) ==> p == (Prediction { confidence, ..self }),
            r matches Ok(p) ==> self.wf() ==> p.wf(),
            r matches Err(e) ==> e is InvalidProbability,
    {
        if confidence > PROB_ONE {
            return Err(QuantsError::InvalidProbability { prob: confidence });
        }
        Ok(Prediction { confidence, ..self })
    }

    /// Attach an expected-goals pair.
    pub fn with_expected_goals(self, home_goals: u64, away_goals: u64) -> (r: Prediction)
        ensures
            r == (Prediction {
                expected_goals_home: Some(home_goals),
                expected_goals_away: Some(away_goals),
                ..self
            }),
    {
        Prediction {
            expected_goals_home: Some(home_goals),
            expected_goals_away: Some(away_goals),
            ..self
        }
    }

    /// Attach the list of feature names the model consumed.
    pub fn with_features(self, features: Vec<String>) -> (r: Prediction)
        ensures
            r == (Prediction { features_used: features, ..self }),
    {
        Prediction { features_used: features, ..self }
    }

    /// Whether the model's confidence reaches `threshold`.
    pub fn is_confident(&self, threshold: u64) -> (r: bool)
        ensures
            r == (self.confidence >= threshold),
    {
        self.confidence >= threshold
    }

    /// The draw probability, defaulted to zero when absent.
    pub open spec fn spec_draw_or_zero(&self) -> u64 {
        match self.draw_prob {
            Some(d) => d,
            None => 0,
        }
    }

    /// The outcome with the greatest probability; home wins ties against
    /// both others, away wins ties against the draw.
    pub fn most_likely_outcome(&self) -> (r: PredictedOutcome)
        ensures
            r == (if self.home_win_prob >= self.away_win_prob
                && self.home_win_prob >= self.spec_draw_or_zero() {
                PredictedOutcome::HomeWin
            } else if self.away_win_prob >= self.spec_draw_or_zero() {
                PredictedOutcome::AwayWin
            } else {
                PredictedOutcome::Draw
            }),
    {
        let home_prob = self.home_win_prob;
        let away_prob = self.away_win_prob;
        let draw_prob = match self.draw_prob {
            Some(d) => d,
            None => 0,
        };
        if home_prob >= away_prob && home_prob >= draw_prob {
            PredictedOutcome::HomeWin
        } else if away_prob >= draw_prob {
            PredictedOutcome::AwayWin
        } else {
            PredictedOutcome::Draw
        }
    }
}

/// Every well-formed prediction is a genuine distribution: each present
/// probability lies in `[0, 1]` and the set sums to 1 within the tolerance.
/// This is the statement the constructors establish and every consumer may
/// assume.
pub proof fn lemma_prediction_is_distribution(p: &Prediction)
    requires
        p.wf(),
    ensures
        0 <= p.home_win_prob <= PROB_ONE,
        0 <= p.away_win_prob <= PROB_ONE,
        (p.draw_prob matches Some(d) ==> 0 <= d <= PROB_ONE),
        PROB_ONE - PROB_TOLERANCE <= p.spec_prob_sum() <= PROB_ONE + PROB_TOLERANCE,
{
}

/// One entropy summand `p * (-log2 p)`: the logarithm kernel's value
/// rebased from nats to bits by `ln 2`, weighted by the probability.
pub open spec fn spec_entropy_term(p: int) -> int {
    p * crate::fixed::spec_neg_ln(p) / (crate::fixed::LN2_FIXED as int)
}

/// The base-2 Shannon entropy of a distribution's present, non-zero legs.
pub open spec fn spec_entropy(p: &Prediction) -> int {
    (if p.home_win_prob > 0 {
        spec_entropy_term(p.home_win_prob as int)
    } else {
        0
    }) + (if p.away_win_prob > 0 {
        spec_entropy_term(p.away_win_prob as int)
    } else {
        0
    }) + (match p.draw_prob {
        Some(d) => if d > 0 {
            spec_entropy_term(d as int)
        } else {
            0
        },
        None => 0,
    })
}

impl Prediction {
    /// Shannon entropy of the distribution in bits, fixed point; zero terms
    /// contribute nothing. The logarithm kernel is exact on dyadic
    /// probabilities, so an even two-way split scores exactly one whole
    /// bit. Exactly [`spec_entropy`].
    pub fn entropy(&self) -> (r: u64)
        requires
            self.wf(),
        ensures
            r == spec_entropy(self),
            r <= 66_000_000,
    {
        let mut entropy: u64 = 0;
        if self.home_win_prob > 0 {
            entropy = entropy + entropy_term(self.home_win_prob);
        }
        if self.away_win_prob > 0 {
            entropy = entropy + entropy_term(self.away_win_prob);
        }
        match self.draw_prob {
            Some(d) => {
                if d > 0 {
                    entropy = entropy + entropy_term(d);
                }
            }
            None => {}
        }
        entropy
    }
}

/// An even two-way split carries exactly one bit: each half contributes
/// exactly half a bit, since the logarithm kernel answers a dyadic
/// probability with a whole multiple of `ln 2`.
pub proof fn lemma_even_split_entropy_one_bit(p: &Prediction)
    requires
        p.home_win_prob == 500_000,
        p.away_win_prob == 500_000,
        p.draw_prob is None,
    ensures
        spec_entropy(p) == 1_000_000,
{
    assert(crate::fixed::spec_ln_norm(500_000) == 500_000);
    assert(crate::fixed::spec_ln_shift(500_000) == 0);
    assert(crate::fixed::spec_neg_ln(500_000) == crate::fixed::LN2_FIXED as int);
    assert(500_000int * (crate::fixed::LN2_FIXED as int) / (crate::fixed::LN2_FIXED as int)
        == 500_000) by (nonlinear_arith)
        requires (crate::fixed::LN2_FIXED as int) == 693_147;
    assert(spec_entropy_term(500_000) == 500_000);
}

/// One entropy summand `p * (-log2 p)`, fixed point; exactly
/// [`spec_entropy_term`].
fn entropy_term(p: u64) -> (r: u64)
    requires
        1 <= p <= PROB_ONE,
    ensures
        r == spec_entropy_term(p as int),
        r <= 22_000_000,
{
    let nl = crate::fixed::neg_ln_fixed(p);
    proof {
        let ghost pp = p as int;
        let ghost ll = nl as int;
        assert(0 <= pp * ll <= 15_000_000_000_000) by (nonlinear_arith)
            requires 0 <= pp <= 1_000_000, 0 <= ll <= 15_000_000;
        assert(pp * ll / (crate::fixed::LN2_FIXED as int) <= 22_000_000) by (nonlinear_arith)
            requires 0 <= pp * ll <= 15_000_000_000_000;
    }
    p * nl / crate::fixed::LN2_FIXED
}

/// Running quality metrics of one model, updated after each observed result.
#[derive(Debug, Clone)]
pub struct ModelPerformance {
    pub model_name: String,
    pub model_version: String,
    pub total_predictions: u32,
    pub correct_predictions: u32,
    /// Fraction of correct predictions, fixed-point in `[0, 1]`.
    pub accuracy: u64,
    pub log_loss: u64,
    pub brier_score: u64,
    pub roi: i64,
    pub sharpe_ratio: i64,
    pub max_drawdown: u64,
    /// Fixed-point; 1 for a perfectly calibrated model.
    pub calibration_slope: u64,
    pub calibration_intercept: i64,
    pub last_updated: i64,
}

impl ModelPerformance {
    /// A fresh ledger: no predictions yet, neutral calibration.
    pub fn new(model_name: String, model_version: String) -> (r: ModelPerformance)
        ensures
            r.model_name == model_name,
            r.model_version == model_version,
            r.total_predictions == 0,
            r.correct_predictions == 0,
            r.accuracy == 0,
            r.calibration_slope == PROB_ONE,
            r.calibration_intercept == 0,
    {
        ModelPerformance {
            model_name,
            model_version,
            total_predictions: 0,
            correct_predictions: 0,
            accuracy: 0,
            log_loss: 0,
            brier_score: 0,
            roi: 0,
            sharpe_ratio: 0,
            max_drawdown: 0,
            calibration_slope: PROB_ONE,
            calibration_intercept: 0,
            last_updated: ext::now_unix_seconds(),
        }
    }

    /// Count one more prediction and recompute the accuracy as the exact
    /// fixed-point ratio of correct to total.
    pub fn update_accuracy(&mut self, is_correct: bool)
        requires
            old(self).total_predictions < u32::MAX,
            old(self).correct_predictions <= old(self).total_predictions,
        ensures
            final(self).total_predictions == old(self).total_predictions + 1,
            final(self).correct_predictions == old(self).correct_predictions
                + if is_correct { 1int } else { 0int },
            final(self).accuracy == final(self).correct_predictions as int * PROB_ONE as int
                / final(self).total_predictions as int,
            *final(self) == (ModelPerformance {
                total_predictions: final(self).total_predictions,
                correct_predictions: final(self).correct_predictions,
                accuracy: final(self).accuracy,
                last_updated: final(self).last_updated,
                ..*old(self)
            }),
    {
        self.total_predictions = self.total_predictions + 1;
        if is_correct {
            self.correct_predictions = self.correct_predictions + 1;
        }
        let num: u64 = (self.correct_predictions as u64) * PROB_ONE;
        self.accuracy = num / (self.total_predictions as u64);
        self.last_updated = ext::now_unix_seconds();
    }

    /// Fold one squared error into the running Brier score: the new score is
    /// the weighted average `((n - 1) * old + (p - outcome)^2) / n` over the
    /// `n` predictions counted so far, exactly on the fixed-point grid.
    pub fn update_brier_score(&mut self, predicted_prob: u64, actual_outcome: bool)
        requires
            old(self).total_predictions > 0,
            predicted_prob <= PROB_ONE,
            old(self).brier_score <= PROB_ONE,
        ensures
            final(self).brier_score <= PROB_ONE,
            ({
                let outcome: int = if actual_outcome { PROB_ONE as int } else { 0 };
                let diff: int = if predicted_prob >= outcome {
                    predicted_prob - outcome
                } else {
                    outcome - predicted_prob
                };
                let n: int = old(self).total_predictions as int;
                final(self).brier_score
                    == ((n - 1) * old(self).brier_score + diff * diff / (PROB_ONE as int)) / n
            }),
            *final(self) == (ModelPerformance {
                brier_score: final(self).brier_score,
                ..*old(self)
            }),
    {
        let outcome_value: u64 = if actual_outcome { PROB_ONE } else { 0 };
        let diff: u64 = if predicted_prob >= outcome_value {
            predicted_prob - outcome_value
        } else {
            outcome_value - predicted_prob
        };
        proof {
            assert(diff <= PROB_ONE);
            assert(diff * diff <= 1_000_000_000_000) by (nonlinear_arith)
                requires diff <= 1_000_000u64;
        }
        let score: u64 = crate::fixed::mul_scale(diff, diff);
        let n: u64 = self.total_predictions as u64;
        proof {
            assert(score <= PROB_ONE) by {
                assert(diff * diff <= PROB_ONE * PROB_ONE) by (nonlinear_arith)
                    requires diff <= PROB_ONE;
            }
            let ghost b0 = old(self).brier_score;
            assert((n - 1) * b0 <= (n - 1) * PROB_ONE) by (nonlinear_arith)
                requires n >= 1, b0 <= PROB_ONE;
            assert((n - 1) * PROB_ONE + PROB_ONE == n * PROB_ONE) by (nonlinear_arith);
            assert(n * PROB_ONE <= 0x1_0000_0000u64 * PROB_ONE) by (nonlinear_arith)
                requires n <= 0x1_0000_0000u64;
        }
        // score and brier_score both lie in [0, 1]; the weighted average
        // ((n - 1) * brier + score) / n stays there.
        let num: u64 = (n - 1) * self.brier_score + score;
        let new_score: u64 = num / n;
        proof {
            let ghost b0 = old(self).brier_score;
            assert(num <= n * PROB_ONE);
            assert(num / n <= PROB_ONE) by (nonlinear_arith)
                requires num <= n * PROB_ONE, n >= 1u64;
        }
        self.brier_score = new_score;
    }

    /// Whether the calibration line is close to the identity: slope within
    /// 0.1 of 1 and intercept within 0.05 of 0.
    pub fn is_well_calibrated(&self) -> (r: bool)
        ensures
            r == (PROB_ONE - 100_000 < self.calibration_slope < PROB_ONE + 100_000
                && -50_000 < self.calibration_intercept < 50_000),
    {
        PROB_ONE - 100_000 < self.calibration_slope
            && self.calibration_slope < PROB_ONE + 100_000
            && -50_000 < self.calibration_intercept
            && self.calibration_intercept < 50_000
    }
}

} // verus!
