//! The prediction models: a logistic-regression scorer, a Poisson goals
//! model, and the ensemble that blends them. Every predict path is proved to
//! deliver a valid three-way distribution; the Poisson weight arithmetic and
//! both weight-update rules are stated exactly.

use vstd::prelude::*;

use crate::errors::QuantsError;
use crate::ext;
use crate::fixed::{clamp_i64, clamp_u64, exp_fixed, neg_ln_fixed, normalize3, LN3_FIXED,
    PROB_ONE, SCALE};
use crate::predictions::{FeatureVector, Prediction};

verus! {

/// Outcome feedback handed back to a model after settlement.
#[derive(Debug, Clone)]
pub struct ModelFeedback {
    pub prediction_id: String,
    pub actual_outcome: bool,
    /// Reward signal, fixed point.
    pub reward: i64,
}

/// Magnitude of a reward signal as a mathematical integer.
pub open spec fn spec_reward_mag(reward: i64) -> int {
    if reward >= 0 {
        reward as int
    } else {
        -(reward as int)
    }
}

/// Ceiling on the magnitude of a logistic weight.
pub const MAX_WEIGHT: i64 = 1_000_000_000_000;

/// A weight after one multiplicative update step, saturated into the
/// representable band; the division truncates towards zero, as the machine
/// arithmetic does. The factor may be negative for a strongly punishing
/// reward, in which case the step flips the weight's sign.
pub open spec fn spec_weight_step(w: int, factor: int) -> int {
    let p = w * factor;
    let q = if p >= 0 {
        p / (SCALE as int)
    } else {
        -((-p) / (SCALE as int))
    };
    crate::fixed::spec_clamp(q, -MAX_WEIGHT as int, MAX_WEIGHT as int)
}

/// Copy a list of names with equality the verifier can see.
fn clone_names(v: &Vec<String>) -> (r: Vec<String>)
    ensures
        r@.len() == v@.len(),
        forall|i: int| 0 <= i < v@.len() ==> #[trigger] r@[i]@ == v@[i]@,
{
    let mut out: Vec<String> = Vec::new();
    let n = v.len();
    let mut i: usize = 0;
    while i < n
        invariant
            n == v@.len(),
            i <= n,
            out@.len() == i,
            forall|k: int| 0 <= k < i ==> #[trigger] out@[k]@ == v@[k]@,
        decreases n - i,
    {
        out.push(v[i].clone());
        i += 1;
    }
    out
}

/// Per-class weight vectors of the logistic model, seeded with small random
/// perturbations.
#[derive(Debug, Clone)]
pub struct ModelWeights {
    pub home_win: Vec<i64>,
    pub draw: Vec<i64>,
    pub away_win: Vec<i64>,
    pub learning_rate: i64,
    pub regularization: i64,
}

impl ModelWeights {
    /// Three vectors of thirty weights, each inside the representable band.
    pub open spec fn wf(&self) -> bool {
        &&& self.home_win@.len() == 30
        &&& self.draw@.len() == 30
        &&& self.away_win@.len() == 30
        &&& forall|i: int| 0 <= i < 30 ==> -MAX_WEIGHT <= #[trigger] self.home_win@[i] <= MAX_WEIGHT
        &&& forall|i: int| 0 <= i < 30 ==> -MAX_WEIGHT <= #[trigger] self.draw@[i] <= MAX_WEIGHT
        &&& forall|i: int| 0 <= i < 30 ==> -MAX_WEIGHT <= #[trigger] self.away_win@[i] <= MAX_WEIGHT
        &&& 0 <= self.learning_rate <= SCALE
    }
}

/// One vector of thirty small random weights in `(-0.01, 0.01)`.
fn seeded_weights() -> (r: Vec<i64>)
    ensures
        r@.len() == 30,
        forall|i: int| 0 <= i < 30 ==> -10_000 <= #[trigger] r@[i] <= 10_000,
{
    let mut out: Vec<i64> = Vec::new();
    let mut i: usize = 0;
    while i < 30
        invariant
            i <= 30,
            out@.len() == i,
            forall|k: int| 0 <= k < i ==> -10_000 <= #[trigger] out@[k] <= 10_000,
        decreases 30 - i,
    {
        let raw = ext::random_in_range(0, 20_001);
        out.push((raw as i64) - 10_000);
        i += 1;
    }
    out
}

impl Default for ModelWeights {
    /// Random small seeds, learning rate 0.001, regularization 0.01.
    /// Whatever the draws, every seed lies inside the small band.
    fn default() -> (r: ModelWeights)
        ensures
            r.wf(),
            r.learning_rate == 1_000,
            r.regularization == 10_000,
            forall|i: int| 0 <= i < 30 ==> -10_000 <= #[trigger] r.home_win@[i] <= 10_000,
            forall|i: int| 0 <= i < 30 ==> -10_000 <= #[trigger] r.draw@[i] <= 10_000,
            forall|i: int| 0 <= i < 30 ==> -10_000 <= #[trigger] r.away_win@[i] <= 10_000,
    {
        ModelWeights {
            home_win: seeded_weights(),
            draw: seeded_weights(),
            away_win: seeded_weights(),
            learning_rate: 1_000,
            regularization: 10_000,
        }
    }
}

/// Dot product of a weight vector with a feature vector, accumulated with
/// saturation and clamped into the logit band the exponential kernel takes.
fn dot_logit(weights: &Vec<i64>, values: &Vec<i64>) -> (r: i64)
    requires
        weights@.len() == values@.len(),
    ensures
        r == spec_dot_logit(weights@, values@),
        -20_000_000 <= r <= 20_000_000,
{
    let n = weights.len();
    let mut acc: i128 = 0;
    let mut i: usize = 0;
    while i < n
        invariant
            n == weights@.len(),
            n == values@.len(),
            i <= n,
            acc as int == spec_dot_prefix(weights@, values@, i as int),
            -2_000_000_000_000_000_000i128 <= acc <= 2_000_000_000_000_000_000i128,
        decreases n - i,
    {
        proof {
            let ghost w = weights@[i as int] as int;
            let ghost x = values@[i as int] as int;
            assert(w * x <= 0x4000_0000_0000_0000_0000_0000_0000_0000int
                && w * x >= -0x4000_0000_0000_0000_0000_0000_0000_0000int) by (nonlinear_arith)
                requires
                    -0x8000_0000_0000_0000int <= w <= 0x8000_0000_0000_0000int,
                    -0x8000_0000_0000_0000int <= x <= 0x8000_0000_0000_0000int;
        }
        let prod: i128 = (weights[i] as i128) * (values[i] as i128);
        let term: i128 = if prod >= 0 {
            prod / (SCALE as i128)
        } else {
            -((-prod) / (SCALE as i128))
        };
        let wide: i128 = acc + term;
        acc = if wide > 2_000_000_000_000_000_000 {
            2_000_000_000_000_000_000
        } else if wide < -2_000_000_000_000_000_000 {
            -2_000_000_000_000_000_000
        } else {
            wide
        };
        proof {
            assert(acc as int == spec_dot_prefix(weights@, values@, i as int + 1));
        }
        i += 1;
    }
    if acc > 20_000_000 {
        20_000_000
    } else if acc < -20_000_000 {
        -20_000_000
    } else {
        acc as i64
    }
}

/// Three probabilities clamped into the plausible band `[0.01, 0.98]` and
/// divided by their sum on the fixed-point grid.
pub open spec fn spec_clamp_norm(h: int, d: int, a: int) -> (int, int, int) {
    let hc = crate::fixed::spec_clamp(h, 10_000, 980_000);
    let dc = crate::fixed::spec_clamp(d, 10_000, 980_000);
    let ac = crate::fixed::spec_clamp(a, 10_000, 980_000);
    let t = hc + dc + ac;
    (hc * (SCALE as int) / t, dc * (SCALE as int) / t, ac * (SCALE as int) / t)
}

/// The value a model reads for a named feature: the snapshot's entry, or
/// zero when absent.
pub open spec fn spec_feature_at(fv: &FeatureVector, name: Seq<char>) -> i64 {
    match fv.spec_get(name) {
        Some(v) => v,
        None => 0,
    }
}

/// The feature row a model consumes: the snapshot's values in the model's
/// name order, absent names reading zero.
pub open spec fn spec_row(names: Seq<String>, fv: &FeatureVector) -> Seq<i64> {
    Seq::new(names.len(), |i: int| spec_feature_at(fv, names[i]@))
}

/// The saturating dot-product accumulator over the first `i` coordinates:
/// each scaled product truncates towards zero and the running sum
/// saturates well inside the wide band.
pub open spec fn spec_dot_prefix(ws: Seq<i64>, xs: Seq<i64>, i: int) -> int
    decreases i,
{
    if i <= 0 {
        0
    } else {
        let term = crate::fixed::spec_div_trunc(ws[i - 1] * xs[i - 1], SCALE as int);
        crate::fixed::spec_clamp(
            spec_dot_prefix(ws, xs, i - 1) + term,
            -2_000_000_000_000_000_000,
            2_000_000_000_000_000_000,
        )
    }
}

/// A class logit: the saturating dot product clamped into the band the
/// exponential kernel takes.
pub open spec fn spec_dot_logit(ws: Seq<i64>, xs: Seq<i64>) -> int {
    crate::fixed::spec_clamp(spec_dot_prefix(ws, xs, ws.len() as int), -20_000_000, 20_000_000)
}

/// The three-way soft-max on the fixed-point grid: each logit shifted by
/// the maximum, sent through the exponential kernel, and normalized.
pub open spec fn spec_softmax3(hl: int, dl: int, al: int) -> (int, int, int) {
    let m = if hl >= dl && hl >= al {
        hl
    } else if dl >= al {
        dl
    } else {
        al
    };
    crate::fixed::spec_norm3(
        crate::fixed::spec_exp(hl - m),
        crate::fixed::spec_exp(dl - m),
        crate::fixed::spec_exp(al - m),
    )
}

/// The logistic model's three outcome probabilities on a snapshot: logits
/// over the feature row, soft-max, then the shared clamp-and-normalize.
pub open spec fn spec_logistic_probs(
    m: &LogisticRegressionModel,
    fv: &FeatureVector,
) -> (int, int, int) {
    let xs = spec_row(m.feature_names@, fv);
    let st = spec_softmax3(
        spec_dot_logit(m.weights.home_win@, xs),
        spec_dot_logit(m.weights.draw@, xs),
        spec_dot_logit(m.weights.away_win@, xs),
    );
    spec_clamp_norm(st.0, st.1, st.2)
}

/// Confidence from a distribution's entropy: `1 - H / ln 3` through the
/// logarithm kernel, floored at zero.
pub open spec fn spec_entropy_confidence(h: int, d: int, a: int) -> int {
    let e = h * crate::fixed::spec_neg_ln(h) / (SCALE as int)
        + d * crate::fixed::spec_neg_ln(d) / (SCALE as int)
        + a * crate::fixed::spec_neg_ln(a) / (SCALE as int);
    let ratio = e * (SCALE as int) / (LN3_FIXED as int);
    if ratio >= PROB_ONE {
        0
    } else {
        (PROB_ONE as int) - ratio
    }
}

/// Clamp three probabilities into the plausible band `[0.01, 0.98]` and
/// renormalize them into a distribution; the workhorse every model's final
/// step shares. Exactly [`spec_clamp_norm`].
fn clamp_and_normalize(h: u64, d: u64, a: u64) -> (r: (u64, u64, u64))
    ensures
        ({
            let c = spec_clamp_norm(h as int, d as int, a as int);
            r.0 == c.0 && r.1 == c.1 && r.2 == c.2
        }),
        1 <= r.0 <= PROB_ONE && 1 <= r.1 <= PROB_ONE && 1 <= r.2 <= PROB_ONE,
        (PROB_ONE as int) - 3 <= r.0 + r.1 + r.2 <= PROB_ONE,
{
    let hc = clamp_u64(h, 10_000, 980_000);
    let dc = clamp_u64(d, 10_000, 980_000);
    let ac = clamp_u64(a, 10_000, 980_000);
    let r = normalize3(hc, dc, ac);
    proof {
        let ghost t = hc as int + dc as int + ac as int;
        let ghost sc = SCALE as int;
        assert(hc * sc / t >= 1 && dc * sc / t >= 1 && ac * sc / t >= 1)
            by (nonlinear_arith)
            requires
                10_000 <= hc,
                10_000 <= dc,
                10_000 <= ac,
                3 <= t <= 2_940_000,
                sc == 1_000_000;
    }
    r
}

/// Confidence from the entropy of a distribution: `1 - H / ln 3`, clamped
/// into `[0, 1]`; a peaked distribution scores near 1.
fn entropy_confidence(h: u64, d: u64, a: u64) -> (r: u64)
    requires
        1 <= h <= PROB_ONE,
        1 <= d <= PROB_ONE,
        1 <= a <= PROB_ONE,
    ensures
        r == spec_entropy_confidence(h as int, d as int, a as int),
        r <= PROB_ONE,
{
    let nh = neg_ln_fixed(h);
    let nd = neg_ln_fixed(d);
    let na = neg_ln_fixed(a);
    proof {
        let ghost hh = h as int;
        let ghost dd = d as int;
        let ghost aa = a as int;
        let ghost x = nh as int;
        let ghost y = nd as int;
        let ghost z = na as int;
        assert(0 <= hh * x <= 15_000_000_000_000
            && 0 <= dd * y <= 15_000_000_000_000
            && 0 <= aa * z <= 15_000_000_000_000) by (nonlinear_arith)
            requires
                0 <= hh <= 1_000_000,
                0 <= dd <= 1_000_000,
                0 <= aa <= 1_000_000,
                0 <= x <= 15_000_000,
                0 <= y <= 15_000_000,
                0 <= z <= 15_000_000;
    }
    let eh: u64 = h * nh / SCALE;
    let ed: u64 = d * nd / SCALE;
    let ea: u64 = a * na / SCALE;
    let entropy: u64 = eh + ed + ea;
    let ratio: u64 = entropy * SCALE / LN3_FIXED;
    if ratio >= PROB_ONE {
        0
    } else {
        PROB_ONE - ratio
    }
}

/// Logistic-regression scorer: three per-class weight vectors over the
/// thirty named features, soft-max probabilities, entropy confidence.
#[derive(Debug)]
pub struct LogisticRegressionModel {
    pub name: String,
    pub version: String,
    pub weights: ModelWeights,
    pub feature_names: Vec<String>,
}

/// Whether a name list is exactly the thirty standard feature names, in
/// their documented order.
pub open spec fn spec_standard_feature_names(names: Seq<String>) -> bool {
    &&& names.len() == 30
    &&& names[0]@ == "minute"@
    &&& names[1]@ == "home_score"@
    &&& names[2]@ == "away_score"@
    &&& names[3]@ == "score_difference"@
    &&& names[4]@ == "total_goals"@
    &&& names[5]@ == "momentum"@
    &&& names[6]@ == "intensity"@
    &&& names[7]@ == "game_phase"@
    &&& names[8]@ == "time_pressure"@
    &&& names[9]@ == "home_elo"@
    &&& names[10]@ == "away_elo"@
    &&& names[11]@ == "elo_difference"@
    &&& names[12]@ == "home_attack"@
    &&& names[13]@ == "home_defense"@
    &&& names[14]@ == "away_attack"@
    &&& names[15]@ == "away_defense"@
    &&& names[16]@ == "home_expected_goals"@
    &&& names[17]@ == "away_expected_goals"@
    &&& names[18]@ == "home_form"@
    &&& names[19]@ == "away_form"@
    &&& names[20]@ == "form_difference"@
    &&& names[21]@ == "home_discipline"@
    &&& names[22]@ == "away_discipline"@
    &&& names[23]@ == "match_status"@
    &&& names[24]@ == "event_influence"@
    &&& names[25]@ == "home_advantage"@
    &&& names[26]@ == "hour_of_day"@
    &&& names[27]@ == "is_evening"@
    &&& names[28]@ == "day_of_week"@
    &&& names[29]@ == "league_competitiveness"@
}

impl LogisticRegressionModel {
    /// Weights and the feature-name list agree on the width thirty.
    pub open spec fn wf(&self) -> bool {
        &&& self.weights.wf()
        &&& self.feature_names@.len() == 30
    }

    /// A fresh model over the thirty standard features: the documented name
    /// list in order, random seed weights inside the small band, learning
    /// rate 0.001 and regularization 0.01.
    pub fn new() -> (r: LogisticRegressionModel)
        ensures
            r.wf(),
            r.name@ == "LogisticRegression"@,
            r.version@ == "v1.0"@,
            spec_standard_feature_names(r.feature_names@),
            r.weights.learning_rate == 1_000,
            r.weights.regularization == 10_000,
            forall|i: int| 0 <= i < 30
                ==> -10_000 <= #[trigger] r.weights.home_win@[i] <= 10_000,
            forall|i: int| 0 <= i < 30 ==> -10_000 <= #[trigger] r.weights.draw@[i] <= 10_000,
            forall|i: int| 0 <= i < 30
                ==> -10_000 <= #[trigger] r.weights.away_win@[i] <= 10_000,
    {
        let mut names: Vec<String> = Vec::new();
        names.push("minute".to_string());
        names.push("home_score".to_string());
        names.push("away_score".to_string());
        names.push("score_difference".to_string());
        names.push("total_goals".to_string());
        names.push("momentum".to_string());
        names.push("intensity".to_string());
        names.push("game_phase".to_string());
        names.push("time_pressure".to_string());
        names.push("home_elo".to_string());
        names.push("away_elo".to_string());
        names.push("elo_difference".to_string());
        names.push("home_attack".to_string());
        names.push("home_defense".to_string());
        names.push("away_attack".to_string());
        names.push("away_defense".to_string());
        names.push("home_expected_goals".to_string());
        names.push("away_expected_goals".to_string());
        names.push("home_form".to_string());
        names.push("away_form".to_string());
        names.push("form_difference".to_string());
        names.push("home_discipline".to_string());
        names.push("away_discipline".to_string());
        names.push("match_status".to_string());
        names.push("event_influence".to_string());
        names.push("home_advantage".to_string());
        names.push("hour_of_day".to_string());
        names.push("is_evening".to_string());
        names.push("day_of_week".to_string());
        names.push("league_competitiveness".to_string());
        LogisticRegressionModel {
            name: "LogisticRegression".to_string(),
            version: "v1.0".to_string(),
            weights: ModelWeights::default(),
            feature_names: names,
        }
    }

    /// The model's name.
    pub fn model_name(&self) -> (r: &str)
        ensures
            r@ == self.name@,
    {
        self.name.as_str()
    }

    /// The model's version.
    pub fn model_version(&self) -> (r: &str)
        ensures
            r@ == self.version@,
    {
        self.version.as_str()
    }

    /// The named features in the model's order, absent ones read as zero;
    /// exactly the row [`spec_row`] describes.
    fn extract_feature_vector(&self, features: &FeatureVector) -> (r: Vec<i64>)
        ensures
            r@ == spec_row(self.feature_names@, features),
            r@.len() == self.feature_names@.len(),
    {
        let n = self.feature_names.len();
        let mut out: Vec<i64> = Vec::new();
        let mut i: usize = 0;
        while i < n
            invariant
                n == self.feature_names@.len(),
                i <= n,
                out@.len() == i,
                forall|k: int| 0 <= k < i
                    ==> #[trigger] out@[k] == spec_feature_at(features, self.feature_names@[k]@),
            decreases n - i,
        {
            out.push(features.feature_or_zero(self.feature_names[i].as_str()));
            i += 1;
        }
        proof {
            assert(out@ =~= spec_row(self.feature_names@, features));
        }
        out
    }

    /// Score one snapshot: logits per class, soft-max through the
    /// exponential kernel, clamp and renormalize, entropy confidence. Always
    /// delivers a well-formed prediction.
    pub fn predict(&self, features: &FeatureVector) -> (r: Result<Prediction, QuantsError>)
        requires
            self.wf(),
        ensures
            r is Ok,
            r matches Ok(p) ==> {
                let pr = spec_logistic_probs(self, features);
                &&& p.wf()
                &&& p.match_id == features.match_id
                &&& p.model_name@ == self.name@
                &&& p.model_version@ == self.version@
                &&& p.match_timestamp == features.timestamp
                &&& p.features_used@.len() == self.feature_names@.len()
                &&& p.home_win_prob == pr.0
                &&& p.draw_prob == Some(pr.1 as u64)
                &&& p.away_win_prob == pr.2
                &&& p.home_win_prob >= 1
                &&& p.away_win_prob >= 1
                &&& pr.1 >= 1
                &&& p.confidence == spec_entropy_confidence(pr.0, pr.1, pr.2)
                &&& (p.expected_goals_home is None)
                &&& (p.expected_goals_away is None)
            },
    {
        let x = self.extract_feature_vector(features);
        let home_logit = dot_logit(&self.weights.home_win, &x);
        let draw_logit = dot_logit(&self.weights.draw, &x);
        let away_logit = dot_logit(&self.weights.away_win, &x);

        // Soft-max, shifted by the maximum logit for stability.
        let max_logit = if home_logit >= draw_logit && home_logit >= away_logit {
            home_logit
        } else if draw_logit >= away_logit {
            draw_logit
        } else {
            away_logit
        };
        let eh = exp_fixed(home_logit - max_logit);
        let ed = exp_fixed(draw_logit - max_logit);
        let ea = exp_fixed(away_logit - max_logit);
        let (sh, sd, sa) = normalize3(eh, ed, ea);

        let (h, d, a) = clamp_and_normalize(sh, sd, sa);
        let confidence = entropy_confidence(h, d, a);

        let base = match Prediction::new(
            features.match_id.clone(),
            self.name.clone(),
            self.version.clone(),
            h,
            a,
            features.timestamp,
        ) {
            Ok(p) => p,
            Err(e) => {
                return Err(e);
            }
        };
        let with_draw = match base.with_draw_prob(d) {
            Ok(p) => p,
            Err(e) => {
                return Err(e);
            }
        };
        let with_conf = match with_draw.with_confidence(confidence) {
            Ok(p) => p,
            Err(e) => {
                return Err(e);
            }
        };
        Ok(with_conf.with_features(clone_names(&self.feature_names)))
    }

    /// Nudge all three weight vectors multiplicatively by the reward: a
    /// positive outcome scales them up, a negative one down, the draw class
    /// by half as much. Each step is exactly [`spec_weight_step`] at the
    /// factors of [`spec_logistic_updated`].
    pub fn update_weights(&mut self, feedback: &ModelFeedback)
        requires
            old(self).wf(),
        ensures
            final(self).wf(),
            final(self).name == old(self).name,
            final(self).version == old(self).version,
            final(self).feature_names == old(self).feature_names,
            final(self).weights.learning_rate == old(self).weights.learning_rate,
            spec_logistic_updated(&old(self).weights, &final(self).weights, feedback),
    {
        let rmag: u64 = if feedback.reward >= 0 {
            feedback.reward as u64
        } else {
            (-(feedback.reward as i128)) as u64
        };
        proof {
            assert(rmag == spec_reward_mag(feedback.reward));
            let ghost r = rmag as int;
            let ghost lr = self.weights.learning_rate as int;
            assert(0 <= r * lr <= r * 1_000_000) by (nonlinear_arith)
                requires 0 <= r, 0 <= lr <= 1_000_000;
            assert(r * lr / (SCALE as int) <= r) by (nonlinear_arith)
                requires 0 <= r * lr <= r * 1_000_000;
        }
        let adjmag: u64 = ((rmag as u128) * (self.weights.learning_rate as u128)
            / (SCALE as u128)) as u64;
        proof {
            assert(rmag <= 9_223_372_036_854_775_808u64);
            assert(adjmag <= rmag);
            assert(adjmag / 10 <= 922_337_203_685_477_580u64);
            assert(adjmag / 20 <= 461_168_601_842_738_790u64);
        }
        let up = feedback.actual_outcome == (feedback.reward >= 0);
        let main_factor: i64 = if up {
            (SCALE as i64) + (adjmag / 10) as i64
        } else {
            (SCALE as i64) - (adjmag / 10) as i64
        };
        let draw_factor: i64 = if up {
            (SCALE as i64) + (adjmag / 20) as i64
        } else {
            (SCALE as i64) - (adjmag / 20) as i64
        };
        let hw = scale_weights(&self.weights.home_win, main_factor);
        let dw = scale_weights(&self.weights.draw, draw_factor);
        let aw = scale_weights(&self.weights.away_win, main_factor);
        self.weights.home_win = hw;
        self.weights.draw = dw;
        self.weights.away_win = aw;
    }
}

/// Multiply every weight by `factor` on the fixed-point grid, saturating
/// into the representable band.
fn scale_weights(weights: &Vec<i64>, factor: i64) -> (r: Vec<i64>)
    requires
        weights@.len() == 30,
        -1_000_000_000_000_000_000 <= factor <= 1_000_000_000_000_000_000,
        forall|i: int| 0 <= i < 30 ==> -MAX_WEIGHT <= #[trigger] weights@[i] <= MAX_WEIGHT,
    ensures
        r@.len() == 30,
        forall|i: int| 0 <= i < 30 ==> #[trigger] r@[i]
            == spec_weight_step(weights@[i] as int, factor as int),
        forall|i: int| 0 <= i < 30 ==> -MAX_WEIGHT <= #[trigger] r@[i] <= MAX_WEIGHT,
    decreases 0int,
{
    let mut out: Vec<i64> = Vec::new();
    let mut i: usize = 0;
    while i < 30
        invariant
            weights@.len() == 30,
            -1_000_000_000_000_000_000 <= factor <= 1_000_000_000_000_000_000,
            forall|k: int| 0 <= k < 30 ==> -MAX_WEIGHT <= #[trigger] weights@[k] <= MAX_WEIGHT,
            i <= 30,
            out@.len() == i,
            forall|k: int| 0 <= k < i ==> #[trigger] out@[k]
                == spec_weight_step(weights@[k] as int, factor as int),
            forall|k: int| 0 <= k < i ==> -MAX_WEIGHT <= #[trigger] out@[k] <= MAX_WEIGHT,
        decreases 30 - i,
    {
        proof {
            let ghost w = weights@[i as int] as int;
            let ghost f = factor as int;
            assert(-0x4000_0000_0000_0000_0000_0000_0000_0000 <= w * f
                <= 0x4000_0000_0000_0000_0000_0000_0000_0000)
                by (nonlinear_arith)
                requires
                    -MAX_WEIGHT <= w <= MAX_WEIGHT,
                    -1_000_000_000_000_000_000 <= f <= 1_000_000_000_000_000_000;
        }
        let prod: i128 = (weights[i] as i128) * (factor as i128);
        let wide: i128 = if prod >= 0 {
            prod / (SCALE as i128)
        } else {
            -((-prod) / (SCALE as i128))
        };
        let clamped: i64 = if wide > (MAX_WEIGHT as i128) {
            MAX_WEIGHT
        } else if wide < (-MAX_WEIGHT) as i128 {
            -MAX_WEIGHT
        } else {
            wide as i64
        };
        proof {
            assert(clamped == spec_weight_step(weights@[i as int] as int, factor as int));
        }
        out.push(clamped);
        i += 1;
    }
    out
}

/// The multiplicative logistic update: the reward magnitude scaled by the
/// learning rate moves every weight up on a correctly-signed outcome and
/// down otherwise, the draw class at half rate.
pub open spec fn spec_logistic_updated(
    w0: &ModelWeights,
    w1: &ModelWeights,
    feedback: &ModelFeedback,
) -> bool {
    let adjmag = spec_reward_mag(feedback.reward) * w0.learning_rate / (SCALE as int);
    let up = feedback.actual_outcome == (feedback.reward >= 0);
    let main_factor = if up {
        (SCALE as int) + adjmag / 10
    } else {
        (SCALE as int) - adjmag / 10
    };
    let draw_factor = if up {
        (SCALE as int) + adjmag / 20
    } else {
        (SCALE as int) - adjmag / 20
    };
    &&& (forall|i: int| 0 <= i < 30 ==> #[trigger] w1.home_win@[i]
        == spec_weight_step(w0.home_win@[i] as int, main_factor))
    &&& (forall|i: int| 0 <= i < 30 ==> #[trigger] w1.draw@[i]
        == spec_weight_step(w0.draw@[i] as int, draw_factor))
    &&& (forall|i: int| 0 <= i < 30 ==> #[trigger] w1.away_win@[i]
        == spec_weight_step(w0.away_win@[i] as int, main_factor))
}

/// Unnormalized Poisson weight of `k` goals at rate `lambda`:
/// `lambda^k / k!` on the fixed-point grid, one factor at a time.
pub open spec fn spec_poisson_weight(lambda: int, k: int) -> int
    decreases k,
{
    if k <= 0 {
        SCALE as int
    } else {
        spec_poisson_weight(lambda, k - 1) * lambda / (k * (SCALE as int))
    }
}

/// A coarse ceiling on the Poisson weight after `j` factors of a rate at
/// most 100: each factor multiplies by at most 100.
pub open spec fn spec_weight_bound(j: int) -> int
    decreases j,
{
    if j <= 0 {
        1_000_000
    } else {
        100 * spec_weight_bound(j - 1)
    }
}

/// Executable Poisson weight, exactly [`spec_poisson_weight`].
fn poisson_weight(lambda: u64, k: u32) -> (r: u64)
    requires
        lambda <= 100_000_000,
        k <= 6,
    ensures
        r == spec_poisson_weight(lambda as int, k as int),
        r <= 1_000_000_000_000_000_000,
{
    proof {
        assert(spec_weight_bound(0) == 1_000_000);
        assert(spec_weight_bound(1) == 100_000_000);
        assert(spec_weight_bound(2) == 10_000_000_000);
        assert(spec_weight_bound(3) == 1_000_000_000_000);
        assert(spec_weight_bound(4) == 100_000_000_000_000);
        assert(spec_weight_bound(5) == 10_000_000_000_000_000);
        assert(spec_weight_bound(6) == 1_000_000_000_000_000_000);
    }
    let mut t: u64 = SCALE;
    let mut j: u32 = 0;
    while j < k
        invariant
            lambda <= 100_000_000,
            k <= 6,
            j <= k,
            t == spec_poisson_weight(lambda as int, j as int),
            t <= spec_weight_bound(j as int),
            spec_weight_bound(6) == 1_000_000_000_000_000_000,
        decreases k - j,
    {
        proof {
            let ghost tt = t as int;
            let ghost ll = lambda as int;
            let ghost jj = (j + 1) as int;
            assert(spec_weight_bound(j as int) <= spec_weight_bound(6)) by {
                lemma_weight_bound_mono(j as int, 6);
            }
            assert(0 <= tt * ll <= 100_000_000_000_000_000_000_000_000) by (nonlinear_arith)
                requires 0 <= tt <= 1_000_000_000_000_000_000, 0 <= ll <= 100_000_000;
            assert(tt * ll / (jj * (SCALE as int)) <= tt * ll / (SCALE as int))
                by (nonlinear_arith)
                requires tt * ll >= 0, jj >= 1;
            assert(tt * ll / (SCALE as int) <= tt * 100) by (nonlinear_arith)
                requires 0 <= tt, 0 <= ll <= 100_000_000;
            assert(tt * 100 <= spec_weight_bound(j as int) * 100) by (nonlinear_arith)
                requires 0 <= tt <= spec_weight_bound(j as int);
            assert(spec_weight_bound(j as int + 1) == 100 * spec_weight_bound(j as int));
            assert(spec_weight_bound(j as int + 1) <= spec_weight_bound(6)) by {
                lemma_weight_bound_mono(j as int + 1, 6);
            }
        }
        let wide: u128 = (t as u128) * (lambda as u128)
            / (((j + 1) as u128) * (SCALE as u128));
        t = wide as u64;
        proof {
            assert(spec_poisson_weight(lambda as int, j as int + 1)
                == spec_poisson_weight(lambda as int, j as int) * (lambda as int)
                    / ((j as int + 1) * (SCALE as int)));
        }
        j += 1;
    }
    proof {
        lemma_weight_bound_mono(k as int, 6);
    }
    t
}

/// The weight ceiling is at least one whole unit.
proof fn lemma_weight_bound_pos(i: int)
    requires
        0 <= i,
    ensures
        spec_weight_bound(i) >= 1_000_000,
    decreases i,
{
    if i > 0 {
        lemma_weight_bound_pos(i - 1);
        assert(spec_weight_bound(i) == 100 * spec_weight_bound(i - 1));
        assert(100 * spec_weight_bound(i - 1) >= spec_weight_bound(i - 1))
            by (nonlinear_arith)
            requires spec_weight_bound(i - 1) >= 0;
    }
}

/// The weight ceiling grows with the number of factors.
proof fn lemma_weight_bound_mono(i: int, j: int)
    requires
        0 <= i <= j,
    ensures
        spec_weight_bound(i) <= spec_weight_bound(j),
        spec_weight_bound(i) >= 1_000_000,
    decreases j - i,
{
    lemma_weight_bound_pos(i);
    if i < j {
        lemma_weight_bound_mono(i, j - 1);
        assert(spec_weight_bound(j) == 100 * spec_weight_bound(j - 1));
        assert(spec_weight_bound(j - 1) <= 100 * spec_weight_bound(j - 1)) by (nonlinear_arith)
            requires spec_weight_bound(j - 1) >= 0;
    }
}

/// A goal rate adjusted by a feature factor clamped into the strength band.
pub open spec fn spec_rate_factor(v: Option<i64>) -> int {
    match v {
        Some(x) => crate::fixed::spec_clamp(x as int, 100_000, 3_000_000),
        None => SCALE as int,
    }
}

/// The adjusted home rate: base times home attack, away defense, and the
/// home-advantage flag, each on the fixed-point grid.
pub open spec fn spec_adjusted_rate(base: int, f1: int, f2: int, f3: int) -> int {
    base * f1 / (SCALE as int) * f2 / (SCALE as int) * f3 / (SCALE as int)
}

/// Poisson goals model: independent home and away rates, outcome
/// probabilities from a 7x7 scoreline grid.
#[derive(Debug)]
pub struct PoissonModel {
    pub name: String,
    pub version: String,
    /// Home goal rate, fixed point in `[0.5, 3.0]`.
    pub lambda_home: u64,
    /// Away goal rate, fixed point in `[0.5, 3.0]`.
    pub lambda_away: u64,
}

/// The home rate after feedback: a hundredth of the reward, added on a
/// correct call, half of it removed otherwise, kept inside `[0.5, 3]`.
pub open spec fn spec_lambda_home_after(m: &PoissonModel, feedback: &ModelFeedback) -> int {
    let adjmag = spec_reward_mag(feedback.reward) / 100;
    let delta = if feedback.actual_outcome {
        if feedback.reward >= 0 {
            adjmag
        } else {
            -adjmag
        }
    } else {
        if feedback.reward >= 0 {
            -(adjmag / 2)
        } else {
            adjmag / 2
        }
    };
    crate::fixed::spec_clamp(m.lambda_home + delta, 500_000, 3_000_000)
}

/// The away rate after feedback: half the nudge of the home rate.
pub open spec fn spec_lambda_away_after(m: &PoissonModel, feedback: &ModelFeedback) -> int {
    let adjmag = spec_reward_mag(feedback.reward) / 100;
    let delta = if feedback.actual_outcome {
        if feedback.reward >= 0 {
            adjmag / 2
        } else {
            -(adjmag / 2)
        }
    } else {
        if feedback.reward >= 0 {
            -(adjmag / 2)
        } else {
            adjmag / 2
        }
    };
    crate::fixed::spec_clamp(m.lambda_away + delta, 500_000, 3_000_000)
}

/// The two adjusted goal rates the Poisson model scores a snapshot with.
pub open spec fn spec_poisson_rates(m: &PoissonModel, fv: &FeatureVector) -> (int, int) {
    (
        spec_adjusted_rate(
            m.lambda_home as int,
            spec_rate_factor(fv.spec_get("home_attack"@)),
            spec_rate_factor(fv.spec_get("away_defense"@)),
            spec_rate_factor(fv.spec_get("home_advantage"@)),
        ),
        spec_adjusted_rate(
            m.lambda_away as int,
            spec_rate_factor(fv.spec_get("away_attack"@)),
            spec_rate_factor(fv.spec_get("home_defense"@)),
            SCALE as int,
        ),
    )
}

/// The Poisson model's three outcome probabilities on a snapshot: the
/// scoreline grid at the adjusted rates, then the shared
/// clamp-and-normalize.
pub open spec fn spec_poisson_probs(m: &PoissonModel, fv: &FeatureVector) -> (int, int, int) {
    let r = spec_poisson_rates(m, fv);
    let g = spec_grid_probs(r.0, r.1);
    spec_clamp_norm(g.0, g.1, g.2)
}

/// The Poisson model's confidence: half the gap between the adjusted
/// rates, kept between one half and one.
pub open spec fn spec_poisson_confidence(m: &PoissonModel, fv: &FeatureVector) -> int {
    let r = spec_poisson_rates(m, fv);
    crate::fixed::spec_clamp(
        (if r.0 >= r.1 {
            r.0 - r.1
        } else {
            r.1 - r.0
        }) / 2,
        500_000,
        1_000_000,
    )
}

impl PoissonModel {
    /// Rates inside their documented band.
    pub open spec fn wf(&self) -> bool {
        &&& 500_000 <= self.lambda_home <= 3_000_000
        &&& 500_000 <= self.lambda_away <= 3_000_000
    }

    /// A fresh model at the realistic averages 1.4 and 1.3.
    pub fn new() -> (r: PoissonModel)
        ensures
            r.wf(),
            r.name@ == "PoissonGoals"@,
            r.version@ == "v1.0"@,
            r.lambda_home == 1_400_000,
            r.lambda_away == 1_300_000,
    {
        PoissonModel {
            name: "PoissonGoals".to_string(),
            version: "v1.0".to_string(),
            lambda_home: 1_400_000,
            lambda_away: 1_300_000,
        }
    }

    /// The model's name.
    pub fn model_name(&self) -> (r: &str)
        ensures
            r@ == self.name@,
    {
        self.name.as_str()
    }

    /// The model's version.
    pub fn model_version(&self) -> (r: &str)
        ensures
            r@ == self.version@,
    {
        self.version.as_str()
    }

    /// Score one snapshot: adjust both rates by the attack/defense features
    /// and the home-advantage flag, sum the scoreline grid into the three
    /// outcomes, clamp and renormalize. Always a well-formed prediction
    /// whose three probabilities are exactly the grid pipeline's values at
    /// the adjusted rates, the adjusted rates attached as the expected
    /// goals, and the confidence grown from the gap between the rates.
    pub fn predict(&self, features: &FeatureVector) -> (r: Result<Prediction, QuantsError>)
        requires
            self.wf(),
        ensures
            r is Ok,
            r matches Ok(p) ==> {
                let rates = spec_poisson_rates(self, features);
                let c = spec_poisson_probs(self, features);
                &&& p.wf()
                &&& p.match_id == features.match_id
                &&& p.model_name@ == self.name@
                &&& p.model_version@ == self.version@
                &&& p.match_timestamp == features.timestamp
                &&& p.home_win_prob == c.0
                &&& p.draw_prob == Some(c.1 as u64)
                &&& p.away_win_prob == c.2
                &&& p.home_win_prob >= 1
                &&& p.away_win_prob >= 1
                &&& c.1 >= 1
                &&& p.confidence == spec_poisson_confidence(self, features)
                &&& p.expected_goals_home == Some(rates.0 as u64)
                &&& p.expected_goals_away == Some(rates.1 as u64)
            },
    {
        let home_attack = rate_factor(features.get_feature("home_attack"));
        let away_attack = rate_factor(features.get_feature("away_attack"));
        let home_defense = rate_factor(features.get_feature("home_defense"));
        let away_defense = rate_factor(features.get_feature("away_defense"));
        let home_advantage = rate_factor(features.get_feature("home_advantage"));

        let lambda_home = adjusted_rate(self.lambda_home, home_attack, away_defense, home_advantage);
        let lambda_away = adjusted_rate(self.lambda_away, away_attack, home_defense, SCALE);

        let (gh, gd, ga) = grid_probabilities(lambda_home, lambda_away);
        let (h, d, a) = clamp_and_normalize(gh, gd, ga);

        // Confidence grows with the gap between the two rates.
        let gap: u64 = if lambda_home >= lambda_away {
            lambda_home - lambda_away
        } else {
            lambda_away - lambda_home
        };
        let confidence = clamp_u64(gap / 2, 500_000, 1_000_000);

        let base = match Prediction::new(
            features.match_id.clone(),
            self.name.clone(),
            self.version.clone(),
            h,
            a,
            features.timestamp,
        ) {
            Ok(p) => p,
            Err(e) => {
                return Err(e);
            }
        };
        let with_draw = match base.with_draw_prob(d) {
            Ok(p) => p,
            Err(e) => {
                return Err(e);
            }
        };
        let with_conf = match with_draw.with_confidence(confidence) {
            Ok(p) => p,
            Err(e) => {
                return Err(e);
            }
        };
        Ok(with_conf.with_expected_goals(lambda_home, lambda_away))
    }

    /// Nudge both rates by a hundredth of the reward, the away rate by half,
    /// both kept inside `[0.5, 3.0]`; exactly [`spec_lambda_home_after`] and
    /// [`spec_lambda_away_after`].
    pub fn update_weights(&mut self, feedback: &ModelFeedback)
        requires
            old(self).wf(),
        ensures
            final(self).wf(),
            final(self).name == old(self).name,
            final(self).version == old(self).version,
            final(self).lambda_home == spec_lambda_home_after(old(self), feedback),
            final(self).lambda_away == spec_lambda_away_after(old(self), feedback),
    {
        let rmag: u64 = if feedback.reward >= 0 {
            feedback.reward as u64
        } else {
            (-(feedback.reward as i128)) as u64
        };
        proof {
            assert(rmag == spec_reward_mag(feedback.reward));
        }
        let adjmag: i64 = (rmag / 100) as i64;
        let (dh, da): (i64, i64) = if feedback.actual_outcome {
            if feedback.reward >= 0 {
                (adjmag, adjmag / 2)
            } else {
                (-adjmag, -(adjmag / 2))
            }
        } else {
            if feedback.reward >= 0 {
                (-(adjmag / 2), -(adjmag / 2))
            } else {
                (adjmag / 2, adjmag / 2)
            }
        };
        self.lambda_home = clamp_i64((self.lambda_home as i64) + dh, 500_000, 3_000_000) as u64;
        self.lambda_away = clamp_i64((self.lambda_away as i64) + da, 500_000, 3_000_000) as u64;
    }
}

/// Clamp a feature factor into the strength band, an absent feature reading
/// as the neutral 1; exactly [`spec_rate_factor`].
fn rate_factor(v: Option<i64>) -> (r: u64)
    ensures
        r == spec_rate_factor(v),
        100_000 <= r <= 3_000_000,
{
    match v {
        Some(x) => clamp_i64(x, 100_000, 3_000_000) as u64,
        None => SCALE,
    }
}

/// Adjust a base rate by three factors on the fixed-point grid; exactly
/// [`spec_adjusted_rate`].
fn adjusted_rate(base: u64, f1: u64, f2: u64, f3: u64) -> (r: u64)
    requires
        500_000 <= base <= 3_000_000,
        100_000 <= f1 <= 3_000_000,
        100_000 <= f2 <= 3_000_000,
        100_000 <= f3 <= 3_000_000,
    ensures
        r == spec_adjusted_rate(base as int, f1 as int, f2 as int, f3 as int),
        500 <= r <= 100_000_000,
{
    proof {
        let ghost bl = base as int;
        let ghost y1 = f1 as int;
        let ghost y2 = f2 as int;
        let ghost y3 = f3 as int;
        let ghost scl = SCALE as int;
        assert(bl * y1 >= 50_000_000_000) by (nonlinear_arith)
            requires bl >= 500_000, y1 >= 100_000;
        assert(bl * y1 / scl >= 50_000) by (nonlinear_arith)
            requires bl * y1 >= 50_000_000_000, scl == 1_000_000;
        let ghost m1 = bl * y1 / scl;
        assert(m1 * y2 >= 5_000_000_000) by (nonlinear_arith)
            requires m1 >= 50_000, y2 >= 100_000;
        assert(m1 * y2 / scl >= 5_000) by (nonlinear_arith)
            requires m1 * y2 >= 5_000_000_000, scl == 1_000_000;
        let ghost m2 = m1 * y2 / scl;
        assert(m2 * y3 >= 500_000_000) by (nonlinear_arith)
            requires m2 >= 5_000, y3 >= 100_000;
        assert(m2 * y3 / scl >= 500) by (nonlinear_arith)
            requires m2 * y3 >= 500_000_000, scl == 1_000_000;
    }
    proof {
        let ghost b = base as int;
        let ghost x1 = f1 as int;
        let ghost x2 = f2 as int;
        let ghost x3 = f3 as int;
        let ghost sc = SCALE as int;
        assert(0 <= b * x1 <= 9_000_000_000_000) by (nonlinear_arith)
            requires 0 <= b <= 3_000_000, 0 <= x1 <= 3_000_000;
        assert(0 <= b * x1 / sc && b * x1 / sc * sc <= b * x1) by (nonlinear_arith)
            requires b * x1 >= 0, sc == 1_000_000;
        assert(b * x1 / sc <= 9_000_000) by (nonlinear_arith)
            requires 0 <= b * x1 <= 9_000_000_000_000, sc == 1_000_000;
        let ghost l1 = b * x1 / sc;
        assert(0 <= l1 * x2 <= 27_000_000_000_000) by (nonlinear_arith)
            requires 0 <= l1 <= 9_000_000, 0 <= x2 <= 3_000_000;
        assert(l1 * x2 / sc <= 27_000_000) by (nonlinear_arith)
            requires 0 <= l1 * x2 <= 27_000_000_000_000, sc == 1_000_000;
        let ghost l2 = l1 * x2 / sc;
        assert(0 <= l2 * x3 <= 81_000_000_000_000) by (nonlinear_arith)
            requires 0 <= l2 <= 27_000_000, 0 <= x3 <= 3_000_000;
        assert(l2 * x3 / sc <= 81_000_000) by (nonlinear_arith)
            requires 0 <= l2 * x3 <= 81_000_000_000_000, sc == 1_000_000;
    }
    let l1: u64 = (((base as u128) * (f1 as u128)) / (SCALE as u128)) as u64;
    let l2: u64 = (((l1 as u128) * (f2 as u128)) / (SCALE as u128)) as u64;
    let l3: u64 = (((l2 as u128) * (f3 as u128)) / (SCALE as u128)) as u64;
    l3
}

/// One scoreline cell's weight: the product of the two unnormalized
/// Poisson weights on the fixed-point grid.
pub open spec fn spec_grid_cell(lh: int, la: int, h: int, a: int) -> int {
    spec_poisson_weight(lh, h) * spec_poisson_weight(la, a) / (SCALE as int)
}

/// The three outcome weights after the first `n` cells of the 7x7
/// scoreline grid, walked row-major (home goals outer, away goals inner):
/// home-win, draw, away-win.
pub open spec fn spec_grid(lh: int, la: int, n: int) -> (int, int, int)
    decreases n,
{
    if n <= 0 {
        (0, 0, 0)
    } else {
        let p = spec_grid(lh, la, n - 1);
        let h = (n - 1) / 7;
        let a = (n - 1) % 7;
        let c = spec_grid_cell(lh, la, h, a);
        if h > a {
            (p.0 + c, p.1, p.2)
        } else if h == a {
            (p.0, p.1 + c, p.2)
        } else {
            (p.0, p.1, p.2 + c)
        }
    }
}

/// The three outcome probabilities of the full grid: each outcome's weight
/// divided by the grid's total on the fixed-point grid.
pub open spec fn spec_grid_probs(lh: int, la: int) -> (int, int, int) {
    let g = spec_grid(lh, la, 49);
    let t = g.0 + g.1 + g.2;
    (g.0 * (SCALE as int) / t, g.1 * (SCALE as int) / t, g.2 * (SCALE as int) / t)
}

/// Sum the 7x7 scoreline grid of two independent Poisson rates into the
/// three outcome probabilities; exactly [`spec_grid_probs`]. The common
/// `e^-lambda` factors of a true Poisson mass cancel in the division, so
/// the unnormalized weights give the same probabilities.
#[verifier::rlimit(100)]
#[verifier::spinoff_prover]
fn grid_probabilities(lambda_home: u64, lambda_away: u64) -> (r: (u64, u64, u64))
    requires
        1 <= lambda_home <= 100_000_000,
        1 <= lambda_away <= 100_000_000,
    ensures
        ({
            let p = spec_grid_probs(lambda_home as int, lambda_away as int);
            r.0 == p.0 && r.1 == p.1 && r.2 == p.2
        }),
        r.0 <= PROB_ONE,
        r.1 <= PROB_ONE,
        r.2 <= PROB_ONE,
{
    let ghost lh = lambda_home as int;
    let ghost la = lambda_away as int;
    let mut home_win: u128 = 0;
    let mut draw: u128 = 0;
    let mut away_win: u128 = 0;

    let mut hg: u32 = 0;
    while hg <= 6
        invariant
            1 <= lambda_home <= 100_000_000,
            1 <= lambda_away <= 100_000_000,
            lh == lambda_home as int,
            la == lambda_away as int,
            hg <= 7,
            (home_win as int, draw as int, away_win as int)
                == spec_grid(lh, la, (hg as int) * 7),
            home_win <= (hg as int) * 7 * 1_000_000_000_000_000_000_000_000_000_000u128,
            draw <= (hg as int) * 7 * 1_000_000_000_000_000_000_000_000_000_000u128,
            away_win <= (hg as int) * 7 * 1_000_000_000_000_000_000_000_000_000_000u128,
        decreases 7 - hg,
    {
        let th = poisson_weight(lambda_home, hg);
        let mut ag: u32 = 0;
        while ag <= 6
            invariant
                1 <= lambda_home <= 100_000_000,
                1 <= lambda_away <= 100_000_000,
                lh == lambda_home as int,
                la == lambda_away as int,
                hg <= 6,
                ag <= 7,
                th == spec_poisson_weight(lh, hg as int),
                th <= 1_000_000_000_000_000_000,
                (home_win as int, draw as int, away_win as int)
                    == spec_grid(lh, la, (hg as int) * 7 + ag as int),
                home_win <= ((hg as int) * 7 + ag as int)
                    * 1_000_000_000_000_000_000_000_000_000_000u128,
                draw <= ((hg as int) * 7 + ag as int)
                    * 1_000_000_000_000_000_000_000_000_000_000u128,
                away_win <= ((hg as int) * 7 + ag as int)
                    * 1_000_000_000_000_000_000_000_000_000_000u128,
            decreases 7 - ag,
        {
            let ta = poisson_weight(lambda_away, ag);
            proof {
                let ghost x = th as int;
                let ghost y = ta as int;
                assert(0 <= x * y
                    <= 1_000_000_000_000_000_000_000_000_000_000_000_000) by (nonlinear_arith)
                    requires
                        0 <= x <= 1_000_000_000_000_000_000,
                        0 <= y <= 1_000_000_000_000_000_000;
                assert(0 <= x * y / (SCALE as int)
                    <= 1_000_000_000_000_000_000_000_000_000_000) by (nonlinear_arith)
                    requires
                        0 <= x * y <= 1_000_000_000_000_000_000_000_000_000_000_000_000;
                assert(((hg as int) * 7 + ag as int)
                    * 1_000_000_000_000_000_000_000_000_000_000int
                    + 1_000_000_000_000_000_000_000_000_000_000int
                    == ((hg as int) * 7 + (ag as int + 1))
                        * 1_000_000_000_000_000_000_000_000_000_000int) by (nonlinear_arith);
                // The next cell index decomposes back into this row and
                // column.
                assert(((hg as int) * 7 + ag as int) / 7 == hg as int
                    && ((hg as int) * 7 + ag as int) % 7 == ag as int) by (nonlinear_arith)
                    requires ag < 7, 0 <= ag as int, 0 <= hg as int;
            }
            let cell: u128 = (th as u128) * (ta as u128) / (SCALE as u128);
            proof {
                assert(cell as int == spec_grid_cell(lh, la, hg as int, ag as int));
            }
            if hg > ag {
                home_win = home_win + cell;
            } else if hg == ag {
                draw = draw + cell;
            } else {
                away_win = away_win + cell;
            }
            ag += 1;
        }
        proof {
            assert(((hg as int) * 7 + 7) * 1_000_000_000_000_000_000_000_000_000_000int
                == ((hg as int + 1) * 7) * 1_000_000_000_000_000_000_000_000_000_000int)
                by (nonlinear_arith);
            assert((hg as int) * 7 + 7 == (hg as int + 1) * 7) by (nonlinear_arith);
        }
        hg += 1;
    }

    // The (1, 0), (0, 0) and (0, 1) cells keep every outcome's weight
    // positive: they reduce to the rates and the unit weight themselves.
    proof {
        lemma_grid_sums_positive(lh, la);
    }
    let total: u128 = home_win + draw + away_win;
    proof {
        let ghost cap: int = 49_000_000_000_000_000_000_000_000_000_000int;
        assert(home_win as int <= cap && draw as int <= cap && away_win as int <= cap);
        assert((home_win as int) * (SCALE as int) <= cap * (SCALE as int)
            && (draw as int) * (SCALE as int) <= cap * (SCALE as int)
            && (away_win as int) * (SCALE as int) <= cap * (SCALE as int))
            by (nonlinear_arith)
            requires
                0 <= home_win as int <= cap,
                0 <= draw as int <= cap,
                0 <= away_win as int <= cap,
                cap > 0;
        assert(cap * (SCALE as int) == 49_000_000_000_000_000_000_000_000_000_000_000_000int)
            by (nonlinear_arith)
            requires
                cap == 49_000_000_000_000_000_000_000_000_000_000int,
                (SCALE as int) == 1_000_000;
        assert(49_000_000_000_000_000_000_000_000_000_000_000_000int
            < 0x1_0000_0000_0000_0000_0000_0000_0000_0000int);
        let ghost hw = home_win as int;
        let ghost dr = draw as int;
        let ghost aw = away_win as int;
        let ghost t = hw + dr + aw;
        assert(hw * (SCALE as int) <= t * (SCALE as int)
            && dr * (SCALE as int) <= t * (SCALE as int)
            && aw * (SCALE as int) <= t * (SCALE as int)) by (nonlinear_arith)
            requires 0 <= hw, 0 <= dr, 0 <= aw, t == hw + dr + aw;
        assert(hw * (SCALE as int) / t <= (SCALE as int)
            && dr * (SCALE as int) / t <= (SCALE as int)
            && aw * (SCALE as int) / t <= (SCALE as int)) by (nonlinear_arith)
            requires
                hw * (SCALE as int) <= t * (SCALE as int),
                dr * (SCALE as int) <= t * (SCALE as int),
                aw * (SCALE as int) <= t * (SCALE as int),
                t >= 1;
        assert(hw * (SCALE as int) / t >= 0 && dr * (SCALE as int) / t >= 0
            && aw * (SCALE as int) / t >= 0) by (nonlinear_arith)
            requires hw >= 0, dr >= 0, aw >= 0, t >= 1;
    }
    let ph: u64 = (home_win * (SCALE as u128) / total) as u64;
    let pd: u64 = (draw * (SCALE as u128) / total) as u64;
    let pa: u64 = (away_win * (SCALE as u128) / total) as u64;
    (ph, pd, pa)
}

/// Each outcome's grid weight is strictly positive: the (1, 0) cell is the
/// home rate itself, the (0, 0) cell one whole unit, and the (0, 1) cell
/// the away rate.
proof fn lemma_grid_sums_positive(lh: int, la: int)
    requires
        1 <= lh <= 100_000_000,
        1 <= la <= 100_000_000,
    ensures
        ({
            let g = spec_grid(lh, la, 49);
            g.0 >= 1 && g.1 >= 1 && g.2 >= 1
        }),
{
    lemma_grid_monotone(lh, la, 49);
}

/// Grid prefix sums are non-negative and each component only grows; by the
/// time the first full row and the second row's first cell are in, every
/// component holds its seed cell.
proof fn lemma_grid_monotone(lh: int, la: int, n: int)
    requires
        1 <= lh <= 100_000_000,
        1 <= la <= 100_000_000,
        0 <= n <= 49,
    ensures
        ({
            let g = spec_grid(lh, la, n);
            &&& g.0 >= if n >= 8 { 1int } else { 0int }
            &&& g.1 >= if n >= 1 { 1int } else { 0int }
            &&& g.2 >= if n >= 2 { 1int } else { 0int }
        }),
    decreases n,
{
    if n > 0 {
        lemma_grid_monotone(lh, la, n - 1);
        let h = (n - 1) / 7;
        let a = (n - 1) % 7;
        lemma_poisson_weight_nonneg(lh, h);
        lemma_poisson_weight_nonneg(la, a);
        let ghost wh = spec_poisson_weight(lh, h);
        let ghost wa = spec_poisson_weight(la, a);
        assert(wh * wa >= 0 && wh * wa / (SCALE as int) >= 0) by (nonlinear_arith)
            requires wh >= 0, wa >= 0;
        assert(spec_grid_cell(lh, la, h, a) == wh * wa / (SCALE as int));
        if n == 1 {
            // Cell (0, 0): both weights are one whole unit.
            assert(spec_poisson_weight(lh, 0) == SCALE as int);
            assert(spec_poisson_weight(la, 0) == SCALE as int);
            assert((SCALE as int) * (SCALE as int) / (SCALE as int) == SCALE as int)
                by (nonlinear_arith);
            assert(spec_grid_cell(lh, la, 0, 0) == SCALE as int);
        }
        if n == 2 {
            // Cell (0, 1): the away rate itself.
            assert((SCALE as int) * la / (1 * (SCALE as int)) == la) by (nonlinear_arith)
                requires la >= 0;
            assert(spec_poisson_weight(la, 1) == la);
            assert(spec_poisson_weight(lh, 0) == SCALE as int);
            assert((SCALE as int) * la / (SCALE as int) == la) by (nonlinear_arith)
                requires la >= 0;
            assert(spec_grid_cell(lh, la, 0, 1) == la);
        }
        if n == 8 {
            // Cell (1, 0): the home rate itself.
            assert((SCALE as int) * lh / (1 * (SCALE as int)) == lh) by (nonlinear_arith)
                requires lh >= 0;
            assert(spec_poisson_weight(lh, 1) == lh);
            assert(spec_poisson_weight(la, 0) == SCALE as int);
            assert(lh * (SCALE as int) / (SCALE as int) == lh) by (nonlinear_arith)
                requires lh >= 0;
            assert(spec_grid_cell(lh, la, 1, 0) == lh);
        }
    }
}

/// Unnormalized Poisson weights are non-negative.
proof fn lemma_poisson_weight_nonneg(lambda: int, k: int)
    requires
        lambda >= 0,
    ensures
        spec_poisson_weight(lambda, k) >= 0,
    decreases k,
{
    if k > 0 {
        lemma_poisson_weight_nonneg(lambda, k - 1);
        let ghost w = spec_poisson_weight(lambda, k - 1);
        assert(w * lambda >= 0) by (nonlinear_arith)
            requires w >= 0, lambda >= 0;
        assert(w * lambda / (k * (SCALE as int)) >= 0) by (nonlinear_arith)
            requires w * lambda >= 0, k >= 1;
    }
}

/// A fresh Poisson model scoring a featureless snapshot ranks home above
/// away: with the seed rates 1.4 and 1.3 and every adjustment factor
/// neutral, the larger home rate survives the whole grid-and-normalize
/// pipeline into a strictly larger home-win probability.
#[verifier::rlimit(100)]
#[verifier::spinoff_prover]
pub proof fn lemma_fresh_poisson_ranks_home_first()
    ensures
        ({
            let lh = spec_adjusted_rate(1_400_000, SCALE as int, SCALE as int, SCALE as int);
            let la = spec_adjusted_rate(1_300_000, SCALE as int, SCALE as int, SCALE as int);
            let c = spec_clamp_norm(
                spec_grid_probs(lh, la).0,
                spec_grid_probs(lh, la).1,
                spec_grid_probs(lh, la).2,
            );
            c.0 > c.2
        }),
{
    // The pipeline is a closed arithmetic expression, so the claim is
    // settled by evaluating it: each Poisson weight, each of the 49 grid
    // prefixes, and the two normalizations, one ground step at a time.
    reveal_with_fuel(spec_poisson_weight, 9);
    reveal_with_fuel(spec_grid, 51);
    assert(spec_adjusted_rate(1_400_000, SCALE as int, SCALE as int, SCALE as int)
        == 1_400_000);
    assert(spec_adjusted_rate(1_300_000, SCALE as int, SCALE as int, SCALE as int)
        == 1_300_000);
    assert(spec_poisson_weight(1400000, 0) == 1000000);
    assert(1000000int * 1400000 / (1 * 1_000_000int) == 1400000) by (nonlinear_arith);
    assert(spec_poisson_weight(1400000, 1) == 1400000);
    assert(1400000int * 1400000 / (2 * 1_000_000int) == 980000) by (nonlinear_arith);
    assert(spec_poisson_weight(1400000, 2) == 980000);
    assert(980000int * 1400000 / (3 * 1_000_000int) == 457333) by (nonlinear_arith);
    assert(spec_poisson_weight(1400000, 3) == 457333);
    assert(457333int * 1400000 / (4 * 1_000_000int) == 160066) by (nonlinear_arith);
    assert(spec_poisson_weight(1400000, 4) == 160066);
    assert(160066int * 1400000 / (5 * 1_000_000int) == 44818) by (nonlinear_arith);
    assert(spec_poisson_weight(1400000, 5) == 44818);
    assert(44818int * 1400000 / (6 * 1_000_000int) == 10457) by (nonlinear_arith);
    assert(spec_poisson_weight(1400000, 6) == 10457);
    assert(spec_poisson_weight(1300000, 0) == 1000000);
    assert(1000000int * 1300000 / (1 * 1_000_000int) == 1300000) by (nonlinear_arith);
    assert(spec_poisson_weight(1300000, 1) == 1300000);
    assert(1300000int * 1300000 / (2 * 1_000_000int) == 845000) by (nonlinear_arith);
    assert(spec_poisson_weight(1300000, 2) == 845000);
    assert(845000int * 1300000 / (3 * 1_000_000int) == 366166) by (nonlinear_arith);
    assert(spec_poisson_weight(1300000, 3) == 366166);
    assert(366166int * 1300000 / (4 * 1_000_000int) == 119003) by (nonlinear_arith);
    assert(spec_poisson_weight(1300000, 4) == 119003);
    assert(119003int * 1300000 / (5 * 1_000_000int) == 30940) by (nonlinear_arith);
    assert(spec_poisson_weight(1300000, 5) == 30940);
    assert(30940int * 1300000 / (6 * 1_000_000int) == 6703) by (nonlinear_arith);
    assert(spec_poisson_weight(1300000, 6) == 6703);
    assert(spec_grid(1_400_000, 1_300_000, 0) == (0int, 0int, 0int));
    assert((1int - 1) / 7 == 0 && (1int - 1) % 7 == 0);
    assert(1000000int * 1000000 / 1_000_000int == 1000000) by (nonlinear_arith);
    assert(spec_grid_cell(1_400_000, 1_300_000, 0, 0) == 1000000);
    assert(spec_grid(1_400_000, 1_300_000, 1) == (0int, 1000000int, 0int));
    assert((2int - 1) / 7 == 0 && (2int - 1) % 7 == 1);
    assert(1000000int * 1300000 / 1_000_000int == 1300000) by (nonlinear_arith);
    assert(spec_grid_cell(1_400_000, 1_300_000, 0, 1) == 1300000);
    assert(spec_grid(1_400_000, 1_300_000, 2) == (0int, 1000000int, 1300000int));
    assert((3int - 1) / 7 == 0 && (3int - 1) % 7 == 2);
    assert(1000000int * 845000 / 1_000_000int == 845000) by (nonlinear_arith);
    assert(spec_grid_cell(1_400_000, 1_300_000, 0, 2) == 845000);
    assert(spec_grid(1_400_000, 1_300_000, 3) == (0int, 1000000int, 2145000int));
    assert((4int - 1) / 7 == 0 && (4int - 1) % 7 == 3);
    assert(1000000int * 366166 / 1_000_000int == 366166) by (nonlinear_arith);
    assert(spec_grid_cell(1_400_000, 1_300_000, 0, 3) == 366166);
    assert(spec_grid(1_400_000, 1_300_000, 4) == (0int, 1000000int, 2511166int));
    assert((5int - 1) / 7 == 0 && (5int - 1) % 7 == 4);
    assert(1000000int * 119003 / 1_000_000int == 119003) by (nonlinear_arith);
    assert(spec_grid_cell(1_400_000, 1_300_000, 0, 4) == 119003);
    assert(spec_grid(1_400_000, 1_300_000, 5) == (0int, 1000000int, 2630169int));
    assert((6int - 1) / 7 == 0 && (6int - 1) % 7 == 5);
    assert(1000000int * 30940 / 1_000_000int == 30940) by (nonlinear_arith);
    assert(spec_grid_cell(1_400_000, 1_300_000, 0, 5) == 30940);
    assert(spec_grid(1_400_000, 1_300_000, 6) == (0int, 1000000int, 2661109int));
    assert((7int - 1) / 7 == 0 && (7int - 1) % 7 == 6);
    assert(1000000int * 6703 / 1_000_000int == 6703) by (nonlinear_arith);
    assert(spec_grid_cell(1_400_000, 1_300_000, 0, 6) == 6703);
    assert(spec_grid(1_400_000, 1_300_000, 7) == (0int, 1000000int, 2667812int));
    assert((8int - 1) / 7 == 1 && (8int - 1) % 7 == 0);
    assert(1400000int * 1000000 / 1_000_000int == 1400000) by (nonlinear_arith);
    assert(spec_grid_cell(1_400_000, 1_300_000, 1, 0) == 1400000);
    assert(spec_grid(1_400_000, 1_300_000, 8) == (1400000int, 1000000int, 2667812int));
    assert((9int - 1) / 7 == 1 && (9int - 1) % 7 == 1);
    assert(1400000int * 1300000 / 1_000_000int == 1820000) by (nonlinear_arith);
    assert(spec_grid_cell(1_400_000, 1_300_000, 1, 1) == 1820000);
    assert(spec_grid(1_400_000, 1_300_000, 9) == (1400000int, 2820000int, 2667812int));
    assert((10int - 1) / 7 == 1 && (10int - 1) % 7 == 2);
    assert(1400000int * 845000 / 1_000_000int == 1183000) by (nonlinear_arith);
    assert(spec_grid_cell(1_400_000, 1_300_000, 1, 2) == 1183000);
    assert(spec_grid(1_400_000, 1_300_000, 10) == (1400000int, 2820000int, 3850812int));
    assert((11int - 1) / 7 == 1 && (11int - 1) % 7 == 3);
    assert(1400000int * 366166 / 1_000_000int == 512632) by (nonlinear_arith);
    assert(spec_grid_cell(1_400_000, 1_300_000, 1, 3) == 512632);
    assert(spec_grid(1_400_000, 1_300_000, 11) == (1400000int, 2820000int, 4363444int));
    assert((12int - 1) / 7 == 1 && (12int - 1) % 7 == 4);
    assert(1400000int * 119003 / 1_000_000int == 166604) by (nonlinear_arith);
    assert(spec_grid_cell(1_400_000, 1_300_000, 1, 4) == 166604);
    assert(spec_grid(1_400_000, 1_300_000, 12) == (1400000int, 2820000int, 4530048int));
    assert((13int - 1) / 7 == 1 && (13int - 1) % 7 == 5);
    assert(1400000int * 30940 / 1_000_000int == 43316) by (nonlinear_arith);
    assert(spec_grid_cell(1_400_000, 1_300_000, 1, 5) == 43316);
    assert(spec_grid(1_400_000, 1_300_000, 13) == (1400000int, 2820000int, 4573364int));
    assert((14int - 1) / 7 == 1 && (14int - 1) % 7 == 6);
    assert(1400000int * 6703 / 1_000_000int == 9384) by (nonlinear_arith);
    assert(spec_grid_cell(1_400_000, 1_300_000, 1, 6) == 9384);
    assert(spec_grid(1_400_000, 1_300_000, 14) == (1400000int, 2820000int, 4582748int));
    assert((15int - 1) / 7 == 2 && (15int - 1) % 7 == 0);
    assert(980000int * 1000000 / 1_000_000int == 980000) by (nonlinear_arith);
    assert(spec_grid_cell(1_400_000, 1_300_000, 2, 0) == 980000);
    assert(spec_grid(1_400_000, 1_300_000, 15) == (2380000int, 2820000int, 4582748int));
    assert((16int - 1) / 7 == 2 && (16int - 1) % 7 == 1);
    assert(980000int * 1300000 / 1_000_000int == 1274000) by (nonlinear_arith);
    assert(spec_grid_cell(1_400_000, 1_300_000, 2, 1) == 1274000);
    assert(spec_grid(1_400_000, 1_300_000, 16) == (3654000int, 2820000int, 4582748int));
    assert((17int - 1) / 7 == 2 && (17int - 1) % 7 == 2);
    assert(980000int * 845000 / 1_000_000int == 828100) by (nonlinear_arith);
    assert(spec_grid_cell(1_400_000, 1_300_000, 2, 2) == 828100);
    assert(spec_grid(1_400_000, 1_300_000, 17) == (3654000int, 3648100int, 4582748int));
    assert((18int - 1) / 7 == 2 && (18int - 1) % 7 == 3);
    assert(980000int * 366166 / 1_000_000int == 358842) by (nonlinear_arith);
    assert(spec_grid_cell(1_400_000, 1_300_000, 2, 3) == 358842);
    assert(spec_grid(1_400_000, 1_300_000, 18) == (3654000int, 3648100int, 4941590int));
    assert((19int - 1) / 7 == 2 && (19int - 1) % 7 == 4);
    assert(980000int * 119003 / 1_000_000int == 116622) by (nonlinear_arith);
    assert(spec_grid_cell(1_400_000, 1_300_000, 2, 4) == 116622);
    assert(spec_grid(1_400_000, 1_300_000, 19) == (3654000int, 3648100int, 5058212int));
    assert((20int - 1) / 7 == 2 && (20int - 1) % 7 == 5);
    assert(980000int * 30940 / 1_000_000int == 30321) by (nonlinear_arith);
    assert(spec_grid_cell(1_400_000, 1_300_000, 2, 5) == 30321);
    assert(spec_grid(1_400_000, 1_300_000, 20) == (3654000int, 3648100int, 5088533int));
    assert((21int - 1) / 7 == 2 && (21int - 1) % 7 == 6);
    assert(980000int * 6703 / 1_000_000int == 6568) by (nonlinear_arith);
    assert(spec_grid_cell(1_400_000, 1_300_000, 2, 6) == 6568);
    assert(spec_grid(1_400_000, 1_300_000, 21) == (3654000int, 3648100int, 5095101int));
    assert((22int - 1) / 7 == 3 && (22int - 1) % 7 == 0);
    assert(457333int * 1000000 / 1_000_000int == 457333) by (nonlinear_arith);
    assert(spec_grid_cell(1_400_000, 1_300_000, 3, 0) == 457333);
    assert(spec_grid(1_400_000, 1_300_000, 22) == (4111333int, 3648100int, 5095101int));
    assert((23int - 1) / 7 == 3 && (23int - 1) % 7 == 1);
    assert(457333int * 1300000 / 1_000_000int == 594532) by (nonlinear_arith);
    assert(spec_grid_cell(1_400_000, 1_300_000, 3, 1) == 594532);
    assert(spec_grid(1_400_000, 1_300_000, 23) == (4705865int, 3648100int, 5095101int));
    assert((24int - 1) / 7 == 3 && (24int - 1) % 7 == 2);
    assert(457333int * 845000 / 1_000_000int == 386446) by (nonlinear_arith);
    assert(spec_grid_cell(1_400_000, 1_300_000, 3, 2) == 386446);
    assert(spec_grid(1_400_000, 1_300_000, 24) == (5092311int, 3648100int, 5095101int));
    assert((25int - 1) / 7 == 3 && (25int - 1) % 7 == 3);
    assert(457333int * 366166 / 1_000_000int == 167459) by (nonlinear_arith);
    assert(spec_grid_cell(1_400_000, 1_300_000, 3, 3) == 167459);
    assert(spec_grid(1_400_000, 1_300_000, 25) == (5092311int, 3815559int, 5095101int));
    assert((26int - 1) / 7 == 3 && (26int - 1) % 7 == 4);
    assert(457333int * 119003 / 1_000_000int == 54423) by (nonlinear_arith);
    assert(spec_grid_cell(1_400_000, 1_300_000, 3, 4) == 54423);
    assert(spec_grid(1_400_000, 1_300_000, 26) == (5092311int, 3815559int, 5149524int));
    assert((27int - 1) / 7 == 3 && (27int - 1) % 7 == 5);
    assert(457333int * 30940 / 1_000_000int == 14149) by (nonlinear_arith);
    assert(spec_grid_cell(1_400_000, 1_300_000, 3, 5) == 14149);
    assert(spec_grid(1_400_000, 1_300_000, 27) == (5092311int, 3815559int, 5163673int));
    assert((28int - 1) / 7 == 3 && (28int - 1) % 7 == 6);
    assert(457333int * 6703 / 1_000_000int == 3065) by (nonlinear_arith);
    assert(spec_grid_cell(1_400_000, 1_300_000, 3, 6) == 3065);
    assert(spec_grid(1_400_000, 1_300_000, 28) == (5092311int, 3815559int, 5166738int));
    assert((29int - 1) / 7 == 4 && (29int - 1) % 7 == 0);
    assert(160066int * 1000000 / 1_000_000int == 160066) by (nonlinear_arith);
    assert(spec_grid_cell(1_400_000, 1_300_000, 4, 0) == 160066);
    assert(spec_grid(1_400_000, 1_300_000, 29) == (5252377int, 3815559int, 5166738int));
    assert((30int - 1) / 7 == 4 && (30int - 1) % 7 == 1);
    assert(160066int * 1300000 / 1_000_000int == 208085) by (nonlinear_arith);
    assert(spec_grid_cell(1_400_000, 1_300_000, 4, 1) == 208085);
    assert(spec_grid(1_400_000, 1_300_000, 30) == (5460462int, 3815559int, 5166738int));
    assert((31int - 1) / 7 == 4 && (31int - 1) % 7 == 2);
    assert(160066int * 845000 / 1_000_000int == 135255) by (nonlinear_arith);
    assert(spec_grid_cell(1_400_000, 1_300_000, 4, 2) == 135255);
    assert(spec_grid(1_400_000, 1_300_000, 31) == (5595717int, 3815559int, 5166738int));
    assert((32int - 1) / 7 == 4 && (32int - 1) % 7 == 3);
    assert(160066int * 366166 / 1_000_000int == 58610) by (nonlinear_arith);
    assert(spec_grid_cell(1_400_000, 1_300_000, 4, 3) == 58610);
    assert(spec_grid(1_400_000, 1_300_000, 32) == (5654327int, 3815559int, 5166738int));
    assert((33int - 1) / 7 == 4 && (33int - 1) % 7 == 4);
    assert(160066int * 119003 / 1_000_000int == 19048) by (nonlinear_arith);
    assert(spec_grid_cell(1_400_000, 1_300_000, 4, 4) == 19048);
    assert(spec_grid(1_400_000, 1_300_000, 33) == (5654327int, 3834607int, 5166738int));
    assert((34int - 1) / 7 == 4 && (34int - 1) % 7 == 5);
    assert(160066int * 30940 / 1_000_000int == 4952) by (nonlinear_arith);
    assert(spec_grid_cell(1_400_000, 1_300_000, 4, 5) == 4952);
    assert(spec_grid(1_400_000, 1_300_000, 34) == (5654327int, 3834607int, 5171690int));
    assert((35int - 1) / 7 == 4 && (35int - 1) % 7 == 6);
    assert(160066int * 6703 / 1_000_000int == 1072) by (nonlinear_arith);
    assert(spec_grid_cell(1_400_000, 1_300_000, 4, 6) == 1072);
    assert(spec_grid(1_400_000, 1_300_000, 35) == (5654327int, 3834607int, 5172762int));
    assert((36int - 1) / 7 == 5 && (36int - 1) % 7 == 0);
    assert(44818int * 1000000 / 1_000_000int == 44818) by (nonlinear_arith);
    assert(spec_grid_cell(1_400_000, 1_300_000, 5, 0) == 44818);
    assert(spec_grid(1_400_000, 1_300_000, 36) == (5699145int, 3834607int, 5172762int));
    assert((37int - 1) / 7 == 5 && (37int - 1) % 7 == 1);
    assert(44818int * 1300000 / 1_000_000int == 58263) by (nonlinear_arith);
    assert(spec_grid_cell(1_400_000, 1_300_000, 5, 1) == 58263);
    assert(spec_grid(1_400_000, 1_300_000, 37) == (5757408int, 3834607int, 5172762int));
    assert((38int - 1) / 7 == 5 && (38int - 1) % 7 == 2);
    assert(44818int * 845000 / 1_000_000int == 37871) by (nonlinear_arith);
    assert(spec_grid_cell(1_400_000, 1_300_000, 5, 2) == 37871);
    assert(spec_grid(1_400_000, 1_300_000, 38) == (5795279int, 3834607int, 5172762int));
    assert((39int - 1) / 7 == 5 && (39int - 1) % 7 == 3);
    assert(44818int * 366166 / 1_000_000int == 16410) by (nonlinear_arith);
    assert(spec_grid_cell(1_400_000, 1_300_000, 5, 3) == 16410);
    assert(spec_grid(1_400_000, 1_300_000, 39) == (5811689int, 3834607int, 5172762int));
    assert((40int - 1) / 7 == 5 && (40int - 1) % 7 == 4);
    assert(44818int * 119003 / 1_000_000int == 5333) by (nonlinear_arith);
    assert(spec_grid_cell(1_400_000, 1_300_000, 5, 4) == 5333);
    assert(spec_grid(1_400_000, 1_300_000, 40) == (5817022int, 3834607int, 5172762int));
    assert((41int - 1) / 7 == 5 && (41int - 1) % 7 == 5);
    assert(44818int * 30940 / 1_000_000int == 1386) by (nonlinear_arith);
    assert(spec_grid_cell(1_400_000, 1_300_000, 5, 5) == 1386);
    assert(spec_grid(1_400_000, 1_300_000, 41) == (5817022int, 3835993int, 5172762int));
    assert((42int - 1) / 7 == 5 && (42int - 1) % 7 == 6);
    assert(44818int * 6703 / 1_000_000int == 300) by (nonlinear_arith);
    assert(spec_grid_cell(1_400_000, 1_300_000, 5, 6) == 300);
    assert(spec_grid(1_400_000, 1_300_000, 42) == (5817022int, 3835993int, 5173062int));
    assert((43int - 1) / 7 == 6 && (43int - 1) % 7 == 0);
    assert(10457int * 1000000 / 1_000_000int == 10457) by (nonlinear_arith);
    assert(spec_grid_cell(1_400_000, 1_300_000, 6, 0) == 10457);
    assert(spec_grid(1_400_000, 1_300_000, 43) == (5827479int, 3835993int, 5173062int));
    assert((44int - 1) / 7 == 6 && (44int - 1) % 7 == 1);
    assert(10457int * 1300000 / 1_000_000int == 13594) by (nonlinear_arith);
    assert(spec_grid_cell(1_400_000, 1_300_000, 6, 1) == 13594);
    assert(spec_grid(1_400_000, 1_300_000, 44) == (5841073int, 3835993int, 5173062int));
    assert((45int - 1) / 7 == 6 && (45int - 1) % 7 == 2);
    assert(10457int * 845000 / 1_000_000int == 8836) by (nonlinear_arith);
    assert(spec_grid_cell(1_400_000, 1_300_000, 6, 2) == 8836);
    assert(spec_grid(1_400_000, 1_300_000, 45) == (5849909int, 3835993int, 5173062int));
    assert((46int - 1) / 7 == 6 && (46int - 1) % 7 == 3);
    assert(10457int * 366166 / 1_000_000int == 3828) by (nonlinear_arith);
    assert(spec_grid_cell(1_400_000, 1_300_000, 6, 3) == 3828);
    assert(spec_grid(1_400_000, 1_300_000, 46) == (5853737int, 3835993int, 5173062int));
    assert((47int - 1) / 7 == 6 && (47int - 1) % 7 == 4);
    assert(10457int * 119003 / 1_000_000int == 1244) by (nonlinear_arith);
    assert(spec_grid_cell(1_400_000, 1_300_000, 6, 4) == 1244);
    assert(spec_grid(1_400_000, 1_300_000, 47) == (5854981int, 3835993int, 5173062int));
    assert((48int - 1) / 7 == 6 && (48int - 1) % 7 == 5);
    assert(10457int * 30940 / 1_000_000int == 323) by (nonlinear_arith);
    assert(spec_grid_cell(1_400_000, 1_300_000, 6, 5) == 323);
    assert(spec_grid(1_400_000, 1_300_000, 48) == (5855304int, 3835993int, 5173062int));
    assert((49int - 1) / 7 == 6 && (49int - 1) % 7 == 6);
    assert(10457int * 6703 / 1_000_000int == 70) by (nonlinear_arith);
    assert(spec_grid_cell(1_400_000, 1_300_000, 6, 6) == 70);
    assert(spec_grid(1_400_000, 1_300_000, 49) == (5855304int, 3836063int, 5173062int));
    assert(5855304int * 1_000_000 / 14864429 == 393913) by (nonlinear_arith);
    assert(3836063int * 1_000_000 / 14864429 == 258069) by (nonlinear_arith);
    assert(5173062int * 1_000_000 / 14864429 == 348016) by (nonlinear_arith);
    assert(spec_grid_probs(1_400_000, 1_300_000) == (393913int, 258069int, 348016int));
    assert(393913int * 1_000_000 / 999998 == 393913) by (nonlinear_arith);
    assert(258069int * 1_000_000 / 999998 == 258069) by (nonlinear_arith);
    assert(348016int * 1_000_000 / 999998 == 348016) by (nonlinear_arith);
    assert(spec_clamp_norm(393913, 258069, 348016) == (393913int, 258069int, 348016int));
}

/// The ensemble: a logistic and a Poisson member blended 0.6 / 0.4.
#[derive(Debug)]
pub struct EnsembleModel {
    pub name: String,
    pub version: String,
    pub logistic_model: LogisticRegressionModel,
    pub poisson_model: PoissonModel,
    pub logistic_weight: u64,
    pub poisson_weight: u64,
}

impl EnsembleModel {
    /// Both members well-formed and the blend weights summing to one.
    pub open spec fn wf(&self) -> bool {
        &&& self.logistic_model.wf()
        &&& self.poisson_model.wf()
        &&& self.logistic_weight == 600_000
        &&& self.poisson_weight == 400_000
    }

    /// A fresh ensemble over fresh members.
    pub fn new() -> (r: EnsembleModel)
        ensures
            r.wf(),
            r.name@ == "EnsembleModel"@,
            r.version@ == "v1.0"@,
            r.poisson_model.lambda_home == 1_400_000,
            r.poisson_model.lambda_away == 1_300_000,
    {
        EnsembleModel {
            name: "EnsembleModel".to_string(),
            version: "v1.0".to_string(),
            logistic_model: LogisticRegressionModel::new(),
            poisson_model: PoissonModel::new(),
            logistic_weight: 600_000,
            poisson_weight: 400_000,
        }
    }

    /// The model's name.
    pub fn model_name(&self) -> (r: &str)
        ensures
            r@ == self.name@,
    {
        self.name.as_str()
    }

    /// The model's version.
    pub fn model_version(&self) -> (r: &str)
        ensures
            r@ == self.version@,
    {
        self.version.as_str()
    }

    /// Run both members and blend their probabilities by the fixed weights;
    /// the confidence is the members' mean. Always a well-formed prediction.
    pub fn predict(&self, features: &FeatureVector) -> (r: Result<Prediction, QuantsError>)
        requires
            self.wf(),
        ensures
            r is Ok,
            r matches Ok(p) ==> {
                let c = spec_ensemble_probs(self, features);
                &&& p.wf()
                &&& p.match_id == features.match_id
                &&& p.model_name@ == self.name@
                &&& p.model_version@ == self.version@
                &&& p.match_timestamp == features.timestamp
                &&& p.home_win_prob == c.0
                &&& p.draw_prob == Some(c.1 as u64)
                &&& p.away_win_prob == c.2
                &&& p.home_win_prob >= 1
                &&& p.away_win_prob >= 1
                &&& c.1 >= 1
                &&& p.confidence == spec_ensemble_confidence(self, features)
                &&& (p.expected_goals_home is None)
                &&& (p.expected_goals_away is None)
            },
    {
        let logistic_pred = match self.logistic_model.predict(features) {
            Ok(p) => p,
            Err(e) => {
                return Err(e);
            }
        };
        let poisson_pred = match self.poisson_model.predict(features) {
            Ok(p) => p,
            Err(e) => {
                return Err(e);
            }
        };

        let h = blend(
            logistic_pred.home_win_prob,
            poisson_pred.home_win_prob,
            self.logistic_weight,
            self.poisson_weight,
        );
        let d1 = match logistic_pred.draw_prob {
            Some(v) => v,
            None => 0,
        };
        let d2 = match poisson_pred.draw_prob {
            Some(v) => v,
            None => 0,
        };
        let d = blend(d1, d2, self.logistic_weight, self.poisson_weight);
        let a = blend(
            logistic_pred.away_win_prob,
            poisson_pred.away_win_prob,
            self.logistic_weight,
            self.poisson_weight,
        );

        let (hn, dn, an) = clamp_and_normalize(h, d, a);
        let avg_confidence: u64 = (logistic_pred.confidence + poisson_pred.confidence) / 2;

        let base = match Prediction::new(
            features.match_id.clone(),
            self.name.clone(),
            self.version.clone(),
            hn,
            an,
            features.timestamp,
        ) {
            Ok(p) => p,
            Err(e) => {
                return Err(e);
            }
        };
        let with_draw = match base.with_draw_prob(dn) {
            Ok(p) => p,
            Err(e) => {
                return Err(e);
            }
        };
        let with_conf = match with_draw.with_confidence(avg_confidence) {
            Ok(p) => p,
            Err(e) => {
                return Err(e);
            }
        };
        Ok(with_conf)
    }

    /// Forward the feedback to both members; each applies its own exact
    /// update rule.
    pub fn update_weights(&mut self, feedback: &ModelFeedback)
        requires
            old(self).wf(),
        ensures
            final(self).wf(),
            final(self).name == old(self).name,
            final(self).version == old(self).version,
            spec_logistic_updated(
                &old(self).logistic_model.weights,
                &final(self).logistic_model.weights,
                feedback,
            ),
            final(self).poisson_model.lambda_home
                == spec_lambda_home_after(&old(self).poisson_model, feedback),
            final(self).poisson_model.lambda_away
                == spec_lambda_away_after(&old(self).poisson_model, feedback),
    {
        self.logistic_model.update_weights(feedback);
        self.poisson_model.update_weights(feedback);
    }
}

/// Weighted mean of two probabilities with weights summing to one.
fn blend(p1: u64, p2: u64, w1: u64, w2: u64) -> (r: u64)
    requires
        p1 <= PROB_ONE,
        p2 <= PROB_ONE,
        w1 + w2 == SCALE,
    ensures
        r == (p1 * w1 + p2 * w2) / (SCALE as int),
        r <= PROB_ONE,
{
    proof {
        let ghost a = p1 as int;
        let ghost b = p2 as int;
        let ghost x = w1 as int;
        let ghost y = w2 as int;
        assert(0 <= a * x + b * y <= (SCALE as int) * (SCALE as int)) by (nonlinear_arith)
            requires
                0 <= a <= 1_000_000,
                0 <= b <= 1_000_000,
                0 <= x,
                0 <= y,
                x + y == 1_000_000;
        assert((a * x + b * y) / (SCALE as int) <= 1_000_000) by (nonlinear_arith)
            requires 0 <= a * x + b * y <= (SCALE as int) * (SCALE as int);
    }
    (((p1 as u128) * (w1 as u128) + (p2 as u128) * (w2 as u128)) / (SCALE as u128)) as u64
}

/// The ensemble's three outcome probabilities: the members' probabilities
/// blended 0.6 / 0.4, then the shared clamp-and-normalize.
pub open spec fn spec_ensemble_probs(e: &EnsembleModel, fv: &FeatureVector) -> (int, int, int) {
    let lp = spec_logistic_probs(&e.logistic_model, fv);
    let pp = spec_poisson_probs(&e.poisson_model, fv);
    spec_clamp_norm(
        (lp.0 * 600_000 + pp.0 * 400_000) / (SCALE as int),
        (lp.1 * 600_000 + pp.1 * 400_000) / (SCALE as int),
        (lp.2 * 600_000 + pp.2 * 400_000) / (SCALE as int),
    )
}

/// The ensemble's confidence: the mean of its members' confidences.
pub open spec fn spec_ensemble_confidence(e: &EnsembleModel, fv: &FeatureVector) -> int {
    let lp = spec_logistic_probs(&e.logistic_model, fv);
    (spec_entropy_confidence(lp.0, lp.1, lp.2)
        + spec_poisson_confidence(&e.poisson_model, fv)) / 2
}

/// The polymorphic model contract: one of the three variants behind two
/// operations.
#[derive(Debug)]
pub enum Model {
    LogisticRegression(LogisticRegressionModel),
    Poisson(PoissonModel),
    Ensemble(EnsembleModel),
}

/// A dispatched model's three outcome probabilities, by its variant's own
/// exact pipeline.
pub open spec fn spec_model_probs(m: &Model, fv: &FeatureVector) -> (int, int, int) {
    match m {
        Model::LogisticRegression(l) => spec_logistic_probs(l, fv),
        Model::Poisson(p) => spec_poisson_probs(p, fv),
        Model::Ensemble(e) => spec_ensemble_probs(e, fv),
    }
}

/// A dispatched model's confidence, by its variant's own formula.
pub open spec fn spec_model_confidence(m: &Model, fv: &FeatureVector) -> int {
    match m {
        Model::LogisticRegression(l) => {
            let pr = spec_logistic_probs(l, fv);
            spec_entropy_confidence(pr.0, pr.1, pr.2)
        }
        Model::Poisson(p) => spec_poisson_confidence(p, fv),
        Model::Ensemble(e) => spec_ensemble_confidence(e, fv),
    }
}

/// What one dispatched weight update does: the variant never changes, and
/// the wrapped model moves by its own exact update rule.
pub open spec fn spec_model_updated(m0: &Model, m1: &Model, feedback: &ModelFeedback) -> bool {
    match (m0, m1) {
        (Model::LogisticRegression(l0), Model::LogisticRegression(l1)) => {
            &&& spec_logistic_updated(&l0.weights, &l1.weights, feedback)
            &&& l1.name == l0.name
            &&& l1.version == l0.version
            &&& l1.feature_names == l0.feature_names
            &&& l1.weights.learning_rate == l0.weights.learning_rate
        }
        (Model::Poisson(p0), Model::Poisson(p1)) => {
            &&& p1.lambda_home == spec_lambda_home_after(p0, feedback)
            &&& p1.lambda_away == spec_lambda_away_after(p0, feedback)
            &&& p1.name == p0.name
            &&& p1.version == p0.version
        }
        (Model::Ensemble(e0), Model::Ensemble(e1)) => {
            &&& spec_logistic_updated(
                &e0.logistic_model.weights,
                &e1.logistic_model.weights,
                feedback,
            )
            &&& e1.poisson_model.lambda_home
                == spec_lambda_home_after(&e0.poisson_model, feedback)
            &&& e1.poisson_model.lambda_away
                == spec_lambda_away_after(&e0.poisson_model, feedback)
            &&& e1.name == e0.name
            &&& e1.version == e0.version
        }
        _ => false,
    }
}

impl Model {
    /// The wrapped model is well-formed.
    pub open spec fn wf(&self) -> bool {
        match self {
            Model::LogisticRegression(m) => m.wf(),
            Model::Poisson(m) => m.wf(),
            Model::Ensemble(m) => m.wf(),
        }
    }

    /// The wrapped model's name.
    pub open spec fn spec_name(&self) -> Seq<char> {
        match self {
            Model::LogisticRegression(m) => m.name@,
            Model::Poisson(m) => m.name@,
            Model::Ensemble(m) => m.name@,
        }
    }

    /// Dispatch the name.
    pub fn model_name(&self) -> (r: &str)
        ensures
            r@ == self.spec_name(),
    {
        match self {
            Model::LogisticRegression(m) => m.model_name(),
            Model::Poisson(m) => m.model_name(),
            Model::Ensemble(m) => m.model_name(),
        }
    }

    /// Dispatch the version.
    pub fn model_version(&self) -> (r: &str)
        ensures
            r@ == match self {
                Model::LogisticRegression(m) => m.version@,
                Model::Poisson(m) => m.version@,
                Model::Ensemble(m) => m.version@,
            },
    {
        match self {
            Model::LogisticRegression(m) => m.model_version(),
            Model::Poisson(m) => m.model_version(),
            Model::Ensemble(m) => m.model_version(),
        }
    }

    /// Dispatch a prediction; every variant delivers a well-formed
    /// distribution whose probabilities and confidence are exactly its own
    /// pipeline's values.
    pub fn predict(&self, features: &FeatureVector) -> (r: Result<Prediction, QuantsError>)
        requires
            self.wf(),
        ensures
            r is Ok,
            r matches Ok(p) ==> {
                let pr = spec_model_probs(self, features);
                &&& p.wf()
                &&& p.match_id == features.match_id
                &&& p.model_name@ == self.spec_name()
                &&& p.match_timestamp == features.timestamp
                &&& p.home_win_prob == pr.0
                &&& p.draw_prob == Some(pr.1 as u64)
                &&& p.away_win_prob == pr.2
                &&& p.home_win_prob >= 1
                &&& p.away_win_prob >= 1
                &&& pr.1 >= 1
                &&& p.confidence == spec_model_confidence(self, features)
                &&& match self {
                    Model::Poisson(m) => {
                        let rates = spec_poisson_rates(m, features);
                        p.expected_goals_home == Some(rates.0 as u64)
                            && p.expected_goals_away == Some(rates.1 as u64)
                    }
                    _ => (p.expected_goals_home is None) && (p.expected_goals_away is None),
                }
            },
    {
        match self {
            Model::LogisticRegression(m) => m.predict(features),
            Model::Poisson(m) => m.predict(features),
            Model::Ensemble(m) => m.predict(features),
        }
    }

    /// Dispatch a weight update; never fails, never changes the variant,
    /// and moves the wrapped model by its own exact update rule.
    pub fn update_weights(&mut self, feedback: &ModelFeedback)
        requires
            old(self).wf(),
        ensures
            final(self).wf(),
            spec_model_updated(old(self), final(self), feedback),
    {
        match self {
            Model::LogisticRegression(m) => m.update_weights(feedback),
            Model::Poisson(m) => m.update_weights(feedback),
            Model::Ensemble(m) => m.update_weights(feedback),
        }
    }
}

} // verus!
