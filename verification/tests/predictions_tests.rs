// Prediction construction, its distribution invariant, entropy and the
// model-performance ledger.

use quant_rs::predictions::{
    FeatureVector, ModelPerformance, PredictedOutcome, Prediction,
};

#[test]
fn test_prediction_creation() {
    let prediction = Prediction::new(
        "match_123".to_string(),
        "LogisticRegression".to_string(),
        "v1.0".to_string(),
        600_000,
        300_000,
        0,
    )
    .unwrap();

    assert_eq!(prediction.match_id, "match_123");
    assert_eq!(prediction.home_win_prob, 600_000);
    assert_eq!(prediction.away_win_prob, 300_000);
    assert_eq!(prediction.draw_prob, Some(100_000));
    assert_eq!(prediction.most_likely_outcome(), PredictedOutcome::HomeWin);
}

#[test]
fn predictions_test_invalid_probabilities() {
    // A probability above one.
    let result = Prediction::new(
        "match_123".to_string(),
        "LogisticRegression".to_string(),
        "v1.0".to_string(),
        1_500_000,
        300_000,
        0,
    );
    assert!(result.is_err());

    // Probabilities summing above one.
    let result = Prediction::new(
        "match_123".to_string(),
        "LogisticRegression".to_string(),
        "v1.0".to_string(),
        700_000,
        800_000,
        0,
    );
    assert!(result.is_err());
}

#[test]
fn test_entropy_calculation() {
    // High certainty: low entropy.
    let certain_prediction = Prediction::new(
        "match_123".to_string(),
        "LogisticRegression".to_string(),
        "v1.0".to_string(),
        900_000,
        100_000,
        0,
    )
    .unwrap();

    // Even split: high entropy.
    let uncertain_prediction = Prediction::new(
        "match_456".to_string(),
        "LogisticRegression".to_string(),
        "v1.0".to_string(),
        500_000,
        500_000,
        0,
    )
    .unwrap();

    assert!(certain_prediction.entropy() < uncertain_prediction.entropy());
}

#[test]
fn test_model_performance() {
    let mut performance = ModelPerformance::new("TestModel".to_string(), "v1.0".to_string());

    performance.update_accuracy(true);
    performance.update_accuracy(true);
    performance.update_accuracy(false);

    assert_eq!(performance.total_predictions, 3);
    assert_eq!(performance.correct_predictions, 2);
    // Exactly two thirds on the fixed-point grid.
    assert_eq!(performance.accuracy, 666_666);
}

#[test]
fn test_distribution_invariant() {
    // Every constructed prediction sums to one within the tolerance and
    // each probability stays in range.
    let p = Prediction::new(
        "m".to_string(),
        "model".to_string(),
        "v1".to_string(),
        420_000,
        310_000,
        0,
    )
    .unwrap()
    .with_draw_prob(270_000)
    .unwrap()
    .with_confidence(750_000)
    .unwrap();
    let total = p.home_win_prob + p.away_win_prob + p.draw_prob.unwrap();
    assert!(total >= 999_000 && total <= 1_001_000);
    assert!(p.home_win_prob <= 1_000_000);
    assert!(p.away_win_prob <= 1_000_000);
    assert!(p.draw_prob.unwrap() <= 1_000_000);
    assert!(p.confidence <= 1_000_000);
}

#[test]
fn test_with_draw_prob_tolerance() {
    let p = Prediction::new(
        "m".to_string(),
        "model".to_string(),
        "v1".to_string(),
        500_000,
        300_000,
        0,
    )
    .unwrap();
    // Off by more than the tolerance.
    assert!(p.clone().with_draw_prob(300_000).is_err());
    // Inside the tolerance.
    assert!(p.with_draw_prob(200_500).is_ok());
}

#[test]
fn test_feature_vector_shadowing() {
    let mut fv = FeatureVector::new("m".to_string(), 0);
    fv.set_feature("minute", 10_000_000);
    fv.set_feature("minute", 45_000_000);
    assert_eq!(fv.get_feature("minute"), Some(45_000_000));
    assert_eq!(fv.get_feature("absent"), None);
    assert_eq!(fv.feature_or_zero("absent"), 0);
}

#[test]
fn test_entropy_even_split_one_bit() {
    // An even two-way split carries exactly one bit of entropy: the
    // logarithm kernel is exact on dyadic probabilities.
    let even = Prediction::new(
        "match_bits".to_string(),
        "LogisticRegression".to_string(),
        "v1.0".to_string(),
        500_000,
        500_000,
        0,
    )
    .unwrap();
    assert_eq!(even.entropy(), 1_000_000);
}

#[test]
fn test_brier_score_weighted_average() {
    let mut performance = ModelPerformance::new("TestModel".to_string(), "v1.0".to_string());
    performance.update_accuracy(true);
    // One prediction counted: the new score is the squared error itself.
    performance.update_brier_score(500_000, true);
    assert_eq!(performance.brier_score, 250_000);
    performance.update_accuracy(true);
    // Two counted: the running score averages the old score with the new
    // squared error (here zero).
    performance.update_brier_score(1_000_000, true);
    assert_eq!(performance.brier_score, 125_000);
}

#[test]
fn test_entropy_dyadic_split_exact() {
    // A quarter/half/quarter split is dyadic in every leg: each quarter
    // carries half a bit and the half carries another, 1.5 bits exactly.
    let p = Prediction::new(
        "match_dyadic".to_string(),
        "LogisticRegression".to_string(),
        "v1.0".to_string(),
        250_000,
        250_000,
        0,
    )
    .unwrap();
    assert_eq!(p.draw_prob, Some(500_000));
    assert_eq!(p.entropy(), 1_500_000);
}
