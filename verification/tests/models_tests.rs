// The three prediction models and the feature engineer feeding them.

use quant_rs::events::{EventType, MatchEvent, MatchStatus};
use quant_rs::features::FeatureEngineer;
use quant_rs::models::{
    EnsembleModel, LogisticRegressionModel, Model, ModelFeedback, PoissonModel,
};
use quant_rs::predictions::FeatureVector;

fn assert_valid_distribution(p: &quant_rs::predictions::Prediction) {
    let total = p.home_win_prob + p.away_win_prob + p.draw_prob.unwrap_or(0);
    assert!(total >= 999_000 && total <= 1_001_000);
    assert!(p.home_win_prob <= 1_000_000);
    assert!(p.away_win_prob <= 1_000_000);
    assert!(p.confidence <= 1_000_000);
}

#[test]
fn test_logistic_regression_model_creation() {
    let model = LogisticRegressionModel::new();
    assert_eq!(model.model_name(), "LogisticRegression");
    assert_eq!(model.model_version(), "v1.0");
}

#[test]
fn test_logistic_regression_prediction() {
    let model = LogisticRegressionModel::new();
    let mut fv = FeatureVector::new("test_match_123".to_string(), 0);
    fv.set_feature("home_elo", 1_550_000_000);
    fv.set_feature("away_elo", 1_450_000_000);
    fv.set_feature("home_advantage", 1_000_000);
    let p = model.predict(&fv).unwrap();
    assert_eq!(p.match_id, "test_match_123");
    assert_eq!(p.model_name, "LogisticRegression");
    assert_valid_distribution(&p);
    assert_eq!(p.features_used.len(), 30);
}

#[test]
fn test_poisson_model_creation() {
    let model = PoissonModel::new();
    assert_eq!(model.model_name(), "PoissonGoals");
    assert_eq!(model.model_version(), "v1.0");
    assert_eq!(model.lambda_home, 1_400_000);
    assert_eq!(model.lambda_away, 1_300_000);
}

#[test]
fn test_poisson_model_prediction() {
    let model = PoissonModel::new();
    let fv = FeatureVector::new("test_match_123".to_string(), 0);
    let p = model.predict(&fv).unwrap();
    assert_eq!(p.match_id, "test_match_123");
    assert_valid_distribution(&p);
    // The adjusted rates ride along as the expected goals.
    assert_eq!(p.expected_goals_home, Some(1_400_000));
    assert_eq!(p.expected_goals_away, Some(1_300_000));
}

#[test]
fn test_poisson_home_advantage_baseline() {
    // With rates 1.4 and 1.3 and no adjustment features, home wins are more
    // likely than away wins.
    let model = PoissonModel::new();
    let fv = FeatureVector::new("baseline".to_string(), 0);
    let p = model.predict(&fv).unwrap();
    assert!(p.home_win_prob > p.away_win_prob);
}

#[test]
fn test_poisson_model_attack_defense_features() {
    let model = PoissonModel::new();
    let mut fv = FeatureVector::new("m".to_string(), 0);
    // A strong home attack against a leaky away defense doubles the rate.
    fv.set_feature("home_attack", 2_000_000);
    fv.set_feature("away_defense", 1_500_000);
    fv.set_feature("home_advantage", 1_000_000);
    let p = model.predict(&fv).unwrap();
    // 1.4 * 2.0 * 1.5 * 1.0 = 4.2 expected home goals.
    assert_eq!(p.expected_goals_home, Some(4_200_000));
    assert!(p.home_win_prob > p.away_win_prob);
}

#[test]
fn test_poisson_model_weight_updates() {
    let mut model = PoissonModel::new();
    let feedback = ModelFeedback {
        prediction_id: "p1".to_string(),
        actual_outcome: true,
        reward: 1_000_000,
    };
    model.update_weights(&feedback);
    // A full positive reward nudges home by 0.01 and away by 0.005.
    assert_eq!(model.lambda_home, 1_410_000);
    assert_eq!(model.lambda_away, 1_305_000);

    let negative = ModelFeedback {
        prediction_id: "p2".to_string(),
        actual_outcome: false,
        reward: 1_000_000,
    };
    model.update_weights(&negative);
    assert_eq!(model.lambda_home, 1_405_000);
    assert_eq!(model.lambda_away, 1_300_000);
}

#[test]
fn test_poisson_lambda_stays_in_band() {
    let mut model = PoissonModel::new();
    let feedback = ModelFeedback {
        prediction_id: "p".to_string(),
        actual_outcome: false,
        reward: 1_000_000,
    };
    let mut i = 0;
    while i < 500 {
        model.update_weights(&feedback);
        i += 1;
    }
    assert_eq!(model.lambda_home, 500_000);
    assert_eq!(model.lambda_away, 500_000);
}

#[test]
fn test_model_feedback_updates() {
    let mut model = LogisticRegressionModel::new();
    model.weights.home_win = vec![1_000_000; 30];
    model.weights.draw = vec![1_000_000; 30];
    model.weights.away_win = vec![1_000_000; 30];
    let feedback = ModelFeedback {
        prediction_id: "p".to_string(),
        actual_outcome: true,
        reward: 1_000_000,
    };
    model.update_weights(&feedback);
    // adjustment = 1.0 * 0.001 = 0.001; main factor 1 + 0.0001.
    assert_eq!(model.weights.home_win[0], 1_000_100);
    assert_eq!(model.weights.away_win[0], 1_000_100);
    // The draw class moves at half the rate.
    assert_eq!(model.weights.draw[0], 1_000_050);
}

#[test]
fn test_ensemble_model_creation() {
    let model = EnsembleModel::new();
    assert_eq!(model.model_name(), "EnsembleModel");
    assert_eq!(model.model_version(), "v1.0");
}

#[test]
fn test_ensemble_model_prediction() {
    let model = EnsembleModel::new();
    let fv = FeatureVector::new("test_match_123".to_string(), 0);
    let p = model.predict(&fv).unwrap();
    assert_eq!(p.match_id, "test_match_123");
    assert_eq!(p.model_name, "EnsembleModel");
    assert_valid_distribution(&p);
}

#[test]
fn test_ensemble_combines_models() {
    // The ensemble forwards feedback to both members.
    let mut model = EnsembleModel::new();
    let feedback = ModelFeedback {
        prediction_id: "p".to_string(),
        actual_outcome: true,
        reward: 1_000_000,
    };
    model.update_weights(&feedback);
    assert_eq!(model.poisson_model.lambda_home, 1_410_000);
    assert_eq!(model.poisson_model.lambda_away, 1_305_000);
}

#[test]
fn test_model_enum_interface() {
    let logistic = Model::LogisticRegression(LogisticRegressionModel::new());
    let poisson = Model::Poisson(PoissonModel::new());
    let ensemble = Model::Ensemble(EnsembleModel::new());
    assert_eq!(logistic.model_name(), "LogisticRegression");
    assert_eq!(poisson.model_name(), "PoissonGoals");
    assert_eq!(ensemble.model_name(), "EnsembleModel");
    assert_eq!(logistic.model_version(), "v1.0");

    let fv = FeatureVector::new("m".to_string(), 0);
    assert_valid_distribution(&logistic.predict(&fv).unwrap());
    assert_valid_distribution(&poisson.predict(&fv).unwrap());
    assert_valid_distribution(&ensemble.predict(&fv).unwrap());
}

#[test]
fn test_feature_extraction() {
    let mut engineer = FeatureEngineer::new();
    let event = MatchEvent::new(
        "m1".to_string(),
        EventType::Goal {
            team: "Home FC".to_string(),
            player: None,
            minute: 30,
        },
        "Home FC".to_string(),
        "Away FC".to_string(),
        "Premier League".to_string(),
        "2024-25".to_string(),
    )
    .with_status(MatchStatus::Live);

    let fv = engineer.extract_features(&event).unwrap();
    assert_eq!(fv.match_id, "m1");
    // The goal moved the score and momentum before the snapshot was taken.
    assert_eq!(fv.get_feature("home_score"), Some(1_000_000));
    assert_eq!(fv.get_feature("away_score"), Some(0));
    assert_eq!(fv.get_feature("momentum"), Some(300_000));
    // Intensity rose from 0.5 by 0.2.
    assert_eq!(fv.get_feature("intensity"), Some(700_000));
    // Fresh teams read the defaults.
    assert_eq!(fv.get_feature("home_elo"), Some(1_500_000_000));
    assert_eq!(fv.get_feature("home_attack"), Some(1_000_000));
    assert_eq!(fv.get_feature("league_competitiveness"), Some(950_000));
    assert_eq!(fv.get_feature("match_status"), Some(1_000_000));
    assert_eq!(fv.get_feature("event_influence"), Some(1_000_000));
    assert_eq!(fv.get_feature("home_advantage"), Some(1_000_000));
}

#[test]
fn test_update_team_stats() {
    let mut engineer = FeatureEngineer::new();
    engineer.update_team_stats("Home FC", 3, 1);
    let stats = engineer.get_team_stats("Home FC").unwrap();
    assert_eq!(stats.goals_for, 3);
    assert_eq!(stats.goals_against, 1);
    // Attack 3 * 0.1; defense 10/2 clamped to 3.0.
    assert_eq!(stats.attack_strength, 300_000);
    assert_eq!(stats.defense_strength, 3_000_000);
    // A win against an equal-rated opponent: 1500 + 32 * 0.5.
    assert_eq!(stats.elo_rating, 1_516_000_000);
    assert_eq!(stats.recent_form, vec![true]);
    assert!(engineer.get_team_stats("Nobody").is_none());
}

#[test]
fn test_form_window_is_bounded() {
    let mut engineer = FeatureEngineer::new();
    let mut i = 0;
    while i < 15 {
        engineer.update_team_stats("Home FC", 2, 0);
        i += 1;
    }
    let stats = engineer.get_team_stats("Home FC").unwrap();
    assert_eq!(stats.recent_form.len(), 10);
}

#[test]
fn test_poisson_large_reward_unsaturated() {
    // A reward of 2.0 nudges the home rate by 0.02, not by a capped 0.01.
    let mut model = PoissonModel::new();
    let feedback = ModelFeedback {
        prediction_id: "p-big".to_string(),
        actual_outcome: true,
        reward: 2_000_000,
    };
    model.update_weights(&feedback);
    assert_eq!(model.lambda_home, 1_420_000);
    assert_eq!(model.lambda_away, 1_310_000);
}
