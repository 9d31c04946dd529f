// The trading engine: odds cache, signal generation, risk constraints,
// execution and settlement.

use quant_rs::betting::{BetType, BettingDecision};
use quant_rs::market::SimpleMarketOdds;
use quant_rs::predictions::Prediction;
use quant_rs::trader::{BetOutcome, TradingEngine};

fn prediction_with_edge(match_id: &str) -> Prediction {
    Prediction::new(
        match_id.to_string(),
        "test_model".to_string(),
        "v1.0".to_string(),
        600_000,
        150_000,
        0,
    )
    .unwrap()
    .with_confidence(800_000)
    .unwrap()
}

#[test]
fn test_trading_engine_creation() {
    let engine = TradingEngine::new(1_000_000_000);
    let summary = engine.get_portfolio_summary();

    assert_eq!(summary.total_bankroll, 1_000_000_000);
    assert_eq!(summary.available_bankroll, 1_000_000_000);
    assert_eq!(summary.active_bets_count, 0);
    assert_eq!(summary.total_trades, 0);
    assert_eq!(engine.risk_manager.max_concurrent_bets, 10);
    // 5% daily loss cap, 10% per-match cap.
    assert_eq!(engine.risk_manager.max_daily_loss, 50_000_000);
    assert_eq!(engine.risk_manager.max_exposure_per_match, 100_000_000);
}

#[test]
fn test_market_odds_update_and_idempotent_reads() {
    let mut engine = TradingEngine::new(1_000_000_000);
    assert!(engine.get_market_odds("test_match_123").is_none());

    let odds = SimpleMarketOdds::new(2_000_000, 3_500_000, 3_800_000);
    engine.update_market_odds("test_match_123".to_string(), odds);

    // Repeated reads without an intervening update return the same value.
    let first = engine.get_market_odds("test_match_123");
    let second = engine.get_market_odds("test_match_123");
    assert_eq!(first, Some(odds));
    assert_eq!(first, second);

    // A later update shadows the earlier quote.
    let newer = SimpleMarketOdds::new(2_100_000, 3_400_000, 3_600_000);
    engine.update_market_odds("test_match_123".to_string(), newer);
    assert_eq!(engine.get_market_odds("test_match_123"), Some(newer));
}

#[test]
fn test_prediction_processing_no_odds() {
    let engine = TradingEngine::new(1_000_000_000);
    let prediction = prediction_with_edge("test_match_123");
    let signal = engine.process_prediction(&prediction).unwrap();

    assert_eq!(signal.signal_strength, 0);
    assert!(signal.recommended_bet.is_none());
    assert_eq!(signal.match_id, "test_match_123");
    assert!(signal.reasoning.contains("No market odds available"));
}

#[test]
fn test_trading_signal_generation_with_edge() {
    let mut engine = TradingEngine::new(10_000_000_000);
    // Home quoted at evens while the model sees 60%: a clear edge.
    engine.update_market_odds(
        "test_match_123".to_string(),
        SimpleMarketOdds::new(2_000_000, 3_500_000, 3_800_000),
    );
    let prediction = prediction_with_edge("test_match_123");
    let signal = engine.process_prediction(&prediction).unwrap();

    assert!(signal.recommended_bet.is_some());
    let bet = signal.recommended_bet.as_ref().unwrap();
    assert!(matches!(bet.bet_type, BetType::HomeWin));
    assert!(bet.stake > 0);
    assert!(signal.signal_strength > 0);
    assert!(signal.reasoning.contains("Home win edge"));
}

#[test]
fn test_no_edge_no_bet() {
    let mut engine = TradingEngine::new(10_000_000_000);
    engine.update_market_odds(
        "test_match_123".to_string(),
        SimpleMarketOdds::new(2_000_000, 3_500_000, 3_800_000),
    );
    // The model agrees with the market: no edge anywhere.
    let prediction = Prediction::new(
        "test_match_123".to_string(),
        "test_model".to_string(),
        "v1.0".to_string(),
        500_000,
        260_000,
        0,
    )
    .unwrap()
    .with_confidence(800_000)
    .unwrap();
    let signal = engine.process_prediction(&prediction).unwrap();
    assert!(signal.recommended_bet.is_none());
}

#[test]
fn test_bet_execution_success() {
    let mut engine = TradingEngine::new(10_000_000_000);
    engine.update_market_odds(
        "test_match_123".to_string(),
        SimpleMarketOdds::new(2_000_000, 3_500_000, 3_800_000),
    );
    let prediction = prediction_with_edge("test_match_123");
    let signal = engine.process_prediction(&prediction).unwrap();
    assert!(signal.recommended_bet.is_some());
    let stake = signal.recommended_bet.as_ref().unwrap().stake;

    let executed = engine.execute_trade(&signal).unwrap();
    assert!(executed);
    let summary = engine.get_portfolio_summary();
    assert_eq!(summary.active_bets_count, 1);
    assert_eq!(summary.total_trades, 1);
    assert_eq!(summary.available_bankroll, 10_000_000_000 - stake);
    assert_eq!(summary.total_exposure, stake);
}

#[test]
fn test_bet_execution_insufficient_funds() {
    // A hand-built signal whose stake exceeds the bankroll is refused by
    // the ledger with an error, leaving it untouched.
    let mut engine = TradingEngine::new(50_000_000);
    let bet = BettingDecision::new(
        "test_match_123".to_string(),
        BetType::HomeWin,
        100_000_000,
        2_500_000,
        600_000,
        "moderate".to_string(),
    )
    .unwrap();
    let signal = quant_rs::trader::TradingSignal {
        match_id: "test_match_123".to_string(),
        signal_strength: 500_000,
        recommended_bet: Some(bet),
        risk_assessment: engine.assess_risk("test_match_123", &None),
        reasoning: "Test bet".to_string(),
    };
    let r = engine.execute_trade(&signal);
    assert!(r.is_err());
    let summary = engine.get_portfolio_summary();
    assert_eq!(summary.available_bankroll, 50_000_000);
    assert_eq!(summary.active_bets_count, 0);
}

#[test]
fn test_bet_outcome_processing() {
    // Place a home bet, settle the match as a home win, collect the payout.
    let mut engine = TradingEngine::new(10_000_000_000);
    engine.update_market_odds(
        "winning_match".to_string(),
        SimpleMarketOdds::new(2_000_000, 3_500_000, 3_800_000),
    );
    let prediction = prediction_with_edge("winning_match");
    let signal = engine.process_prediction(&prediction).unwrap();
    let stake = signal.recommended_bet.as_ref().unwrap().stake;
    assert!(engine.execute_trade(&signal).unwrap());

    engine.settle_bet("winning_match", BetOutcome::HomeWin).unwrap();
    let summary = engine.get_portfolio_summary();
    assert_eq!(summary.active_bets_count, 0);
    let payout = stake * 2;
    assert_eq!(summary.available_bankroll, 10_000_000_000 - stake + payout);
    assert_eq!(summary.profit_loss, payout - stake);
}

#[test]
fn test_losing_bet_processing() {
    let mut engine = TradingEngine::new(10_000_000_000);
    engine.update_market_odds(
        "losing_match".to_string(),
        SimpleMarketOdds::new(2_000_000, 3_500_000, 3_800_000),
    );
    let prediction = prediction_with_edge("losing_match");
    let signal = engine.process_prediction(&prediction).unwrap();
    let stake = signal.recommended_bet.as_ref().unwrap().stake;
    assert!(engine.execute_trade(&signal).unwrap());

    engine.settle_bet("losing_match", BetOutcome::AwayWin).unwrap();
    let summary = engine.get_portfolio_summary();
    assert_eq!(summary.active_bets_count, 0);
    assert_eq!(summary.available_bankroll, 10_000_000_000 - stake);
    assert_eq!(summary.profit_loss, -stake);
}

#[test]
fn test_risk_constraints() {
    let engine = TradingEngine::new(1_000_000_000);
    // More than the whole bankroll is clamped below it.
    let constrained = engine.apply_risk_constraints(2_000_000_000, "test_match");
    assert!(constrained < 1_000_000_000);
}

#[test]
fn test_concurrent_bet_limit() {
    // Twelve sequential winning-edge signals against the ten-bet cap leave
    // exactly ten active bets, never eleven.
    let mut engine = TradingEngine::new(10_000_000_000_000);
    let mut executed = 0u32;
    let mut i = 0u32;
    while i < 12 {
        let match_id = format!("match_{}", i);
        engine.update_market_odds(
            match_id.clone(),
            SimpleMarketOdds::new(2_000_000, 3_500_000, 3_800_000),
        );
        let prediction = prediction_with_edge(match_id.as_str());
        let signal = engine.process_prediction(&prediction).unwrap();
        if engine.execute_trade(&signal).unwrap() {
            executed += 1;
        }
        let active = engine.get_portfolio_summary().active_bets_count;
        assert!(active <= 10);
        i += 1;
    }
    assert_eq!(executed, 10);
    assert_eq!(engine.get_portfolio_summary().active_bets_count, 10);
}

#[test]
fn test_strategy_selection() {
    let engine = TradingEngine::new(10_000_000_000);
    assert_eq!(engine.strategies.len(), 3);
    assert_eq!(engine.strategies[0].0, "conservative");
    assert_eq!(engine.strategies[1].0, "moderate");
    assert_eq!(engine.strategies[2].0, "aggressive");
    // The moderate tier is active.
    assert_eq!(engine.get_active_strategy().kelly_multiplier, 500_000);
}

#[test]
fn test_risk_assessment() {
    let engine = TradingEngine::new(10_000_000_000);
    // A long-odds, high-Kelly bet raises the score without gating here.
    let bet = BettingDecision::new(
        "test_match_123".to_string(),
        BetType::HomeWin,
        1_000_000_000,
        6_000_000,
        400_000,
        "aggressive".to_string(),
    )
    .unwrap();
    let assessment = engine.assess_risk("test_match_123", &Some(bet));
    assert!(assessment.risk_score > 0);
    assert!(assessment.risk_score <= 1_000_000);
    assert_eq!(engine.get_portfolio_summary().active_bets_count, 0);
}

#[test]
fn test_settle_multiple_bets_same_match() {
    // Two active bets on one match settle together: the home leg wins, the
    // draw leg loses.
    let mut engine = TradingEngine::new(10_000_000_000);
    let home_bet = BettingDecision::new(
        "derby".to_string(),
        BetType::HomeWin,
        100_000_000,
        2_000_000,
        600_000,
        "s".to_string(),
    )
    .unwrap();
    let draw_bet = BettingDecision::new(
        "derby".to_string(),
        BetType::Draw,
        50_000_000,
        3_000_000,
        300_000,
        "s".to_string(),
    )
    .unwrap();
    engine.portfolio.place_bet(home_bet).unwrap();
    engine.portfolio.place_bet(draw_bet).unwrap();
    assert_eq!(engine.get_portfolio_summary().active_bets_count, 2);

    engine.settle_bet("derby", BetOutcome::HomeWin).unwrap();
    let summary = engine.get_portfolio_summary();
    assert_eq!(summary.active_bets_count, 0);
    // Home paid 200, draw lost its 50.
    assert_eq!(summary.profit_loss, 100_000_000 - 50_000_000);
    assert_eq!(
        summary.available_bankroll,
        10_000_000_000 - 150_000_000 + 200_000_000
    );
}

#[test]
fn test_exotic_bets_never_win_three_way_settlement() {
    // An over/under market cannot win through the three-way outcome path.
    let mut engine = TradingEngine::new(10_000_000_000);
    let ou_bet = BettingDecision::new(
        "m".to_string(),
        BetType::OverUnder { line: 2_500_000, over: true },
        100_000_000,
        2_000_000,
        600_000,
        "s".to_string(),
    )
    .unwrap();
    engine.portfolio.place_bet(ou_bet).unwrap();
    engine.settle_bet("m", BetOutcome::HomeWin).unwrap();
    let summary = engine.get_portfolio_summary();
    assert_eq!(summary.active_bets_count, 0);
    assert_eq!(summary.profit_loss, -100_000_000);
}

#[test]
fn test_risk_warnings_one_per_flag() {
    let engine = TradingEngine::new(10_000_000_000);
    // Stake over 5% of the bankroll, odds over 5.0, Kelly over 10%: three
    // flags fire, in the order they are tested; correlation stays quiet on
    // an empty book.
    let bet = BettingDecision::new(
        "warn_match_1".to_string(),
        BetType::HomeWin,
        1_000_000_000,
        6_000_000,
        400_000,
        "aggressive".to_string(),
    )
    .unwrap();
    let assessment = engine.assess_risk("warn_match_1", &Some(bet));
    assert_eq!(assessment.warnings.len(), 3);
    assert_eq!(assessment.warnings[0], "High stake percentage (>5%)");
    assert_eq!(assessment.warnings[1], "High odds bet (>5.0)");
    assert_eq!(assessment.warnings[2], "High Kelly fraction (>10%)");
    // Without a proposed bet there is nothing to warn about.
    let quiet = engine.assess_risk("warn_match_1", &None);
    assert!(quiet.warnings.is_empty());
}
