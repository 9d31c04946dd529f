// Staking decisions, strategies and the portfolio ledger. All money and
// probabilities are fixed point at one million to the unit.

use quant_rs::betting::{BetStatus, BetType, BettingDecision, BettingStrategy, Portfolio};
use quant_rs::errors::QuantsError;

#[test]
fn test_betting_decision_creation() {
    let decision = BettingDecision::new(
        "match_123".to_string(),
        BetType::HomeWin,
        100_000_000,
        2_500_000,
        500_000,
        "TestStrategy".to_string(),
    )
    .unwrap();

    assert_eq!(decision.match_id, "match_123");
    assert_eq!(decision.stake, 100_000_000);
    assert_eq!(decision.odds, 2_500_000);
    assert!(decision.has_positive_ev());
    assert_eq!(decision.potential_payout(), 250_000_000);
    assert_eq!(decision.potential_profit(), 150_000_000);
}

#[test]
fn test_kelly_calculation() {
    // With 60% true probability and 2.0 odds (50% implied):
    // Kelly = (0.6 * 1.0 - 0.4) / 1.0 = 0.2.
    let decision = BettingDecision::new(
        "match_123".to_string(),
        BetType::HomeWin,
        100_000_000,
        2_000_000,
        600_000,
        "TestStrategy".to_string(),
    )
    .unwrap();

    assert_eq!(decision.kelly_fraction, 200_000);
}

#[test]
fn test_kelly_never_negative() {
    // A losing proposition floors the Kelly fraction at zero.
    let decision = BettingDecision::new(
        "match_123".to_string(),
        BetType::AwayWin,
        100_000_000,
        2_000_000,
        300_000,
        "TestStrategy".to_string(),
    )
    .unwrap();
    assert_eq!(decision.kelly_fraction, 0);
}

#[test]
fn test_betting_strategy() {
    let strategy = BettingStrategy::conservative();

    // Should bet: good odds, high edge, high confidence.
    assert!(strategy.should_bet(2_000_000, 600_000, 900_000));

    // Should not bet: low confidence.
    assert!(!strategy.should_bet(2_000_000, 600_000, 500_000));

    // Should not bet: no edge.
    assert!(!strategy.should_bet(2_000_000, 500_000, 900_000));
}

#[test]
fn test_should_bet_implies_minimums() {
    // A positive answer means the edge and confidence reached the
    // strategy's minimums.
    let strategy = BettingStrategy::moderate();
    let odds: u64 = 2_000_000;
    let true_prob: u64 = 600_000;
    let confidence: u64 = 700_000;
    assert!(strategy.should_bet(odds, true_prob, confidence));
    let implied = 1_000_000u64 * 1_000_000 / odds;
    let edge = true_prob as i64 - implied as i64;
    assert!(edge >= strategy.min_edge);
    assert!(confidence >= strategy.min_confidence);
}

#[test]
fn test_portfolio_management() {
    let mut portfolio = Portfolio::new(1_000_000_000);

    let bet = BettingDecision::new(
        "match_123".to_string(),
        BetType::HomeWin,
        100_000_000,
        2_000_000,
        600_000,
        "TestStrategy".to_string(),
    )
    .unwrap();

    let bet_id = bet.id.clone();

    // Place bet.
    portfolio.place_bet(bet).unwrap();
    assert_eq!(portfolio.available_bankroll, 900_000_000);
    assert_eq!(portfolio.active_bets.len(), 1);

    // Win bet: 900 + 200 payout.
    portfolio.settle_bet(&bet_id, true).unwrap();
    assert_eq!(portfolio.available_bankroll, 1_100_000_000);
    assert_eq!(portfolio.active_bets.len(), 0);
    assert_eq!(portfolio.historical_bets.len(), 1);
    assert_eq!(portfolio.total_profit_loss, 100_000_000);
}

#[test]
fn test_bankroll_identity_over_interleaving() {
    // available = initial - active stakes + settled net P&L, exactly, after
    // an interleaving of placements and settlements.
    let mut portfolio = Portfolio::new(2_000_000_000);
    let bet_a = BettingDecision::new(
        "aaa_1".to_string(),
        BetType::HomeWin,
        250_000_000,
        2_000_000,
        600_000,
        "s".to_string(),
    )
    .unwrap();
    let bet_b = BettingDecision::new(
        "bbb_1".to_string(),
        BetType::Draw,
        100_000_000,
        3_000_000,
        400_000,
        "s".to_string(),
    )
    .unwrap();
    let id_a = bet_a.id.clone();
    portfolio.place_bet(bet_a).unwrap();
    portfolio.place_bet(bet_b).unwrap();
    assert_eq!(portfolio.available_bankroll, 2_000_000_000 - 350_000_000);

    portfolio.settle_bet(&id_a, false).unwrap();
    // Lost: stake gone; identity: 2000 - 100 (active) - 250 (net loss).
    assert_eq!(portfolio.total_profit_loss, -250_000_000);
    assert_eq!(
        portfolio.available_bankroll,
        2_000_000_000 - 100_000_000 + portfolio.total_profit_loss
    );

    let bet_c = BettingDecision::new(
        "ccc_1".to_string(),
        BetType::AwayWin,
        50_000_000,
        4_000_000,
        300_000,
        "s".to_string(),
    )
    .unwrap();
    let id_c = bet_c.id.clone();
    portfolio.place_bet(bet_c).unwrap();
    portfolio.settle_bet(&id_c, true).unwrap();
    // Won: payout 200; net +150.
    assert_eq!(portfolio.total_profit_loss, -250_000_000 + 150_000_000);
    assert_eq!(
        portfolio.available_bankroll,
        2_000_000_000 - 100_000_000 + portfolio.total_profit_loss
    );
}

#[test]
fn test_decision_boundaries() {
    // Odds exactly 1.0 are rejected.
    let r = BettingDecision::new(
        "m".to_string(),
        BetType::HomeWin,
        100_000_000,
        1_000_000,
        500_000,
        "s".to_string(),
    );
    assert!(r.is_err());
    assert!(matches!(r, Err(QuantsError::InvalidOdds { .. })));

    // A zero stake is rejected.
    let r = BettingDecision::new(
        "m".to_string(),
        BetType::HomeWin,
        0,
        2_000_000,
        500_000,
        "s".to_string(),
    );
    assert!(matches!(r, Err(QuantsError::InvalidStake { .. })));

    // A probability above one is rejected.
    let r = BettingDecision::new(
        "m".to_string(),
        BetType::HomeWin,
        100_000_000,
        2_000_000,
        1_000_001,
        "s".to_string(),
    );
    assert!(matches!(r, Err(QuantsError::InvalidProbability { .. })));
}

#[test]
fn test_place_bet_insufficient_funds_leaves_bankroll() {
    let mut portfolio = Portfolio::new(50_000_000);
    let bet = BettingDecision::new(
        "m".to_string(),
        BetType::HomeWin,
        100_000_000,
        2_000_000,
        600_000,
        "s".to_string(),
    )
    .unwrap();
    let r = portfolio.place_bet(bet);
    assert!(matches!(r, Err(QuantsError::InvalidStake { .. })));
    assert_eq!(portfolio.available_bankroll, 50_000_000);
    assert_eq!(portfolio.active_bets.len(), 0);
}

#[test]
fn test_settle_unknown_bet_fails() {
    let mut portfolio = Portfolio::new(1_000_000_000);
    let r = portfolio.settle_bet("no-such-id", true);
    assert!(matches!(r, Err(QuantsError::MatchNotFound { .. })));
}

#[test]
fn test_bet_status_lifecycle() {
    let mut bet = BettingDecision::new(
        "m".to_string(),
        BetType::Draw,
        10_000_000,
        3_000_000,
        300_000,
        "s".to_string(),
    )
    .unwrap();
    assert_eq!(bet.status, BetStatus::Pending);
    assert!(bet.is_active());
    bet.update_status(BetStatus::Placed);
    assert!(bet.is_active());
    bet.update_status(BetStatus::Lost);
    assert!(!bet.is_active());
}

#[test]
fn test_fresh_ids_are_uuid_shaped() {
    // Identifiers come from the UUID generator: 36 hyphenated characters,
    // and two decisions get different ones.
    let a = BettingDecision::new(
        "m".to_string(),
        BetType::HomeWin,
        10_000_000,
        2_000_000,
        600_000,
        "s".to_string(),
    )
    .unwrap();
    let b = BettingDecision::new(
        "m".to_string(),
        BetType::HomeWin,
        10_000_000,
        2_000_000,
        600_000,
        "s".to_string(),
    )
    .unwrap();
    assert_eq!(a.id.len(), 36);
    assert_eq!(b.id.len(), 36);
    assert_ne!(a.id, b.id);
}

#[test]
fn test_win_rate_and_roi() {
    let mut portfolio = Portfolio::new(1_000_000_000);
    let bet1 = BettingDecision::new(
        "m1".to_string(),
        BetType::HomeWin,
        100_000_000,
        2_000_000,
        600_000,
        "s".to_string(),
    )
    .unwrap();
    let id1 = bet1.id.clone();
    portfolio.place_bet(bet1).unwrap();
    portfolio.settle_bet(&id1, true).unwrap();
    assert_eq!(portfolio.win_rate, 1_000_000);
    // ROI: +100 profit over 100 staked = 1.0.
    assert_eq!(portfolio.roi, 1_000_000);

    let bet2 = BettingDecision::new(
        "m2".to_string(),
        BetType::HomeWin,
        100_000_000,
        2_000_000,
        600_000,
        "s".to_string(),
    )
    .unwrap();
    let id2 = bet2.id.clone();
    portfolio.place_bet(bet2).unwrap();
    portfolio.settle_bet(&id2, false).unwrap();
    assert_eq!(portfolio.win_rate, 500_000);
    // Net zero over 200 staked.
    assert_eq!(portfolio.roi, 0);
}
