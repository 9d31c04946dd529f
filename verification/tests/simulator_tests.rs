// The market simulator: odds synthesis, the event filter, margins and the
// passive random walk.

use quant_rs::events::{EventType, MatchEvent, MatchStatus};
use quant_rs::market_simulator::MarketSimulator;

fn live_event(match_id: &str, kind: EventType) -> MatchEvent {
    MatchEvent::new(
        match_id.to_string(),
        kind,
        "Arsenal".to_string(),
        "Chelsea".to_string(),
        "Premier League".to_string(),
        "2024-25".to_string(),
    )
    .with_status(MatchStatus::Live)
}

#[test]
fn test_market_odds_generation() {
    let mut simulator = MarketSimulator::new();
    let event = live_event("test_match", EventType::MatchStart);
    let odds = simulator.generate_market_odds(&event).unwrap();

    // Quotes land strictly above evens and well under the ceiling.
    assert!(odds.home_win > 1_100_000);
    assert!(odds.home_win < 10_000_000);
    assert!(odds.draw > 1_100_000);
    assert!(odds.away_win > 1_100_000);
    assert!(odds.away_win < 20_000_001);
}

#[test]
fn test_get_current_odds_idempotent() {
    let mut simulator = MarketSimulator::new();
    let event = live_event("test_match", EventType::MatchStart);
    let generated = simulator.generate_market_odds(&event).unwrap();

    // Without an intervening generation, reads keep answering the same.
    let first = simulator.get_current_odds("test_match");
    let second = simulator.get_current_odds("test_match");
    let third = simulator.get_current_odds("test_match");
    assert_eq!(first, Some(generated));
    assert_eq!(first, second);
    assert_eq!(second, third);
    assert!(simulator.get_current_odds("other_match").is_none());
}

#[test]
fn test_update_odds_only_on_significant_events() {
    let mut simulator = MarketSimulator::new();

    let quiet = live_event("m", EventType::OddsUpdate);
    assert!(simulator.update_odds_for_event(&quiet).unwrap().is_none());
    assert!(simulator.get_current_odds("m").is_none());

    let goal = live_event(
        "m",
        EventType::Goal {
            team: "Arsenal".to_string(),
            player: None,
            minute: 12,
        },
    );
    let updated = simulator.update_odds_for_event(&goal).unwrap();
    assert!(updated.is_some());
    assert_eq!(simulator.get_current_odds("m"), updated);
}

#[test]
fn test_margin_override_is_kept() {
    let mut simulator = MarketSimulator::new();
    simulator.set_margin_for_match("m".to_string(), 40_000);
    // The stored margin survives an odds generation for the same match.
    let event = live_event("m", EventType::MatchStart);
    let odds = simulator.generate_market_odds(&event).unwrap();
    assert!(odds.home_win > 1_000_000);
}

#[test]
fn test_market_movement_keeps_band() {
    let mut simulator = MarketSimulator::new();
    // A match with no odds yet is left untouched.
    simulator.simulate_market_movement("m", 500_000).unwrap();
    assert!(simulator.get_current_odds("m").is_none());

    let event = live_event("m", EventType::MatchStart);
    simulator.generate_market_odds(&event).unwrap();
    simulator.simulate_market_movement("m", 500_000).unwrap();
    let moved = simulator.get_current_odds("m").unwrap();
    assert!(moved.home_win > 1_000_000 && moved.home_win <= 20_000_000);
    assert!(moved.draw > 1_000_000 && moved.draw <= 20_000_000);
    assert!(moved.away_win > 1_000_000 && moved.away_win <= 20_000_000);
}

#[test]
fn test_odds_with_edge_are_cached() {
    let mut simulator = MarketSimulator::new();
    let prediction = quant_rs::predictions::Prediction::new(
        "m".to_string(),
        "model".to_string(),
        "v1".to_string(),
        500_000,
        250_000,
        0,
    )
    .unwrap();
    let odds = simulator.generate_odds_with_edge(&prediction, 50_000).unwrap();
    assert_eq!(simulator.get_current_odds("m"), Some(odds));
    // Fair home odds are 2.0; the edge factor pushes the quote above that.
    assert!(odds.home_win > 2_000_000);
}
