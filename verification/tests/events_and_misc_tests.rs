// Match events, the predictor service, and the small surrounding pieces:
// pagination, configuration, migrations and the latency tracker.

use quant_rs::api::{PaginationInfo, PaginationParams};
use quant_rs::config::{
    AppConfig, DatabaseConfig, ExternalApiConfig, MlConfig, MonitoringConfig, RedisConfig,
    ServerConfig, TradingConfig,
};
use quant_rs::events::{EventType, MatchEvent, MatchStatus, Score};
use quant_rs::market_simulator::MarketSimulator;
use quant_rs::metrics::LatencyTracker;
use quant_rs::migrations::get_migrations;
use quant_rs::predictions::Prediction;
use quant_rs::predictor::PredictorService;
use quant_rs::trader::TradingEngine;

#[test]
fn test_match_event_creation() {
    let event = MatchEvent::new(
        "match_123".to_string(),
        EventType::MatchStart,
        "Arsenal".to_string(),
        "Chelsea".to_string(),
        "Premier League".to_string(),
        "2024-25".to_string(),
    );

    assert_eq!(event.match_id, "match_123");
    assert_eq!(event.team_home, "Arsenal");
    assert_eq!(event.team_away, "Chelsea");
    assert!(!event.is_live());
    assert!(!event.is_finished());
}

#[test]
fn test_match_status_helpers() {
    let mut event = MatchEvent::new(
        "match_123".to_string(),
        EventType::MatchStart,
        "Arsenal".to_string(),
        "Chelsea".to_string(),
        "Premier League".to_string(),
        "2024-25".to_string(),
    );

    event = event.with_status(MatchStatus::Live);
    assert!(event.is_live());
    assert!(!event.is_finished());

    event = event.with_status(MatchStatus::Finished);
    assert!(!event.is_live());
    assert!(event.is_finished());
}

#[test]
fn test_event_with_score() {
    let event = MatchEvent::new(
        "m".to_string(),
        EventType::HalfTime,
        "A".to_string(),
        "B".to_string(),
        "L".to_string(),
        "S".to_string(),
    )
    .with_score(Score { home: 2, away: 1, half_time_home: Some(2), half_time_away: Some(1) });
    assert_eq!(event.score.unwrap().home, 2);
    assert_eq!(event.id.len(), 36);
}

#[test]
fn test_standard_helpers() {
    let event = MatchEvent::new(
        "standard_test_match".to_string(),
        EventType::Goal {
            team: "Home Team".to_string(),
            player: Some("Test Player".to_string()),
            minute: 45,
        },
        "Home Team".to_string(),
        "Away Team".to_string(),
        "Test League".to_string(),
        "2024-25".to_string(),
    );
    assert_eq!(event.match_id, "standard_test_match");

    let prediction = Prediction::new(
        "standard_test_match".to_string(),
        "test_model".to_string(),
        "test_v1.0".to_string(),
        500_000,
        250_000,
        0,
    )
    .unwrap()
    .with_draw_prob(250_000)
    .unwrap()
    .with_confidence(750_000)
    .unwrap();
    assert_eq!(prediction.match_id, "standard_test_match");

    // The probabilities sum to one within the tolerance.
    let total_prob =
        prediction.home_win_prob + prediction.away_win_prob + prediction.draw_prob.unwrap_or(0);
    assert!(total_prob >= 999_000 && total_prob <= 1_001_000);

    let odds = quant_rs::market::SimpleMarketOdds::new(2_000_000, 3_500_000, 3_000_000);
    assert!(odds.home_win > 0);
    assert!(odds.draw > 0);
    assert!(odds.away_win > 0);
}

#[test]
fn test_predictor_service_pipeline() {
    let mut service = PredictorService::new();
    assert_eq!(service.get_prediction_count(), 0);
    let event = MatchEvent::new(
        "integration_test".to_string(),
        EventType::MatchStart,
        "A".to_string(),
        "B".to_string(),
        "Premier League".to_string(),
        "2024-25".to_string(),
    );
    let p = service.predict(&event).unwrap();
    assert_eq!(p.match_id, "integration_test");
    assert_eq!(p.model_name, "EnsembleModel");
    let total = p.home_win_prob + p.away_win_prob + p.draw_prob.unwrap_or(0);
    assert!(total >= 999_000 && total <= 1_001_000);
    assert_eq!(service.get_prediction_count(), 1);

    service.update_team_performance("A", 2, 0);
    let stats = service.get_feature_engineer().get_team_stats("A").unwrap();
    assert_eq!(stats.goals_for, 2);
}

#[test]
fn test_system_integration_basic() {
    // Event to prediction to signal to settlement, end to end.
    let mut service = PredictorService::new();
    let mut simulator = MarketSimulator::new();
    let mut engine = TradingEngine::new(10_000_000_000);

    let event = MatchEvent::new(
        "integration_test".to_string(),
        EventType::MatchStart,
        "A".to_string(),
        "B".to_string(),
        "Premier League".to_string(),
        "2024-25".to_string(),
    );
    let prediction = service.predict(&event).unwrap();
    let odds = simulator.generate_market_odds(&event).unwrap();
    engine.update_market_odds(event.match_id.clone(), odds);
    let signal = engine.process_prediction(&prediction).unwrap();
    assert_eq!(signal.match_id, "integration_test");
    let _ = engine.execute_trade(&signal).unwrap();
    engine
        .settle_bet("integration_test", quant_rs::trader::BetOutcome::HomeWin)
        .unwrap();
    assert_eq!(engine.get_portfolio_summary().active_bets_count, 0);
}

#[test]
fn test_pagination_limits() {
    // The limit is capped at 100 and pages are a ceiling division.
    let info = PaginationInfo::compute(
        &PaginationParams { page: Some(1), limit: Some(200) },
        150,
    );
    assert_eq!(info.limit, 100);
    assert_eq!(info.pages, 2);

    let info = PaginationInfo::compute(
        &PaginationParams { page: Some(2), limit: Some(50) },
        150,
    );
    assert_eq!(info.page, 2);
    assert_eq!(info.limit, 50);
    assert_eq!(info.total, 150);
    assert_eq!(info.pages, 3);

    let info = PaginationInfo::compute(&PaginationParams { page: None, limit: None }, 5);
    assert_eq!(info.page, 1);
    assert_eq!(info.limit, 10);
    assert_eq!(info.pages, 1);
}

#[test]
fn test_migrations_listed_in_order() {
    let migrations = get_migrations();
    assert_eq!(migrations.len(), 1);
    assert_eq!(migrations[0].0, "001");
    assert!(migrations[0].1.contains("CREATE TABLE"));
}

#[test]
fn test_latency_tracker() {
    let tracker = LatencyTracker::new("test_operation".to_string());
    assert_eq!(tracker.operation_name(), "test_operation");
}

#[test]
fn test_config_accessors() {
    let config = AppConfig {
        database: DatabaseConfig {
            url: "postgresql://localhost:5432/quants".to_string(),
            max_connections: 20,
        },
        redis: RedisConfig {
            url: "redis://localhost:6379".to_string(),
            stream_key: "sports_events".to_string(),
        },
        server: ServerConfig { host: "0.0.0.0".to_string(), port: 8080 },
        ml: MlConfig {
            model_update_interval_hours: 24,
            prediction_confidence_threshold: 700_000,
        },
        trading: TradingConfig {
            initial_bankroll: 10_000_000_000,
            max_stake_percent: 50_000,
            kelly_multiplier: 500_000,
            min_odds: 1_200_000,
            max_odds: 10_000_000,
        },
        monitoring: MonitoringConfig { metrics_port: 9090, health_check_interval_seconds: 30 },
        external_apis: ExternalApiConfig {
            sports_api_key: None,
            sports_api_base_url: "https://api.sportsdataapi.com".to_string(),
        },
    };
    assert_eq!(config.database_url(), "postgresql://localhost:5432/quants");
    assert_eq!(config.redis_url(), "redis://localhost:6379");
    assert_eq!(config.server_addr(), "0.0.0.0:8080");
}

#[test]
fn test_compilation_success() {
    println!("Basic functionality tests compile successfully");
}
