// Odds formats, conversions and value detection.

use quant_rs::errors::QuantsError;
use quant_rs::market::{
    american_to_decimal, fractional_to_decimal, OddsFormat, SimpleMarketOdds, ValueBetType,
};

#[test]
fn test_decimal_odds_conversion() {
    let odds = OddsFormat::Decimal {
        home: 2_500_000,
        draw: Some(3_200_000),
        away: 2_800_000,
    };

    let (home, draw, away) = odds.to_decimal().unwrap();
    assert_eq!(home, 2_500_000);
    assert_eq!(draw, Some(3_200_000));
    assert_eq!(away, 2_800_000);
}

#[test]
fn test_implied_probabilities() {
    let odds = OddsFormat::Decimal {
        home: 2_000_000,
        draw: Some(3_000_000),
        away: 4_000_000,
    };

    let (home_prob, draw_prob, away_prob) = odds.to_implied_probabilities().unwrap();
    assert_eq!(home_prob, 500_000);
    assert_eq!(draw_prob, Some(333_333));
    assert_eq!(away_prob, 250_000);
}

#[test]
fn test_american_to_decimal() {
    assert_eq!(american_to_decimal(100).unwrap(), 2_000_000);
    assert_eq!(american_to_decimal(-100).unwrap(), 2_000_000);
    assert_eq!(american_to_decimal(200).unwrap(), 3_000_000);
    assert_eq!(american_to_decimal(-200).unwrap(), 1_500_000);
}

#[test]
fn test_american_zero_rejected() {
    assert!(matches!(
        american_to_decimal(0),
        Err(QuantsError::InvalidOdds { .. })
    ));
}

#[test]
fn test_fractional_to_decimal() {
    assert_eq!(fractional_to_decimal("1/1").unwrap(), 2_000_000);
    assert_eq!(fractional_to_decimal("2/1").unwrap(), 3_000_000);
    assert_eq!(fractional_to_decimal("1/2").unwrap(), 1_500_000);
}

#[test]
fn test_fractional_malformed_rejected() {
    assert!(fractional_to_decimal("21").is_err());
    assert!(fractional_to_decimal("2/1/3").is_err());
    assert!(fractional_to_decimal("a/1").is_err());
    assert!(fractional_to_decimal("1/0").is_err());
    assert!(fractional_to_decimal("/1").is_err());
    assert!(fractional_to_decimal("1/").is_err());
}

#[test]
fn test_overround_exceeds_one() {
    // A margin-bearing book: implied probabilities sum above 1.
    let odds = OddsFormat::Decimal {
        home: 2_000_000,
        draw: Some(3_000_000),
        away: 3_000_000,
    };
    let total = odds.calculate_overround().unwrap();
    assert!(total > 1_000_000);
    assert_eq!(total, 500_000 + 333_333 + 333_333);
}

#[test]
fn test_has_value_detects_edges() {
    let odds = OddsFormat::Decimal {
        home: 2_000_000,
        draw: Some(3_000_000),
        away: 4_000_000,
    };
    // Home implied 0.50; a 0.60 opinion is value. Away implied 0.25; a 0.20
    // opinion is not.
    let v = odds.has_value(600_000, 200_000, Some(200_000)).unwrap();
    assert_eq!(v.opportunities.len(), 1);
    match &v.opportunities[0] {
        ValueBetType::Home { true_prob, implied_prob, odds, expected_value } => {
            assert_eq!(*true_prob, 600_000);
            assert_eq!(*implied_prob, 500_000);
            assert_eq!(*odds, 2_000_000);
            // EV = 0.6 * 2.0 - 1 = 0.2.
            assert_eq!(*expected_value, 200_000);
        }
        _ => panic!("expected a home value opportunity"),
    }
}

#[test]
fn test_simple_odds_from_probabilities() {
    // A fair coin quoted with a 2% margin: 1 / (0.5 * 1.02) just under 2.0.
    let odds = SimpleMarketOdds::from_probabilities(500_000, 250_000, 250_000, 20_000);
    assert_eq!(odds.home_win, 1_000_000u64 * 1_000_000 / 510_000);
    assert!(odds.home_win < 2_000_000);
    assert!(odds.draw > odds.home_win);
}

#[test]
fn test_fractional_signed_parts() {
    // i32 parsing admits an explicit sign on either side.
    assert_eq!(fractional_to_decimal("+5/2").unwrap(), 3_500_000);
    assert_eq!(fractional_to_decimal("+1/+2").unwrap(), 1_500_000);
    assert_eq!(fractional_to_decimal("-4/-2").unwrap(), 3_000_000);
    assert_eq!(fractional_to_decimal("-0/2").unwrap(), 1_000_000);
    // A negative quotient would read below evens and is rejected.
    assert!(fractional_to_decimal("-5/2").is_err());
    assert!(fractional_to_decimal("5/-2").is_err());
    // A bare sign carries no digits.
    assert!(fractional_to_decimal("+/2").is_err());
}

#[test]
fn test_conversion_error_variants() {
    assert_eq!(
        american_to_decimal(0).unwrap_err(),
        QuantsError::InvalidOdds { odds: 0 }
    );
    assert_eq!(
        fractional_to_decimal("x/2").unwrap_err(),
        QuantsError::InvalidOdds { odds: 0 }
    );
}
