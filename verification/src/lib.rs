//! Live sports-betting decision pipeline: feature engineering, ensemble
//! prediction, market odds synthesis, and a risk-managed trading engine over a
//! shared portfolio.
//!
//! Every quantity the domain states as a real number (probabilities,
//! decimal odds, momentum, money) is held here as a
//! fixed-point integer scaled by [`fixed::SCALE`], so that the bankroll
//! accounting is exact and every arithmetic step is proved free of overflow.

pub mod api;
pub mod betting;
pub mod config;
pub mod errors;
pub mod events;
pub mod ext;
pub mod features;
pub mod fixed;
pub mod market;
pub mod market_simulator;
pub mod metrics;
pub mod migrations;
pub mod models;
pub mod predictions;
pub mod predictor;
pub mod trader;

