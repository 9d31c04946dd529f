//! Plain configuration data for the application shell. Values arrive from
//! the environment outside the core; the core only holds and serves them.

use vstd::prelude::*;

verus! {

/// Database connection settings.
#[derive(Debug, Clone)]
pub struct DatabaseConfig {
    pub url: String,
    pub max_connections: u32,
}

/// Redis connection settings.
#[derive(Debug, Clone)]
pub struct RedisConfig {
    pub url: String,
    pub stream_key: String,
}

/// HTTP server settings.
#[derive(Debug, Clone)]
pub struct ServerConfig {
    pub host: String,
    pub port: u16,
}

/// Model-serving settings; the confidence threshold is fixed point.
#[derive(Debug, Clone, Copy, PartialEq, Eq, Structural)]
pub struct MlConfig {
    pub model_update_interval_hours: u64,
    pub prediction_confidence_threshold: u64,
}

/// Trading limits, all fixed point.
#[derive(Debug, Clone, Copy, PartialEq, Eq, Structural)]
pub struct TradingConfig {
    pub initial_bankroll: i64,
    pub max_stake_percent: u64,
    pub kelly_multiplier: u64,
    pub min_odds: u64,
    pub max_odds: u64,
}

/// Metrics and health-check settings.
#[derive(Debug, Clone, Copy, PartialEq, Eq, Structural)]
pub struct MonitoringConfig {
    pub metrics_port: u16,
    pub health_check_interval_seconds: u64,
}

/// Settings for the outward sports-data API.
#[derive(Debug, Clone)]
pub struct ExternalApiConfig {
    pub sports_api_key: Option<String>,
    pub sports_api_base_url: String,
}

/// The full application configuration.
#[derive(Debug, Clone)]
pub struct AppConfig {
    pub database: DatabaseConfig,
    pub redis: RedisConfig,
    pub server: ServerConfig,
    pub ml: MlConfig,
    pub trading: TradingConfig,
    pub monitoring: MonitoringConfig,
    pub external_apis: ExternalApiConfig,
}

impl AppConfig {
    /// The database connection string.
    pub fn database_url(&self) -> (r: &str)
        ensures
            r@ == self.database.url@,
    {
        self.database.url.as_str()
    }

    /// The Redis connection string.
    pub fn redis_url(&self) -> (r: &str)
        ensures
            r@ == self.redis.url@,
    {
        self.redis.url.as_str()
    }

    /// The host and port joined for a listener address.
    pub fn server_addr(&self) -> (r: String)
        ensures
            r@ == self.server.host@ + ":"@ + spec_port_digits(self.server.port as int),
    {
        let mut out: String = self.server.host.clone();
        out.append(":");
        let digits = port_to_string(self.server.port);
        out.append(digits.as_str());
        out
    }
}

/// Decimal digits of a port number, most significant first.
pub open spec fn spec_port_digits(p: int) -> Seq<char>
    decreases p,
{
    if p <= 0 {
        Seq::empty()
    } else {
        spec_port_digits(p / 10).push(spec_digit_char(p % 10))
    }
}

/// The character of one decimal digit.
pub open spec fn spec_digit_char(d: int) -> char {
    if d == 0 {
        '0'
    } else if d == 1 {
        '1'
    } else if d == 2 {
        '2'
    } else if d == 3 {
        '3'
    } else if d == 4 {
        '4'
    } else if d == 5 {
        '5'
    } else if d == 6 {
        '6'
    } else if d == 7 {
        '7'
    } else if d == 8 {
        '8'
    } else {
        '9'
    }
}

/// Render a port number in decimal; a zero port renders empty, matching
/// [`spec_port_digits`].
fn port_to_string(p: u16) -> (r: String)
    ensures
        r@ == spec_port_digits(p as int),
    decreases p,
{
    if p == 0 {
        return String::new();
    }
    let head = port_to_string(p / 10);
    let digit: char = match p % 10 {
        0 => '0',
        1 => '1',
        2 => '2',
        3 => '3',
        4 => '4',
        5 => '5',
        6 => '6',
        7 => '7',
        8 => '8',
        _ => '9',
    };
    let mut out = head;
    string_push_char(&mut out, digit);
    out
}

/// Append one character to a string.
fn string_push_char(s: &mut String, c: char)
    ensures
        final(s)@ == old(s)@.push(c),
{
    let tail = char_to_string(c);
    s.append(tail.as_str());
    proof {
        assert(old(s)@ + seq![c] =~= old(s)@.push(c));
    }
}

/// Relies on String::push: the string afterwards carries the one extra
/// character.
#[verifier::external_body]
fn char_to_string(c: char) -> (r: String)
    ensures
        r@ == seq![c],
{
    let mut s = String::new();
    s.push(c);
    s
}

} // verus!
