//! Bookmaker market data: simple three-way odds snapshots, odds-format
//! conversions (decimal, American, fractional) and value-bet detection.

use vstd::prelude::*;

use crate::errors::QuantsError;
use crate::ext;
use crate::fixed::{MAX_ODDS, PROB_ONE, SCALE};

verus! {

/// Immutable snapshot of decimal odds for home, draw and away, fixed point.
#[derive(Debug, Clone, Copy, PartialEq, Eq, Structural)]
pub struct SimpleMarketOdds {
    pub home_win: u64,
    pub draw: u64,
    pub away_win: u64,
}

/// Decimal odds quoted from a probability and an overround margin:
/// `1 / (p * (1 + margin))`, or `dflt` when the adjusted probability rounds
/// to nothing.
pub open spec fn spec_odds_from_prob(p: int, margin: int, dflt: int) -> int {
    let adj = p * ((SCALE as int) + margin) / (SCALE as int);
    if adj == 0 {
        dflt
    } else {
        (SCALE as int) * (SCALE as int) / adj
    }
}

impl SimpleMarketOdds {
    /// All three quotes in the representable band above 1.
    pub open spec fn spec_valid(&self) -> bool {
        &&& (SCALE as int) < self.home_win <= MAX_ODDS
        &&& (SCALE as int) < self.draw <= MAX_ODDS
        &&& (SCALE as int) < self.away_win <= MAX_ODDS
    }

    /// Wrap three quotes as a snapshot.
    pub fn new(home_win: u64, draw: u64, away_win: u64) -> (r: SimpleMarketOdds)
        ensures
            r == (SimpleMarketOdds { home_win, draw, away_win }),
    {
        SimpleMarketOdds { home_win, draw, away_win }
    }

    /// Quote odds from a probability triple, inflated by a bookmaker margin
    /// (the overround). A probability whose adjusted value rounds to zero
    /// falls back to an even-money style default.
    pub fn from_probabilities(
        home_prob: u64,
        draw_prob: u64,
        away_prob: u64,
        margin: u64,
    ) -> (r: SimpleMarketOdds)
        requires
            home_prob <= PROB_ONE,
            draw_prob <= PROB_ONE,
            away_prob <= PROB_ONE,
            margin <= PROB_ONE,
        ensures
            r.home_win == spec_odds_from_prob(home_prob as int, margin as int, 2_000_000),
            r.draw == spec_odds_from_prob(draw_prob as int, margin as int, 3_000_000),
            r.away_win == spec_odds_from_prob(away_prob as int, margin as int, 2_000_000),
    {
        SimpleMarketOdds {
            home_win: odds_from_prob(home_prob, margin, 2_000_000),
            draw: odds_from_prob(draw_prob, margin, 3_000_000),
            away_win: odds_from_prob(away_prob, margin, 2_000_000),
        }
    }
}

/// One quote from one probability; see [`spec_odds_from_prob`].
fn odds_from_prob(p: u64, margin: u64, dflt: u64) -> (r: u64)
    requires
        p <= PROB_ONE,
        margin <= PROB_ONE,
    ensures
        r == spec_odds_from_prob(p as int, margin as int, dflt as int),
{
    proof {
        let ghost pp = p as int;
        let ghost mm = (SCALE as int) + margin;
        assert(0 <= pp * mm <= 2_000_000_000_000) by (nonlinear_arith)
            requires 0 <= pp <= 1_000_000, 0 <= mm <= 2_000_000;
        assert(0 <= pp * mm / (SCALE as int) <= pp * mm) by (nonlinear_arith)
            requires pp * mm >= 0;
    }
    let adj: u64 = (((p as u128) * ((SCALE + margin) as u128)) / (SCALE as u128)) as u64;
    if adj == 0 {
        dflt
    } else {
        (SCALE * SCALE) / adj
    }
}

/// The market a quote belongs to.
#[derive(Debug, Clone, PartialEq)]
pub enum MarketType {
    MatchWinner,
    OverUnder { line: i64 },
    AsianHandicap { line: i64 },
    BothTeamsToScore,
    CorrectScore,
    FirstGoalscorer,
}

/// A full odds record as a bookmaker would publish it.
#[derive(Debug, Clone)]
pub struct MarketOdds {
    pub id: String,
    pub match_id: String,
    pub market_type: MarketType,
    pub bookmaker: String,
    pub odds: OddsFormat,
    pub timestamp: i64,
    pub is_active: bool,
}

impl MarketOdds {
    /// Assemble a quoted record for one match.
    pub fn new(
        match_id: String,
        market_type: MarketType,
        bookmaker: String,
        odds: OddsFormat,
    ) -> (r: MarketOdds)
        ensures
            r.match_id == match_id,
            r.market_type == market_type,
            r.bookmaker == bookmaker,
            r.odds == odds,
            r.is_active,
    {
        MarketOdds {
            id: ext::fresh_id(),
            match_id,
            market_type,
            bookmaker,
            odds,
            timestamp: ext::now_unix_seconds(),
            is_active: true,
        }
    }
}

/// Quoted odds in one of the three common notations. Decimal values are
/// fixed point; American values are the plain signed convention.
#[derive(Debug, Clone, PartialEq)]
pub enum OddsFormat {
    Decimal { home: u64, draw: Option<u64>, away: u64 },
    American { home: i32, draw: Option<i32>, away: i32 },
    Fractional { home: String, draw: Option<String>, away: String },
}

/// Decimal odds of an American quote: `a/100 + 1` for positive `a`,
/// `100/(-a) + 1` for negative; zero has no reading.
pub open spec fn spec_american(a: int) -> Option<int> {
    if a == 0 {
        None
    } else if a > 0 {
        Some(a * 10_000 + (SCALE as int))
    } else {
        Some(100 * (SCALE as int) / (-a) + (SCALE as int))
    }
}

/// Value of a digit string read most-significant first; meaningful only
/// when every byte is a digit.
pub open spec fn spec_digits_val(s: Seq<u8>) -> int
    decreases s.len(),
{
    if s.len() == 0 {
        0
    } else {
        spec_digits_val(s.drop_last()) * 10 + (s.last() - 48)
    }
}

/// Whether `s` is one or more ASCII digits.
pub open spec fn spec_all_digits(s: Seq<u8>) -> bool {
    s.len() >= 1 && forall|i: int| 0 <= i < s.len() ==> 48 <= #[trigger] s[i] <= 57
}

/// A digit string is bounded below by any of its prefixes.
proof fn lemma_digits_prefix_le(s: Seq<u8>, i: int)
    requires
        spec_all_digits(s),
        1 <= i <= s.len(),
    ensures
        spec_digits_val(s.take(i)) <= spec_digits_val(s),
        spec_digits_val(s) >= 0,
    decreases s.len() - i,
{
    lemma_digits_nonneg(s.take(i));
    lemma_digits_nonneg(s);
    if i < s.len() {
        lemma_digits_prefix_le(s, i + 1);
        assert(s.take(i + 1).drop_last() =~= s.take(i));
        assert(s.take(i + 1).last() == s[i]);
        let ghost a = spec_digits_val(s.take(i));
        assert(a <= a * 10) by (nonlinear_arith)
            requires a >= 0;
    } else {
        assert(s.take(i) =~= s);
    }
}

/// The value of a digit string is non-negative.
proof fn lemma_digits_nonneg(s: Seq<u8>)
    requires
        forall|i: int| 0 <= i < s.len() ==> 48 <= #[trigger] s[i] <= 57,
    ensures
        spec_digits_val(s) >= 0,
    decreases s.len(),
{
    if s.len() > 0 {
        assert forall|i: int| 0 <= i < s.drop_last().len()
            implies 48 <= #[trigger] s.drop_last()[i] <= 57 by {
            assert(s.drop_last()[i] == s[i]);
        }
        lemma_digits_nonneg(s.drop_last());
        let ghost a = spec_digits_val(s.drop_last());
        assert(a * 10 >= 0) by (nonlinear_arith)
            requires a >= 0;
    }
}

/// Parse an unsigned digit string into a value at most `limit`.
fn parse_digits(bytes: &[u8], limit: i64) -> (r: Option<i64>)
    requires
        0 <= limit <= 4_000_000_000,
    ensures
        r matches Some(v)
            ==> spec_all_digits(bytes@) && v == spec_digits_val(bytes@)
                && 0 <= v <= limit,
        r is None
            ==> !spec_all_digits(bytes@)
                || spec_digits_val(bytes@) > limit,
{
    let n = bytes.len();
    if n == 0 {
        return None;
    }
    let mut acc: i64 = 0;
    let mut i: usize = 0;
    proof {
        assert(bytes@.take(0) =~= Seq::<u8>::empty());
    }
    while i < n
        invariant
            n == bytes@.len(),
            i <= n,
            0 <= limit <= 4_000_000_000,
            acc == spec_digits_val(bytes@.take(i as int)),
            0 <= acc <= limit,
            forall|k: int| 0 <= k < i ==> 48 <= #[trigger] bytes@[k] <= 57,
        decreases n - i,
    {
        let b = bytes[i];
        if b < 48 || b > 57 {
            return None;
        }
        proof {
            assert(bytes@.take(i as int + 1).drop_last() =~= bytes@.take(i as int));
            assert(bytes@.take(i as int + 1).last() == bytes@[i as int]);
        }
        let next: i64 = acc * 10 + ((b - 48) as i64);
        if next > limit {
            proof {
                assert(bytes@.take(i as int + 1) =~= bytes@.take(i as int + 1));
                if spec_all_digits(bytes@) {
                    lemma_digits_prefix_le(bytes@, i as int + 1);
                }
            }
            return None;
        }
        acc = next;
        i += 1;
    }
    proof {
        assert(bytes@.take(n as int) =~= bytes@);
    }
    Some(acc)
}

/// Reading of one side of a fractional quote as a signed 32-bit number: an
/// optional `+` or `-` sign, then one or more digits, with the value inside
/// the signed 32-bit range. Exactly the strings `i32`'s parser accepts.
pub open spec fn spec_signed_val(s: Seq<u8>) -> Option<int> {
    if s.len() == 0 {
        None
    } else {
        let neg = s[0] == 45;
        let digits = if s[0] == 43 || s[0] == 45 {
            s.drop_first()
        } else {
            s
        };
        let bound: int = if neg {
            2_147_483_648
        } else {
            2_147_483_647
        };
        if spec_all_digits(digits) && spec_digits_val(digits) <= bound {
            Some(
                if neg {
                    -spec_digits_val(digits)
                } else {
                    spec_digits_val(digits)
                },
            )
        } else {
            None
        }
    }
}

/// Parse an optionally signed digit string; exactly [`spec_signed_val`].
fn parse_signed(bytes: &[u8]) -> (r: Option<i64>)
    ensures
        r matches Some(v) ==> Some(v as int) == spec_signed_val(bytes@),
        r matches Some(v) ==> -2_147_483_648 <= v <= 2_147_483_647,
        r is None ==> spec_signed_val(bytes@) is None,
{
    let n = bytes.len();
    if n == 0 {
        return None;
    }
    let first = bytes[0];
    let neg = first == 45;
    let (digits, limit): (&[u8], i64) = if first == 43 || first == 45 {
        let (_, rest) = slice_split(bytes, 1);
        (rest, if neg { 2_147_483_648 } else { 2_147_483_647 })
    } else {
        (bytes, 2_147_483_647)
    };
    proof {
        if first == 43 || first == 45 {
            assert(digits@ =~= bytes@.drop_first());
        }
    }
    match parse_digits(digits, limit) {
        Some(v) => {
            if neg {
                Some(-v)
            } else {
                Some(v)
            }
        }
        None => None,
    }
}

/// Index of the first `/` byte in `s`, or -1.
pub open spec fn spec_find_slash(s: Seq<u8>) -> int
    decreases s.len(),
{
    if s.len() == 0 {
        -1
    } else if s[0] == 47 {
        0
    } else {
        let t = spec_find_slash(s.drop_first());
        if t == -1 {
            -1
        } else {
            t + 1
        }
    }
}

/// The first slash found is a genuine index carrying a slash.
proof fn lemma_find_slash_valid(s: Seq<u8>)
    ensures
        spec_find_slash(s) == -1 || (0 <= spec_find_slash(s) < s.len()
            && s[spec_find_slash(s)] == 47),
    decreases s.len(),
{
    if s.len() > 0 && s[0] != 47 {
        lemma_find_slash_valid(s.drop_first());
    }
}

/// `spec_find_slash` restricted to a slash-free prefix is decided by the
/// rest.
proof fn lemma_find_slash_skip(s: Seq<u8>, i: int)
    requires
        0 <= i <= s.len(),
        forall|k: int| 0 <= k < i ==> s[k] != 47,
    ensures
        spec_find_slash(s) == -1 <==> spec_find_slash(s.skip(i)) == -1,
        spec_find_slash(s.skip(i)) >= 0
            ==> spec_find_slash(s) == i + spec_find_slash(s.skip(i)),
    decreases i,
{
    lemma_find_slash_valid(s);
    lemma_find_slash_valid(s.skip(i));
    if i > 0 {
        lemma_find_slash_valid(s.drop_first());
        assert(s.len() > 0 && s[0] != 47);
        assert forall|k: int| 0 <= k < i - 1 implies s.drop_first()[k] != 47 by {
            assert(s.drop_first()[k] == s[k + 1]);
        }
        lemma_find_slash_skip(s.drop_first(), i - 1);
        assert(s.drop_first().skip(i - 1) =~= s.skip(i));
        assert(spec_find_slash(s) == (if spec_find_slash(s.drop_first()) == -1 {
            -1int
        } else {
            spec_find_slash(s.drop_first()) + 1
        }));
    } else {
        assert(s.skip(0) =~= s);
    }
}

/// Reading of a fractional quote `NUM '/' NUM`, split at the first slash,
/// each side an optionally signed 32-bit number (a second slash fails the
/// denominator): numerator over denominator plus one, in fixed point.
/// `None` when a side does not parse, the denominator is zero, or the
/// quotient is negative: such a quote reads below evens, which the odds
/// representation (strictly positive decimal odds) cannot carry.
pub open spec fn spec_fractional(s: Seq<u8>) -> Option<int> {
    let k = spec_find_slash(s);
    if k < 0 {
        None
    } else {
        match (spec_signed_val(s.take(k)), spec_signed_val(s.skip(k + 1))) {
            (Some(n), Some(d)) => {
                if d == 0 {
                    None
                } else if (n < 0) != (d < 0) && n != 0 {
                    None
                } else {
                    let na = if n < 0 { -n } else { n };
                    let da = if d < 0 { -d } else { d };
                    Some(na * (SCALE as int) / da + (SCALE as int))
                }
            }
            _ => None,
        }
    }
}

/// Convert an American quote; fails, with the invalid-odds error, if and
/// only if it is zero.
pub fn american_to_decimal(american: i32) -> (r: Result<u64, QuantsError>)
    ensures
        r is Ok <==> american != 0,
        r matches Ok(v) ==> Some(v as int) == spec_american(american as int),
        r matches Ok(v) ==> v >= SCALE,
        r is Err ==> r == Err::<u64, QuantsError>(QuantsError::InvalidOdds { odds: 0 }),
{
    if american == 0 {
        return Err(QuantsError::InvalidOdds { odds: 0 });
    }
    if american > 0 {
        Ok((american as u64) * 10_000 + SCALE)
    } else {
        let neg: u64 = if american == i32::MIN {
            2147483648
        } else {
            (-american) as u64
        };
        Ok(100 * SCALE / neg + SCALE)
    }
}

/// Convert a fractional quote of the shape `NUM '/' NUM`, each side an
/// optionally signed 32-bit number; fails, with the invalid-odds error, if
/// and only if the text is not of that shape, a number does not fit, the
/// denominator is zero, or the quotient is negative (odds below evens have
/// no strictly positive decimal reading).
pub fn fractional_to_decimal(fractional: &str) -> (r: Result<u64, QuantsError>)
    ensures
        r is Ok <==> (spec_fractional(vstd::utf8::encode_utf8(fractional@)) is Some),
        r matches Ok(v)
            ==> Some(v as int) == spec_fractional(vstd::utf8::encode_utf8(fractional@)),
        r matches Ok(v) ==> v >= SCALE,
        r is Err ==> r == Err::<u64, QuantsError>(QuantsError::InvalidOdds { odds: 0 }),
{
    let bytes = fractional.as_bytes();
    let ghost s = bytes@;
    let n = bytes.len();

    // Find the first slash.
    let mut slash: usize = 0;
    loop
        invariant
            n == s.len(),
            s == bytes@,
            0 <= slash <= n,
            forall|k: int| 0 <= k < slash ==> s[k] != 47,
        ensures
            (slash == n && spec_find_slash(s) == -1)
                || (slash < n && spec_find_slash(s) == slash as int),
        decreases n - slash,
    {
        if slash == n {
            proof {
                lemma_find_slash_skip(s, n as int);
                assert(s.skip(n as int).len() == 0);
            }
            break;
        }
        if bytes[slash] == 47 {
            proof {
                lemma_find_slash_skip(s, slash as int);
                assert(s.skip(slash as int)[0] == s[slash as int]);
            }
            break;
        }
        slash += 1;
    }
    if slash == n {
        return Err(QuantsError::InvalidOdds { odds: 0 });
    }

    let (num_part, rest) = slice_split(bytes, slash);
    let (_, den_part) = slice_split(rest, 1);
    proof {
        assert(num_part@ =~= s.take(slash as int));
        assert(den_part@ =~= s.skip(slash as int).skip(1));
        assert(s.skip(slash as int).skip(1) =~= s.skip(slash as int + 1));
    }

    let num = match parse_signed(num_part) {
        Some(v) => v,
        None => {
            return Err(QuantsError::InvalidOdds { odds: 0 });
        }
    };
    let den = match parse_signed(den_part) {
        Some(v) => v,
        None => {
            return Err(QuantsError::InvalidOdds { odds: 0 });
        }
    };
    if den == 0 {
        return Err(QuantsError::InvalidOdds { odds: 0 });
    }
    if (num < 0) != (den < 0) && num != 0 {
        return Err(QuantsError::InvalidOdds { odds: 0 });
    }
    let na: i64 = if num < 0 {
        -num
    } else {
        num
    };
    let da: i64 = if den < 0 {
        -den
    } else {
        den
    };
    proof {
        let ghost nv = na as int;
        let ghost dv = da as int;
        assert(0 <= nv * (SCALE as int) <= 2_147_483_648_000_000) by (nonlinear_arith)
            requires 0 <= nv <= 2_147_483_648;
        assert(0 <= nv * (SCALE as int) / dv <= nv * (SCALE as int)) by (nonlinear_arith)
            requires nv * (SCALE as int) >= 0, dv >= 1;
    }
    let odds: u64 = ((na as u64) * SCALE) / (da as u64) + SCALE;
    Ok(odds)
}

/// `split_at` on a byte slice, with the two views stated.
fn slice_split(bytes: &[u8], mid: usize) -> (r: (&[u8], &[u8]))
    requires
        mid <= bytes@.len(),
    ensures
        r.0@ == bytes@.take(mid as int),
        r.1@ == bytes@.skip(mid as int),
{
    let r = bytes.split_at(mid);
    proof {
        assert(r.0@ =~= bytes@.take(mid as int));
        assert(r.1@ =~= bytes@.skip(mid as int));
    }
    r
}

/// An `Option<u64>` read as mathematical integers.
pub open spec fn spec_opt_int(o: Option<u64>) -> Option<int> {
    match o {
        Some(v) => Some(v as int),
        None => None,
    }
}

impl OddsFormat {
    /// Decimal reading of this quote, when every present leg has one.
    pub open spec fn spec_to_decimal(&self) -> Option<(int, Option<int>, int)> {
        match self {
            OddsFormat::Decimal { home, draw, away } => Some(
                (*home as int, spec_opt_int(*draw), *away as int),
            ),
            OddsFormat::American { home, draw, away } => {
                match (spec_american(*home as int), spec_american(*away as int)) {
                    (Some(h), Some(a)) => match draw {
                        Some(d) => match spec_american(*d as int) {
                            Some(dv) => Some((h, Some(dv), a)),
                            None => None,
                        },
                        None => Some((h, None, a)),
                    },
                    _ => None,
                }
            }
            OddsFormat::Fractional { home, draw, away } => {
                let h = spec_fractional(vstd::utf8::encode_utf8(home@));
                let a = spec_fractional(vstd::utf8::encode_utf8(away@));
                match (h, a) {
                    (Some(hv), Some(av)) => match draw {
                        Some(d) => match spec_fractional(vstd::utf8::encode_utf8(d@)) {
                            Some(dv) => Some((hv, Some(dv), av)),
                            None => None,
                        },
                        None => Some((hv, None, av)),
                    },
                    _ => None,
                }
            }
        }
    }

    /// Convert to decimal odds; fails if and only if a present leg has no
    /// decimal reading (a zero American quote, a malformed fraction).
    pub fn to_decimal(&self) -> (r: Result<(u64, Option<u64>, u64), QuantsError>)
        ensures
            r is Ok <==> (self.spec_to_decimal() is Some),
            r matches Ok(v)
                ==> self.spec_to_decimal()
                    == Some((v.0 as int, spec_opt_int(v.1), v.2 as int)),
    {
        match self {
            OddsFormat::Decimal { home, draw, away } => Ok((*home, *draw, *away)),
            OddsFormat::American { home, draw, away } => {
                let h = american_to_decimal(*home)?;
                let a = american_to_decimal(*away)?;
                let d = match draw {
                    Some(d) => Some(american_to_decimal(*d)?),
                    None => None,
                };
                Ok((h, d, a))
            }
            OddsFormat::Fractional { home, draw, away } => {
                let h = fractional_to_decimal(home.as_str())?;
                let a = fractional_to_decimal(away.as_str())?;
                let d = match draw {
                    Some(d) => Some(fractional_to_decimal(d.as_str())?),
                    None => None,
                };
                Ok((h, d, a))
            }
        }
    }

    /// Implied probabilities `1 / odds` of the decimal reading. `None` for
    /// the draw leg passes through.
    pub open spec fn spec_implied(&self) -> Option<(int, Option<int>, int)> {
        match self.spec_to_decimal() {
            None => None,
            Some((h, d, a)) => {
                if h > 0 && a > 0 && (match d {
                    Some(dv) => dv > 0,
                    None => true,
                }) {
                    Some(
                        (
                            (SCALE as int) * (SCALE as int) / h,
                            match d {
                                Some(dv) => Some((SCALE as int) * (SCALE as int) / dv),
                                None => None,
                            },
                            (SCALE as int) * (SCALE as int) / a,
                        ),
                    )
                } else {
                    None
                }
            }
        }
    }

    /// Convert to implied probabilities; fails if and only if the decimal
    /// reading fails or a present leg is zero.
    pub fn to_implied_probabilities(&self) -> (r: Result<(u64, Option<u64>, u64), QuantsError>)
        ensures
            r is Ok <==> (self.spec_implied() is Some),
            r matches Ok(v)
                ==> self.spec_implied()
                    == Some((v.0 as int, spec_opt_int(v.1), v.2 as int)),
            r matches Ok(v) ==> v.0 <= SCALE * SCALE && v.2 <= SCALE * SCALE
                && (v.1 matches Some(d) ==> d <= SCALE * SCALE),
    {
        let (h, d, a) = self.to_decimal()?;
        if h == 0 || a == 0 {
            return Err(QuantsError::InvalidOdds { odds: 0 });
        }
        let d_imp: Option<u64> = match d {
            Some(dv) => {
                if dv == 0 {
                    return Err(QuantsError::InvalidOdds { odds: 0 });
                }
                Some(SCALE * SCALE / dv)
            }
            None => None,
        };
        Ok((SCALE * SCALE / h, d_imp, SCALE * SCALE / a))
    }

    /// Sum of the implied probabilities; above 1 by the bookmaker's margin.
    pub fn calculate_overround(&self) -> (r: Result<u64, QuantsError>)
        ensures
            r is Ok <==> (self.spec_implied() is Some),
            r matches Ok(v) ==> (self.spec_implied() matches Some((h, d, a))
                && v == h + a + (match d {
                    Some(dv) => dv,
                    None => 0,
                })),
    {
        let (h, d, a) = self.to_implied_probabilities()?;
        let d_val: u64 = match d {
            Some(dv) => dv,
            None => 0,
        };
        Ok(h + a + d_val)
    }
}

/// A detected set of value opportunities for one match.
#[derive(Debug, Clone)]
pub struct ValueBet {
    pub match_id: String,
    pub opportunities: Vec<ValueBetType>,
    pub timestamp: i64,
}

/// One outcome whose model probability exceeds the market's implied one.
#[derive(Debug, Clone, PartialEq, Eq, Structural)]
pub enum ValueBetType {
    Home { true_prob: u64, implied_prob: u64, odds: u64, expected_value: i64 },
    Away { true_prob: u64, implied_prob: u64, odds: u64, expected_value: i64 },
    Draw { true_prob: u64, implied_prob: u64, odds: u64, expected_value: i64 },
}

impl ValueBetType {
    /// The expected value carried by this opportunity.
    pub fn expected_value(&self) -> (r: i64)
        ensures
            r == match *self {
                ValueBetType::Home { expected_value, .. } => expected_value,
                ValueBetType::Away { expected_value, .. } => expected_value,
                ValueBetType::Draw { expected_value, .. } => expected_value,
            },
    {
        match self {
            ValueBetType::Home { expected_value, .. } => *expected_value,
            ValueBetType::Away { expected_value, .. } => *expected_value,
            ValueBetType::Draw { expected_value, .. } => *expected_value,
        }
    }

    /// The quoted odds carried by this opportunity.
    pub fn odds(&self) -> (r: u64)
        ensures
            r == match *self {
                ValueBetType::Home { odds, .. } => odds,
                ValueBetType::Away { odds, .. } => odds,
                ValueBetType::Draw { odds, .. } => odds,
            },
    {
        match self {
            ValueBetType::Home { odds, .. } => *odds,
            ValueBetType::Away { odds, .. } => *odds,
            ValueBetType::Draw { odds, .. } => *odds,
        }
    }
}

/// Expected value of backing an outcome with probability `p` at `odds`:
/// `p * odds - 1`, fixed point.
pub open spec fn spec_ev(p: int, odds: int) -> int {
    p * odds / (SCALE as int) - (SCALE as int)
}

impl OddsFormat {
    /// Scan the three legs for value: an opportunity is kept for each leg
    /// whose model probability exceeds the market's implied one, in home,
    /// away, draw order; the match id is left empty for the caller to fill.
    /// Fails if and only if the implied reading fails or a used leg's odds
    /// are beyond the representable band.
    pub fn has_value(
        &self,
        true_home_prob: u64,
        true_away_prob: u64,
        true_draw_prob: Option<u64>,
    ) -> (r: Result<ValueBet, QuantsError>)
        requires
            true_home_prob <= PROB_ONE,
            true_away_prob <= PROB_ONE,
            (true_draw_prob matches Some(p) ==> p <= PROB_ONE),
        ensures
            r is Ok <==> (self.spec_implied() is Some
                && (self.spec_to_decimal() matches Some((h, d, a))
                    && h <= MAX_ODDS && a <= MAX_ODDS
                    && (match d {
                        Some(dv) => dv <= MAX_ODDS,
                        None => true,
                    }))),
            r matches Ok(v) ==> v.match_id@ == Seq::<char>::empty(),
            r matches Ok(v) ==> (self.spec_to_decimal() matches Some((ho, dr, aw))
                && self.spec_implied() matches Some((hi, di, ai))
                && v.opportunities@ =~= (if true_home_prob > hi {
                    seq![ValueBetType::Home {
                        true_prob: true_home_prob,
                        implied_prob: hi as u64,
                        odds: ho as u64,
                        expected_value: spec_ev(true_home_prob as int, ho) as i64,
                    }]
                } else {
                    seq![]
                }) + (if true_away_prob > ai {
                    seq![ValueBetType::Away {
                        true_prob: true_away_prob,
                        implied_prob: ai as u64,
                        odds: aw as u64,
                        expected_value: spec_ev(true_away_prob as int, aw) as i64,
                    }]
                } else {
                    seq![]
                }) + (match (true_draw_prob, di, dr) {
                    (Some(tp), Some(dimp), Some(dodds)) => if tp > dimp {
                        seq![ValueBetType::Draw {
                            true_prob: tp,
                            implied_prob: dimp as u64,
                            odds: dodds as u64,
                            expected_value: spec_ev(tp as int, dodds) as i64,
                        }]
                    } else {
                        seq![]
                    },
                    _ => seq![],
                })),
    {
        let (implied_home, implied_draw, implied_away) = self.to_implied_probabilities()?;
        let (home_odds, draw_odds, away_odds) = self.to_decimal()?;
        if home_odds > MAX_ODDS || away_odds > MAX_ODDS {
            return Err(QuantsError::InvalidOdds { odds: 0 });
        }
        match draw_odds {
            Some(dv) => {
                if dv > MAX_ODDS {
                    return Err(QuantsError::InvalidOdds { odds: 0 });
                }
            }
            None => {}
        }

        let mut value_bets: Vec<ValueBetType> = Vec::new();

        if true_home_prob > implied_home {
            value_bets.push(ValueBetType::Home {
                true_prob: true_home_prob,
                implied_prob: implied_home,
                odds: home_odds,
                expected_value: ev_fixed(true_home_prob, home_odds),
            });
        }
        if true_away_prob > implied_away {
            value_bets.push(ValueBetType::Away {
                true_prob: true_away_prob,
                implied_prob: implied_away,
                odds: away_odds,
                expected_value: ev_fixed(true_away_prob, away_odds),
            });
        }
        match (true_draw_prob, implied_draw, draw_odds) {
            (Some(tp), Some(dimp), Some(dodds)) => {
                if tp > dimp {
                    value_bets.push(ValueBetType::Draw {
                        true_prob: tp,
                        implied_prob: dimp,
                        odds: dodds,
                        expected_value: ev_fixed(tp, dodds),
                    });
                }
            }
            _ => {}
        }

        Ok(ValueBet {
            match_id: String::new(),
            opportunities: value_bets,
            timestamp: ext::now_unix_seconds(),
        })
    }
}

/// Expected value `p * odds - 1` on fixed-point values.
pub fn ev_fixed(p: u64, odds: u64) -> (r: i64)
    requires
        p <= PROB_ONE,
        odds <= MAX_ODDS,
    ensures
        r == spec_ev(p as int, odds as int),
{
    proof {
        let ghost pp = p as int;
        let ghost od = odds as int;
        assert(0 <= pp * od <= 1_000_000_000_000_000) by (nonlinear_arith)
            requires 0 <= pp <= 1_000_000, 0 <= od <= 1_000_000_000;
        assert(0 <= pp * od / (SCALE as int) <= pp * od) by (nonlinear_arith)
            requires 0 <= pp * od;
    }
    (((p as i128) * (odds as i128)) / (SCALE as i128)) as i64 - (SCALE as i64)
}

} // verus!
