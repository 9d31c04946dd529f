//! The trading engine: turns a prediction and the current market odds into a
//! risk-constrained staking signal, executes accepted signals against the
//! portfolio, and settles finished matches.

use vstd::prelude::*;

use crate::betting::{
    bet_payout, bet_stake, lemma_bet_sum_skip_step, lemma_stakes_le_payouts, spec_bet_sum,
    spec_calculate_stake, spec_edge, spec_kelly, spec_payout, spec_should_bet, BetStatus,
    BetType, BettingDecision, BettingStrategy, Portfolio, MAX_STAKE,
};
use crate::errors::QuantsError;
use crate::fixed::{MAX_MONEY, PROB_ONE, SCALE};
use crate::market::SimpleMarketOdds;
use crate::predictions::Prediction;

verus! {

/// Hard limits the engine holds every stake against.
#[derive(Debug, Clone)]
pub struct RiskManager {
    pub max_daily_loss: i64,
    pub max_concurrent_bets: usize,
    pub max_exposure_per_match: i64,
    /// Correlation level, fixed point, above which the risk score is raised.
    pub correlation_threshold: u64,
    pub current_daily_loss: i64,
    pub daily_reset_time: i64,
}

/// Informational risk breakdown attached to a signal; all values fixed
/// point in `[0, 1]`.
#[derive(Debug, Clone)]
pub struct RiskAssessment {
    pub risk_score: u64,
    pub correlation_risk: u64,
    pub liquidity_risk: u64,
    pub volatility_risk: u64,
    pub portfolio_impact: u64,
    pub warnings: Vec<String>,
}

impl Default for RiskAssessment {
    /// A neutral assessment: every component zero, no warnings.
    fn default() -> (r: RiskAssessment)
        ensures
            r.risk_score == 0,
            r.correlation_risk == 0,
            r.liquidity_risk == 0,
            r.volatility_risk == 0,
            r.portfolio_impact == 0,
            r.warnings@.len() == 0,
    {
        RiskAssessment {
            risk_score: 0,
            correlation_risk: 0,
            liquidity_risk: 0,
            volatility_risk: 0,
            portfolio_impact: 0,
            warnings: Vec::new(),
        }
    }
}

/// The engine's answer to one prediction.
#[derive(Debug, Clone)]
pub struct TradingSignal {
    pub match_id: String,
    /// Edge times model confidence, fixed point in `[0, 1]`.
    pub signal_strength: u64,
    pub recommended_bet: Option<BettingDecision>,
    pub risk_assessment: RiskAssessment,
    pub reasoning: String,
}

/// A read-only summary of the portfolio for query surfaces.
#[derive(Debug, Clone)]
pub struct PortfolioSummary {
    pub total_bankroll: i64,
    pub available_bankroll: i64,
    pub total_exposure: i64,
    pub active_bets_count: usize,
    pub total_trades: u64,
    pub roi: i64,
    pub win_rate: u64,
    pub profit_loss: i64,
}

/// How a match ended, for settlement.
#[derive(Debug, Clone, Copy, PartialEq, Eq, Structural)]
pub enum BetOutcome {
    HomeWin,
    Draw,
    AwayWin,
}

/// Whether a bet of `bet_type` wins under `outcome`. Exotic markets never
/// win through this three-way settlement path.
pub open spec fn spec_bet_wins(bet_type: BetType, outcome: BetOutcome) -> bool {
    match (bet_type, outcome) {
        (BetType::HomeWin, BetOutcome::HomeWin) => true,
        (BetType::Draw, BetOutcome::Draw) => true,
        (BetType::AwayWin, BetOutcome::AwayWin) => true,
        _ => false,
    }
}

/// Stake measure restricted to one match.
pub open spec fn bet_stake_on(id: Seq<char>) -> spec_fn(BettingDecision) -> int {
    |b: BettingDecision| if b.match_id@ == id {
        b.stake as int
    } else {
        0
    }
}

/// An indicator sum lies between zero and the sequence's length.
pub proof fn lemma_indicator_bounds(s: Seq<BettingDecision>, f: spec_fn(BettingDecision) -> int)
    requires
        forall|b: BettingDecision| 0 <= #[trigger] f(b) <= 1,
    ensures
        0 <= spec_bet_sum(s, f) <= s.len(),
    decreases s.len(),
{
    if s.len() > 0 {
        lemma_indicator_bounds(s.drop_first(), f);
    }
}

/// The per-match stake sum is dominated by the full stake sum.
pub proof fn lemma_match_stake_bounds(s: Seq<BettingDecision>, id: Seq<char>)
    requires
        forall|i: int| 0 <= i < s.len() ==> (#[trigger] s[i]).spec_valid(),
    ensures
        0 <= spec_bet_sum(s, bet_stake_on(id)) <= spec_bet_sum(s, bet_stake()),
    decreases s.len(),
{
    if s.len() > 0 {
        assert(s[0].spec_valid());
        assert forall|i: int| 0 <= i < s.drop_first().len()
            implies (#[trigger] s.drop_first()[i]).spec_valid() by {
            assert(s.drop_first()[i] == s[i + 1]);
        }
        lemma_match_stake_bounds(s.drop_first(), id);
    }
}

/// The engine and the state it owns: the portfolio of record, the strategy
/// tiers, its private odds cache and the risk limits.
#[derive(Debug)]
pub struct TradingEngine {
    pub portfolio: Portfolio,
    pub strategies: Vec<(String, BettingStrategy)>,
    pub active_strategy: BettingStrategy,
    pub market_odds: Vec<(String, SimpleMarketOdds)>,
    pub risk_manager: RiskManager,
    pub trade_count: u64,
}

/// First cached odds entry under `id`.
pub open spec fn spec_odds_get(
    s: Seq<(String, SimpleMarketOdds)>,
    id: Seq<char>,
) -> Option<SimpleMarketOdds>
    decreases s.len(),
{
    if s.len() == 0 {
        None
    } else if s[0].0@ == id {
        Some(s[0].1)
    } else {
        spec_odds_get(s.drop_first(), id)
    }
}

/// An unmatched prefix does not decide an odds lookup.
proof fn lemma_odds_get_skip(s: Seq<(String, SimpleMarketOdds)>, id: Seq<char>, i: int)
    requires
        0 <= i <= s.len(),
        forall|k: int| 0 <= k < i ==> s[k].0@ != id,
    ensures
        spec_odds_get(s, id) == spec_odds_get(s.skip(i), id),
    decreases i,
{
    if i > 0 {
        lemma_odds_get_skip(s, id, i - 1);
        assert(s.skip(i - 1).len() > 0);
        assert(s.skip(i - 1)[0] == s[i - 1]);
        assert(s.skip(i - 1).drop_first() =~= s.skip(i));
    } else {
        assert(s.skip(0) =~= s);
    }
}

/// The four sequential stake clamps of the risk manager: available bankroll
/// (with a 5% buffer), per-match exposure, the daily-loss budget, and the
/// concurrency circuit breaker, in that order.
pub open spec fn spec_constrained_stake(engine: &TradingEngine, id: Seq<char>, proposed: int) -> int {
    let avail = engine.portfolio.available_bankroll as int;
    let rm = &engine.risk_manager;
    let s1 = if proposed > avail {
        avail * 950_000 / (SCALE as int)
    } else {
        proposed
    };
    let match_exposure = spec_bet_sum(engine.portfolio.active_bets@, bet_stake_on(id));
    let s2 = if match_exposure + s1 > rm.max_exposure_per_match {
        if rm.max_exposure_per_match - match_exposure >= 0 {
            rm.max_exposure_per_match - match_exposure
        } else {
            0
        }
    } else {
        s1
    };
    let s3 = if rm.current_daily_loss + s2 > rm.max_daily_loss {
        if rm.max_daily_loss - rm.current_daily_loss >= 0 {
            rm.max_daily_loss - rm.current_daily_loss
        } else {
            0
        }
    } else {
        s2
    };
    if engine.portfolio.active_bets@.len() >= rm.max_concurrent_bets {
        0
    } else {
        s3
    }
}

/// The sizing of one outcome leg: no stake unless the strategy admits the
/// proposition; otherwise the Kelly stake under every constraint.
pub open spec fn spec_leg_stake(engine: &TradingEngine, id: Seq<char>, p: int, odds: int) -> int {
    spec_constrained_stake(
        engine,
        id,
        spec_calculate_stake(
            &engine.active_strategy,
            engine.portfolio.available_bankroll as int,
            spec_kelly(odds, p),
        ),
    )
}

/// Whether a leg is playable at all: quotable odds and the strategy's approval.
pub open spec fn spec_leg_admitted(engine: &TradingEngine, p: int, odds: int, conf: int) -> bool {
    odds >= 1 && spec_should_bet(&engine.active_strategy, odds, p, conf)
}

/// A leg the strategy admits that also sizes to a positive stake.
pub open spec fn spec_leg_open(engine: &TradingEngine, id: Seq<char>, p: int, odds: int, conf: int) -> bool {
    spec_leg_admitted(engine, p, odds, conf) && spec_leg_stake(engine, id, p, odds) > 0
}

/// A leg that would size beyond the largest representable stake; surfaced
/// as an error rather than silently resized.
pub open spec fn spec_leg_overflow(engine: &TradingEngine, id: Seq<char>, p: int, odds: int, conf: int) -> bool {
    spec_leg_admitted(engine, p, odds, conf) && spec_leg_stake(engine, id, p, odds) > MAX_STAKE
}

/// The fields a leg's recommended bet must carry.
pub open spec fn spec_leg_bet(
    b: &BettingDecision,
    engine: &TradingEngine,
    id: Seq<char>,
    bet_type: BetType,
    p: int,
    odds: int,
) -> bool {
    &&& b.spec_valid()
    &&& b.match_id@ == id
    &&& b.bet_type == bet_type
    &&& b.stake == spec_leg_stake(engine, id, p, odds)
    &&& b.odds == odds
    &&& b.kelly_fraction == spec_kelly(odds, p)
    &&& b.confidence == spec_edge(p, odds)
    &&& b.status == BetStatus::Pending
}

/// The leg the signal keeps: 0 none, 1 home, 2 draw, 3 away, with its edge.
/// A later leg wins a tie, as the engine's documented policy states.
pub open spec fn spec_pick(
    home: bool,
    eh: int,
    draw: bool,
    ed: int,
    away: bool,
    ea: int,
) -> (int, int) {
    let b1 = if home && eh >= 0 {
        (1int, eh)
    } else {
        (0int, 0int)
    };
    let b2 = if draw && ed >= b1.1 {
        (2int, ed)
    } else {
        b1
    };
    if away && ea >= b2.1 {
        (3int, ea)
    } else {
        b2
    }
}

/// The heuristic risk score of a proposed bet: independent flags for a
/// large stake (over 5% of the bankroll), long odds (over 5.0), a large
/// Kelly fraction (over 10%) and correlation with existing positions.
pub open spec fn spec_risk_score(engine: &TradingEngine, id: Seq<char>, bet: &Option<BettingDecision>) -> int {
    match bet {
        None => 0,
        Some(b) => {
            let total = engine.portfolio.total_bankroll as int;
            let s1 = if total == 0 || b.stake * 20 > total {
                300_000int
            } else {
                0int
            };
            let s2 = if b.odds > 5_000_000 {
                s1 + 200_000
            } else {
                s1
            };
            let s3 = if b.kelly_fraction > 100_000 {
                s2 + 200_000
            } else {
                s2
            };
            let corr = spec_correlation(engine, id);
            let s4 = if corr > engine.risk_manager.correlation_threshold {
                s3 + 300_000
            } else {
                s3
            };
            if s4 > (PROB_ONE as int) {
                PROB_ONE as int
            } else {
                s4
            }
        }
    }
}

/// The warning lines a risk assessment carries: one per fired flag, in the
/// order the flags are tested, and none at all without a proposed bet.
pub open spec fn spec_risk_warnings(
    engine: &TradingEngine,
    id: Seq<char>,
    bet: &Option<BettingDecision>,
) -> Seq<Seq<char>> {
    match bet {
        None => Seq::empty(),
        Some(b) => {
            let total = engine.portfolio.total_bankroll as int;
            (if total == 0 || b.stake * 20 > total {
                seq!["High stake percentage (>5%)"@]
            } else {
                Seq::empty()
            }) + (if b.odds > 5_000_000 {
                seq!["High odds bet (>5.0)"@]
            } else {
                Seq::empty()
            }) + (if b.kelly_fraction > 100_000 {
                seq!["High Kelly fraction (>10%)"@]
            } else {
                Seq::empty()
            }) + (if spec_correlation(engine, id) > engine.risk_manager.correlation_threshold {
                seq!["High correlation with existing positions"@]
            } else {
                Seq::empty()
            })
        }
    }
}

/// Correlation with existing positions: a fifth per same-prefix active bet,
/// saturating at 1.
pub open spec fn spec_correlation(engine: &TradingEngine, id: Seq<char>) -> int {
    let n = spec_bet_sum(engine.portfolio.active_bets@, bet_related(id));
    if n * 200_000 > (PROB_ONE as int) {
        PROB_ONE as int
    } else {
        n * 200_000
    }
}

/// Indicator of an active bet correlated with the given match: the two
/// match identifiers share their first three bytes (or are equal, for
/// shorter identifiers).
pub open spec fn bet_related(id: Seq<char>) -> spec_fn(BettingDecision) -> int {
    |b: BettingDecision| if spec_shares_prefix3(b.match_id@, id) {
        1int
    } else {
        0int
    }
}

/// Whether two identifiers agree on their first three bytes; identifiers of
/// fewer than three bytes only relate to themselves.
pub open spec fn spec_shares_prefix3(a: Seq<char>, b: Seq<char>) -> bool {
    let ab = vstd::utf8::encode_utf8(a);
    let bb = vstd::utf8::encode_utf8(b);
    if ab.len() >= 3 && bb.len() >= 3 {
        ab.take(3) == bb.take(3)
    } else {
        ab == bb
    }
}

/// Byte-prefix comparison backing [`spec_shares_prefix3`].
fn shares_prefix3(a: &str, b: &str) -> (r: bool)
    ensures
        r == spec_shares_prefix3(a@, b@),
{
    let ab = a.as_bytes();
    let bb = b.as_bytes();
    proof {
        assert(ab@ == vstd::string::StringSliceAdditionalSpecFns::spec_bytes(a));
        assert(bb@ == vstd::string::StringSliceAdditionalSpecFns::spec_bytes(b));
    }
    if ab.len() >= 3 && bb.len() >= 3 {
        proof {
            if ab@[0] == bb@[0] && ab@[1] == bb@[1] && ab@[2] == bb@[2] {
                assert(ab@.take(3) =~= bb@.take(3));
            } else {
                assert(ab@.take(3)[0] == ab@[0] && bb@.take(3)[0] == bb@[0]);
                assert(ab@.take(3)[1] == ab@[1] && bb@.take(3)[1] == bb@[1]);
                assert(ab@.take(3)[2] == ab@[2] && bb@.take(3)[2] == bb@[2]);
            }
        }
        ab[0] == bb[0] && ab[1] == bb[1] && ab[2] == bb[2]
    } else {
        let ghost sa = ab@;
        let ghost sb = bb@;
        let na = ab.len();
        if na != bb.len() {
            proof {
                assert(sa.len() != sb.len());
            }
            return false;
        }
        let mut i: usize = 0;
        while i < na
            invariant
                na == sa.len(),
                na == sb.len(),
                i <= na,
                sa == ab@,
                sb == bb@,
                sa == vstd::utf8::encode_utf8(a@),
                sb == vstd::utf8::encode_utf8(b@),
                !(sa.len() >= 3 && sb.len() >= 3),
                forall|k: int| 0 <= k < i ==> sa[k] == sb[k],
            decreases na - i,
        {
            if ab[i] != bb[i] {
                proof {
                    assert(sa[i as int] != sb[i as int]);
                    assert(sa != sb);
                }
                return false;
            }
            i += 1;
        }
        proof {
            assert(sa =~= sb);
        }
        true
    }
}

/// The concurrency circuit breaker: once the active book holds as many
/// bets as the risk manager allows, every proposed stake is cut to zero, so
/// no signal can push the book past the cap.
pub proof fn lemma_concurrency_cap(engine: &TradingEngine, id: Seq<char>, proposed: int)
    requires
        engine.portfolio.active_bets@.len() >= engine.risk_manager.max_concurrent_bets,
    ensures
        spec_constrained_stake(engine, id, proposed) == 0,
{
}

/// At the concurrency cap the engine recommends nothing: the circuit
/// breaker cuts every proposed stake to zero, so no leg can open, and any
/// signal the engine generates carries no bet and no strength — an
/// eleventh concurrent bet can never be sized.
pub proof fn lemma_cap_blocks_signal(
    engine: &TradingEngine,
    prediction: &Prediction,
    odds: SimpleMarketOdds,
    sig: &TradingSignal,
)
    requires
        engine.portfolio.active_bets@.len() >= engine.risk_manager.max_concurrent_bets,
        spec_signal_ok(engine, prediction, odds, sig),
    ensures
        sig.recommended_bet is None,
        sig.signal_strength == 0,
{
    let id = prediction.match_id@;
    let avail = engine.portfolio.available_bankroll as int;
    lemma_concurrency_cap(engine, id, spec_calculate_stake(
        &engine.active_strategy, avail,
        spec_kelly(odds.home_win as int, prediction.home_win_prob as int)));
    lemma_concurrency_cap(engine, id, spec_calculate_stake(
        &engine.active_strategy, avail,
        spec_kelly(odds.away_win as int, prediction.away_win_prob as int)));
    if let Some(pd) = prediction.draw_prob {
        lemma_concurrency_cap(engine, id, spec_calculate_stake(
            &engine.active_strategy, avail,
            spec_kelly(odds.draw as int, pd as int)));
    }
    assert(!spec_leg_open(engine, id, prediction.home_win_prob as int,
        odds.home_win as int, prediction.confidence as int));
    assert(!spec_leg_open(engine, id, prediction.away_win_prob as int,
        odds.away_win as int, prediction.confidence as int));
}

/// First index of an active bet standing on `id`, or -1.
pub open spec fn spec_find_match(s: Seq<BettingDecision>, id: Seq<char>) -> int
    decreases s.len(),
{
    if s.len() == 0 {
        -1
    } else if s[0].match_id@ == id {
        0
    } else {
        let t = spec_find_match(s.drop_first(), id);
        if t == -1 {
            -1
        } else {
            t + 1
        }
    }
}

/// The first match is a genuine index carrying the id.
pub proof fn lemma_find_match_valid(s: Seq<BettingDecision>, id: Seq<char>)
    ensures
        spec_find_match(s, id) == -1 || (0 <= spec_find_match(s, id) < s.len()
            && s[spec_find_match(s, id)].match_id@ == id),
    decreases s.len(),
{
    if s.len() > 0 && s[0].match_id@ != id {
        lemma_find_match_valid(s.drop_first(), id);
    }
}

/// `spec_find_match` restricted to an unmatched prefix is decided by the
/// rest.
proof fn lemma_find_match_skip(s: Seq<BettingDecision>, id: Seq<char>, i: int)
    requires
        0 <= i <= s.len(),
        forall|k: int| 0 <= k < i ==> s[k].match_id@ != id,
    ensures
        spec_find_match(s, id) == -1 <==> spec_find_match(s.skip(i), id) == -1,
        spec_find_match(s.skip(i), id) >= 0
            ==> spec_find_match(s, id) == i + spec_find_match(s.skip(i), id),
    decreases i,
{
    lemma_find_match_valid(s, id);
    lemma_find_match_valid(s.skip(i), id);
    if i > 0 {
        lemma_find_match_valid(s.drop_first(), id);
        assert forall|k: int| 0 <= k < i - 1 implies s.drop_first()[k].match_id@ != id by {
            assert(s.drop_first()[k] == s[k + 1]);
        }
        lemma_find_match_skip(s.drop_first(), id, i - 1);
        assert(s.drop_first().skip(i - 1) =~= s.skip(i));
    } else {
        assert(s.skip(0) =~= s);
    }
}

/// One settled version of a bet.
pub open spec fn spec_settled_bet(b: BettingDecision, outcome: BetOutcome) -> BettingDecision {
    BettingDecision {
        status: if spec_bet_wins(b.bet_type, outcome) {
            BetStatus::Won
        } else {
            BetStatus::Lost
        },
        ..b
    }
}

/// Active book after every bet on `id` is settled, first match first.
pub open spec fn spec_settled_active(
    s: Seq<BettingDecision>,
    id: Seq<char>,
    outcome: BetOutcome,
) -> Seq<BettingDecision>
    decreases s.len(),
{
    let i = spec_find_match(s, id);
    if i < 0 || i >= s.len() {
        s
    } else {
        spec_settled_active(s.remove(i), id, outcome)
    }
}

/// Total payout credited by settling every bet on `id`.
pub open spec fn spec_settled_credit(
    s: Seq<BettingDecision>,
    id: Seq<char>,
    outcome: BetOutcome,
) -> int
    decreases s.len(),
{
    let i = spec_find_match(s, id);
    if i < 0 || i >= s.len() {
        0
    } else {
        (if spec_bet_wins(s[i].bet_type, outcome) {
            spec_payout(s[i].stake as int, s[i].odds as int)
        } else {
            0
        }) + spec_settled_credit(s.remove(i), id, outcome)
    }
}

/// Net P&L realized by settling every bet on `id`.
pub open spec fn spec_settled_net(
    s: Seq<BettingDecision>,
    id: Seq<char>,
    outcome: BetOutcome,
) -> int
    decreases s.len(),
{
    let i = spec_find_match(s, id);
    if i < 0 || i >= s.len() {
        0
    } else {
        (if spec_bet_wins(s[i].bet_type, outcome) {
            spec_payout(s[i].stake as int, s[i].odds as int)
        } else {
            0
        }) - s[i].stake + spec_settled_net(s.remove(i), id, outcome)
    }
}

/// Settled bets appended to the history, in settlement order.
pub open spec fn spec_settled_hist(
    s: Seq<BettingDecision>,
    id: Seq<char>,
    outcome: BetOutcome,
) -> Seq<BettingDecision>
    decreases s.len(),
{
    let i = spec_find_match(s, id);
    if i < 0 || i >= s.len() {
        Seq::empty()
    } else {
        seq![spec_settled_bet(s[i], outcome)] + spec_settled_hist(s.remove(i), id, outcome)
    }
}

/// Every signal property the engine promises for a processed prediction
/// whose market odds were found.
pub open spec fn spec_signal_ok(
    engine: &TradingEngine,
    prediction: &Prediction,
    odds: SimpleMarketOdds,
    sig: &TradingSignal,
) -> bool {
    let id = prediction.match_id@;
    let conf = prediction.confidence as int;
    let ph = prediction.home_win_prob as int;
    let pa = prediction.away_win_prob as int;
    let oh = odds.home_win as int;
    let od = odds.draw as int;
    let oa = odds.away_win as int;
    let draw_open = match prediction.draw_prob {
        Some(pd) => spec_leg_open(engine, id, pd as int, od, conf),
        None => false,
    };
    let ed = match prediction.draw_prob {
        Some(pd) => spec_edge(pd as int, od),
        None => 0,
    };
    let pick = spec_pick(
        spec_leg_open(engine, id, ph, oh, conf),
        spec_edge(ph, oh),
        draw_open,
        ed,
        spec_leg_open(engine, id, pa, oa, conf),
        spec_edge(pa, oa),
    );
    &&& sig.match_id == prediction.match_id
    &&& (pick.0 == 0 ==> (sig.recommended_bet is None) && sig.signal_strength == 0)
    &&& (pick.0 == 1 ==> (sig.recommended_bet matches Some(b)
        && spec_leg_bet(&b, engine, id, BetType::HomeWin, ph, oh)
        && sig.reasoning@ == "Home win edge"@))
    &&& (pick.0 == 2 ==> (sig.recommended_bet matches Some(b)
        && (prediction.draw_prob matches Some(pd)
            && spec_leg_bet(&b, engine, id, BetType::Draw, pd as int, od))
        && sig.reasoning@ == "Draw edge"@))
    &&& (pick.0 == 3 ==> (sig.recommended_bet matches Some(b)
        && spec_leg_bet(&b, engine, id, BetType::AwayWin, pa, oa)
        && sig.reasoning@ == "Away win edge"@))
    &&& (pick.0 != 0 ==> sig.signal_strength == {
        let raw = pick.1 * conf / (SCALE as int);
        if raw > (PROB_ONE as int) {
            PROB_ONE as int
        } else {
            raw
        }
    })
    &&& sig.risk_assessment.risk_score == spec_risk_score(engine, id, &sig.recommended_bet)
}

/// Whether processing a prediction against `odds` must surface a sizing
/// overflow error.
pub open spec fn spec_signal_err(
    engine: &TradingEngine,
    prediction: &Prediction,
    odds: SimpleMarketOdds,
) -> bool {
    let id = prediction.match_id@;
    let conf = prediction.confidence as int;
    ||| spec_leg_overflow(engine, id, prediction.home_win_prob as int, odds.home_win as int, conf)
    ||| (match prediction.draw_prob {
        Some(pd) => spec_leg_overflow(engine, id, pd as int, odds.draw as int, conf),
        None => false,
    })
    ||| spec_leg_overflow(engine, id, prediction.away_win_prob as int, odds.away_win as int, conf)
}

impl TradingEngine {
    /// The engine's invariant: a well-formed portfolio, non-negative risk
    /// limits inside the money ceiling, and an active strategy whose odds
    /// band and multipliers are representable.
    pub open spec fn wf(&self) -> bool {
        &&& self.portfolio.wf()
        &&& 0 <= self.risk_manager.max_daily_loss <= MAX_MONEY
        &&& 0 <= self.risk_manager.max_exposure_per_match <= MAX_MONEY
        &&& 0 <= self.risk_manager.current_daily_loss <= MAX_MONEY
        &&& self.active_strategy.kelly_multiplier <= SCALE
        &&& self.active_strategy.max_stake_percent <= SCALE
        &&& (SCALE as int) < self.active_strategy.min_odds
        &&& self.active_strategy.max_odds <= crate::fixed::MAX_ODDS
        &&& 0 <= self.active_strategy.min_edge
    }

    /// A fresh engine over `initial_bankroll`: the three strategy tiers
    /// registered, the moderate tier active, a daily-loss cap of 5% and a
    /// per-match cap of 10% of the bankroll, at most ten concurrent bets.
    pub fn new(initial_bankroll: i64) -> (r: TradingEngine)
        requires
            0 <= initial_bankroll <= MAX_MONEY,
        ensures
            r.wf(),
            r.portfolio.total_bankroll == initial_bankroll,
            r.portfolio.available_bankroll == initial_bankroll,
            r.portfolio.active_bets@.len() == 0,
            r.portfolio.historical_bets@.len() == 0,
            r.trade_count == 0,
            r.risk_manager.max_concurrent_bets == 10,
            r.risk_manager.max_daily_loss == initial_bankroll * 50_000 / (SCALE as int),
            r.risk_manager.max_exposure_per_match
                == initial_bankroll * 100_000 / (SCALE as int),
            r.risk_manager.current_daily_loss == 0,
            r.risk_manager.correlation_threshold == 700_000,
            r.strategies@.len() == 3,
            r.active_strategy.min_odds == 1_300_000,
            r.active_strategy.max_odds == 5_000_000,
            r.active_strategy.min_edge == 30_000,
            r.active_strategy.min_confidence == 600_000,
            r.active_strategy.kelly_multiplier == 500_000,
            r.active_strategy.max_stake_percent == 50_000,
            r.market_odds@.len() == 0,
    {
        proof {
            let ghost bk = initial_bankroll as int;
            assert(0 <= bk * 50_000 <= bk * (SCALE as int)) by (nonlinear_arith)
                requires 0 <= bk;
            assert(0 <= bk * 50_000 / (SCALE as int) <= bk) by (nonlinear_arith)
                requires 0 <= bk * 50_000 <= bk * (SCALE as int);
            assert(0 <= bk * 100_000 <= bk * (SCALE as int)) by (nonlinear_arith)
                requires 0 <= bk;
            assert(0 <= bk * 100_000 / (SCALE as int) <= bk) by (nonlinear_arith)
                requires 0 <= bk * 100_000 <= bk * (SCALE as int);
        }
        let max_daily_loss: i64 =
            (((initial_bankroll as i128) * 50_000) / (SCALE as i128)) as i64;
        let max_exposure: i64 =
            (((initial_bankroll as i128) * 100_000) / (SCALE as i128)) as i64;
        let mut strategies: Vec<(String, BettingStrategy)> = Vec::new();
        strategies.push(("conservative".to_string(), BettingStrategy::conservative()));
        strategies.push(("moderate".to_string(), BettingStrategy::moderate()));
        strategies.push(("aggressive".to_string(), BettingStrategy::aggressive()));
        TradingEngine {
            portfolio: Portfolio::new(initial_bankroll),
            strategies,
            active_strategy: BettingStrategy::moderate(),
            market_odds: Vec::new(),
            risk_manager: RiskManager {
                max_daily_loss,
                max_concurrent_bets: 10,
                max_exposure_per_match: max_exposure,
                correlation_threshold: 700_000,
                current_daily_loss: 0,
                daily_reset_time: crate::ext::now_unix_seconds(),
            },
            trade_count: 0,
        }
    }

    /// The strategy the engine currently sizes stakes with.
    pub fn get_active_strategy(&self) -> (r: &BettingStrategy)
        ensures
            r == self.active_strategy,
    {
        &self.active_strategy
    }

    /// Cache the latest odds for a match, shadowing earlier entries.
    pub fn update_market_odds(&mut self, match_id: String, odds: SimpleMarketOdds)
        ensures
            spec_odds_get(final(self).market_odds@, match_id@) == Some(odds),
            forall|other: Seq<char>| other != match_id@
                ==> spec_odds_get(final(self).market_odds@, other)
                    == spec_odds_get(old(self).market_odds@, other),
            final(self).portfolio == old(self).portfolio,
            final(self).trade_count == old(self).trade_count,
            final(self).active_strategy == old(self).active_strategy,
            final(self).risk_manager == old(self).risk_manager,
    {
        let pair = (match_id, odds);
        self.market_odds.insert(0, pair);
        proof {
            assert(self.market_odds@.drop_first() =~= old(self).market_odds@);
        }
    }

    /// The engine's current view of a match's odds; the same value on every
    /// call until the cache is updated.
    pub fn get_market_odds(&self, match_id: &str) -> (r: Option<SimpleMarketOdds>)
        ensures
            r == spec_odds_get(self.market_odds@, match_id@),
    {
        let ghost s = self.market_odds@;
        let key: String = match_id.to_string();
        let n = self.market_odds.len();
        let mut i: usize = 0;
        while i < n
            invariant
                n == s.len(),
                i <= n,
                s == self.market_odds@,
                key@ == match_id@,
                forall|k: int| 0 <= k < i ==> s[k].0@ != match_id@,
            decreases n - i,
        {
            if self.market_odds[i].0 == key {
                proof {
                    lemma_odds_get_skip(s, match_id@, i as int);
                    assert(s.skip(i as int)[0] == s[i as int]);
                }
                return Some(self.market_odds[i].1);
            }
            i += 1;
        }
        proof {
            lemma_odds_get_skip(s, match_id@, n as int);
            assert(s.skip(n as int).len() == 0);
        }
        None
    }

    /// Stakes currently at risk on one match.
    fn match_exposure(&self, match_id: &str) -> (r: i64)
        requires
            self.wf(),
        ensures
            r == spec_bet_sum(self.portfolio.active_bets@, bet_stake_on(match_id@)),
            0 <= r <= MAX_MONEY,
    {
        let ghost s = self.portfolio.active_bets@;
        let key: String = match_id.to_string();
        let n = self.portfolio.active_bets.len();
        let mut acc: i64 = 0;
        let mut i: usize = 0;
        proof {
            assert(s.skip(0) =~= s);
            lemma_match_stake_bounds(s, match_id@);
            lemma_stakes_le_payouts(s);
        }
        while i < n
            invariant
                n == s.len(),
                i <= n,
                self.wf(),
                s == self.portfolio.active_bets@,
                key@ == match_id@,
                acc + spec_bet_sum(s.skip(i as int), bet_stake_on(match_id@))
                    == spec_bet_sum(s, bet_stake_on(match_id@)),
                0 <= acc,
                spec_bet_sum(s, bet_stake_on(match_id@)) <= MAX_MONEY,
            decreases n - i,
        {
            proof {
                lemma_bet_sum_skip_step(s, bet_stake_on(match_id@), i as int);
                assert forall|k: int| 0 <= k < s.skip(i as int + 1).len()
                    implies (#[trigger] s.skip(i as int + 1)[k]).spec_valid() by {
                    assert(s.skip(i as int + 1)[k] == s[k + i + 1]);
                }
                lemma_match_stake_bounds(s.skip(i as int + 1), match_id@);
            }
            if self.portfolio.active_bets[i].match_id == key {
                acc = acc + self.portfolio.active_bets[i].stake;
            }
            i += 1;
        }
        proof {
            assert(s.skip(n as int).len() == 0);
        }
        acc
    }

    /// Number of active bets related to this match by identifier prefix.
    fn correlation_count(&self, match_id: &str) -> (r: u64)
        ensures
            r == spec_bet_sum(self.portfolio.active_bets@, bet_related(match_id@)),
            r <= self.portfolio.active_bets@.len(),
    {
        let ghost s = self.portfolio.active_bets@;
        let n = self.portfolio.active_bets.len();
        let mut acc: u64 = 0;
        let mut i: usize = 0;
        proof {
            assert(s.skip(0) =~= s);
            lemma_indicator_bounds(s, bet_related(match_id@));
        }
        while i < n
            invariant
                n == s.len(),
                i <= n,
                s == self.portfolio.active_bets@,
                acc + spec_bet_sum(s.skip(i as int), bet_related(match_id@))
                    == spec_bet_sum(s, bet_related(match_id@)),
                0 <= acc <= i,
            decreases n - i,
        {
            proof {
                lemma_bet_sum_skip_step(s, bet_related(match_id@), i as int);
                lemma_indicator_bounds(s.skip(i as int + 1), bet_related(match_id@));
            }
            if shares_prefix3(self.portfolio.active_bets[i].match_id.as_str(), match_id) {
                acc = acc + 1;
            }
            i += 1;
        }
        proof {
            assert(s.skip(n as int).len() == 0);
        }
        acc
    }

    /// Clamp a proposed stake against the four risk ceilings, in their
    /// documented order: bankroll buffer, per-match exposure, daily-loss
    /// budget, then the concurrency circuit breaker.
    pub fn apply_risk_constraints(&self, proposed_stake: i64, match_id: &str) -> (r: i64)
        requires
            self.wf(),
            0 <= proposed_stake <= MAX_MONEY,
        ensures
            r == spec_constrained_stake(self, match_id@, proposed_stake as int),
            0 <= r <= MAX_MONEY,
    {
        let avail = self.portfolio.available_bankroll;
        let mut stake = proposed_stake;
        if stake > avail {
            proof {
                let ghost av = avail as int;
                assert(0 <= av * 950_000 <= av * (SCALE as int)) by (nonlinear_arith)
                    requires 0 <= av;
                assert(0 <= av * 950_000 / (SCALE as int) <= av) by (nonlinear_arith)
                    requires 0 <= av * 950_000 <= av * (SCALE as int);
            }
            stake = (((avail as i128) * 950_000) / (SCALE as i128)) as i64;
        }
        let match_exposure = self.match_exposure(match_id);
        if match_exposure + stake > self.risk_manager.max_exposure_per_match {
            let room = self.risk_manager.max_exposure_per_match - match_exposure;
            stake = if room >= 0 {
                room
            } else {
                0
            };
        }
        if self.risk_manager.current_daily_loss + stake > self.risk_manager.max_daily_loss {
            let room = self.risk_manager.max_daily_loss - self.risk_manager.current_daily_loss;
            stake = if room >= 0 {
                room
            } else {
                0
            };
        }
        if self.portfolio.active_bets.len() >= self.risk_manager.max_concurrent_bets {
            return 0;
        }
        stake
    }

    /// Score the risk of a proposed bet from its independent flags; the
    /// score informs the signal and blocks nothing here.
    pub fn assess_risk(&self, match_id: &str, bet: &Option<BettingDecision>) -> (r: RiskAssessment)
        requires
            self.wf(),
            (bet matches Some(b) ==> b.spec_valid()),
        ensures
            r.risk_score == spec_risk_score(self, match_id@, bet),
            r.risk_score <= PROB_ONE,
            r.correlation_risk == 0,
            r.liquidity_risk == 100_000,
            r.volatility_risk == 200_000,
            r.portfolio_impact == 0,
            r.warnings@.len() == spec_risk_warnings(self, match_id@, bet).len(),
            forall|i: int| 0 <= i < r.warnings@.len()
                ==> (#[trigger] r.warnings@[i])@ == spec_risk_warnings(self, match_id@, bet)[i],
    {
        let ghost w = spec_risk_warnings(self, match_id@, bet);
        let mut warnings: Vec<String> = Vec::new();
        let mut risk_score: u64 = 0;

        match bet {
            Some(b) => {
                let total = self.portfolio.total_bankroll;
                if total == 0 || b.stake * 20 > total {
                    warnings.push("High stake percentage (>5%)".to_string());
                    risk_score = risk_score + 300_000;
                }
                if b.odds > 5_000_000 {
                    warnings.push("High odds bet (>5.0)".to_string());
                    risk_score = risk_score + 200_000;
                }
                if b.kelly_fraction > 100_000 {
                    warnings.push("High Kelly fraction (>10%)".to_string());
                    risk_score = risk_score + 200_000;
                }
                let count = self.correlation_count(match_id);
                let correlation: u64 = if count > 5 {
                    PROB_ONE
                } else {
                    count * 200_000
                };
                proof {
                    let ghost n = count as int;
                    if n > 5 {
                        assert(n * 200_000 > 1_000_000) by (nonlinear_arith)
                            requires n > 5;
                    }
                }
                if correlation > self.risk_manager.correlation_threshold {
                    warnings.push("High correlation with existing positions".to_string());
                    risk_score = risk_score + 300_000;
                }
                if risk_score > PROB_ONE {
                    risk_score = PROB_ONE;
                }
                proof {
                    assert(correlation == spec_correlation(self, match_id@));
                    assert(warnings@.len() == w.len());
                    assert forall|i: int| 0 <= i < warnings@.len()
                        implies (#[trigger] warnings@[i])@ == w[i] by {
                    }
                }
            }
            None => {}
        }

        RiskAssessment {
            risk_score,
            correlation_risk: 0,
            liquidity_risk: 100_000,
            volatility_risk: 200_000,
            portfolio_impact: 0,
            warnings,
        }
    }

    /// Analyze one outcome leg: hold it against the active strategy, size
    /// the stake by Kelly under every risk constraint, and build the
    /// decision. `None` when the strategy declines or the constraints leave
    /// no stake; an error if and only if the sized stake would exceed the
    /// largest representable stake.
    pub fn analyze_bet_opportunity(
        &self,
        match_id: &str,
        bet_type: BetType,
        true_probability: u64,
        market_odds: u64,
        confidence: u64,
    ) -> (r: Result<Option<BettingDecision>, QuantsError>)
        requires
            self.wf(),
            true_probability <= PROB_ONE,
        ensures
            r is Err <==> spec_leg_overflow(
                self, match_id@, true_probability as int, market_odds as int, confidence as int),
            r matches Ok(o) ==> ((o is Some) <==> spec_leg_open(
                self, match_id@, true_probability as int, market_odds as int, confidence as int)),
            r matches Ok(o) ==> (o matches Some(b)
                ==> spec_leg_bet(
                    &b, self, match_id@, bet_type, true_probability as int, market_odds as int)
                    && b.strategy == self.active_strategy.name),
    {
        if market_odds < 1 {
            return Ok(None);
        }
        if !self.active_strategy.should_bet(market_odds, true_probability, confidence) {
            return Ok(None);
        }
        let kelly = crate::betting::kelly_fraction(market_odds, true_probability);
        proof {
            crate::betting::lemma_payouts_nonneg(self.portfolio.active_bets@);
        }
        let proposed = self.active_strategy.calculate_stake(
            self.portfolio.available_bankroll,
            kelly,
        );
        let stake = self.apply_risk_constraints(proposed, match_id);
        if stake <= 0 {
            return Ok(None);
        }
        if stake > MAX_STAKE {
            return Err(QuantsError::InvalidStake { amount: stake });
        }
        let bet = match BettingDecision::new(
            match_id.to_string(),
            bet_type,
            stake,
            market_odds,
            true_probability,
            self.active_strategy.name.clone(),
        ) {
            Ok(b) => b,
            Err(e) => {
                return Err(e);
            }
        };
        Ok(Some(bet))
    }

    /// Evaluate all three outcome legs and keep the one with the greatest
    /// edge, a later leg winning ties; attach the risk assessment and the
    /// composite signal strength.
    pub fn generate_trading_signal(
        &self,
        prediction: &Prediction,
        market_odds: &SimpleMarketOdds,
    ) -> (r: Result<TradingSignal, QuantsError>)
        requires
            self.wf(),
            prediction.wf(),
        ensures
            r is Err <==> spec_signal_err(self, prediction, *market_odds),
            r matches Ok(sig) ==> spec_signal_ok(self, prediction, *market_odds, &sig),
    {
        let mut best: Option<BettingDecision> = None;
        let mut best_edge: i64 = 0;
        let mut which: u8 = 0;

        let home_leg = self.analyze_bet_opportunity(
            prediction.match_id.as_str(),
            BetType::HomeWin,
            prediction.home_win_prob,
            market_odds.home_win,
            prediction.confidence,
        )?;
        match home_leg {
            Some(b) => {
                proof {
                    let ghost od = market_odds.home_win as int;
                    assert((SCALE as int) * (SCALE as int) / od >= 0) by (nonlinear_arith)
                        requires od >= 1;
                }
                if b.confidence >= best_edge {
                    best_edge = b.confidence;
                    best = Some(b);
                    which = 1;
                }
            }
            None => {}
        }

        match prediction.draw_prob {
            Some(draw_prob) => {
                let draw_leg = self.analyze_bet_opportunity(
                    prediction.match_id.as_str(),
                    BetType::Draw,
                    draw_prob,
                    market_odds.draw,
                    prediction.confidence,
                )?;
                match draw_leg {
                    Some(b) => {
                        proof {
                            let ghost od = market_odds.draw as int;
                            assert((SCALE as int) * (SCALE as int) / od >= 0)
                                by (nonlinear_arith)
                                requires od >= 1;
                        }
                        if b.confidence >= best_edge {
                            best_edge = b.confidence;
                            best = Some(b);
                            which = 2;
                        }
                    }
                    None => {}
                }
            }
            None => {}
        }

        let away_leg = self.analyze_bet_opportunity(
            prediction.match_id.as_str(),
            BetType::AwayWin,
            prediction.away_win_prob,
            market_odds.away_win,
            prediction.confidence,
        )?;
        match away_leg {
            Some(b) => {
                proof {
                    let ghost od = market_odds.away_win as int;
                    assert((SCALE as int) * (SCALE as int) / od >= 0) by (nonlinear_arith)
                        requires od >= 1;
                }
                if b.confidence >= best_edge {
                    best_edge = b.confidence;
                    best = Some(b);
                    which = 3;
                }
            }
            None => {}
        }

        let risk_assessment = self.assess_risk(prediction.match_id.as_str(), &best);
        let signal_strength: u64 = if which == 0 {
            0
        } else {
            proof {
                let ghost e = best_edge as int;
                let ghost c = prediction.confidence as int;
                assert(0 <= e * c <= 1_000_000_000_000) by (nonlinear_arith)
                    requires 0 <= e <= 1_000_000, 0 <= c <= 1_000_000;
                assert(0 <= e * c / (SCALE as int) <= e * c) by (nonlinear_arith)
                    requires 0 <= e * c;
            }
            let raw: u64 =
                (((best_edge as u128) * (prediction.confidence as u128)) / (SCALE as u128)) as u64;
            if raw > PROB_ONE {
                PROB_ONE
            } else {
                raw
            }
        };
        let reasoning: String = if which == 1 {
            "Home win edge".to_string()
        } else if which == 2 {
            "Draw edge".to_string()
        } else if which == 3 {
            "Away win edge".to_string()
        } else {
            String::new()
        };

        Ok(TradingSignal {
            match_id: prediction.match_id.clone(),
            signal_strength,
            recommended_bet: best,
            risk_assessment,
            reasoning,
        })
    }

    /// Turn one prediction into a trading signal. Missing market odds are a
    /// normal state, answered with a zero-strength signal, not an error.
    pub fn process_prediction(&self, prediction: &Prediction) -> (r: Result<TradingSignal, QuantsError>)
        requires
            self.wf(),
            prediction.wf(),
        ensures
            (spec_odds_get(self.market_odds@, prediction.match_id@) is None) ==> (
                r matches Ok(sig)
                    && sig.signal_strength == 0
                    && (sig.recommended_bet is None)
                    && sig.match_id == prediction.match_id
                    && sig.reasoning@ == "No market odds available"@
                    && sig.risk_assessment.risk_score == 0
                    && sig.risk_assessment.correlation_risk == 0
                    && sig.risk_assessment.liquidity_risk == 0
                    && sig.risk_assessment.volatility_risk == 0
                    && sig.risk_assessment.portfolio_impact == 0
                    && sig.risk_assessment.warnings@.len() == 0
            ),
            (spec_odds_get(self.market_odds@, prediction.match_id@) matches Some(odds) ==> (
                (r is Err <==> spec_signal_err(self, prediction, odds))
                    && (r matches Ok(sig) ==> spec_signal_ok(self, prediction, odds, &sig))
            )),
    {
        let odds = self.get_market_odds(prediction.match_id.as_str());
        match odds {
            None => Ok(TradingSignal {
                match_id: prediction.match_id.clone(),
                signal_strength: 0,
                recommended_bet: None,
                risk_assessment: RiskAssessment::default(),
                reasoning: "No market odds available".to_string(),
            }),
            Some(o) => self.generate_trading_signal(prediction, &o),
        }
    }

    /// Execute a signal: reject, without error, a missing recommendation or
    /// a risk score above 0.8; otherwise commit the bet to the portfolio,
    /// surfacing the ledger's own refusal as the error.
    pub fn execute_trade(&mut self, signal: &TradingSignal) -> (r: Result<bool, QuantsError>)
        requires
            old(self).wf(),
            old(self).trade_count < u64::MAX,
            (signal.recommended_bet matches Some(b) ==> b.spec_valid()),
        ensures
            final(self).wf(),
            (signal.recommended_bet is None ==> (r matches Ok(ok) && ok == false
                && *final(self) == *old(self))),
            (signal.recommended_bet matches Some(b) ==> {
                if signal.risk_assessment.risk_score > 800_000 {
                    (r matches Ok(ok) && ok == false && *final(self) == *old(self))
                } else if b.stake <= old(self).portfolio.available_bankroll
                    && old(self).portfolio.available_bankroll - b.stake
                        + old(self).portfolio.spec_potential_payout()
                        + spec_payout(b.stake as int, b.odds as int) <= MAX_MONEY {
                    (r matches Ok(ok) && ok == true
                        && final(self).trade_count == old(self).trade_count + 1
                        && final(self).portfolio.active_bets@
                            == old(self).portfolio.active_bets@.push(
                                (BettingDecision { status: BetStatus::Placed, ..b }))
                        && final(self).portfolio.available_bankroll
                            == old(self).portfolio.available_bankroll - b.stake)
                } else {
                    r == Err::<bool, QuantsError>(QuantsError::InvalidStake { amount: b.stake })
                        && final(self).portfolio == old(self).portfolio
                        && final(self).trade_count == old(self).trade_count
                }
            }),
            final(self).market_odds@ == old(self).market_odds@,
            final(self).active_strategy == old(self).active_strategy,
            final(self).risk_manager == old(self).risk_manager,
            final(self).strategies@ == old(self).strategies@,
    {
        match &signal.recommended_bet {
            Some(bet) => {
                if signal.risk_assessment.risk_score > 800_000 {
                    return Ok(false);
                }
                match self.portfolio.place_bet(bet.duplicate()) {
                    Ok(()) => {}
                    Err(e) => {
                        return Err(e);
                    }
                }
                self.trade_count = self.trade_count + 1;
                Ok(true)
            }
            None => Ok(false),
        }
    }

    /// A read-only snapshot of the ledger for query surfaces.
    pub fn get_portfolio_summary(&self) -> (r: PortfolioSummary)
        requires
            self.wf(),
        ensures
            r.total_bankroll == self.portfolio.total_bankroll,
            r.available_bankroll == self.portfolio.available_bankroll,
            r.total_exposure == self.portfolio.spec_exposure(),
            r.active_bets_count == self.portfolio.active_bets@.len(),
            r.total_trades == self.trade_count,
            r.roi == self.portfolio.roi,
            r.win_rate == self.portfolio.win_rate,
            r.profit_loss == self.portfolio.total_profit_loss,
    {
        PortfolioSummary {
            total_bankroll: self.portfolio.total_bankroll,
            available_bankroll: self.portfolio.available_bankroll,
            total_exposure: self.portfolio.total_exposure(),
            active_bets_count: self.portfolio.active_bets.len(),
            total_trades: self.trade_count,
            roi: self.portfolio.roi,
            win_rate: self.portfolio.win_rate,
            profit_loss: self.portfolio.total_profit_loss,
        }
    }

    /// Whether a bet of this type wins under the outcome.
    fn determine_bet_result(bet_type: &BetType, outcome: &BetOutcome) -> (r: bool)
        ensures
            r == spec_bet_wins(*bet_type, *outcome),
    {
        match (bet_type, outcome) {
            (BetType::HomeWin, BetOutcome::HomeWin) => true,
            (BetType::Draw, BetOutcome::Draw) => true,
            (BetType::AwayWin, BetOutcome::AwayWin) => true,
            _ => false,
        }
    }

    /// Index of the first active bet standing on `match_id`.
    fn find_match_index(&self, match_id: &str) -> (r: Option<usize>)
        ensures
            r matches Some(i)
                ==> spec_find_match(self.portfolio.active_bets@, match_id@) == i
                    && i < self.portfolio.active_bets@.len(),
            r is None ==> spec_find_match(self.portfolio.active_bets@, match_id@) == -1,
    {
        let ghost s = self.portfolio.active_bets@;
        let key: String = match_id.to_string();
        let n = self.portfolio.active_bets.len();
        let mut i: usize = 0;
        while i < n
            invariant
                n == s.len(),
                i <= n,
                s == self.portfolio.active_bets@,
                key@ == match_id@,
                forall|k: int| 0 <= k < i ==> s[k].match_id@ != match_id@,
            decreases n - i,
        {
            if self.portfolio.active_bets[i].match_id == key {
                proof {
                    lemma_find_match_skip(s, match_id@, i as int);
                    assert(s.skip(i as int)[0] == s[i as int]);
                }
                return Some(i);
            }
            i += 1;
        }
        proof {
            lemma_find_match_skip(s, match_id@, n as int);
            assert(s.skip(n as int).len() == 0);
        }
        None
    }

    /// Settle every active bet on a finished match: wins are decided by the
    /// outcome against each bet's market, payouts credited and the history
    /// and metrics updated, first match first.
    pub fn settle_bet(&mut self, match_id: &str, outcome: BetOutcome) -> (r: Result<(), QuantsError>)
        requires
            old(self).wf(),
        ensures
            r is Ok,
            final(self).wf(),
            final(self).portfolio.active_bets@ == spec_settled_active(
                old(self).portfolio.active_bets@, match_id@, outcome),
            final(self).portfolio.available_bankroll
                == old(self).portfolio.available_bankroll + spec_settled_credit(
                    old(self).portfolio.active_bets@, match_id@, outcome),
            final(self).portfolio.total_profit_loss
                == old(self).portfolio.total_profit_loss + spec_settled_net(
                    old(self).portfolio.active_bets@, match_id@, outcome),
            final(self).portfolio.historical_bets@
                == old(self).portfolio.historical_bets@ + spec_settled_hist(
                    old(self).portfolio.active_bets@, match_id@, outcome),
            final(self).portfolio.total_bankroll == old(self).portfolio.total_bankroll,
            final(self).trade_count == old(self).trade_count,
            final(self).market_odds@ == old(self).market_odds@,
            final(self).active_strategy == old(self).active_strategy,
            final(self).risk_manager == old(self).risk_manager,
    {
        let ghost s0 = old(self).portfolio.active_bets@;
        let ghost id = match_id@;
        loop
            invariant
                self.wf(),
                spec_settled_active(self.portfolio.active_bets@, id, outcome)
                    == spec_settled_active(s0, id, outcome),
                self.portfolio.available_bankroll
                    + spec_settled_credit(self.portfolio.active_bets@, id, outcome)
                    == old(self).portfolio.available_bankroll
                        + spec_settled_credit(s0, id, outcome),
                self.portfolio.total_profit_loss
                    + spec_settled_net(self.portfolio.active_bets@, id, outcome)
                    == old(self).portfolio.total_profit_loss + spec_settled_net(s0, id, outcome),
                self.portfolio.historical_bets@
                    + spec_settled_hist(self.portfolio.active_bets@, id, outcome)
                    == old(self).portfolio.historical_bets@ + spec_settled_hist(s0, id, outcome),
                self.portfolio.total_bankroll == old(self).portfolio.total_bankroll,
                self.trade_count == old(self).trade_count,
                self.market_odds@ == old(self).market_odds@,
                self.active_strategy == old(self).active_strategy,
                self.risk_manager == old(self).risk_manager,
                id == match_id@,
            ensures
                spec_find_match(self.portfolio.active_bets@, id) == -1,
            decreases self.portfolio.active_bets@.len(),
        {
            let found = self.find_match_index(match_id);
            let i = match found {
                Some(i) => i,
                None => {
                    break;
                }
            };
            let ghost cur = self.portfolio.active_bets@;
            let won = {
                let b = &self.portfolio.active_bets[i];
                TradingEngine::determine_bet_result(&b.bet_type, &outcome)
            };
            proof {
                assert(spec_find_match(cur, id) == i as int);
                assert(spec_settled_active(cur, id, outcome)
                    == spec_settled_active(cur.remove(i as int), id, outcome));
                assert(seq![spec_settled_bet(cur[i as int], outcome)]
                    + spec_settled_hist(cur.remove(i as int), id, outcome)
                    =~= spec_settled_hist(cur, id, outcome));
            }
            self.portfolio.settle_bet_at(i, won);
            proof {
                assert(self.portfolio.historical_bets@
                    + spec_settled_hist(self.portfolio.active_bets@, id, outcome)
                    =~= old(self).portfolio.historical_bets@
                        + spec_settled_hist(s0, id, outcome));
            }
        }
        proof {
            assert(spec_settled_active(self.portfolio.active_bets@, id, outcome)
                == self.portfolio.active_bets@);
            assert(spec_settled_credit(self.portfolio.active_bets@, id, outcome) == 0);
            assert(spec_settled_net(self.portfolio.active_bets@, id, outcome) == 0);
            assert(self.portfolio.historical_bets@
                + spec_settled_hist(self.portfolio.active_bets@, id, outcome)
                =~= self.portfolio.historical_bets@);
        }
        Ok(())
    }
}

} // verus!
