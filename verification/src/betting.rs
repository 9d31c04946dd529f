//! Staking decisions, strategy tiers and the portfolio ledger.
//!
//! Money is exact fixed-point (`i64` scaled by 10^6), so the bankroll
//! identity `available = total - active stakes + settled net P&L` is
//! maintained to the unit and proved on every mutation.

use vstd::prelude::*;

use crate::errors::QuantsError;
use crate::ext;
use crate::fixed::{MAX_MONEY, MAX_ODDS, PROB_ONE, SCALE};

verus! {

/// Largest stake a single decision may carry (one million money units in
/// fixed point); keeps every payout inside `i64`.
pub const MAX_STAKE: i64 = 1_000_000_000_000;

/// The market a stake is placed on.
#[derive(Debug, Clone, PartialEq, Eq)]
pub enum BetType {
    HomeWin,
    Draw,
    AwayWin,
    OverUnder { line: i64, over: bool },
    AsianHandicap { line: i64, team: String },
    BothTeamsToScore { yes: bool },
    CorrectScore { home_goals: u8, away_goals: u8 },
}

impl BetType {
    /// A copy whose equality Verus can see.
    pub fn duplicate(&self) -> (r: BetType)
        ensures
            r == *self,
    {
        match self {
            BetType::HomeWin => BetType::HomeWin,
            BetType::Draw => BetType::Draw,
            BetType::AwayWin => BetType::AwayWin,
            BetType::OverUnder { line, over } => BetType::OverUnder {
                line: *line,
                over: *over,
            },
            BetType::AsianHandicap { line, team } => BetType::AsianHandicap {
                line: *line,
                team: team.clone(),
            },
            BetType::BothTeamsToScore { yes } => BetType::BothTeamsToScore { yes: *yes },
            BetType::CorrectScore { home_goals, away_goals } => BetType::CorrectScore {
                home_goals: *home_goals,
                away_goals: *away_goals,
            },
        }
    }
}

/// Lifecycle of a staking decision: `Pending` at construction, `Placed` once
/// committed, then exactly one terminal state.
#[derive(Debug, Clone, Copy, PartialEq, Eq, Structural)]
pub enum BetStatus {
    Pending,
    Placed,
    Won,
    Lost,
    Void,
    CashedOut { amount: i64 },
}

/// Risk appetite of a strategy tier.
#[derive(Debug, Clone, Copy, PartialEq, Eq, Structural)]
pub enum RiskTolerance {
    Conservative,
    Moderate,
    Aggressive,
}

/// Market-implied probability of an outcome quoted at `odds`.
pub open spec fn spec_implied_prob(odds: int) -> int {
    (SCALE as int) * (SCALE as int) / odds
}

/// Kelly fraction `(b*p - q) / b` with `b = odds - 1`, floored at zero.
pub open spec fn spec_kelly(odds: int, p: int) -> int {
    let b = odds - (SCALE as int);
    let num = b * p - ((SCALE as int) - p) * (SCALE as int);
    if num <= 0 {
        0
    } else {
        num / b
    }
}

/// Gross payout of a winning bet: `stake * odds`.
pub open spec fn spec_payout(stake: int, odds: int) -> int {
    stake * odds / (SCALE as int)
}

/// Edge of a `true_prob` opinion against quoted `odds`.
pub open spec fn spec_edge(true_prob: int, odds: int) -> int {
    true_prob - spec_implied_prob(odds)
}

/// The executable Kelly fraction; see [`spec_kelly`]. Never negative and
/// never above a whole bankroll.
pub fn kelly_fraction(odds: u64, true_probability: u64) -> (r: u64)
    requires
        (SCALE as int) < odds <= MAX_ODDS,
        true_probability <= PROB_ONE,
    ensures
        r == spec_kelly(odds as int, true_probability as int),
        r <= PROB_ONE,
{
    let b_i: i128 = (odds - SCALE) as i128;
    proof {
        let ghost bb = b_i as int;
        let ghost pp = true_probability as int;
        assert(0 <= bb * pp <= 1_000_000_000_000_000) by (nonlinear_arith)
            requires 0 <= bb <= 1_000_000_000, 0 <= pp <= 1_000_000;
    }
    let num: i128 = b_i * (true_probability as i128)
        - ((SCALE - true_probability) as i128) * (SCALE as i128);
    if num <= 0 {
        0
    } else {
        proof {
            let ghost bb = b_i as int;
            let ghost nn = num as int;
            assert(nn <= bb * (PROB_ONE as int)) by (nonlinear_arith)
                requires
                    nn == bb * (true_probability as int)
                        - ((SCALE as int) - true_probability) * (SCALE as int),
                    true_probability <= PROB_ONE,
                    bb > 0;
            assert(nn / bb <= PROB_ONE as int) by (nonlinear_arith)
                requires nn <= bb * (PROB_ONE as int), bb > 0;
            assert(nn / bb >= 0) by (nonlinear_arith)
                requires nn > 0, bb > 0;
        }
        (num / b_i) as u64
    }
}

/// A single staking action against one match outcome.
#[derive(Debug, Clone)]
pub struct BettingDecision {
    pub id: String,
    pub match_id: String,
    pub bet_type: BetType,
    /// Fixed-point money, always positive.
    pub stake: i64,
    /// Fixed-point decimal odds, always above 1.
    pub odds: u64,
    /// `p * odds - 1`, fixed point; negative for a losing proposition.
    pub expected_value: i64,
    /// Kelly fraction in `[0, 1]`, never negative.
    pub kelly_fraction: u64,
    /// The edge backing the decision, fixed point.
    pub confidence: i64,
    pub strategy: String,
    pub timestamp: i64,
    pub status: BetStatus,
}

impl BettingDecision {
    /// Stake and odds inside the representable band.
    pub open spec fn spec_valid(&self) -> bool {
        &&& 0 < self.stake <= MAX_STAKE
        &&& (SCALE as int) < self.odds <= MAX_ODDS
        &&& self.kelly_fraction <= PROB_ONE
    }

    /// Construct a decision. Fails if and only if the stake is out of its
    /// band, the odds are not above 1 (or beyond the representable maximum),
    /// or the probability is above 1; the checks run in that order, each
    /// answered with its own error variant.
    pub fn new(
        match_id: String,
        bet_type: BetType,
        stake: i64,
        odds: u64,
        true_probability: u64,
        strategy: String,
    ) -> (r: Result<BettingDecision, QuantsError>)
        ensures
            r is Ok <==> 0 < stake <= MAX_STAKE && (SCALE as int) < odds <= MAX_ODDS
                && true_probability <= PROB_ONE,
            !(0 < stake <= MAX_STAKE)
                ==> r == Err::<BettingDecision, QuantsError>(
                    QuantsError::InvalidStake { amount: stake }),
            0 < stake <= MAX_STAKE && !((SCALE as int) < odds <= MAX_ODDS)
                ==> r == Err::<BettingDecision, QuantsError>(QuantsError::InvalidOdds { odds }),
            0 < stake <= MAX_STAKE && (SCALE as int) < odds <= MAX_ODDS
                && true_probability > PROB_ONE
                ==> r == Err::<BettingDecision, QuantsError>(
                    QuantsError::InvalidProbability { prob: true_probability }),
            r matches Ok(b) ==> {
                &&& b.spec_valid()
                &&& b.match_id == match_id
                &&& b.bet_type == bet_type
                &&& b.stake == stake
                &&& b.odds == odds
                &&& b.expected_value
                    == true_probability * odds / (SCALE as int) - (SCALE as int)
                &&& b.kelly_fraction == spec_kelly(odds as int, true_probability as int)
                &&& b.kelly_fraction <= PROB_ONE
                &&& b.confidence == spec_edge(true_probability as int, odds as int)
                &&& b.strategy == strategy
                &&& b.status == BetStatus::Pending
            },
    {
        if stake <= 0 || stake > MAX_STAKE {
            return Err(QuantsError::InvalidStake { amount: stake });
        }
        if odds <= SCALE || odds > MAX_ODDS {
            return Err(QuantsError::InvalidOdds { odds });
        }
        if true_probability > PROB_ONE {
            return Err(QuantsError::InvalidProbability { prob: true_probability });
        }

        let implied: u64 = (SCALE * SCALE) / odds;
        proof {
            let ghost pp = true_probability as int;
            let ghost od = odds as int;
            assert(0 <= pp * od <= 1_000_000_000_000_000) by (nonlinear_arith)
                requires 0 <= pp <= 1_000_000, 0 <= od <= 1_000_000_000;
            assert(0 <= pp * od / (SCALE as int) <= pp * od) by (nonlinear_arith)
                requires pp * od >= 0;
        }
        let expected_value: i64 =
            (((true_probability as i128) * (odds as i128)) / (SCALE as i128)) as i64
                - (SCALE as i64);
        let confidence: i64 = (true_probability as i64) - (implied as i64);

        // Kelly criterion: f = (b*p - q) / b, b = odds - 1, q = 1 - p,
        // floored at zero so a negative edge never stakes anything.
        let b_i: i128 = (odds - SCALE) as i128;
        proof {
            let ghost bb = b_i as int;
            let ghost pp = true_probability as int;
            assert(0 <= bb * pp <= 1_000_000_000_000_000) by (nonlinear_arith)
                requires 0 <= bb <= 1_000_000_000, 0 <= pp <= 1_000_000;
        }
        let num: i128 = b_i * (true_probability as i128)
            - ((SCALE - true_probability) as i128) * (SCALE as i128);
        let kelly_fraction: u64 = if num <= 0 {
            0
        } else {
            proof {
                let ghost bb = b_i as int;
                let ghost nn = num as int;
                assert(nn <= bb * (PROB_ONE as int)) by (nonlinear_arith)
                    requires
                        nn == bb * (true_probability as int)
                            - ((SCALE as int) - true_probability) * (SCALE as int),
                        true_probability <= PROB_ONE,
                        bb > 0;
                assert(nn / bb <= PROB_ONE as int) by (nonlinear_arith)
                    requires nn <= bb * (PROB_ONE as int), bb > 0;
                assert(nn / bb >= 0) by (nonlinear_arith)
                    requires nn > 0, bb > 0;
            }
            (num / b_i) as u64
        };

        Ok(BettingDecision {
            id: ext::fresh_id(),
            match_id,
            bet_type,
            stake,
            odds,
            expected_value,
            kelly_fraction,
            confidence,
            strategy,
            timestamp: ext::now_unix_seconds(),
            status: BetStatus::Pending,
        })
    }

    /// Whether the expected value is positive.
    pub fn has_positive_ev(&self) -> (r: bool)
        ensures
            r == (self.expected_value > 0),
    {
        self.expected_value > 0
    }

    /// Gross payout if the bet wins: `stake * odds`, truncated to the money
    /// grid. Never below the stake itself.
    pub fn potential_payout(&self) -> (r: i64)
        requires
            self.spec_valid(),
        ensures
            r == spec_payout(self.stake as int, self.odds as int),
            self.stake <= r <= MAX_STAKE as int * MAX_ODDS as int / (SCALE as int),
    {
        proof {
            let ghost st = self.stake as int;
            let ghost od = self.odds as int;
            assert(st * (SCALE as int) <= st * od <= MAX_STAKE as int * MAX_ODDS as int)
                by (nonlinear_arith)
                requires 0 < st <= MAX_STAKE, (SCALE as int) < od <= MAX_ODDS;
            assert(st <= st * od / (SCALE as int)
                <= MAX_STAKE as int * MAX_ODDS as int / (SCALE as int))
                by (nonlinear_arith)
                requires st * (SCALE as int) <= st * od <= MAX_STAKE as int * MAX_ODDS as int;
        }
        let wide: i128 = (self.stake as i128) * (self.odds as i128);
        let payout: i128 = wide / (SCALE as i128);
        payout as i64
    }

    /// Net profit if the bet wins.
    pub fn potential_profit(&self) -> (r: i64)
        requires
            self.spec_valid(),
        ensures
            r == spec_payout(self.stake as int, self.odds as int) - self.stake,
            r >= 0,
    {
        self.potential_payout() - self.stake
    }

    /// Profit per unit staked, fixed point; at most `odds - 1`.
    pub fn risk_reward_ratio(&self) -> (r: i64)
        requires
            self.spec_valid(),
        ensures
            r == (spec_payout(self.stake as int, self.odds as int) - self.stake)
                * (SCALE as int) / self.stake as int,
            0 <= r <= self.odds - SCALE,
    {
        let profit = self.potential_profit();
        proof {
            let ghost st = self.stake as int;
            let ghost od = self.odds as int;
            let ghost pay = spec_payout(st, od);
            assert(pay * (SCALE as int) <= st * od) by (nonlinear_arith)
                requires pay == st * od / (SCALE as int), st * od >= 0;
            assert((pay - st) * (SCALE as int) <= st * (od - (SCALE as int)))
                by (nonlinear_arith)
                requires pay * (SCALE as int) <= st * od;
            assert(0 <= (pay - st) * (SCALE as int) / st <= od - (SCALE as int))
                by (nonlinear_arith)
                requires
                    0 <= (pay - st) * (SCALE as int) <= st * (od - (SCALE as int)),
                    st >= 1,
                    od >= (SCALE as int);
        }
        let wide: i128 = (profit as i128) * (SCALE as i128);
        let ratio: i128 = wide / (self.stake as i128);
        ratio as i64
    }

    /// Overwrite the lifecycle status.
    pub fn update_status(&mut self, status: BetStatus)
        ensures
            *final(self) == (BettingDecision { status, ..*old(self) }),
    {
        self.status = status;
    }

    /// A field-for-field copy whose equality Verus can see; the derived
    /// `Clone` is opaque to the verifier.
    pub fn duplicate(&self) -> (r: BettingDecision)
        ensures
            r == *self,
    {
        BettingDecision {
            id: self.id.clone(),
            match_id: self.match_id.clone(),
            bet_type: self.bet_type.duplicate(),
            stake: self.stake,
            odds: self.odds,
            expected_value: self.expected_value,
            kelly_fraction: self.kelly_fraction,
            confidence: self.confidence,
            strategy: self.strategy.clone(),
            timestamp: self.timestamp,
            status: self.status,
        }
    }

    /// A bet still awaiting settlement.
    pub fn is_active(&self) -> (r: bool)
        ensures
            r == (self.status == BetStatus::Pending || self.status == BetStatus::Placed),
    {
        match self.status {
            BetStatus::Pending => true,
            BetStatus::Placed => true,
            _ => false,
        }
    }
}

/// Configuration bundle gating when and how much to stake.
#[derive(Debug, Clone)]
pub struct BettingStrategy {
    pub name: String,
    pub description: String,
    pub min_odds: u64,
    pub max_odds: u64,
    pub min_edge: i64,
    pub max_stake_percent: u64,
    pub kelly_multiplier: u64,
    pub min_confidence: u64,
    pub max_correlation: u64,
    pub risk_tolerance: RiskTolerance,
}

/// The test of [`BettingStrategy::should_bet`]: odds inside the band, edge at
/// least the minimum, confidence at least the minimum.
pub open spec fn spec_should_bet(
    strat: &BettingStrategy,
    odds: int,
    true_prob: int,
    confidence: int,
) -> bool {
    &&& strat.min_odds <= odds <= strat.max_odds
    &&& spec_edge(true_prob, odds) >= strat.min_edge
    &&& confidence >= strat.min_confidence
}

/// The stake [`BettingStrategy::calculate_stake`] sizes: the Kelly stake
/// damped by the strategy's multiplier, capped by the strategy's bankroll
/// percentage.
pub open spec fn spec_calculate_stake(
    strat: &BettingStrategy,
    bankroll: int,
    kelly_fraction: int,
) -> int {
    let kelly_stake = bankroll * kelly_fraction / (SCALE as int) * strat.kelly_multiplier
        / (SCALE as int);
    let max_stake = bankroll * strat.max_stake_percent / (SCALE as int);
    if kelly_stake <= max_stake {
        kelly_stake
    } else {
        max_stake
    }
}

impl BettingStrategy {
    /// Low-risk value betting with strict criteria: quarter Kelly, 5% edge.
    pub fn conservative() -> (r: BettingStrategy)
        ensures
            r.min_odds == 1_500_000 && r.max_odds == 3_000_000,
            r.min_edge == 50_000 && r.max_stake_percent == 20_000,
            r.kelly_multiplier == 250_000 && r.min_confidence == 800_000,
            r.max_correlation == 300_000,
            r.risk_tolerance == RiskTolerance::Conservative,
    {
        BettingStrategy {
            name: "Conservative Value".to_string(),
            description: "Low-risk value betting with strict criteria".to_string(),
            min_odds: 1_500_000,
            max_odds: 3_000_000,
            min_edge: 50_000,
            max_stake_percent: 20_000,
            kelly_multiplier: 250_000,
            min_confidence: 800_000,
            max_correlation: 300_000,
            risk_tolerance: RiskTolerance::Conservative,
        }
    }

    /// Balanced growth: half Kelly, 3% edge.
    pub fn moderate() -> (r: BettingStrategy)
        ensures
            r.min_odds == 1_300_000 && r.max_odds == 5_000_000,
            r.min_edge == 30_000 && r.max_stake_percent == 50_000,
            r.kelly_multiplier == 500_000 && r.min_confidence == 600_000,
            r.max_correlation == 500_000,
            r.risk_tolerance == RiskTolerance::Moderate,
    {
        BettingStrategy {
            name: "Moderate Growth".to_string(),
            description: "Balanced approach between growth and risk".to_string(),
            min_odds: 1_300_000,
            max_odds: 5_000_000,
            min_edge: 30_000,
            max_stake_percent: 50_000,
            kelly_multiplier: 500_000,
            min_confidence: 600_000,
            max_correlation: 500_000,
            risk_tolerance: RiskTolerance::Moderate,
        }
    }

    /// High-growth tier: three-quarter Kelly, 1% edge.
    pub fn aggressive() -> (r: BettingStrategy)
        ensures
            r.min_odds == 1_200_000 && r.max_odds == 10_000_000,
            r.min_edge == 10_000 && r.max_stake_percent == 100_000,
            r.kelly_multiplier == 750_000 && r.min_confidence == 400_000,
            r.max_correlation == 700_000,
            r.risk_tolerance == RiskTolerance::Aggressive,
    {
        BettingStrategy {
            name: "Aggressive Growth".to_string(),
            description: "High-growth strategy with increased risk".to_string(),
            min_odds: 1_200_000,
            max_odds: 10_000_000,
            min_edge: 10_000,
            max_stake_percent: 100_000,
            kelly_multiplier: 750_000,
            min_confidence: 400_000,
            max_correlation: 700_000,
            risk_tolerance: RiskTolerance::Aggressive,
        }
    }

    /// Whether a proposition meets this strategy's criteria: odds inside the
    /// band, edge at least `min_edge`, confidence at least `min_confidence`,
    /// if and only if.
    pub fn should_bet(&self, odds: u64, true_probability: u64, confidence: u64) -> (r: bool)
        requires
            odds >= 1,
            true_probability <= PROB_ONE,
        ensures
            r == spec_should_bet(
                self,
                odds as int,
                true_probability as int,
                confidence as int,
            ),
    {
        let implied: u64 = (SCALE * SCALE) / odds;
        proof {
            assert((SCALE as int) * (SCALE as int) / (odds as int)
                <= (SCALE as int) * (SCALE as int)) by (nonlinear_arith)
                requires odds >= 1;
        }
        let edge: i64 = (true_probability as i64) - (implied as i64);
        odds >= self.min_odds && odds <= self.max_odds && edge >= self.min_edge
            && confidence >= self.min_confidence
    }

    /// Size a stake from the bankroll and a Kelly fraction, under the
    /// strategy's damping and ceiling. Never negative.
    pub fn calculate_stake(&self, bankroll: i64, kelly_fraction: u64) -> (r: i64)
        requires
            0 <= bankroll <= MAX_MONEY,
            kelly_fraction <= PROB_ONE,
            self.kelly_multiplier <= SCALE,
            self.max_stake_percent <= SCALE,
        ensures
            r == spec_calculate_stake(self, bankroll as int, kelly_fraction as int),
            0 <= r <= bankroll,
    {
        proof {
            let ghost bk = bankroll as int;
            let ghost kf = kelly_fraction as int;
            let ghost km = self.kelly_multiplier as int;
            let ghost mp = self.max_stake_percent as int;
            assert(0 <= bk * kf <= bk * (SCALE as int)) by (nonlinear_arith)
                requires 0 <= bk, 0 <= kf <= (SCALE as int);
            assert(0 <= bk * kf / (SCALE as int) <= bk) by (nonlinear_arith)
                requires 0 <= bk * kf <= bk * (SCALE as int);
            assert(0 <= (bk * kf / (SCALE as int)) * km
                <= (bk * kf / (SCALE as int)) * (SCALE as int)) by (nonlinear_arith)
                requires 0 <= bk * kf / (SCALE as int), 0 <= km <= (SCALE as int);
            assert(0 <= (bk * kf / (SCALE as int)) * km / (SCALE as int)
                <= bk * kf / (SCALE as int)) by (nonlinear_arith)
                requires 0 <= (bk * kf / (SCALE as int)) * km
                    <= (bk * kf / (SCALE as int)) * (SCALE as int);
            assert(0 <= bk * mp <= bk * (SCALE as int)) by (nonlinear_arith)
                requires 0 <= bk, 0 <= mp <= (SCALE as int);
            assert(0 <= bk * mp / (SCALE as int) <= bk) by (nonlinear_arith)
                requires 0 <= bk * mp <= bk * (SCALE as int);
        }
        let k1: i128 = (bankroll as i128) * (kelly_fraction as i128) / (SCALE as i128);
        let kelly_stake: i128 = k1 * (self.kelly_multiplier as i128) / (SCALE as i128);
        let max_stake: i128 = (bankroll as i128) * (self.max_stake_percent as i128)
            / (SCALE as i128);
        let chosen: i128 = if kelly_stake <= max_stake {
            kelly_stake
        } else {
            max_stake
        };
        chosen as i64
    }
}

/// Sum of `f` over a sequence of bets.
pub open spec fn spec_bet_sum(
    s: Seq<BettingDecision>,
    f: spec_fn(BettingDecision) -> int,
) -> int
    decreases s.len(),
{
    if s.len() == 0 {
        0
    } else {
        f(s[0]) + spec_bet_sum(s.drop_first(), f)
    }
}

/// Appending a bet adds its measure to the sum.
pub proof fn lemma_bet_sum_push(
    s: Seq<BettingDecision>,
    f: spec_fn(BettingDecision) -> int,
    b: BettingDecision,
)
    ensures
        spec_bet_sum(s.push(b), f) == spec_bet_sum(s, f) + f(b),
    decreases s.len(),
{
    if s.len() == 0 {
        assert(s.push(b).drop_first() =~= s);
    } else {
        assert(s.push(b).drop_first() =~= s.drop_first().push(b));
        lemma_bet_sum_push(s.drop_first(), f, b);
    }
}

/// Removing the bet at `i` subtracts its measure from the sum.
pub proof fn lemma_bet_sum_remove(
    s: Seq<BettingDecision>,
    f: spec_fn(BettingDecision) -> int,
    i: int,
)
    requires
        0 <= i < s.len(),
    ensures
        spec_bet_sum(s.remove(i), f) == spec_bet_sum(s, f) - f(s[i]),
    decreases s.len(),
{
    if i == 0 {
        assert(s.remove(0) =~= s.drop_first());
    } else {
        assert(s.remove(i).drop_first() =~= s.drop_first().remove(i - 1));
        assert(s.remove(i).len() > 0);
        lemma_bet_sum_remove(s.drop_first(), f, i - 1);
    }
}

/// One unfolding step for loops that walk a sequence from the front.
pub proof fn lemma_bet_sum_skip_step(
    s: Seq<BettingDecision>,
    f: spec_fn(BettingDecision) -> int,
    i: int,
)
    requires
        0 <= i < s.len(),
    ensures
        spec_bet_sum(s.skip(i), f) == f(s[i]) + spec_bet_sum(s.skip(i + 1), f),
{
    assert(s.skip(i).len() > 0);
    assert(s.skip(i)[0] == s[i]);
    assert(s.skip(i).drop_first() =~= s.skip(i + 1));
}

/// Over valid bets, stakes are positive and each payout covers its stake, so
/// the sums are ordered and non-negative.
pub proof fn lemma_stakes_le_payouts(s: Seq<BettingDecision>)
    requires
        forall|i: int| 0 <= i < s.len() ==> (#[trigger] s[i]).spec_valid(),
    ensures
        0 <= spec_bet_sum(s, bet_stake()) <= spec_bet_sum(s, bet_payout()),
    decreases s.len(),
{
    if s.len() > 0 {
        assert(s[0].spec_valid());
        let ghost st = s[0].stake as int;
        let ghost od = s[0].odds as int;
        assert(st * (SCALE as int) <= st * od) by (nonlinear_arith)
            requires 0 < st, (SCALE as int) < od;
        assert(st <= st * od / (SCALE as int)) by (nonlinear_arith)
            requires st * (SCALE as int) <= st * od;
        assert forall|i: int| 0 <= i < s.drop_first().len()
            implies (#[trigger] s.drop_first()[i]).spec_valid() by {
            assert(s.drop_first()[i] == s[i + 1]);
        }
        lemma_stakes_le_payouts(s.drop_first());
    }
}

/// Stake measure of one bet.
pub open spec fn bet_stake() -> spec_fn(BettingDecision) -> int {
    |b: BettingDecision| b.stake as int
}

/// Potential-payout measure of one bet.
pub open spec fn bet_payout() -> spec_fn(BettingDecision) -> int {
    |b: BettingDecision| spec_payout(b.stake as int, b.odds as int)
}

/// Realized net profit-and-loss of one settled bet: payout less stake for a
/// win, minus the stake for a loss.
pub open spec fn bet_net() -> spec_fn(BettingDecision) -> int {
    |b: BettingDecision| (if b.status == BetStatus::Won {
        spec_payout(b.stake as int, b.odds as int)
    } else {
        0
    }) - b.stake
}

/// Win indicator of one settled bet.
pub open spec fn bet_won() -> spec_fn(BettingDecision) -> int {
    |b: BettingDecision| if b.status == BetStatus::Won {
        1int
    } else {
        0int
    }
}

/// Index of the first bet in `s` whose id reads `id`, or -1.
pub open spec fn spec_find_bet(s: Seq<BettingDecision>, id: Seq<char>) -> int
    decreases s.len(),
{
    if s.len() == 0 {
        -1
    } else if s[0].id@ == id {
        0
    } else {
        let t = spec_find_bet(s.drop_first(), id);
        if t == -1 {
            -1
        } else {
            t + 1
        }
    }
}

/// The first match is a genuine index into the sequence and carries the id.
pub proof fn lemma_find_bet_valid(s: Seq<BettingDecision>, id: Seq<char>)
    ensures
        spec_find_bet(s, id) == -1 || (0 <= spec_find_bet(s, id) < s.len()
            && s[spec_find_bet(s, id)].id@ == id),
    decreases s.len(),
{
    if s.len() > 0 && s[0].id@ != id {
        lemma_find_bet_valid(s.drop_first(), id);
    }
}

/// The authoritative financial ledger: bankroll, active bets, settled
/// history and the derived metrics.
#[derive(Debug, Clone)]
pub struct Portfolio {
    pub total_bankroll: i64,
    pub available_bankroll: i64,
    pub active_bets: Vec<BettingDecision>,
    pub historical_bets: Vec<BettingDecision>,
    pub total_profit_loss: i64,
    /// Net P&L per unit staked over settled bets, fixed point.
    pub roi: i64,
    /// Fraction of settled bets won, fixed point in `[0, 1]`.
    pub win_rate: u64,
    pub sharpe_ratio: i64,
    pub max_drawdown: u64,
    pub last_updated: i64,
}

impl Portfolio {
    /// Sum of stakes of the active bets.
    pub open spec fn spec_exposure(&self) -> int {
        spec_bet_sum(self.active_bets@, bet_stake())
    }

    /// Sum of potential payouts of the active bets.
    pub open spec fn spec_potential_payout(&self) -> int {
        spec_bet_sum(self.active_bets@, bet_payout())
    }

    /// Net realized P&L over the settled history.
    pub open spec fn spec_net_history(&self) -> int {
        spec_bet_sum(self.historical_bets@, bet_net())
    }

    /// The ledger invariant. Its heart is the exact accounting identity
    /// `available = total - active stakes + settled net P&L`; around it,
    /// every bet is in the representable band and money headroom is kept so
    /// that any settlement fits in `i64`.
    pub open spec fn wf(&self) -> bool {
        &&& 0 <= self.available_bankroll
        &&& 0 <= self.total_bankroll <= MAX_MONEY
        &&& self.available_bankroll + self.spec_potential_payout() <= MAX_MONEY
        &&& self.available_bankroll
            == self.total_bankroll - self.spec_exposure() + self.total_profit_loss
        &&& forall|i: int| 0 <= i < self.active_bets@.len()
            ==> (#[trigger] self.active_bets@[i]).spec_valid()
                && self.active_bets@[i].status == BetStatus::Placed
        &&& forall|i: int| 0 <= i < self.historical_bets@.len()
            ==> (#[trigger] self.historical_bets@[i]).spec_valid()
                && (self.historical_bets@[i].status == BetStatus::Won
                    || self.historical_bets@[i].status == BetStatus::Lost)
        &&& self.total_profit_loss == self.spec_net_history()
        &&& self.win_rate <= PROB_ONE
    }

    /// A fresh ledger holding `initial_bankroll`, all of it available.
    pub fn new(initial_bankroll: i64) -> (r: Portfolio)
        requires
            0 <= initial_bankroll <= MAX_MONEY,
        ensures
            r.wf(),
            r.total_bankroll == initial_bankroll,
            r.available_bankroll == initial_bankroll,
            r.active_bets@.len() == 0,
            r.historical_bets@.len() == 0,
            r.total_profit_loss == 0,
            r.roi == 0,
            r.win_rate == 0,
    {
        Portfolio {
            total_bankroll: initial_bankroll,
            available_bankroll: initial_bankroll,
            active_bets: Vec::new(),
            historical_bets: Vec::new(),
            total_profit_loss: 0,
            roi: 0,
            win_rate: 0,
            sharpe_ratio: 0,
            max_drawdown: 0,
            last_updated: ext::now_unix_seconds(),
        }
    }

    /// Sum of stakes currently at risk.
    pub fn total_exposure(&self) -> (r: i64)
        requires
            self.wf(),
        ensures
            r == self.spec_exposure(),
            0 <= r,
    {
        let ghost s = self.active_bets@;
        let n = self.active_bets.len();
        let mut acc: i64 = 0;
        let mut i: usize = 0;
        proof {
            assert(s.skip(0) =~= s);
            lemma_stakes_le_payouts(s);
        }
        while i < n
            invariant
                n == s.len(),
                i <= n,
                self.wf(),
                s == self.active_bets@,
                acc + spec_bet_sum(s.skip(i as int), bet_stake()) == spec_bet_sum(s, bet_stake()),
                0 <= acc,
                spec_bet_sum(s, bet_stake()) <= MAX_MONEY,
            decreases n - i,
        {
            proof {
                lemma_bet_sum_skip_step(s, bet_stake(), i as int);
                assert forall|k: int| 0 <= k < s.skip(i as int + 1).len()
                    implies (#[trigger] s.skip(i as int + 1)[k]).spec_valid() by {
                    assert(s.skip(i as int + 1)[k] == s[k + i + 1]);
                }
                lemma_stakes_le_payouts(s.skip(i as int + 1));
            }
            acc = acc + self.active_bets[i].stake;
            i += 1;
        }
        proof {
            assert(s.skip(n as int).len() == 0);
        }
        acc
    }

    /// Sum of gross payouts the active book could owe.
    pub fn potential_total_payout(&self) -> (r: i64)
        requires
            self.wf(),
        ensures
            r == self.spec_potential_payout(),
            0 <= r <= MAX_MONEY,
    {
        let ghost s = self.active_bets@;
        let n = self.active_bets.len();
        let mut acc: i64 = 0;
        let mut i: usize = 0;
        proof {
            assert(s.skip(0) =~= s);
            lemma_payouts_nonneg(s);
        }
        while i < n
            invariant
                n == s.len(),
                i <= n,
                self.wf(),
                s == self.active_bets@,
                acc + spec_bet_sum(s.skip(i as int), bet_payout()) == spec_bet_sum(s, bet_payout()),
                0 <= acc,
                spec_bet_sum(s, bet_payout()) <= MAX_MONEY,
                forall|k: int| 0 <= k < s.len() ==> (#[trigger] s[k]).spec_valid(),
            decreases n - i,
        {
            proof {
                lemma_bet_sum_skip_step(s, bet_payout(), i as int);
                lemma_payouts_nonneg(s.skip(i as int + 1));
            }
            let p = self.active_bets[i].potential_payout();
            acc = acc + p;
            i += 1;
        }
        proof {
            assert(s.skip(n as int).len() == 0);
        }
        acc
    }

    /// Index of the first active bet under `bet_id`, if any.
    fn find_active(&self, bet_id: &str) -> (r: Option<usize>)
        ensures
            r matches Some(i)
                ==> spec_find_bet(self.active_bets@, bet_id@) == i
                    && i < self.active_bets@.len(),
            r is None ==> spec_find_bet(self.active_bets@, bet_id@) == -1,
    {
        let ghost s = self.active_bets@;
        let key: String = bet_id.to_string();
        let n = self.active_bets.len();
        let mut i: usize = 0;
        while i < n
            invariant
                n == s.len(),
                i <= n,
                s == self.active_bets@,
                key@ == bet_id@,
                forall|k: int| 0 <= k < i ==> s[k].id@ != bet_id@,
            decreases n - i,
        {
            if self.active_bets[i].id == key {
                proof {
                    lemma_find_bet_skip(s, bet_id@, i as int);
                    assert(s.skip(i as int)[0] == s[i as int]);
                }
                return Some(i);
            }
            i += 1;
        }
        proof {
            lemma_find_bet_skip(s, bet_id@, n as int);
            assert(s.skip(n as int).len() == 0);
        }
        None
    }

    /// Commit a bet: debit its stake and move it into the active book with
    /// status `Placed`. Fails, leaving the ledger untouched, if and only if
    /// the stake exceeds the available bankroll or the bet's payout would
    /// push the book past the money ceiling.
    pub fn place_bet(&mut self, bet: BettingDecision) -> (r: Result<(), QuantsError>)
        requires
            old(self).wf(),
            bet.spec_valid(),
        ensures
            r is Ok <==> bet.stake <= old(self).available_bankroll
                && old(self).available_bankroll - bet.stake
                    + old(self).spec_potential_payout()
                    + spec_payout(bet.stake as int, bet.odds as int) <= MAX_MONEY,
            r is Ok ==> {
                &&& final(self).active_bets@ == old(self).active_bets@.push(
                    BettingDecision { status: BetStatus::Placed, ..bet })
                &&& final(self).available_bankroll == old(self).available_bankroll - bet.stake
                &&& final(self).total_bankroll == old(self).total_bankroll
                &&& final(self).historical_bets@ == old(self).historical_bets@
                &&& final(self).total_profit_loss == old(self).total_profit_loss
                &&& final(self).roi == old(self).roi
                &&& final(self).win_rate == old(self).win_rate
                &&& final(self).wf()
            },
            r is Err ==> *final(self) == *old(self),
            r is Err ==> r == Err::<(), QuantsError>(
                QuantsError::InvalidStake { amount: bet.stake }),
    {
        if bet.stake > self.available_bankroll {
            return Err(QuantsError::InvalidStake { amount: bet.stake });
        }
        let payout = bet.potential_payout();
        let pot = self.potential_total_payout();
        let headroom: i128 = (self.available_bankroll as i128) - (bet.stake as i128)
            + (pot as i128) + (payout as i128);
        if headroom > (MAX_MONEY as i128) {
            return Err(QuantsError::InvalidStake { amount: bet.stake });
        }
        let mut placed = bet;
        placed.update_status(BetStatus::Placed);
        self.available_bankroll = self.available_bankroll - placed.stake;
        self.active_bets.push(placed);
        self.last_updated = ext::now_unix_seconds();
        proof {
            let ghost b = BettingDecision { status: BetStatus::Placed, ..bet };
            lemma_bet_sum_push(old(self).active_bets@, bet_stake(), b);
            lemma_bet_sum_push(old(self).active_bets@, bet_payout(), b);
            assert forall|i: int| 0 <= i < self.active_bets@.len()
                implies (#[trigger] self.active_bets@[i]).spec_valid()
                    && self.active_bets@[i].status == BetStatus::Placed by {
                if i < old(self).active_bets@.len() {
                    assert(self.active_bets@[i] == old(self).active_bets@[i]);
                } else {
                    assert(self.active_bets@[i] == b);
                }
            }
        }
        Ok(())
    }

    /// Settle the first active bet under `bet_id`: move it to the history as
    /// `Won` or `Lost`, credit the payout (stake times odds for a win, zero
    /// for a loss), fold the net result into the cumulative P&L and
    /// recompute win rate and ROI. Fails, leaving the ledger untouched, if
    /// and only if no active bet carries the id.
    pub fn settle_bet(&mut self, bet_id: &str, won: bool) -> (r: Result<(), QuantsError>)
        requires
            old(self).wf(),
        ensures
            r is Ok <==> spec_find_bet(old(self).active_bets@, bet_id@) >= 0,
            r is Ok ==> ({
                let idx = spec_find_bet(old(self).active_bets@, bet_id@);
                let b = old(self).active_bets@[idx];
                let settled = BettingDecision {
                    status: if won { BetStatus::Won } else { BetStatus::Lost },
                    ..b
                };
                let payout = if won { spec_payout(b.stake as int, b.odds as int) } else { 0 };
                &&& final(self).active_bets@ == old(self).active_bets@.remove(idx)
                &&& final(self).historical_bets@ == old(self).historical_bets@.push(settled)
                &&& final(self).available_bankroll == old(self).available_bankroll + payout
                &&& final(self).total_profit_loss
                    == old(self).total_profit_loss + payout - b.stake
                &&& final(self).total_bankroll == old(self).total_bankroll
                &&& final(self).win_rate == spec_win_rate(final(self).historical_bets@)
                &&& final(self).roi == spec_roi(
                    final(self).total_profit_loss as int,
                    spec_bet_sum(final(self).historical_bets@, bet_stake()),
                )
                &&& final(self).wf()
            }),
            r is Err ==> *final(self) == *old(self),
            r matches Err(e) ==> (e matches QuantsError::MatchNotFound { match_id }
                && match_id@ == bet_id@),
    {
        let found = self.find_active(bet_id);
        match found {
            Some(i) => {
                self.settle_bet_at(i, won);
                Ok(())
            }
            None => Err(QuantsError::MatchNotFound { match_id: bet_id.to_string() }),
        }
    }

    /// Settle the active bet at `index`; the heart of [`Portfolio::settle_bet`],
    /// shared with the trading engine's per-match settlement loop.
    pub fn settle_bet_at(&mut self, index: usize, won: bool)
        requires
            old(self).wf(),
            index < old(self).active_bets@.len(),
        ensures
            ({
                let b = old(self).active_bets@[index as int];
                let settled = BettingDecision {
                    status: if won { BetStatus::Won } else { BetStatus::Lost },
                    ..b
                };
                let payout = if won { spec_payout(b.stake as int, b.odds as int) } else { 0 };
                &&& final(self).active_bets@ == old(self).active_bets@.remove(index as int)
                &&& final(self).historical_bets@ == old(self).historical_bets@.push(settled)
                &&& final(self).available_bankroll == old(self).available_bankroll + payout
                &&& final(self).total_profit_loss
                    == old(self).total_profit_loss + payout - b.stake
                &&& final(self).total_bankroll == old(self).total_bankroll
                &&& final(self).win_rate == spec_win_rate(final(self).historical_bets@)
                &&& final(self).roi == spec_roi(
                    final(self).total_profit_loss as int,
                    spec_bet_sum(final(self).historical_bets@, bet_stake()),
                )
                &&& final(self).wf()
            }),
    {
        let ghost s = self.active_bets@;
        let i = index;
        let mut bet = self.active_bets.remove(i);
        proof {
            lemma_bet_sum_remove(s, bet_stake(), i as int);
            lemma_bet_sum_remove(s, bet_payout(), i as int);
            assert forall|k: int| 0 <= k < self.active_bets@.len()
                implies (#[trigger] self.active_bets@[k]).spec_valid()
                    && self.active_bets@[k].status == BetStatus::Placed by {
                if k < i as int {
                    assert(self.active_bets@[k] == s[k]);
                } else {
                    assert(self.active_bets@[k] == s[k + 1]);
                }
            }
            lemma_payouts_nonneg(self.active_bets@);
            lemma_stakes_le_payouts(self.active_bets@);
        }
        let payout: i64 = if won {
            bet.update_status(BetStatus::Won);
            bet.potential_payout()
        } else {
            bet.update_status(BetStatus::Lost);
            0
        };

        self.available_bankroll = self.available_bankroll + payout;
        let profit_loss: i64 = payout - bet.stake;
        proof {
            // The cumulative P&L equals, by the ledger identity, bankroll
            // movements that the money ceiling bounds; the updated value
            // stays far inside i64.
            lemma_stakes_le_payouts(s);
        }
        self.total_profit_loss = self.total_profit_loss + profit_loss;
        proof {
            lemma_bet_sum_push(old(self).historical_bets@, bet_net(), bet);
            lemma_bet_sum_push(old(self).historical_bets@, bet_stake(), bet);
            lemma_bet_sum_push(old(self).historical_bets@, bet_won(), bet);
        }
        self.historical_bets.push(bet);
        proof {
            assert forall|k: int| 0 <= k < self.historical_bets@.len()
                implies (#[trigger] self.historical_bets@[k]).spec_valid()
                    && (self.historical_bets@[k].status == BetStatus::Won
                        || self.historical_bets@[k].status == BetStatus::Lost) by {
                if k < old(self).historical_bets@.len() {
                    assert(self.historical_bets@[k] == old(self).historical_bets@[k]);
                } else {
                    assert(self.historical_bets@[k] == bet);
                }
            }
        }
        self.update_metrics();
    }

    /// Recompute win rate and ROI from the settled history; a no-op while
    /// the history is empty.
    fn update_metrics(&mut self)
        requires
            old(self).wf_history(),
        ensures
            old(self).historical_bets@.len() == 0 ==> *final(self) == *old(self),
            old(self).historical_bets@.len() > 0 ==> {
                &&& final(self).win_rate == spec_win_rate(old(self).historical_bets@)
                &&& final(self).win_rate <= PROB_ONE
                &&& final(self).roi == spec_roi(
                    old(self).total_profit_loss as int,
                    spec_bet_sum(old(self).historical_bets@, bet_stake()),
                )
                &&& *final(self) == (Portfolio {
                    win_rate: final(self).win_rate,
                    roi: final(self).roi,
                    last_updated: final(self).last_updated,
                    ..*old(self)
                })
            },
    {
        let ghost s = self.historical_bets@;
        let n = self.historical_bets.len();
        if n == 0 {
            return;
        }

        let mut won_count: u64 = 0;
        let mut staked: i128 = 0;
        let mut i: usize = 0;
        proof {
            assert(s.skip(0) =~= s);
            lemma_won_count_bounds(s);
            lemma_hist_stakes_bounds(s);
        }
        while i < n
            invariant
                n == s.len(),
                i <= n,
                s == self.historical_bets@,
                self.wf_history(),
                n <= usize::MAX,
                won_count + spec_bet_sum(s.skip(i as int), bet_won())
                    == spec_bet_sum(s, bet_won()),
                staked + spec_bet_sum(s.skip(i as int), bet_stake())
                    == spec_bet_sum(s, bet_stake()),
                0 <= won_count <= i,
                0 <= staked <= (i as int) * (MAX_STAKE as int),
            decreases n - i,
        {
            proof {
                lemma_bet_sum_skip_step(s, bet_won(), i as int);
                lemma_bet_sum_skip_step(s, bet_stake(), i as int);
                assert forall|k: int| 0 <= k < s.skip(i as int + 1).len()
                    implies (#[trigger] s.skip(i as int + 1)[k]).spec_valid() by {
                    assert(s.skip(i as int + 1)[k] == s[k + i + 1]);
                }
                lemma_won_count_bounds(s.skip(i as int + 1));
                lemma_hist_stakes_bounds(s.skip(i as int + 1));
                assert((i as int) * (MAX_STAKE as int) + (MAX_STAKE as int)
                    == (i as int + 1) * (MAX_STAKE as int)) by (nonlinear_arith);
            }
            let b = &self.historical_bets[i];
            match b.status {
                BetStatus::Won => {
                    won_count = won_count + 1;
                }
                _ => {}
            }
            staked = staked + (b.stake as i128);
            i += 1;
        }
        proof {
            assert(s.skip(n as int).len() == 0);
            lemma_hist_stakes_bounds(s);
            assert(staked >= 1);
        }

        let rate_wide: u128 = (won_count as u128) * (SCALE as u128)
            / (n as u128);
        proof {
            let ghost wc = won_count as int;
            let ghost nn = n as int;
            assert(wc * (SCALE as int) <= nn * (SCALE as int)) by (nonlinear_arith)
                requires 0 <= wc <= nn;
            assert(wc * (SCALE as int) / nn <= (SCALE as int)) by (nonlinear_arith)
                requires wc * (SCALE as int) <= nn * (SCALE as int), nn >= 1;
            assert(wc * (SCALE as int) / nn >= 0) by (nonlinear_arith)
                requires wc >= 0, nn >= 1;
        }
        self.win_rate = rate_wide as u64;

        if staked > 0 {
            let pl = self.total_profit_loss;
            let roi_wide: i128 = if pl >= 0 {
                (pl as i128) * (SCALE as i128) / staked
            } else {
                -((-(pl as i128)) * (SCALE as i128) / staked)
            };
            proof {
                let ghost plg = pl as int;
                let ghost st = staked as int;
                if plg >= 0 {
                    assert(0 <= plg * (SCALE as int) / st <= plg * (SCALE as int))
                        by (nonlinear_arith)
                        requires plg >= 0, st >= 1;
                } else {
                    assert(0 <= (-plg) * (SCALE as int) / st <= (-plg) * (SCALE as int))
                        by (nonlinear_arith)
                        requires -plg >= 0, st >= 1;
                }
            }
            self.roi = if roi_wide > (i64::MAX as i128) {
                i64::MAX
            } else if roi_wide < (i64::MIN as i128) {
                i64::MIN
            } else {
                roi_wide as i64
            };
        }
        self.last_updated = ext::now_unix_seconds();
    }

    /// The parts of [`Portfolio::wf`] that concern the settled history
    /// alone.
    pub open spec fn wf_history(&self) -> bool {
        forall|i: int| 0 <= i < self.historical_bets@.len()
            ==> (#[trigger] self.historical_bets@[i]).spec_valid()
    }
}

/// Fraction of bets won, fixed point.
pub open spec fn spec_win_rate(s: Seq<BettingDecision>) -> int {
    spec_bet_sum(s, bet_won()) * (SCALE as int) / s.len() as int
}

/// Net P&L per unit staked, fixed point and saturated to `i64`.
pub open spec fn spec_roi(pl: int, staked: int) -> int {
    let q = if pl >= 0 {
        pl * (SCALE as int) / staked
    } else {
        -((-pl) * (SCALE as int) / staked)
    };
    if q > i64::MAX {
        i64::MAX as int
    } else if q < i64::MIN {
        i64::MIN as int
    } else {
        q
    }
}

/// The win count lies between zero and the number of bets.
pub proof fn lemma_won_count_bounds(s: Seq<BettingDecision>)
    ensures
        0 <= spec_bet_sum(s, bet_won()) <= s.len(),
    decreases s.len(),
{
    if s.len() > 0 {
        lemma_won_count_bounds(s.drop_first());
    }
}

/// Sum of stakes of valid bets lies between `len` (each stake is at least
/// one unit) and `len * MAX_STAKE`.
pub proof fn lemma_hist_stakes_bounds(s: Seq<BettingDecision>)
    requires
        forall|i: int| 0 <= i < s.len() ==> (#[trigger] s[i]).spec_valid(),
    ensures
        s.len() <= spec_bet_sum(s, bet_stake()) <= s.len() * (MAX_STAKE as int),
    decreases s.len(),
{
    if s.len() > 0 {
        assert(s[0].spec_valid());
        assert forall|i: int| 0 <= i < s.drop_first().len()
            implies (#[trigger] s.drop_first()[i]).spec_valid() by {
            assert(s.drop_first()[i] == s[i + 1]);
        }
        lemma_hist_stakes_bounds(s.drop_first());
        assert((s.len() - 1) * (MAX_STAKE as int) + (MAX_STAKE as int)
            == s.len() * (MAX_STAKE as int)) by (nonlinear_arith);
    }
}

/// `spec_find_bet` restricted to an unmatched prefix is decided by the rest.
pub proof fn lemma_find_bet_skip(s: Seq<BettingDecision>, id: Seq<char>, i: int)
    requires
        0 <= i <= s.len(),
        forall|k: int| 0 <= k < i ==> s[k].id@ != id,
    ensures
        spec_find_bet(s, id) == -1 <==> spec_find_bet(s.skip(i), id) == -1,
        spec_find_bet(s.skip(i), id) >= 0
            ==> spec_find_bet(s, id) == i + spec_find_bet(s.skip(i), id),
    decreases i,
{
    lemma_find_bet_valid(s, id);
    lemma_find_bet_valid(s.skip(i), id);
    if i > 0 {
        lemma_find_bet_skip(s.drop_first(), id, i - 1);
        assert(s.drop_first().skip(i - 1) =~= s.skip(i));
        assert(s.len() > 0 && s[0].id@ != id);
    } else {
        assert(s.skip(0) =~= s);
    }
}

/// The Kelly fraction is never negative and never stakes more than the
/// whole bankroll: a negative edge is floored to a zero stake.
pub proof fn lemma_kelly_never_negative(odds: int, p: int)
    requires
        (SCALE as int) < odds,
        0 <= p <= PROB_ONE,
    ensures
        0 <= spec_kelly(odds, p) <= PROB_ONE,
{
    let b = odds - (SCALE as int);
    let num = b * p - ((SCALE as int) - p) * (SCALE as int);
    if num > 0 {
        assert(num <= b * (PROB_ONE as int)) by (nonlinear_arith)
            requires
                num == b * p - ((SCALE as int) - p) * (SCALE as int),
                p <= PROB_ONE,
                b > 0;
        assert(0 <= num / b <= PROB_ONE as int) by (nonlinear_arith)
            requires 0 < num <= b * (PROB_ONE as int), b > 0;
    }
}

/// A positive answer pins the inputs: `should_bet` answers true exactly when
/// the odds sit inside the strategy's band, the edge reaches the strategy's
/// minimum, and the confidence reaches its minimum.
pub proof fn lemma_should_bet_minimums(
    strat: &BettingStrategy,
    odds: int,
    true_prob: int,
    confidence: int,
)
    requires
        spec_should_bet(strat, odds, true_prob, confidence),
    ensures
        strat.min_odds <= odds <= strat.max_odds,
        spec_edge(true_prob, odds) >= strat.min_edge,
        confidence >= strat.min_confidence,
{
}

/// The bankroll accounting identity: at every well-formed state, the
/// available bankroll equals the initial bankroll, less the stakes at risk,
/// plus the realized net profit and loss. `place_bet` and `settle_bet` are
/// the only mutators and both preserve well-formedness, so the identity
/// holds after any legal interleaving of them.
pub proof fn lemma_bankroll_identity(p: &Portfolio)
    requires
        p.wf(),
    ensures
        p.available_bankroll == p.total_bankroll - p.spec_exposure() + p.total_profit_loss,
        p.available_bankroll >= 0,
        p.total_profit_loss == p.spec_net_history(),
{
}

/// Payout sums over valid bets are non-negative.
pub proof fn lemma_payouts_nonneg(s: Seq<BettingDecision>)
    requires
        forall|i: int| 0 <= i < s.len() ==> (#[trigger] s[i]).spec_valid(),
    ensures
        spec_bet_sum(s, bet_payout()) >= 0,
    decreases s.len(),
{
    if s.len() > 0 {
        assert(s[0].spec_valid());
        let ghost st = s[0].stake as int;
        let ghost od = s[0].odds as int;
        assert(st * od >= 0) by (nonlinear_arith)
            requires st > 0, od > 0;
        assert(st * od / (SCALE as int) >= 0) by (nonlinear_arith)
            requires st * od >= 0;
        assert forall|i: int| 0 <= i < s.drop_first().len()
            implies (#[trigger] s.drop_first()[i]).spec_valid() by {
            assert(s.drop_first()[i] == s[i + 1]);
        }
        lemma_payouts_nonneg(s.drop_first());
    }
}

} // verus!
