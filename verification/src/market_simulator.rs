//! The market simulator: synthesizes bookmaker-style odds for a match from
//! its event stream, with an overround margin persisted per match, noise for
//! market inefficiency, and a passive random walk for pre-kickoff drift.
//! Every quoted leg is proved to land strictly above evens and below 20.0.

use vstd::prelude::*;

use crate::errors::QuantsError;
use crate::events::{CardType, EventType, MatchEvent};
use crate::ext;
use crate::fixed::{clamp_u64, normalize3, spec_norm3, PROB_ONE, SCALE};
use crate::market::SimpleMarketOdds;
use crate::predictions::Prediction;

verus! {

/// First cached odds entry under `id`.
pub open spec fn spec_sim_odds_get(
    s: Seq<(String, SimpleMarketOdds)>,
    id: Seq<char>,
) -> Option<SimpleMarketOdds>
    decreases s.len(),
{
    if s.len() == 0 {
        None
    } else if s[0].0@ == id {
        Some(s[0].1)
    } else {
        spec_sim_odds_get(s.drop_first(), id)
    }
}

/// An unmatched prefix does not decide an odds lookup.
proof fn lemma_sim_odds_get_skip(s: Seq<(String, SimpleMarketOdds)>, id: Seq<char>, i: int)
    requires
        0 <= i <= s.len(),
        forall|k: int| 0 <= k < i ==> s[k].0@ != id,
    ensures
        spec_sim_odds_get(s, id) == spec_sim_odds_get(s.skip(i), id),
    decreases i,
{
    if i > 0 {
        lemma_sim_odds_get_skip(s, id, i - 1);
        assert(s.skip(i - 1).len() > 0);
        assert(s.skip(i - 1)[0] == s[i - 1]);
        assert(s.skip(i - 1).drop_first() =~= s.skip(i));
    } else {
        assert(s.skip(0) =~= s);
    }
}

/// First stored margin under `id`.
pub open spec fn spec_margin_get(s: Seq<(String, u64)>, id: Seq<char>) -> Option<u64>
    decreases s.len(),
{
    if s.len() == 0 {
        None
    } else if s[0].0@ == id {
        Some(s[0].1)
    } else {
        spec_margin_get(s.drop_first(), id)
    }
}

/// An unmatched prefix does not decide a margin lookup.
proof fn lemma_margin_get_skip(s: Seq<(String, u64)>, id: Seq<char>, i: int)
    requires
        0 <= i <= s.len(),
        forall|k: int| 0 <= k < i ==> s[k].0@ != id,
    ensures
        spec_margin_get(s, id) == spec_margin_get(s.skip(i), id),
    decreases i,
{
    if i > 0 {
        lemma_margin_get_skip(s, id, i - 1);
        assert(s.skip(i - 1).len() > 0);
        assert(s.skip(i - 1)[0] == s[i - 1]);
        assert(s.skip(i - 1).drop_first() =~= s.skip(i));
    } else {
        assert(s.skip(0) =~= s);
    }
}

/// A quoted leg inside the band the simulator promises: strictly above
/// evens, at most 20.0.
pub open spec fn spec_quoted_band(odds: int) -> bool {
    (SCALE as int) < odds <= 20_000_000
}

/// The pre-noise outcome weights of a match state, in home, draw, away
/// order: the league's competitiveness raises the draw base, home keeps the
/// remainder of the book, and the event shifts weight towards or away from
/// the side it favours with a magnitude fading towards minute 90.
pub open spec fn spec_base_weights(event: &MatchEvent) -> (int, int, int) {
    let competitiveness: int = if event.league@ == "Premier League"@ {
        900_000
    } else if event.league@ == "La Liga"@ {
        800_000
    } else if event.league@ == "Bundesliga"@ {
        700_000
    } else {
        600_000
    };
    let away_base: int = 315_000;
    let draw_base: int = 250_000 + competitiveness * 50_000 / (SCALE as int);
    let home_base: int = (SCALE as int) - draw_base - away_base;
    match &event.event_type {
        EventType::Goal { team, player: _, minute } => {
            let m: int = if *minute > 90 {
                90
            } else {
                *minute as int
            };
            let adjustment = 100_000 * (90 - m) / 90;
            if team@ == event.team_home@ {
                (home_base + adjustment, draw_base - adjustment / 2, away_base - adjustment / 2)
            } else {
                (home_base - adjustment / 2, draw_base - adjustment / 2, away_base + adjustment)
            }
        }
        EventType::Card { team, player: _, card_type, minute } => {
            let severity: int = match card_type {
                CardType::Red => 150_000,
                CardType::Yellow => 20_000,
            };
            let m: int = if *minute > 90 {
                90
            } else {
                *minute as int
            };
            let adjustment = severity * (90 - m) / 90;
            if team@ == event.team_home@ {
                (
                    home_base - adjustment,
                    draw_base + adjustment * 3 / 10,
                    away_base + adjustment * 7 / 10,
                )
            } else {
                (
                    home_base + adjustment * 7 / 10,
                    draw_base + adjustment * 3 / 10,
                    away_base - adjustment,
                )
            }
        }
        _ => (home_base, draw_base, away_base),
    }
}

/// The fair probabilities of a match state under given noise draws: the
/// base weights plus noise, floored at one unit, normalized, clamped into
/// the plausible bands (draws tighter), and renormalized.
pub open spec fn spec_fair(event: &MatchEvent, nh: int, nd: int, na: int) -> (int, int, int) {
    let b = spec_base_weights(event);
    let hw = if b.0 + nh < 1 {
        1
    } else {
        b.0 + nh
    };
    let dw = if b.1 + nd < 1 {
        1
    } else {
        b.1 + nd
    };
    let aw = if b.2 + na < 1 {
        1
    } else {
        b.2 + na
    };
    let n1 = spec_norm3(hw, dw, aw);
    let hc = crate::fixed::spec_clamp(n1.0, 100_000, 800_000);
    let dc = crate::fixed::spec_clamp(n1.1, 100_000, 400_000);
    let ac = crate::fixed::spec_clamp(n1.2, 100_000, 800_000);
    spec_norm3(hc, dc, ac)
}

/// A full three-leg quote from fair probabilities and a margin, each leg by
/// [`crate::market::spec_odds_from_prob`].
pub open spec fn spec_quote3(p: (int, int, int), margin: int) -> SimpleMarketOdds {
    SimpleMarketOdds {
        home_win: crate::market::spec_odds_from_prob(p.0, margin, 2_000_000) as u64,
        draw: crate::market::spec_odds_from_prob(p.1, margin, 3_000_000) as u64,
        away_win: crate::market::spec_odds_from_prob(p.2, margin, 2_000_000) as u64,
    }
}

/// Implied probability `1 / odds` of a quoted leg, an even chance for a
/// dead quote.
pub open spec fn spec_implied_or_half(odds: int) -> int {
    if odds >= 1 {
        (SCALE as int) * (SCALE as int) / odds
    } else {
        500_000
    }
}

/// The requote of a cached quote under three drift draws: each leg's
/// implied probability shifted by its draw, floored at one unit,
/// normalized, clamped into the plausible bands (draws tighter), and
/// renormalized.
pub open spec fn spec_drift(o: SimpleMarketOdds, ch: int, cd: int, ca: int) -> (int, int, int) {
    let ph = spec_implied_or_half(o.home_win as int) + ch;
    let pd = spec_implied_or_half(o.draw as int) + cd;
    let pa = spec_implied_or_half(o.away_win as int) + ca;
    let hw = if ph < 1 {
        1
    } else {
        ph
    };
    let dw = if pd < 1 {
        1
    } else {
        pd
    };
    let aw = if pa < 1 {
        1
    } else {
        pa
    };
    let n1 = spec_norm3(hw, dw, aw);
    let hc = crate::fixed::spec_clamp(n1.0, 100_000, 800_000);
    let dc = crate::fixed::spec_clamp(n1.1, 100_000, 400_000);
    let ac = crate::fixed::spec_clamp(n1.2, 100_000, 800_000);
    spec_norm3(hc, dc, ac)
}

/// The random-walk volatility at a given time factor: 5% of a whole,
/// shrinking to half that as kickoff nears.
pub open spec fn spec_volatility(time_factor: int) -> int {
    50_000 * ((SCALE as int) - time_factor / 2) / (SCALE as int)
}

/// What a generated quote must be: built by [`spec_quote3`] from the
/// margin stored for the match and the fair probabilities of the event
/// under some admissible noise draws (each within 2% either way).
pub open spec fn spec_quoted_from(
    margins: Seq<(String, u64)>,
    event: &MatchEvent,
    odds: SimpleMarketOdds,
) -> bool {
    match spec_margin_get(margins, event.match_id@) {
        Some(m) => {
            &&& 20_000 <= m <= 80_000
            &&& exists|nh: int, nd: int, na: int|
                #![trigger spec_fair(event, nh, nd, na)]
                -20_000 <= nh <= 20_000 && -20_000 <= nd <= 20_000 && -20_000 <= na <= 20_000
                    && odds == spec_quote3(spec_fair(event, nh, nd, na), m as int)
        }
        None => false,
    }
}

/// Synthesizes and caches bookmaker odds; owns its own odds cache and the
/// per-match margins, separate from the trading engine's view.
pub struct MarketSimulator {
    pub base_margins: Vec<(String, u64)>,
    pub market_odds: Vec<(String, SimpleMarketOdds)>,
}

impl MarketSimulator {
    /// Every stored margin is inside the bookmaker band.
    pub open spec fn wf(&self) -> bool {
        forall|i: int| 0 <= i < self.base_margins@.len()
            ==> 20_000 <= (#[trigger] self.base_margins@[i]).1 <= 80_000
    }

    /// A fresh simulator with empty caches.
    pub fn new() -> (r: MarketSimulator)
        ensures
            r.wf(),
            r.base_margins@.len() == 0,
            r.market_odds@.len() == 0,
    {
        MarketSimulator { base_margins: Vec::new(), market_odds: Vec::new() }
    }

    /// The simulator's current quote for a match; the same value on every
    /// call until new odds are generated.
    pub fn get_current_odds(&self, match_id: &str) -> (r: Option<SimpleMarketOdds>)
        ensures
            r == spec_sim_odds_get(self.market_odds@, match_id@),
    {
        let ghost s = self.market_odds@;
        let key: String = match_id.to_string();
        let n = self.market_odds.len();
        let mut i: usize = 0;
        while i < n
            invariant
                n == s.len(),
                i <= n,
                s == self.market_odds@,
                key@ == match_id@,
                forall|k: int| 0 <= k < i ==> s[k].0@ != match_id@,
            decreases n - i,
        {
            if self.market_odds[i].0 == key {
                proof {
                    lemma_sim_odds_get_skip(s, match_id@, i as int);
                    assert(s.skip(i as int)[0] == s[i as int]);
                }
                return Some(self.market_odds[i].1);
            }
            i += 1;
        }
        proof {
            lemma_sim_odds_get_skip(s, match_id@, n as int);
            assert(s.skip(n as int).len() == 0);
        }
        None
    }

    /// Fix the bookmaker margin for one match.
    pub fn set_margin_for_match(&mut self, match_id: String, margin: u64)
        requires
            old(self).wf(),
            20_000 <= margin <= 80_000,
        ensures
            final(self).wf(),
            spec_margin_get(final(self).base_margins@, match_id@) == Some(margin),
            forall|other: Seq<char>| other != match_id@
                ==> spec_margin_get(final(self).base_margins@, other)
                    == spec_margin_get(old(self).base_margins@, other),
            final(self).market_odds@ == old(self).market_odds@,
    {
        let pair = (match_id, margin);
        self.base_margins.insert(0, pair);
        proof {
            assert forall|i: int| 0 <= i < self.base_margins@.len()
                implies 20_000 <= (#[trigger] self.base_margins@[i]).1 <= 80_000 by {
                if i > 0 {
                    assert(self.base_margins@[i] == old(self).base_margins@[i - 1]);
                }
            }
            assert(self.base_margins@.drop_first() =~= old(self).base_margins@);
        }
    }

    /// The match's stored margin, or a fresh one sampled from the typical
    /// 2% to 8% band and persisted for the match.
    fn margin_for_match(&mut self, match_id: &str) -> (r: u64)
        requires
            old(self).wf(),
        ensures
            final(self).wf(),
            20_000 <= r <= 80_000,
            final(self).market_odds@ == old(self).market_odds@,
            spec_margin_get(final(self).base_margins@, match_id@) == Some(r),
            forall|other: Seq<char>| other != match_id@
                ==> spec_margin_get(final(self).base_margins@, other)
                    == spec_margin_get(old(self).base_margins@, other),
    {
        let ghost s = self.base_margins@;
        let key: String = match_id.to_string();
        let n = self.base_margins.len();
        let mut i: usize = 0;
        while i < n
            invariant
                n == s.len(),
                i <= n,
                s == self.base_margins@,
                self.wf(),
                key@ == match_id@,
                forall|k: int| 0 <= k < i ==> s[k].0@ != match_id@,
                self.market_odds@ == old(self).market_odds@,
                s == old(self).base_margins@,
            decreases n - i,
        {
            if self.base_margins[i].0 == key {
                proof {
                    lemma_margin_get_skip(s, match_id@, i as int);
                    assert(s.skip(i as int)[0] == s[i as int]);
                }
                return self.base_margins[i].1;
            }
            i += 1;
        }
        let margin = ext::random_in_range(20_000, 80_001);
        self.set_margin_for_match(key, margin);
        margin
    }

    /// Fair probabilities for the current match state under the given noise
    /// draws: the league base, shifted for goals and cards with a magnitude
    /// that fades towards minute 90, plus the noise, clamped into the
    /// plausible bands and renormalized; exactly [`spec_fair`]. Each leg
    /// lands in `[0.05, 0.8]` with the three summing to one within
    /// truncation.
    #[verifier::rlimit(60)]
    #[verifier::spinoff_prover]
    fn fair_probabilities(event: &MatchEvent, nh: i64, nd: i64, na: i64) -> (r: (u64, u64, u64))
        requires
            -20_000 <= nh <= 20_000,
            -20_000 <= nd <= 20_000,
            -20_000 <= na <= 20_000,
        ensures
            ({
                let f = spec_fair(event, nh as int, nd as int, na as int);
                r.0 == f.0 && r.1 == f.1 && r.2 == f.2
            }),
            50_000 <= r.0 <= 800_000,
            50_000 <= r.1 <= 800_000,
            50_000 <= r.2 <= 800_000,
            (SCALE as int) - 3 <= r.0 + r.1 + r.2 <= SCALE,
    {
        let competitiveness: u64 = if event.league == "Premier League".to_string() {
            900_000
        } else if event.league == "La Liga".to_string() {
            800_000
        } else if event.league == "Bundesliga".to_string() {
            700_000
        } else {
            600_000
        };
        // Home advantage 0.55; away wins dampened; draws rise with
        // competitiveness.
        let away_base: i64 = 315_000;
        let draw_base: i64 = (250_000 + competitiveness * 50_000 / SCALE) as i64;
        let home_base: i64 = (SCALE as i64) - draw_base - away_base;

        let mut home: i64 = home_base;
        let mut draw: i64 = draw_base;
        let mut away: i64 = away_base;

        // Event adjustments fade as the match approaches minute 90.
        match &event.event_type {
            EventType::Goal { team, player: _, minute } => {
                let m: i64 = if *minute > 90 {
                    90
                } else {
                    *minute as i64
                };
                let adjustment: i64 = 100_000 * (90 - m) / 90;
                let scorer: String = team.clone();
                if scorer == event.team_home {
                    home = home + adjustment;
                    away = away - adjustment / 2;
                    draw = draw - adjustment / 2;
                } else {
                    away = away + adjustment;
                    home = home - adjustment / 2;
                    draw = draw - adjustment / 2;
                }
            }
            EventType::Card { team, player: _, card_type, minute } => {
                let severity: i64 = match card_type {
                    CardType::Red => 150_000,
                    CardType::Yellow => 20_000,
                };
                let m: i64 = if *minute > 90 {
                    90
                } else {
                    *minute as i64
                };
                let adjustment: i64 = severity * (90 - m) / 90;
                let offender: String = team.clone();
                if offender == event.team_home {
                    home = home - adjustment;
                    away = away + adjustment * 7 / 10;
                    draw = draw + adjustment * 3 / 10;
                } else {
                    away = away - adjustment;
                    home = home + adjustment * 7 / 10;
                    draw = draw + adjustment * 3 / 10;
                }
            }
            _ => {}
        }

        // Symmetric noise of up to 2% emulates market inefficiency.
        home = home + nh;
        draw = draw + nd;
        away = away + na;

        // First normalization over the raw weights.
        let hw: u64 = if home < 1 {
            1
        } else {
            home as u64
        };
        let dw: u64 = if draw < 1 {
            1
        } else {
            draw as u64
        };
        let aw: u64 = if away < 1 {
            1
        } else {
            away as u64
        };
        let (h1, d1, a1) = normalize3(hw, dw, aw);

        // Clamp into the plausible bands and renormalize.
        let hc = clamp_u64(h1, 100_000, 800_000);
        let dc = clamp_u64(d1, 100_000, 400_000);
        let ac = clamp_u64(a1, 100_000, 800_000);
        let r = normalize3(hc, dc, ac);
        proof {
            let ghost t = hc as int + dc as int + ac as int;
            let ghost sc = SCALE as int;
            assert(hc * sc / t >= 50_000 && dc * sc / t >= 50_000 && ac * sc / t >= 50_000)
                by (nonlinear_arith)
                requires
                    100_000 <= hc <= 800_000,
                    100_000 <= dc <= 400_000,
                    100_000 <= ac <= 800_000,
                    t == hc + dc + ac,
                    sc == 1_000_000;
            assert(hc * sc / t <= 800_000 && dc * sc / t <= 800_000 && ac * sc / t <= 800_000)
                by (nonlinear_arith)
                requires
                    100_000 <= hc <= 800_000,
                    100_000 <= dc <= 400_000,
                    100_000 <= ac <= 800_000,
                    t == hc + dc + ac,
                    sc == 1_000_000;
        }
        r
    }

    /// Quote each fair probability with the margin applied; exactly
    /// [`spec_quote3`], and every leg lands strictly above evens and at most
    /// 20.0.
    fn quote(h: u64, d: u64, a: u64, margin: u64) -> (r: SimpleMarketOdds)
        requires
            50_000 <= h <= 800_000,
            50_000 <= d <= 800_000,
            50_000 <= a <= 800_000,
            20_000 <= margin <= 80_000,
        ensures
            r == spec_quote3((h as int, d as int, a as int), margin as int),
            spec_quoted_band(r.home_win as int),
            spec_quoted_band(r.draw as int),
            spec_quoted_band(r.away_win as int),
    {
        proof {
            lemma_quote_band(h as int, margin as int, 2_000_000);
            lemma_quote_band(d as int, margin as int, 3_000_000);
            lemma_quote_band(a as int, margin as int, 2_000_000);
        }
        SimpleMarketOdds::from_probabilities(h, d, a, margin)
    }

    /// Generate and cache fresh odds for the event's match: the fair
    /// probabilities of the match state under fresh noise draws, quoted with
    /// the margin stored for the match (drawn once and persisted).
    pub fn generate_market_odds(&mut self, event: &MatchEvent)
        -> (r: Result<SimpleMarketOdds, QuantsError>)
        requires
            old(self).wf(),
        ensures
            final(self).wf(),
            r is Ok,
            r matches Ok(odds) ==> {
                &&& spec_quoted_band(odds.home_win as int)
                &&& spec_quoted_band(odds.draw as int)
                &&& spec_quoted_band(odds.away_win as int)
                &&& spec_sim_odds_get(final(self).market_odds@, event.match_id@) == Some(odds)
                &&& spec_quoted_from(final(self).base_margins@, event, odds)
            },
            forall|other: Seq<char>| other != event.match_id@
                ==> spec_sim_odds_get(final(self).market_odds@, other)
                    == spec_sim_odds_get(old(self).market_odds@, other),
            forall|other: Seq<char>| other != event.match_id@
                ==> spec_margin_get(final(self).base_margins@, other)
                    == spec_margin_get(old(self).base_margins@, other),
    {
        let nh = noise_draw();
        let nd = noise_draw();
        let na = noise_draw();
        let (h, d, a) = MarketSimulator::fair_probabilities(event, nh, nd, na);
        let margin = self.margin_for_match(event.match_id.as_str());
        let odds = MarketSimulator::quote(h, d, a, margin);
        proof {
            let ghost gh = nh as int;
            let ghost gd = nd as int;
            let ghost ga = na as int;
            assert(odds == spec_quote3(spec_fair(event, gh, gd, ga), margin as int));
            assert(spec_quoted_from(self.base_margins@, event, odds));
        }
        let pair = (event.match_id.clone(), odds);
        self.market_odds.insert(0, pair);
        proof {
            assert(self.market_odds@.drop_first() =~= old(self).market_odds@);
        }
        Ok(odds)
    }

    /// Regenerate odds only on significant events (goals and cards); `None`
    /// on any other event kind, leaving the cache untouched.
    pub fn update_odds_for_event(&mut self, event: &MatchEvent)
        -> (r: Result<Option<SimpleMarketOdds>, QuantsError>)
        requires
            old(self).wf(),
        ensures
            final(self).wf(),
            r is Ok,
            (match event.event_type {
                EventType::Goal { .. } => true,
                EventType::Card { .. } => true,
                _ => false,
            }) ==> (r matches Ok(o) && o is Some),
            !(match event.event_type {
                EventType::Goal { .. } => true,
                EventType::Card { .. } => true,
                _ => false,
            }) ==> (r matches Ok(o) && o is None && *final(self) == *old(self)),
            r matches Ok(o) ==> (o matches Some(odds)
                ==> spec_sim_odds_get(final(self).market_odds@, event.match_id@)
                    == Some(odds)
                    && spec_quoted_from(final(self).base_margins@, event, odds)
                    && spec_quoted_band(odds.home_win as int)
                    && spec_quoted_band(odds.draw as int)
                    && spec_quoted_band(odds.away_win as int)),
            forall|other: Seq<char>| other != event.match_id@
                ==> spec_sim_odds_get(final(self).market_odds@, other)
                    == spec_sim_odds_get(old(self).market_odds@, other),
            forall|other: Seq<char>| other != event.match_id@
                ==> spec_margin_get(final(self).base_margins@, other)
                    == spec_margin_get(old(self).base_margins@, other),
    {
        let significant = match &event.event_type {
            EventType::Goal { .. } => true,
            EventType::Card { .. } => true,
            _ => false,
        };
        if significant {
            let odds = match self.generate_market_odds(event) {
                Ok(o) => o,
                Err(e) => {
                    return Err(e);
                }
            };
            Ok(Some(odds))
        } else {
            Ok(None)
        }
    }

    /// Quote odds deliberately better than a prediction's fair value, for
    /// exercising the trading engine: each leg is the prediction's fair
    /// quote (with even-money style defaults for degenerate legs) scaled by
    /// one plus the target edge plus a small random sweetener, saturating at
    /// the largest representable quote. The result is cached for the match.
    pub fn generate_odds_with_edge(&mut self, prediction: &Prediction, target_edge: u64)
        -> (r: Result<SimpleMarketOdds, QuantsError>)
        requires
            old(self).wf(),
            prediction.wf(),
        ensures
            final(self).wf(),
            r is Ok,
            r matches Ok(odds)
                ==> spec_sim_odds_get(final(self).market_odds@, prediction.match_id@)
                    == Some(odds),
            r matches Ok(odds) ==> exists|ef: int|
                #![trigger spec_edge_leg(spec_fair_quote(prediction.home_win_prob as int, 2_000_000), ef)]
                (SCALE as int) + target_edge <= ef <= (SCALE as int) + target_edge + 20_000
                    && odds.home_win == spec_edge_leg(
                        spec_fair_quote(prediction.home_win_prob as int, 2_000_000), ef)
                    && odds.away_win == spec_edge_leg(
                        spec_fair_quote(prediction.away_win_prob as int, 2_000_000), ef)
                    && odds.draw == spec_edge_leg(
                        match prediction.draw_prob {
                            Some(p) => spec_fair_quote(p as int, 3_000_000),
                            None => 3_000_000,
                        }, ef),
            forall|other: Seq<char>| other != prediction.match_id@
                ==> spec_sim_odds_get(final(self).market_odds@, other)
                    == spec_sim_odds_get(old(self).market_odds@, other),
            final(self).base_margins@ == old(self).base_margins@,
    {
        let jitter: u64 = ext::random_in_range(0, 20_001);

        let fair_home: u64 = if prediction.home_win_prob >= 1 {
            SCALE * SCALE / prediction.home_win_prob
        } else {
            2_000_000
        };
        let fair_away: u64 = if prediction.away_win_prob >= 1 {
            SCALE * SCALE / prediction.away_win_prob
        } else {
            2_000_000
        };
        let fair_draw: u64 = match prediction.draw_prob {
            Some(p) => {
                if p >= 1 {
                    SCALE * SCALE / p
                } else {
                    3_000_000
                }
            }
            None => 3_000_000,
        };
        proof {
            assert(fair_home == spec_fair_quote(prediction.home_win_prob as int, 2_000_000));
            assert(fair_away == spec_fair_quote(prediction.away_win_prob as int, 2_000_000));
            assert(fair_home <= 1_000_000_000_000 && fair_away <= 1_000_000_000_000
                && fair_draw <= 1_000_000_000_000);
        }

        let edge_factor: u128 = (SCALE as u128) + (target_edge as u128) + (jitter as u128);
        let market_home = edge_leg(fair_home, edge_factor);
        let market_away = edge_leg(fair_away, edge_factor);
        let market_draw = edge_leg(fair_draw, edge_factor);

        let odds = SimpleMarketOdds::new(market_home, market_draw, market_away);
        proof {
            let ghost ef = edge_factor as int;
            assert(odds.home_win == spec_edge_leg(
                spec_fair_quote(prediction.home_win_prob as int, 2_000_000), ef));
        }
        let pair = (prediction.match_id.clone(), odds);
        self.market_odds.insert(0, pair);
        proof {
            assert(self.market_odds@.drop_first() =~= old(self).market_odds@);
        }
        Ok(odds)
    }

    /// Drift existing odds with a small random walk whose volatility shrinks
    /// as kickoff nears: the cached quote's implied probabilities, perturbed
    /// within the volatility band, requoted with the match's stored margin.
    /// A match without odds is left untouched, and no other match's entry or
    /// margin ever changes.
    pub fn simulate_market_movement(&mut self, match_id: &str, time_factor: u64)
        -> (r: Result<(), QuantsError>)
        requires
            old(self).wf(),
            time_factor <= SCALE,
        ensures
            final(self).wf(),
            r is Ok,
            (spec_sim_odds_get(old(self).market_odds@, match_id@) is None)
                ==> *final(self) == *old(self),
            (spec_sim_odds_get(old(self).market_odds@, match_id@) is Some)
                ==> (spec_sim_odds_get(final(self).market_odds@, match_id@)
                    matches Some(odds) && spec_quoted_band(odds.home_win as int)
                    && spec_quoted_band(odds.draw as int)
                    && spec_quoted_band(odds.away_win as int)),
            (spec_sim_odds_get(old(self).market_odds@, match_id@) matches Some(o0) ==> ({
                let vol = spec_volatility(time_factor as int);
                match spec_margin_get(final(self).base_margins@, match_id@) {
                    Some(m) => 20_000 <= m <= 80_000
                        && exists|ch: int, cd: int, ca: int|
                            #![trigger spec_drift(o0, ch, cd, ca)]
                            -vol <= ch <= vol && -vol <= cd <= vol && -vol <= ca <= vol
                                && spec_sim_odds_get(final(self).market_odds@, match_id@)
                                    == Some(spec_quote3(spec_drift(o0, ch, cd, ca), m as int)),
                    None => false,
                }
            })),
            forall|other: Seq<char>| other != match_id@
                ==> spec_sim_odds_get(final(self).market_odds@, other)
                    == spec_sim_odds_get(old(self).market_odds@, other),
            forall|other: Seq<char>| other != match_id@
                ==> spec_margin_get(final(self).base_margins@, other)
                    == spec_margin_get(old(self).base_margins@, other),
    {
        let current = self.get_current_odds(match_id);
        let odds = match current {
            Some(o) => o,
            None => {
                return Ok(());
            }
        };

        // Markets tighten near kickoff: volatility fades with time_factor.
        let efficiency: u64 = time_factor / 2;
        let volatility: u64 = 50_000 * (SCALE - efficiency) / SCALE;
        proof {
            assert(volatility == spec_volatility(time_factor as int));
        }
        let span: u64 = 2 * volatility + 1;
        let change_h: i64 = (ext::random_in_range(0, span) as i64) - (volatility as i64);
        let change_d: i64 = (ext::random_in_range(0, span) as i64) - (volatility as i64);
        let change_a: i64 = (ext::random_in_range(0, span) as i64) - (volatility as i64);

        let prob_h: i64 = (implied_or_half(odds.home_win) as i64) + change_h;
        let prob_d: i64 = (implied_or_half(odds.draw) as i64) + change_d;
        let prob_a: i64 = (implied_or_half(odds.away_win) as i64) + change_a;

        let hw: u64 = if prob_h < 1 {
            1
        } else {
            prob_h as u64
        };
        let dw: u64 = if prob_d < 1 {
            1
        } else {
            prob_d as u64
        };
        let aw: u64 = if prob_a < 1 {
            1
        } else {
            prob_a as u64
        };
        let (h1, d1, a1) = normalize3(hw, dw, aw);
        let hc = clamp_u64(h1, 100_000, 800_000);
        let dc = clamp_u64(d1, 100_000, 400_000);
        let ac = clamp_u64(a1, 100_000, 800_000);
        let (h, d, a) = normalize3(hc, dc, ac);
        proof {
            let ghost t = hc as int + dc as int + ac as int;
            let ghost sc = SCALE as int;
            assert(hc * sc / t >= 50_000 && dc * sc / t >= 50_000 && ac * sc / t >= 50_000)
                by (nonlinear_arith)
                requires
                    100_000 <= hc <= 800_000,
                    100_000 <= dc <= 400_000,
                    100_000 <= ac <= 800_000,
                    t == hc + dc + ac,
                    sc == 1_000_000;
            assert(hc * sc / t <= 800_000 && dc * sc / t <= 800_000 && ac * sc / t <= 800_000)
                by (nonlinear_arith)
                requires
                    100_000 <= hc <= 800_000,
                    100_000 <= dc <= 400_000,
                    100_000 <= ac <= 800_000,
                    t == hc + dc + ac,
                    sc == 1_000_000;
        }
        let margin = self.margin_for_match(match_id);
        let new_odds = MarketSimulator::quote(h, d, a, margin);
        proof {
            let ghost f = spec_drift(odds, change_h as int, change_d as int, change_a as int);
            assert((h as int, d as int, a as int) == f);
            assert(new_odds == spec_quote3(f, margin as int));
        }
        let pair = (match_id.to_string(), new_odds);
        self.market_odds.insert(0, pair);
        proof {
            assert(self.market_odds@[0].0@ == match_id@);
            assert(self.market_odds@.drop_first() =~= old(self).market_odds@);
            let ghost gch = change_h as int;
            let ghost gcd = change_d as int;
            let ghost gca = change_a as int;
            assert(spec_sim_odds_get(self.market_odds@, match_id@)
                == Some(spec_quote3(spec_drift(odds, gch, gcd, gca), margin as int)));
        }
        Ok(())
    }
}

/// Implied probability of a quoted leg, or an even chance for a quote at or
/// below zero; exactly [`spec_implied_or_half`].
fn implied_or_half(odds: u64) -> (r: u64)
    ensures
        r == spec_implied_or_half(odds as int),
        r <= SCALE * SCALE,
{
    if odds >= 1 {
        SCALE * SCALE / odds
    } else {
        500_000
    }
}

/// One symmetric market-noise draw of up to 2% either way.
fn noise_draw() -> (r: i64)
    ensures
        -20_000 <= r <= 20_000,
{
    (ext::random_in_range(0, 40_001) as i64) - 20_000
}

/// The fair decimal quote of a probability, `dflt` for a dead leg.
pub open spec fn spec_fair_quote(p: int, dflt: int) -> int {
    if p >= 1 {
        (SCALE as int) * (SCALE as int) / p
    } else {
        dflt
    }
}

/// A fair quote scaled by an edge factor, saturating at the largest
/// representable quote.
pub open spec fn spec_edge_leg(fair: int, ef: int) -> int {
    let v = fair * ef / (SCALE as int);
    if v > u64::MAX {
        u64::MAX as int
    } else {
        v
    }
}

/// One edge-boosted leg `fair * ef / SCALE`, saturating at `u64::MAX`;
/// exactly [`spec_edge_leg`].
fn edge_leg(fair: u64, ef: u128) -> (r: u64)
    requires
        fair <= 1_000_000_000_000,
        (SCALE as int) <= ef <= (SCALE as int) + u64::MAX + 20_000,
    ensures
        r == spec_edge_leg(fair as int, ef as int),
{
    proof {
        let ghost ff = fair as int;
        let ghost ee = ef as int;
        assert(0 <= ff * ee) by (nonlinear_arith)
            requires 0 <= ff, 0 <= ee;
        assert(ff * ee <= 1_000_000_000_000int * 0x1_0000_0000_0000_0000_0000int)
            by (nonlinear_arith)
            requires 0 <= ff <= 1_000_000_000_000, 0 <= ee <= 0x1_0000_0000_0000_0000_0000int;
        assert(ff * ee / (SCALE as int) >= 0) by (nonlinear_arith)
            requires ff * ee >= 0;
    }
    let wide: u128 = (fair as u128) * ef / (SCALE as u128);
    if wide > (u64::MAX as u128) {
        u64::MAX
    } else {
        wide as u64
    }
}

/// A fair probability in `[0.05, 0.8]` quoted with a margin in `[2%, 8%]`
/// lands strictly above evens and at most 20.0.
proof fn lemma_quote_band(p: int, margin: int, dflt: int)
    requires
        50_000 <= p <= 800_000,
        20_000 <= margin <= 80_000,
    ensures
        (SCALE as int) < crate::market::spec_odds_from_prob(p, margin, dflt) <= 20_000_000,
{
    let mm = (SCALE as int) + margin;
    assert(50_000 * 1_020_000 <= p * mm <= 800_000 * 1_080_000) by (nonlinear_arith)
        requires 50_000 <= p <= 800_000, 1_020_000 <= mm <= 1_080_000;
    assert(51_000 <= p * mm / (SCALE as int) <= 864_000) by (nonlinear_arith)
        requires 51_000_000_000 <= p * mm <= 864_000_000_000;
    let adj = p * mm / (SCALE as int);
    assert((SCALE as int) < (SCALE as int) * (SCALE as int) / adj <= 20_000_000)
        by (nonlinear_arith)
        requires 51_000 <= adj <= 864_000;
}

} // verus!
