//! The feature engineer: per-team running statistics, per-match situational
//! context, and the flat numeric snapshot models consume. The team and match
//! tables live in dashmap's concurrent maps behind trusted wrappers.

use vstd::prelude::*;

use crate::ext;
use crate::fixed::{clamp_i64, clamp_u64, exp_fixed, PROB_ONE, SCALE};
use crate::predictions::FeatureVector;

verus! {

/// Declares dashmap's map type so its values can stand in fields; the
/// contents are spoken of through [`team_map`] and [`context_map`].
#[verifier::external_type_specification]
#[verifier::external_body]
#[verifier::reject_recursive_types(K)]
#[verifier::reject_recursive_types(V)]
#[verifier::reject_recursive_types(S)]
pub struct ExDashMap<K, V, S>(dashmap::DashMap<K, V, S>);

/// Cumulative per-team statistics, keyed by team name.
#[derive(Debug, Clone)]
pub struct TeamStats {
    pub goals_for: u32,
    pub goals_against: u32,
    pub shots: u32,
    /// Ball possession percentage, fixed point.
    pub possession: u64,
    pub yellow_cards: u32,
    pub red_cards: u32,
    pub corners: u32,
    pub fouls: u32,
    pub offsides: u32,
    /// Last results, a win recorded as `true`; at most ten, oldest evicted.
    pub recent_form: Vec<bool>,
    /// Elo rating, fixed point; seeded at 1500.
    pub elo_rating: i64,
    /// Scoring-rate scalar in `[0.1, 3.0]`, fixed point.
    pub attack_strength: u64,
    /// Concession-rate scalar in `[0.1, 3.0]`, fixed point.
    pub defense_strength: u64,
}

impl TeamStats {
    /// The strength scalars in their band, the form window within ten, the
    /// rating on the representable scale.
    pub open spec fn wf(&self) -> bool {
        &&& 100_000 <= self.attack_strength <= 3_000_000
        &&& 100_000 <= self.defense_strength <= 3_000_000
        &&& 0 <= self.elo_rating <= 4_000_000_000
        &&& self.recent_form@.len() <= 10
    }
}

impl Default for TeamStats {
    /// A fresh team: neutral strengths, an Elo seed of 1500, no history.
    fn default() -> (r: TeamStats)
        ensures
            r.wf(),
            r.goals_for == 0,
            r.goals_against == 0,
            r.possession == 50_000_000,
            r.yellow_cards == 0,
            r.red_cards == 0,
            r.recent_form@.len() == 0,
            r.elo_rating == 1_500_000_000,
            r.attack_strength == SCALE,
            r.defense_strength == SCALE,
    {
        TeamStats {
            goals_for: 0,
            goals_against: 0,
            shots: 0,
            possession: 50_000_000,
            yellow_cards: 0,
            red_cards: 0,
            corners: 0,
            fouls: 0,
            offsides: 0,
            recent_form: Vec::new(),
            elo_rating: 1_500_000_000,
            attack_strength: SCALE,
            defense_strength: SCALE,
        }
    }
}

/// Mutable in-match context, keyed by match identifier.
#[derive(Debug, Clone)]
pub struct MatchContext {
    pub minute: u8,
    pub home_score: u8,
    pub away_score: u8,
    /// Leaning of play, fixed point in `[-1, 1]`; positive favours home.
    pub momentum: i64,
    /// Heat of the match, fixed point in `[0, 1]`.
    pub intensity: u64,
    pub last_goal_minute: Option<u8>,
    pub last_goal_team: Option<String>,
}

impl MatchContext {
    /// Momentum and intensity inside their documented bands.
    pub open spec fn wf(&self) -> bool {
        &&& -(SCALE as int) <= self.momentum <= SCALE
        &&& self.intensity <= SCALE
    }

    /// A fresh context: scoreless, neutral momentum, half intensity.
    pub fn new() -> (r: MatchContext)
        ensures
            r.wf(),
            r.minute == 0,
            r.home_score == 0,
            r.away_score == 0,
            r.momentum == 0,
            r.intensity == 500_000,
            (r.last_goal_minute is None),
            (r.last_goal_team is None),
    {
        MatchContext {
            minute: 0,
            home_score: 0,
            away_score: 0,
            momentum: 0,
            intensity: 500_000,
            last_goal_minute: None,
            last_goal_team: None,
        }
    }
}

/// What the team table holds, as a map from team name to statistics.
pub uninterp spec fn team_map(m: dashmap::DashMap<String, TeamStats>) -> Map<Seq<char>, TeamStats>;

/// What the context table holds, as a map from match id to context.
pub uninterp spec fn context_map(
    m: dashmap::DashMap<String, MatchContext>,
) -> Map<Seq<char>, MatchContext>;

/// Relies on dashmap::DashMap::get: the value stored under the key, cloned
/// out of the guard, or nothing.
#[verifier::external_body]
fn dm_team_get(m: &dashmap::DashMap<String, TeamStats>, k: &str) -> (r: Option<TeamStats>)
    ensures
        r == if team_map(*m).contains_key(k@) {
            Some(team_map(*m)[k@])
        } else {
            None::<TeamStats>
        },
{
    m.get(k).map(|e| e.value().clone())
}

/// Relies on dashmap::DashMap::insert: the map afterwards holds `v` under
/// `k` and is otherwise unchanged.
#[verifier::external_body]
fn dm_team_insert(m: &mut dashmap::DashMap<String, TeamStats>, k: String, v: TeamStats)
    ensures
        team_map(*final(m)) == team_map(*old(m)).insert(k@, v),
{
    m.insert(k, v);
}

/// Relies on dashmap::DashMap::get: the value stored under the key, cloned
/// out of the guard, or nothing.
#[verifier::external_body]
fn dm_context_get(m: &dashmap::DashMap<String, MatchContext>, k: &str) -> (r: Option<MatchContext>)
    ensures
        r == if context_map(*m).contains_key(k@) {
            Some(context_map(*m)[k@])
        } else {
            None::<MatchContext>
        },
{
    m.get(k).map(|e| e.value().clone())
}

/// Relies on dashmap::DashMap::insert: the map afterwards holds `v` under
/// `k` and is otherwise unchanged.
#[verifier::external_body]
fn dm_context_insert(m: &mut dashmap::DashMap<String, MatchContext>, k: String, v: MatchContext)
    ensures
        context_map(*final(m)) == context_map(*old(m)).insert(k@, v),
{
    m.insert(k, v);
}

/// Relies on dashmap::DashMap::new: the fresh map holds nothing.
#[verifier::external_body]
fn dm_team_new() -> (m: dashmap::DashMap<String, TeamStats>)
    ensures
        team_map(m) =~= Map::empty(),
{
    dashmap::DashMap::new()
}

/// Relies on dashmap::DashMap::new: the fresh map holds nothing.
#[verifier::external_body]
fn dm_context_new() -> (m: dashmap::DashMap<String, MatchContext>)
    ensures
        context_map(m) =~= Map::empty(),
{
    dashmap::DashMap::new()
}

/// Per-league scoring and discipline averages, with a sensible default for
/// an unseen league.
#[derive(Debug, Clone, Copy, PartialEq, Eq, Structural)]
pub struct LeagueAverages {
    pub avg_goals_per_match: u64,
    pub avg_cards_per_match: u64,
    pub home_advantage: u64,
}

impl Default for LeagueAverages {
    /// The defaults an unseen league gets: 2.7 goals, 4.2 cards, 60% home
    /// advantage.
    fn default() -> (r: LeagueAverages)
        ensures
            r.avg_goals_per_match == 2_700_000,
            r.avg_cards_per_match == 4_200_000,
            r.home_advantage == 600_000,
    {
        LeagueAverages {
            avg_goals_per_match: 2_700_000,
            avg_cards_per_match: 4_200_000,
            home_advantage: 600_000,
        }
    }
}

/// Maintains the team and match tables and turns events into feature
/// snapshots.
pub struct FeatureEngineer {
    pub team_stats: dashmap::DashMap<String, TeamStats>,
    pub match_contexts: dashmap::DashMap<String, MatchContext>,
    pub league_averages: Vec<(String, LeagueAverages)>,
}

impl FeatureEngineer {
    /// Every stored team and context satisfies its own invariant.
    pub open spec fn wf(&self) -> bool {
        &&& forall|k: Seq<char>| team_map(self.team_stats).contains_key(k)
            ==> (#[trigger] team_map(self.team_stats)[k]).wf()
        &&& forall|k: Seq<char>| context_map(self.match_contexts).contains_key(k)
            ==> (#[trigger] context_map(self.match_contexts)[k]).wf()
    }

    /// Fresh engineer with empty tables.
    pub fn new() -> (r: FeatureEngineer)
        ensures
            r.wf(),
            team_map(r.team_stats) == Map::<Seq<char>, TeamStats>::empty(),
            context_map(r.match_contexts) == Map::<Seq<char>, MatchContext>::empty(),
            r.league_averages@.len() == 0,
    {
        FeatureEngineer {
            team_stats: dm_team_new(),
            match_contexts: dm_context_new(),
            league_averages: Vec::new(),
        }
    }

    /// A team's statistics, if the team has been seen.
    pub fn get_team_stats(&self, team: &str) -> (r: Option<TeamStats>)
        ensures
            r == if team_map(self.team_stats).contains_key(team@) {
                Some(team_map(self.team_stats)[team@])
            } else {
                None::<TeamStats>
            },
    {
        dm_team_get(&self.team_stats, team)
    }
}

/// Saturating add of `u32` counters.
pub open spec fn spec_sat_add_u32(a: int, b: int) -> int {
    if a + b > u32::MAX {
        u32::MAX as int
    } else {
        a + b
    }
}

/// Attack strength derived from total goals scored: one tenth of the tally,
/// clamped into `[0.1, 3.0]`.
pub open spec fn spec_attack_strength(goals_for: int) -> int {
    crate::fixed::spec_clamp(goals_for * 100_000, 100_000, 3_000_000)
}

/// Defense strength derived from total goals conceded: `10 / (against + 1)`,
/// clamped into `[0.1, 3.0]`.
pub open spec fn spec_defense_strength(goals_against: int) -> int {
    crate::fixed::spec_clamp(10_000_000int / (goals_against + 1), 100_000, 3_000_000)
}

/// The actual match score for an Elo update: a win one whole unit, a draw
/// half, a loss nothing.
pub open spec fn spec_actual_score(gf: int, ga: int) -> int {
    if gf > ga {
        SCALE as int
    } else if gf == ga {
        (SCALE as int) / 2
    } else {
        0
    }
}

/// The expected score of a team rated `elo` against the 1500 baseline:
/// `1 / (1 + 10^((1500 - elo) / 400))` through the exponential kernel,
/// with `ln 10 / 400` as the fixed-point factor 5756 on the rating grid.
pub open spec fn spec_expected_elo_score(elo: int) -> int {
    (SCALE as int) * (SCALE as int) / ((SCALE as int) + crate::fixed::spec_exp(
        crate::fixed::spec_div_trunc((1_500_000_000 - elo) * 5_756, SCALE as int),
    ))
}

/// A team's Elo rating after one observed result: a K-factor-32 nudge by
/// the gap between the actual and the expected score, kept on the
/// representable rating band.
pub open spec fn spec_elo_after(elo: int, gf: int, ga: int) -> int {
    crate::fixed::spec_clamp(
        elo + 32 * (spec_actual_score(gf, ga) - spec_expected_elo_score(elo)),
        0,
        4_000_000_000,
    )
}

/// The match context after one event: goals move the score, shift momentum
/// by 0.3 towards the scorer and heat the match by 0.2; cards advance the
/// clock and heat it by 0.1; then momentum decays in proportion to the
/// elapsed fraction of the match.
pub open spec fn spec_context_after(c: MatchContext, event: &crate::events::MatchEvent) -> MatchContext {
    let stepped = match &event.event_type {
        crate::events::EventType::Goal { team, player, minute } => {
            if team@ == event.team_home@ {
                MatchContext {
                    home_score: if c.home_score == u8::MAX { c.home_score } else { (c.home_score + 1) as u8 },
                    momentum: if c.momentum + 300_000 > SCALE { SCALE as i64 } else { (c.momentum + 300_000) as i64 },
                    last_goal_minute: Some(*minute),
                    last_goal_team: Some(*team),
                    intensity: if c.intensity + 200_000 > SCALE { SCALE } else { (c.intensity + 200_000) as u64 },
                    ..c
                }
            } else {
                MatchContext {
                    away_score: if c.away_score == u8::MAX { c.away_score } else { (c.away_score + 1) as u8 },
                    momentum: if c.momentum - 300_000 < -(SCALE as int) { (-(SCALE as int)) as i64 } else { (c.momentum - 300_000) as i64 },
                    last_goal_minute: Some(*minute),
                    last_goal_team: Some(*team),
                    intensity: if c.intensity + 200_000 > SCALE { SCALE } else { (c.intensity + 200_000) as u64 },
                    ..c
                }
            }
        }
        crate::events::EventType::Card { team, player, card_type, minute } => {
            MatchContext {
                minute: *minute,
                intensity: if c.intensity + 100_000 > SCALE { SCALE } else { (c.intensity + 100_000) as u64 },
                ..c
            }
        }
        _ => c,
    };
    MatchContext { momentum: spec_decayed_momentum(stepped.momentum as int, stepped.minute as int) as i64, ..stepped }
}

/// The stored context of a match, or a fresh one where none is stored yet.
pub open spec fn spec_ctx_or_new(m: Map<Seq<char>, MatchContext>, id: Seq<char>) -> MatchContext {
    if m.contains_key(id) {
        m[id]
    } else {
        MatchContext {
            minute: 0,
            home_score: 0,
            away_score: 0,
            momentum: 0,
            intensity: 500_000,
            last_goal_minute: None,
            last_goal_team: None,
        }
    }
}

/// The observable fields of a freshly created team entry: no history,
/// neutral strengths, the 1500 Elo seed.
pub open spec fn spec_fresh_team(t: TeamStats) -> bool {
    &&& t.goals_for == 0
    &&& t.goals_against == 0
    &&& t.possession == 50_000_000
    &&& t.yellow_cards == 0
    &&& t.red_cards == 0
    &&& t.recent_form@.len() == 0
    &&& t.elo_rating == 1_500_000_000
    &&& t.attack_strength == SCALE
    &&& t.defense_strength == SCALE
}

/// Momentum decayed towards neutral by a tenth of the elapsed fraction of a
/// 90-minute match: `m * (900 - minute) / 900`, signs handled apart so the
/// division truncates towards zero.
pub open spec fn spec_decayed_momentum(m: int, minute: int) -> int {
    if m >= 0 {
        m * (900 - minute) / 900
    } else {
        -((-m) * (900 - minute) / 900)
    }
}

impl FeatureEngineer {
    /// Fold one event into its match context, creating the context lazily.
    fn update_context(&mut self, event: &crate::events::MatchEvent)
        requires
            old(self).wf(),
        ensures
            final(self).wf(),
            context_map(final(self).match_contexts) == context_map(old(self).match_contexts)
                .insert(event.match_id@, spec_context_after(
                    spec_ctx_or_new(context_map(old(self).match_contexts), event.match_id@),
                    event,
                )),
            team_map(final(self).team_stats) == team_map(old(self).team_stats),
            final(self).league_averages == old(self).league_averages,
    {
        let mut ctx = match dm_context_get(&self.match_contexts, event.match_id.as_str()) {
            Some(c) => c,
            None => MatchContext::new(),
        };
        proof {
            assert(ctx.wf());
        }

        match &event.event_type {
            crate::events::EventType::Goal { team, player: _, minute } => {
                let scorer: String = team.clone();
                if scorer == event.team_home {
                    proof {
                        assert(team@ == event.team_home@);
                    }
                    if ctx.home_score != u8::MAX {
                        ctx.home_score = ctx.home_score + 1;
                    }
                    ctx.momentum = if ctx.momentum + 300_000 > SCALE as i64 {
                        SCALE as i64
                    } else {
                        ctx.momentum + 300_000
                    };
                } else {
                    proof {
                        assert(team@ != event.team_home@);
                    }
                    if ctx.away_score != u8::MAX {
                        ctx.away_score = ctx.away_score + 1;
                    }
                    ctx.momentum = if ctx.momentum - 300_000 < -(SCALE as i64) {
                        -(SCALE as i64)
                    } else {
                        ctx.momentum - 300_000
                    };
                }
                ctx.last_goal_minute = Some(*minute);
                ctx.last_goal_team = Some(team.clone());
                ctx.intensity = if ctx.intensity + 200_000 > SCALE {
                    SCALE
                } else {
                    ctx.intensity + 200_000
                };
            }
            crate::events::EventType::Card { team: _, player: _, card_type: _, minute } => {
                ctx.minute = *minute;
                ctx.intensity = if ctx.intensity + 100_000 > SCALE {
                    SCALE
                } else {
                    ctx.intensity + 100_000
                };
            }
            _ => {}
        }

        // Momentum decays with the elapsed fraction of the match.
        let factor: i64 = 900 - (ctx.minute as i64);
        proof {
            let ghost m = ctx.momentum as int;
            let ghost fac = factor as int;
            if m >= 0 {
                assert(0 <= m * fac <= m * 900) by (nonlinear_arith)
                    requires 0 <= m, 645 <= fac <= 900;
                assert(0 <= m * fac / 900 <= m) by (nonlinear_arith)
                    requires 0 <= m * fac <= m * 900;
            } else {
                assert(0 <= (-m) * fac <= (-m) * 900) by (nonlinear_arith)
                    requires 0 <= -m, 645 <= fac <= 900;
                assert(0 <= (-m) * fac / 900 <= -m) by (nonlinear_arith)
                    requires 0 <= (-m) * fac <= (-m) * 900;
            }
        }
        ctx.momentum = if ctx.momentum >= 0 {
            (ctx.momentum * factor) / 900
        } else {
            -((-ctx.momentum * factor) / 900)
        };

        dm_context_insert(&mut self.match_contexts, event.match_id.clone(), ctx);
        proof {
            assert forall|k: Seq<char>| context_map(self.match_contexts).contains_key(k)
                implies (#[trigger] context_map(self.match_contexts)[k]).wf() by {
                if k != event.match_id@ {
                    assert(context_map(old(self).match_contexts).contains_key(k));
                }
            }
        }
    }

    /// Fold an observed result into a team's running statistics: cumulative
    /// goals, an Elo update with K-factor 32 against the logistic expected
    /// score, strength scalars from the raw totals, and the bounded form
    /// window.
    pub fn update_team_stats(&mut self, team: &str, goals_for: u32, goals_against: u32)
        requires
            old(self).wf(),
        ensures
            final(self).wf(),
            team_map(final(self).team_stats).contains_key(team@),
            ({
                let seen = team_map(old(self).team_stats).contains_key(team@);
                let prev_gf: int = if seen {
                    team_map(old(self).team_stats)[team@].goals_for as int
                } else {
                    0
                };
                let prev_ga: int = if seen {
                    team_map(old(self).team_stats)[team@].goals_against as int
                } else {
                    0
                };
                let prev_elo: int = if seen {
                    team_map(old(self).team_stats)[team@].elo_rating as int
                } else {
                    1_500_000_000
                };
                let prev_form: Seq<bool> = if seen {
                    team_map(old(self).team_stats)[team@].recent_form@
                } else {
                    Seq::empty()
                };
                let ns = team_map(final(self).team_stats)[team@];
                let won = goals_for > goals_against;
                &&& ns.goals_for == spec_sat_add_u32(prev_gf, goals_for as int)
                &&& ns.goals_against == spec_sat_add_u32(prev_ga, goals_against as int)
                &&& ns.attack_strength == spec_attack_strength(ns.goals_for as int)
                &&& ns.defense_strength == spec_defense_strength(ns.goals_against as int)
                &&& ns.elo_rating == spec_elo_after(
                    prev_elo, goals_for as int, goals_against as int)
                &&& ns.wf()
                &&& (if prev_form.len() < 10 {
                    ns.recent_form@ =~= prev_form.push(won)
                } else {
                    ns.recent_form@ =~= prev_form.drop_first().push(won)
                })
            }),
            team_map(final(self).team_stats)
                =~= team_map(old(self).team_stats)
                    .insert(team@, team_map(final(self).team_stats)[team@]),
            context_map(final(self).match_contexts) == context_map(old(self).match_contexts),
    {
        let mut stats = match dm_team_get(&self.team_stats, team) {
            Some(st) => st,
            None => TeamStats::default(),
        };
        proof {
            assert(stats.wf());
        }

        let gf_wide: u64 = (stats.goals_for as u64) + (goals_for as u64);
        stats.goals_for = if gf_wide > (u32::MAX as u64) {
            u32::MAX
        } else {
            gf_wide as u32
        };
        let ga_wide: u64 = (stats.goals_against as u64) + (goals_against as u64);
        stats.goals_against = if ga_wide > (u32::MAX as u64) {
            u32::MAX
        } else {
            ga_wide as u32
        };

        // Elo: expected score 1 / (1 + 10^((1500 - rating) / 400)), computed
        // through the exponential kernel, then a K-factor-32 nudge.
        let ghost prev_elo_g: int = stats.elo_rating as int;
        let diff: i64 = 1_500_000_000 - stats.elo_rating;
        let arg: i64 = if diff >= 0 {
            (((diff as i128) * 5_756) / (SCALE as i128)) as i64
        } else {
            -((((-(diff as i128)) * 5_756) / (SCALE as i128)) as i64)
        };
        proof {
            assert(arg as int
                == crate::fixed::spec_div_trunc((1_500_000_000 - prev_elo_g) * 5_756,
                    SCALE as int));
        }
        let expv = exp_fixed(arg);
        let expected_score: u64 = (SCALE * SCALE) / (SCALE + expv);
        proof {
            let ghost ev = expv as int;
            assert((SCALE as int) * (SCALE as int) / ((SCALE as int) + ev) < SCALE as int)
                by (nonlinear_arith)
                requires ev >= 1;
        }
        let actual_score: u64 = if goals_for > goals_against {
            SCALE
        } else if goals_for == goals_against {
            SCALE / 2
        } else {
            0
        };
        let delta: i64 = 32 * ((actual_score as i64) - (expected_score as i64));
        stats.elo_rating = clamp_i64(stats.elo_rating + delta, 0, 4_000_000_000);

        let attack_raw: u64 = (stats.goals_for as u64) * 100_000;
        stats.attack_strength = clamp_u64(attack_raw, 100_000, 3_000_000);
        stats.defense_strength = clamp_u64(
            10_000_000 / ((stats.goals_against as u64) + 1),
            100_000,
            3_000_000,
        );

        let won = goals_for > goals_against;
        if stats.recent_form.len() >= 10 {
            stats.recent_form.remove(0);
        }
        stats.recent_form.push(won);

        dm_team_insert(&mut self.team_stats, team.to_string(), stats);
        proof {
            assert forall|k: Seq<char>| team_map(self.team_stats).contains_key(k)
                implies (#[trigger] team_map(self.team_stats)[k]).wf() by {
                if k != team@ {
                    assert(team_map(old(self).team_stats).contains_key(k));
                }
            }
        }
    }
}

/// First configured averages entry for a league.
pub open spec fn spec_league_get(
    s: Seq<(String, LeagueAverages)>,
    id: Seq<char>,
) -> Option<LeagueAverages>
    decreases s.len(),
{
    if s.len() == 0 {
        None
    } else if s[0].0@ == id {
        Some(s[0].1)
    } else {
        spec_league_get(s.drop_first(), id)
    }
}

/// An unmatched prefix does not decide a league lookup.
proof fn lemma_league_get_skip(s: Seq<(String, LeagueAverages)>, id: Seq<char>, i: int)
    requires
        0 <= i <= s.len(),
        forall|k: int| 0 <= k < i ==> s[k].0@ != id,
    ensures
        spec_league_get(s, id) == spec_league_get(s.skip(i), id),
    decreases i,
{
    if i > 0 {
        lemma_league_get_skip(s, id, i - 1);
        assert(s.skip(i - 1).len() > 0);
        assert(s.skip(i - 1)[0] == s[i - 1]);
        assert(s.skip(i - 1).drop_first() =~= s.skip(i));
    } else {
        assert(s.skip(0) =~= s);
    }
}

/// The hard-coded competitiveness constant of a league, with a fallback for
/// an unseen name.
pub open spec fn spec_competitiveness(league: Seq<char>) -> int {
    if league == "Premier League"@ {
        950_000
    } else if league == "La Liga"@ {
        900_000
    } else if league == "Bundesliga"@ {
        850_000
    } else if league == "Serie A"@ {
        850_000
    } else if league == "Ligue 1"@ {
        800_000
    } else {
        700_000
    }
}

/// The 5-bucket ordinal phase of a match by its minute.
pub open spec fn spec_game_phase(minute: int) -> int {
    if minute <= 15 {
        0
    } else if minute <= 45 {
        1_000_000
    } else if minute <= 60 {
        2_000_000
    } else if minute <= 75 {
        3_000_000
    } else {
        4_000_000
    }
}

/// The numeric code of a match status.
pub open spec fn spec_status_code(st: crate::events::MatchStatus) -> int {
    match st {
        crate::events::MatchStatus::Scheduled => 0,
        crate::events::MatchStatus::Live => 1_000_000,
        crate::events::MatchStatus::HalfTime => 2_000_000,
        crate::events::MatchStatus::Finished => 3_000_000,
        _ => 0,
    }
}

/// How strongly an event kind moves the model inputs.
pub open spec fn spec_event_influence(et: &crate::events::EventType) -> int {
    match et {
        crate::events::EventType::Goal { .. } => 1_000_000,
        crate::events::EventType::Card { .. } => 700_000,
        crate::events::EventType::HalfTime => 300_000,
        crate::events::EventType::FullTime => 0,
        _ => 100_000,
    }
}

/// Weighted sum of the first `i` ranks of a form window, most recent
/// first: a win at rank `j` (zero-based from the window's end) contributes
/// the weight `1 / (j + 1)`.
pub open spec fn spec_form_wsum(s: Seq<bool>, i: int) -> int
    decreases i,
{
    if i <= 0 {
        0
    } else {
        spec_form_wsum(s, i - 1) + if s[s.len() - i] {
            (SCALE as int) / i
        } else {
            0
        }
    }
}

/// Sum of the first `i` rank weights `1 / (j + 1)`.
pub open spec fn spec_form_tsum(i: int) -> int
    decreases i,
{
    if i <= 0 {
        0
    } else {
        spec_form_tsum(i - 1) + (SCALE as int) / i
    }
}

/// The weighted recent-form score: the win-weighted sum over the total
/// weight, so an all-win window reads 1, an all-loss window 0, and an
/// empty window the neutral half.
pub open spec fn spec_form_score(s: Seq<bool>) -> int {
    if s.len() == 0 {
        500_000
    } else {
        spec_form_wsum(s, s.len() as int) * (SCALE as int) / spec_form_tsum(s.len() as int)
    }
}

impl FeatureEngineer {
    /// Weighted recent-form score: more recent results weigh `1/(rank+1)`;
    /// an empty window reads as neutral form. Exactly [`spec_form_score`].
    fn form_score(recent_form: &Vec<bool>) -> (r: u64)
        requires
            recent_form@.len() <= 10,
        ensures
            r == spec_form_score(recent_form@),
            r <= SCALE,
            recent_form@.len() == 0 ==> r == 500_000,
    {
        let n = recent_form.len();
        if n == 0 {
            return 500_000;
        }
        let mut weighted: u64 = 0;
        let mut total: u64 = 0;
        let mut i: usize = 0;
        while i < n
            invariant
                n == recent_form@.len(),
                n <= 10,
                i <= n,
                weighted <= total,
                total <= (i as int) * (SCALE as int),
                weighted == spec_form_wsum(recent_form@, i as int),
                total == spec_form_tsum(i as int),
                i >= 1 ==> total >= SCALE,
            decreases n - i,
        {
            let w: u64 = SCALE / ((i as u64) + 1);
            if recent_form[n - 1 - i] {
                weighted = weighted + w;
            }
            total = total + w;
            proof {
                assert(recent_form@.len() - (i as int + 1) == n - 1 - i as int);
                assert(weighted == spec_form_wsum(recent_form@, i as int + 1));
                assert(total == spec_form_tsum(i as int + 1));
                if i == 0 {
                    assert((i as u64) + 1 == 1);
                    assert(SCALE / 1u64 == 1_000_000u64);
                    assert(w == SCALE);
                }
            }
            i += 1;
        }
        if total == 0 {
            return 500_000;
        }
        let score: u64 = (((weighted as u128) * (SCALE as u128)) / (total as u128)) as u64;
        proof {
            let ghost wt = weighted as int;
            let ghost tt = total as int;
            assert(wt * (SCALE as int) <= tt * (SCALE as int)) by (nonlinear_arith)
                requires 0 <= wt <= tt;
            assert(wt * (SCALE as int) / tt <= (SCALE as int)) by (nonlinear_arith)
                requires wt * (SCALE as int) <= tt * (SCALE as int), tt >= 1;
            assert(wt * (SCALE as int) / tt >= 0) by (nonlinear_arith)
                requires wt >= 0, tt >= 1;
        }
        score
    }

    /// A team's statistics, created as the defaults on first reference.
    fn stats_or_default(&mut self, team: &str) -> (r: TeamStats)
        requires
            old(self).wf(),
        ensures
            final(self).wf(),
            r.wf(),
            team_map(final(self).team_stats).contains_key(team@),
            r == team_map(final(self).team_stats)[team@],
            forall|k: Seq<char>| team_map(old(self).team_stats).contains_key(k)
                ==> team_map(final(self).team_stats).contains_key(k)
                    && #[trigger] team_map(final(self).team_stats)[k]
                        == team_map(old(self).team_stats)[k],
            forall|k: Seq<char>| #[trigger] team_map(final(self).team_stats).contains_key(k)
                <==> (team_map(old(self).team_stats).contains_key(k) || k == team@),
            team_map(old(self).team_stats).contains_key(team@)
                ==> team_map(final(self).team_stats) == team_map(old(self).team_stats),
            !team_map(old(self).team_stats).contains_key(team@)
                ==> spec_fresh_team(team_map(final(self).team_stats)[team@]),
            context_map(final(self).match_contexts) == context_map(old(self).match_contexts),
            final(self).league_averages == old(self).league_averages,
    {
        match dm_team_get(&self.team_stats, team) {
            Some(st) => {
                proof {
                    assert(team_map(self.team_stats) =~= team_map(self.team_stats));
                }
                st
            }
            None => {
                let st = TeamStats::default();
                dm_team_insert(&mut self.team_stats, team.to_string(), st);
                proof {
                    assert forall|k: Seq<char>| team_map(self.team_stats).contains_key(k)
                        implies (#[trigger] team_map(self.team_stats)[k]).wf() by {
                        if k != team@ {
                            assert(team_map(old(self).team_stats).contains_key(k));
                        }
                    }
                }
                let st2 = match dm_team_get(&self.team_stats, team) {
                    Some(x) => x,
                    None => TeamStats::default(),
                };
                st2
            }
        }
    }

    /// The configured averages for a league, or the defaults.
    fn league_averages_for(&self, league: &str) -> (r: LeagueAverages)
        ensures
            r == match spec_league_get(self.league_averages@, league@) {
                Some(a) => a,
                None => (LeagueAverages {
                    avg_goals_per_match: 2_700_000,
                    avg_cards_per_match: 4_200_000,
                    home_advantage: 600_000,
                }),
            },
    {
        let ghost s = self.league_averages@;
        let key: String = league.to_string();
        let n = self.league_averages.len();
        let mut i: usize = 0;
        while i < n
            invariant
                n == s.len(),
                i <= n,
                s == self.league_averages@,
                key@ == league@,
                forall|k: int| 0 <= k < i ==> s[k].0@ != league@,
            decreases n - i,
        {
            if self.league_averages[i].0 == key {
                proof {
                    lemma_league_get_skip(s, league@, i as int);
                    assert(s.skip(i as int)[0] == s[i as int]);
                }
                return self.league_averages[i].1;
            }
            i += 1;
        }
        proof {
            lemma_league_get_skip(s, league@, n as int);
            assert(s.skip(n as int).len() == 0);
        }
        LeagueAverages::default()
    }
}

/// What a feature snapshot holds for an event against an engineer's state:
/// the exact value of every match-state, team, situational and league
/// feature, and the ranges of the clock-driven temporal features.
pub open spec fn spec_snapshot_of(
    fe: &FeatureEngineer,
    event: &crate::events::MatchEvent,
    fv: &FeatureVector,
) -> bool {
    &&& fv.match_id == event.match_id
    &&& fv.spec_get("minute"@) == Some((fe.spec_ctx(event.match_id@).minute * 1_000_000) as i64)
    &&& fv.spec_get("home_score"@) == Some((fe.spec_ctx(event.match_id@).home_score * 1_000_000) as i64)
    &&& fv.spec_get("away_score"@) == Some((fe.spec_ctx(event.match_id@).away_score * 1_000_000) as i64)
    &&& fv.spec_get("score_difference"@) == Some(((fe.spec_ctx(event.match_id@).home_score - fe.spec_ctx(event.match_id@).away_score) * 1_000_000) as i64)
    &&& fv.spec_get("total_goals"@) == Some(((fe.spec_ctx(event.match_id@).home_score + fe.spec_ctx(event.match_id@).away_score) * 1_000_000) as i64)
    &&& fv.spec_get("momentum"@) == Some(fe.spec_ctx(event.match_id@).momentum)
    &&& fv.spec_get("intensity"@) == Some(fe.spec_ctx(event.match_id@).intensity as i64)
    &&& fv.spec_get("game_phase"@) == Some(spec_game_phase(fe.spec_ctx(event.match_id@).minute as int) as i64)
    &&& fv.spec_get("time_pressure"@) == Some((if fe.spec_ctx(event.match_id@).minute > 80 { 1_000_000int } else { 0int }) as i64)
    &&& fv.spec_get("home_elo"@) == Some(fe.spec_team(event.team_home@).elo_rating)
    &&& fv.spec_get("away_elo"@) == Some(fe.spec_team(event.team_away@).elo_rating)
    &&& fv.spec_get("elo_difference"@) == Some((fe.spec_team(event.team_home@).elo_rating - fe.spec_team(event.team_away@).elo_rating) as i64)
    &&& fv.spec_get("home_attack"@) == Some(fe.spec_team(event.team_home@).attack_strength as i64)
    &&& fv.spec_get("home_defense"@) == Some(fe.spec_team(event.team_home@).defense_strength as i64)
    &&& fv.spec_get("away_attack"@) == Some(fe.spec_team(event.team_away@).attack_strength as i64)
    &&& fv.spec_get("away_defense"@) == Some(fe.spec_team(event.team_away@).defense_strength as i64)
    &&& fv.spec_get("home_expected_goals"@) == Some((fe.spec_team(event.team_home@).attack_strength * fe.spec_team(event.team_away@).defense_strength / (SCALE as int)) as i64)
    &&& fv.spec_get("away_expected_goals"@) == Some((fe.spec_team(event.team_away@).attack_strength * fe.spec_team(event.team_home@).defense_strength / (SCALE as int)) as i64)
    &&& fv.spec_get("home_discipline"@) == Some(((fe.spec_team(event.team_home@).yellow_cards + 2 * fe.spec_team(event.team_home@).red_cards) * 1_000_000) as i64)
    &&& fv.spec_get("away_discipline"@) == Some(((fe.spec_team(event.team_away@).yellow_cards + 2 * fe.spec_team(event.team_away@).red_cards) * 1_000_000) as i64)
    &&& fv.spec_get("match_status"@) == Some(spec_status_code(event.match_status) as i64)
    &&& fv.spec_get("event_influence"@) == Some(spec_event_influence(&event.event_type) as i64)
    &&& fv.spec_get("home_advantage"@) == Some(1_000_000i64)
    &&& fv.spec_get("league_avg_goals"@) == Some(fe.spec_league(event.league@).avg_goals_per_match as i64)
    &&& fv.spec_get("league_avg_cards"@) == Some(fe.spec_league(event.league@).avg_cards_per_match as i64)
    &&& fv.spec_get("league_home_advantage"@) == Some(fe.spec_league(event.league@).home_advantage as i64)
    &&& fv.spec_get("league_competitiveness"@) == Some(spec_competitiveness(event.league@) as i64)
    &&& fv.spec_get("home_form"@) == Some(spec_form_score(fe.spec_team(event.team_home@).recent_form@) as i64)
    &&& fv.spec_get("away_form"@) == Some(spec_form_score(fe.spec_team(event.team_away@).recent_form@) as i64)
    &&& fv.spec_get("form_difference"@) == Some((spec_form_score(fe.spec_team(event.team_home@).recent_form@) - spec_form_score(fe.spec_team(event.team_away@).recent_form@)) as i64)
    &&& (fv.spec_get("hour_of_day"@) matches Some(v) && 0 <= v <= 23_000_000)
    &&& (fv.spec_get("is_evening"@) matches Some(v) && (v == 0 || v == SCALE))
    &&& (fv.spec_get("day_of_week"@) matches Some(v) && 1_000_000 <= v <= 7_000_000)
    &&& (fv.spec_get("is_weekend"@) matches Some(v) && (v == 0 || v == SCALE))
}

impl FeatureEngineer {
    /// The stored context of a match.
    pub open spec fn spec_ctx(&self, id: Seq<char>) -> MatchContext {
        context_map(self.match_contexts)[id]
    }

    /// The stored statistics of a team.
    pub open spec fn spec_team(&self, name: Seq<char>) -> TeamStats {
        team_map(self.team_stats)[name]
    }

    /// The configured averages of a league, or the defaults.
    pub open spec fn spec_league(&self, name: Seq<char>) -> LeagueAverages {
        match spec_league_get(self.league_averages@, name) {
            Some(a) => a,
            None => LeagueAverages {
                avg_goals_per_match: 2_700_000,
                avg_cards_per_match: 4_200_000,
                home_advantage: 600_000,
            },
        }
    }

    /// Turn one event into a flat feature snapshot, updating the match
    /// context first and creating team entries on first sight. The snapshot
    /// is exactly [`spec_snapshot_of`] against the updated state, the
    /// context moves by [`spec_context_after`], and no other match's
    /// context or team's entry changes.
    #[verifier::rlimit(100)]
    pub fn extract_features(&mut self, event: &crate::events::MatchEvent)
        -> (r: Result<FeatureVector, crate::errors::QuantsError>)
        requires
            old(self).wf(),
        ensures
            final(self).wf(),
            r is Ok,
            r matches Ok(fv) ==> spec_snapshot_of(final(self), event, &fv),
            context_map(final(self).match_contexts) == context_map(old(self).match_contexts)
                .insert(event.match_id@, spec_context_after(
                    spec_ctx_or_new(context_map(old(self).match_contexts), event.match_id@),
                    event,
                )),
            forall|k: Seq<char>| #[trigger] team_map(final(self).team_stats).contains_key(k)
                <==> (team_map(old(self).team_stats).contains_key(k)
                    || k == event.team_home@ || k == event.team_away@),
            forall|k: Seq<char>| team_map(old(self).team_stats).contains_key(k)
                ==> #[trigger] team_map(final(self).team_stats)[k]
                    == team_map(old(self).team_stats)[k],
            !team_map(old(self).team_stats).contains_key(event.team_home@)
                ==> spec_fresh_team(team_map(final(self).team_stats)[event.team_home@]),
            !team_map(old(self).team_stats).contains_key(event.team_away@)
                ==> spec_fresh_team(team_map(final(self).team_stats)[event.team_away@]),
            final(self).league_averages == old(self).league_averages,
    {
        self.update_context(event);

        let ctx = match dm_context_get(&self.match_contexts, event.match_id.as_str()) {
            Some(c) => c,
            None => MatchContext::new(),
        };
        let home_stats = self.stats_or_default(event.team_home.as_str());
        let away_stats = self.stats_or_default(event.team_away.as_str());
        let avgs = self.league_averages_for(event.league.as_str());

        let mut fv = FeatureVector::new(event.match_id.clone(), ext::now_unix_seconds());

        // Match-state features.
        fv.set_feature("minute", (ctx.minute as i64) * 1_000_000);
        fv.set_feature("home_score", (ctx.home_score as i64) * 1_000_000);
        fv.set_feature("away_score", (ctx.away_score as i64) * 1_000_000);
        fv.set_feature(
            "score_difference",
            ((ctx.home_score as i64) - (ctx.away_score as i64)) * 1_000_000,
        );
        fv.set_feature(
            "total_goals",
            ((ctx.home_score as i64) + (ctx.away_score as i64)) * 1_000_000,
        );
        fv.set_feature("momentum", ctx.momentum);
        fv.set_feature("intensity", ctx.intensity as i64);
        let game_phase: i64 = if ctx.minute <= 15 {
            0
        } else if ctx.minute <= 45 {
            1_000_000
        } else if ctx.minute <= 60 {
            2_000_000
        } else if ctx.minute <= 75 {
            3_000_000
        } else {
            4_000_000
        };
        fv.set_feature("game_phase", game_phase);
        fv.set_feature("time_pressure", if ctx.minute > 80 { 1_000_000 } else { 0 });

        // Team features.
        fv.set_feature("home_elo", home_stats.elo_rating);
        fv.set_feature("away_elo", away_stats.elo_rating);
        fv.set_feature("elo_difference", home_stats.elo_rating - away_stats.elo_rating);
        fv.set_feature("home_attack", home_stats.attack_strength as i64);
        fv.set_feature("home_defense", home_stats.defense_strength as i64);
        fv.set_feature("away_attack", away_stats.attack_strength as i64);
        fv.set_feature("away_defense", away_stats.defense_strength as i64);
        proof {
            let ghost ha = home_stats.attack_strength as int;
            let ghost hd = home_stats.defense_strength as int;
            let ghost aa = away_stats.attack_strength as int;
            let ghost ad = away_stats.defense_strength as int;
            assert(0 <= ha * ad <= 9_000_000_000_000 && 0 <= aa * hd <= 9_000_000_000_000)
                by (nonlinear_arith)
                requires
                    0 <= ha <= 3_000_000,
                    0 <= hd <= 3_000_000,
                    0 <= aa <= 3_000_000,
                    0 <= ad <= 3_000_000;
        }
        let home_xg: u64 = home_stats.attack_strength * away_stats.defense_strength / SCALE;
        let away_xg: u64 = away_stats.attack_strength * home_stats.defense_strength / SCALE;
        fv.set_feature("home_expected_goals", home_xg as i64);
        fv.set_feature("away_expected_goals", away_xg as i64);
        let home_form = FeatureEngineer::form_score(&home_stats.recent_form);
        let away_form = FeatureEngineer::form_score(&away_stats.recent_form);
        fv.set_feature("home_form", home_form as i64);
        fv.set_feature("away_form", away_form as i64);
        fv.set_feature("form_difference", (home_form as i64) - (away_form as i64));
        let home_discipline: u64 =
            ((home_stats.yellow_cards as u64) + 2 * (home_stats.red_cards as u64)) * 1_000_000;
        let away_discipline: u64 =
            ((away_stats.yellow_cards as u64) + 2 * (away_stats.red_cards as u64)) * 1_000_000;
        fv.set_feature("home_discipline", home_discipline as i64);
        fv.set_feature("away_discipline", away_discipline as i64);

        // Situational features.
        let status_value: i64 = match event.match_status {
            crate::events::MatchStatus::Scheduled => 0,
            crate::events::MatchStatus::Live => 1_000_000,
            crate::events::MatchStatus::HalfTime => 2_000_000,
            crate::events::MatchStatus::Finished => 3_000_000,
            _ => 0,
        };
        fv.set_feature("match_status", status_value);
        let event_influence: i64 = match &event.event_type {
            crate::events::EventType::Goal { .. } => 1_000_000,
            crate::events::EventType::Card { .. } => 700_000,
            crate::events::EventType::HalfTime => 300_000,
            crate::events::EventType::FullTime => 0,
            _ => 100_000,
        };
        fv.set_feature("event_influence", event_influence);
        fv.set_feature("home_advantage", 1_000_000);

        // Temporal features, from the wall clock.
        let now = ext::now_unix_seconds();
        let t: u64 = if now < 0 {
            0
        } else {
            now as u64
        };
        let hour: u64 = (t / 3600) % 24;
        let day_of_week: u64 = ((t / 86400) + 3) % 7 + 1;
        fv.set_feature("hour_of_day", (hour as i64) * 1_000_000);
        fv.set_feature("is_evening", if hour >= 18 { 1_000_000 } else { 0 });
        fv.set_feature("day_of_week", (day_of_week as i64) * 1_000_000);
        fv.set_feature("is_weekend", if day_of_week >= 6 { 1_000_000 } else { 0 });

        // League-context features.
        fv.set_feature("league_avg_goals", #[verifier::truncate] (avgs.avg_goals_per_match as i64));
        fv.set_feature("league_avg_cards", #[verifier::truncate] (avgs.avg_cards_per_match as i64));
        fv.set_feature("league_home_advantage", #[verifier::truncate] (avgs.home_advantage as i64));
        let competitiveness: i64 = if event.league == "Premier League".to_string() {
            950_000
        } else if event.league == "La Liga".to_string() {
            900_000
        } else if event.league == "Bundesliga".to_string() {
            850_000
        } else if event.league == "Serie A".to_string() {
            850_000
        } else if event.league == "Ligue 1".to_string() {
            800_000
        } else {
            700_000
        };
        fv.set_feature("league_competitiveness", competitiveness);

        proof {
            reveal_strlit("minute");
            reveal_strlit("home_score");
            reveal_strlit("away_score");
            reveal_strlit("score_difference");
            reveal_strlit("total_goals");
            reveal_strlit("momentum");
            reveal_strlit("intensity");
            reveal_strlit("game_phase");
            reveal_strlit("time_pressure");
            reveal_strlit("home_elo");
            reveal_strlit("away_elo");
            reveal_strlit("elo_difference");
            reveal_strlit("home_attack");
            reveal_strlit("home_defense");
            reveal_strlit("away_attack");
            reveal_strlit("away_defense");
            reveal_strlit("home_expected_goals");
            reveal_strlit("away_expected_goals");
            reveal_strlit("home_form");
            reveal_strlit("away_form");
            reveal_strlit("form_difference");
            reveal_strlit("home_discipline");
            reveal_strlit("away_discipline");
            reveal_strlit("match_status");
            reveal_strlit("event_influence");
            reveal_strlit("home_advantage");
            reveal_strlit("hour_of_day");
            reveal_strlit("is_evening");
            reveal_strlit("day_of_week");
            reveal_strlit("is_weekend");
            reveal_strlit("league_avg_goals");
            reveal_strlit("league_avg_cards");
            reveal_strlit("league_home_advantage");
            reveal_strlit("league_competitiveness");
            assert("minute"@.len() == 6);
            assert("home_score"@.len() == 10);
            assert("away_score"@.len() == 10);
            assert("score_difference"@.len() == 16);
            assert("total_goals"@.len() == 11);
            assert("momentum"@.len() == 8);
            assert("intensity"@.len() == 9);
            assert("game_phase"@.len() == 10);
            assert("time_pressure"@.len() == 13);
            assert("home_elo"@.len() == 8);
            assert("away_elo"@.len() == 8);
            assert("elo_difference"@.len() == 14);
            assert("home_attack"@.len() == 11);
            assert("home_defense"@.len() == 12);
            assert("away_attack"@.len() == 11);
            assert("away_defense"@.len() == 12);
            assert("home_expected_goals"@.len() == 19);
            assert("away_expected_goals"@.len() == 19);
            assert("home_form"@.len() == 9);
            assert("away_form"@.len() == 9);
            assert("form_difference"@.len() == 15);
            assert("home_discipline"@.len() == 15);
            assert("away_discipline"@.len() == 15);
            assert("match_status"@.len() == 12);
            assert("event_influence"@.len() == 15);
            assert("home_advantage"@.len() == 14);
            assert("hour_of_day"@.len() == 11);
            assert("is_evening"@.len() == 10);
            assert("day_of_week"@.len() == 11);
            assert("is_weekend"@.len() == 10);
            assert("league_avg_goals"@.len() == 16);
            assert("league_avg_cards"@.len() == 16);
            assert("league_home_advantage"@.len() == 21);
            assert("league_competitiveness"@.len() == 22);
            assert("minute"@[0] == 'm');
            assert("home_score"@[0] == 'h');
            assert("away_score"@[0] == 'a');
            assert("score_difference"@[0] == 's');
            assert("total_goals"@[0] == 't');
            assert("momentum"@[0] == 'm');
            assert("intensity"@[0] == 'i');
            assert("game_phase"@[0] == 'g');
            assert("time_pressure"@[0] == 't');
            assert("home_elo"@[0] == 'h');
            assert("away_elo"@[0] == 'a');
            assert("elo_difference"@[0] == 'e');
            assert("home_attack"@[0] == 'h');
            assert("home_defense"@[0] == 'h');
            assert("away_attack"@[0] == 'a');
            assert("away_defense"@[0] == 'a');
            assert("home_expected_goals"@[0] == 'h');
            assert("away_expected_goals"@[0] == 'a');
            assert("home_form"@[0] == 'h');
            assert("away_form"@[0] == 'a');
            assert("form_difference"@[0] == 'f');
            assert("home_discipline"@[0] == 'h');
            assert("away_discipline"@[0] == 'a');
            assert("match_status"@[0] == 'm');
            assert("event_influence"@[0] == 'e');
            assert("home_advantage"@[0] == 'h');
            assert("hour_of_day"@[0] == 'h');
            assert("is_evening"@[0] == 'i');
            assert("day_of_week"@[0] == 'd');
            assert("is_weekend"@[0] == 'i');
            assert("league_avg_goals"@[0] == 'l');
            assert("league_avg_cards"@[0] == 'l');
            assert("league_home_advantage"@[0] == 'l');
            assert("league_competitiveness"@[0] == 'l');
            assert("home_attack"@[2] == 'm');
            assert("hour_of_day"@[2] == 'u');
            assert("is_evening"@[3] == 'e');
            assert("is_weekend"@[3] == 'w');
            assert("league_avg_goals"@[11] == 'g');
            assert("league_avg_cards"@[11] == 'c');
        }

        Ok(fv)
    }
}

} // verus!
