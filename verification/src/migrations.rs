//! The ordered list of schema migrations the storage collaborator applies.

use vstd::prelude::*;

verus! {

/// The text of the initial schema migration.
pub open spec fn spec_initial_schema() -> Seq<char> {
    "CREATE TABLE IF NOT EXISTS matches (\
        id UUID PRIMARY KEY, match_id TEXT NOT NULL UNIQUE, team_home TEXT NOT NULL, \
        team_away TEXT NOT NULL, league TEXT NOT NULL, season TEXT NOT NULL, \
        status TEXT NOT NULL, created_at TIMESTAMPTZ NOT NULL DEFAULT now()); \
        CREATE TABLE IF NOT EXISTS events (\
        id UUID PRIMARY KEY, match_id TEXT NOT NULL REFERENCES matches(match_id), \
        event_type TEXT NOT NULL, payload JSONB, created_at TIMESTAMPTZ NOT NULL DEFAULT now()); \
        CREATE TABLE IF NOT EXISTS predictions (\
        id UUID PRIMARY KEY, match_id TEXT NOT NULL, model_name TEXT NOT NULL, \
        model_version TEXT NOT NULL, home_win_prob BIGINT NOT NULL, \
        draw_prob BIGINT, away_win_prob BIGINT NOT NULL, confidence BIGINT NOT NULL, \
        created_at TIMESTAMPTZ NOT NULL DEFAULT now()); \
        CREATE TABLE IF NOT EXISTS bets (\
        id UUID PRIMARY KEY, match_id TEXT NOT NULL, bet_type TEXT NOT NULL, \
        stake BIGINT NOT NULL, odds BIGINT NOT NULL, status TEXT NOT NULL, \
        created_at TIMESTAMPTZ NOT NULL DEFAULT now()); \
        CREATE TABLE IF NOT EXISTS odds (\
        id UUID PRIMARY KEY, match_id TEXT NOT NULL, home_win BIGINT NOT NULL, \
        draw BIGINT NOT NULL, away_win BIGINT NOT NULL, \
        created_at TIMESTAMPTZ NOT NULL DEFAULT now());"@
}

/// Every migration as a `(version, sql)` pair, in the order they apply:
/// exactly one, version `001`, carrying the initial schema's text.
pub fn get_migrations() -> (r: Vec<(&'static str, &'static str)>)
    ensures
        r@.len() == 1,
        r@[0].0@ == "001"@,
        r@[0].1@ == spec_initial_schema(),
{
    let mut out: Vec<(&'static str, &'static str)> = Vec::new();
    let schema: &'static str = "CREATE TABLE IF NOT EXISTS matches (\
        id UUID PRIMARY KEY, match_id TEXT NOT NULL UNIQUE, team_home TEXT NOT NULL, \
        team_away TEXT NOT NULL, league TEXT NOT NULL, season TEXT NOT NULL, \
        status TEXT NOT NULL, created_at TIMESTAMPTZ NOT NULL DEFAULT now()); \
        CREATE TABLE IF NOT EXISTS events (\
        id UUID PRIMARY KEY, match_id TEXT NOT NULL REFERENCES matches(match_id), \
        event_type TEXT NOT NULL, payload JSONB, created_at TIMESTAMPTZ NOT NULL DEFAULT now()); \
        CREATE TABLE IF NOT EXISTS predictions (\
        id UUID PRIMARY KEY, match_id TEXT NOT NULL, model_name TEXT NOT NULL, \
        model_version TEXT NOT NULL, home_win_prob BIGINT NOT NULL, \
        draw_prob BIGINT, away_win_prob BIGINT NOT NULL, confidence BIGINT NOT NULL, \
        created_at TIMESTAMPTZ NOT NULL DEFAULT now()); \
        CREATE TABLE IF NOT EXISTS bets (\
        id UUID PRIMARY KEY, match_id TEXT NOT NULL, bet_type TEXT NOT NULL, \
        stake BIGINT NOT NULL, odds BIGINT NOT NULL, status TEXT NOT NULL, \
        created_at TIMESTAMPTZ NOT NULL DEFAULT now()); \
        CREATE TABLE IF NOT EXISTS odds (\
        id UUID PRIMARY KEY, match_id TEXT NOT NULL, home_win BIGINT NOT NULL, \
        draw BIGINT NOT NULL, away_win BIGINT NOT NULL, \
        created_at TIMESTAMPTZ NOT NULL DEFAULT now());";
    out.push(("001", schema));
    out
}

} // verus!
