//! Immutable facts about a match at a point in time, as the ingestion side
//! hands them to the core.

use vstd::prelude::*;

use crate::ext;

verus! {

/// The tagged kind of a match event.
#[derive(Debug, Clone, PartialEq)]
pub enum EventType {
    MatchStart,
    Goal { team: String, player: Option<String>, minute: u8 },
    Card { team: String, player: String, card_type: CardType, minute: u8 },
    Substitution { team: String, player_in: String, player_out: String, minute: u8 },
    HalfTime,
    FullTime,
    MatchEnd,
    OddsUpdate,
}

/// Yellow or red.
#[derive(Debug, Clone, Copy, PartialEq, Eq, Structural)]
pub enum CardType {
    Yellow,
    Red,
}

/// Where a match stands in its lifecycle.
#[derive(Debug, Clone, Copy, PartialEq, Eq, Structural)]
pub enum MatchStatus {
    Scheduled,
    Live,
    HalfTime,
    Finished,
    Postponed,
    Cancelled,
}

/// A running score, with the half-time score once known.
#[derive(Debug, Clone, Copy, PartialEq, Eq, Structural)]
pub struct Score {
    pub home: u8,
    pub away: u8,
    pub half_time_home: Option<u8>,
    pub half_time_away: Option<u8>,
}

/// One immutable fact about a match: who plays, what happened, where the
/// match stands. Consumed, never mutated, by every core component.
#[derive(Debug, Clone)]
pub struct MatchEvent {
    pub id: String,
    pub match_id: String,
    pub timestamp: i64,
    pub event_type: EventType,
    pub team_home: String,
    pub team_away: String,
    pub league: String,
    pub season: String,
    pub match_status: MatchStatus,
    pub score: Option<Score>,
}

impl MatchEvent {
    /// A fresh event, scheduled and scoreless until stated otherwise.
    pub fn new(
        match_id: String,
        event_type: EventType,
        team_home: String,
        team_away: String,
        league: String,
        season: String,
    ) -> (r: MatchEvent)
        ensures
            r.match_id == match_id,
            r.event_type == event_type,
            r.team_home == team_home,
            r.team_away == team_away,
            r.league == league,
            r.season == season,
            r.match_status == MatchStatus::Scheduled,
            r.score is None,
    {
        MatchEvent {
            id: ext::fresh_id(),
            match_id,
            timestamp: ext::now_unix_seconds(),
            event_type,
            team_home,
            team_away,
            league,
            season,
            match_status: MatchStatus::Scheduled,
            score: None,
        }
    }

    /// The same event carrying a score.
    pub fn with_score(self, score: Score) -> (r: MatchEvent)
        ensures
            r == (MatchEvent { score: Some(score), ..self }),
    {
        MatchEvent { score: Some(score), ..self }
    }

    /// The same event at another lifecycle stage.
    pub fn with_status(self, status: MatchStatus) -> (r: MatchEvent)
        ensures
            r == (MatchEvent { match_status: status, ..self }),
    {
        MatchEvent { match_status: status, ..self }
    }

    /// In play, including the half-time break.
    pub fn is_live(&self) -> (r: bool)
        ensures
            r == (self.match_status == MatchStatus::Live
                || self.match_status == MatchStatus::HalfTime),
    {
        match self.match_status {
            MatchStatus::Live => true,
            MatchStatus::HalfTime => true,
            _ => false,
        }
    }

    /// Played to the end.
    pub fn is_finished(&self) -> (r: bool)
        ensures
            r == (self.match_status == MatchStatus::Finished),
    {
        match self.match_status {
            MatchStatus::Finished => true,
            _ => false,
        }
    }
}

} // verus!
