//! The prediction service: wires the feature engineer to the ensemble model
//! and counts the predictions it has produced.

use vstd::prelude::*;

use crate::errors::QuantsError;
use crate::events::MatchEvent;
use crate::features::FeatureEngineer;
use crate::models::{EnsembleModel, Model};
use crate::predictions::{FeatureVector, Prediction};

verus! {

/// Feature engineering and model inference behind one call.
pub struct PredictorService {
    pub feature_engineer: FeatureEngineer,
    pub model: Model,
    pub prediction_count: u64,
}

impl PredictorService {
    /// Engineer and model both well-formed.
    pub open spec fn wf(&self) -> bool {
        &&& self.feature_engineer.wf()
        &&& self.model.wf()
    }

    /// A fresh service over a fresh engineer and the ensemble model.
    pub fn new() -> (r: PredictorService)
        ensures
            r.wf(),
            r.prediction_count == 0,
            r.model.spec_name() == "EnsembleModel"@,
    {
        PredictorService {
            feature_engineer: FeatureEngineer::new(),
            model: Model::Ensemble(EnsembleModel::new()),
            prediction_count: 0,
        }
    }

    /// Extract features from the event and score them; counts the
    /// prediction. The engineer's match context and team entries move
    /// exactly as feature extraction says, and the result is the model's
    /// own pipeline applied to the extracted snapshot — every feature of
    /// that snapshot is pinned against the updated state except the four
    /// clock-driven temporal ones, which are bounded.
    pub fn predict(&mut self, event: &MatchEvent) -> (r: Result<Prediction, QuantsError>)
        requires
            old(self).wf(),
            old(self).prediction_count < u64::MAX,
        ensures
            final(self).wf(),
            r is Ok,
            final(self).model == old(self).model,
            crate::features::context_map(final(self).feature_engineer.match_contexts)
                == crate::features::context_map(old(self).feature_engineer.match_contexts)
                    .insert(event.match_id@, crate::features::spec_context_after(
                        crate::features::spec_ctx_or_new(
                            crate::features::context_map(
                                old(self).feature_engineer.match_contexts),
                            event.match_id@,
                        ),
                        event,
                    )),
            forall|k: Seq<char>| #[trigger] crate::features::team_map(
                final(self).feature_engineer.team_stats).contains_key(k)
                <==> (crate::features::team_map(
                    old(self).feature_engineer.team_stats).contains_key(k)
                    || k == event.team_home@ || k == event.team_away@),
            forall|k: Seq<char>| crate::features::team_map(
                old(self).feature_engineer.team_stats).contains_key(k)
                ==> #[trigger] crate::features::team_map(
                    final(self).feature_engineer.team_stats)[k]
                    == crate::features::team_map(old(self).feature_engineer.team_stats)[k],
            r matches Ok(p) ==> {
                &&& p.wf()
                &&& p.match_id == event.match_id
                &&& p.model_name@ == final(self).model.spec_name()
                &&& exists|fv: FeatureVector|
                    #![trigger crate::features::spec_snapshot_of(
                        &final(self).feature_engineer, event, &fv)]
                    crate::features::spec_snapshot_of(&final(self).feature_engineer, event, &fv)
                        && p.home_win_prob
                            == crate::models::spec_model_probs(&old(self).model, &fv).0
                        && p.draw_prob == Some(
                            crate::models::spec_model_probs(&old(self).model, &fv).1 as u64)
                        && p.away_win_prob
                            == crate::models::spec_model_probs(&old(self).model, &fv).2
                        && p.confidence
                            == crate::models::spec_model_confidence(&old(self).model, &fv)
            },
            (r is Ok) ==> final(self).prediction_count == old(self).prediction_count + 1,
    {
        let features = match self.feature_engineer.extract_features(event) {
            Ok(f) => f,
            Err(e) => {
                return Err(e);
            }
        };
        let prediction = match self.model.predict(&features) {
            Ok(p) => p,
            Err(e) => {
                return Err(e);
            }
        };
        self.prediction_count = self.prediction_count + 1;
        proof {
            assert(crate::features::spec_snapshot_of(
                &self.feature_engineer, event, &features));
        }
        Ok(prediction)
    }

    /// Forward an observed result into the engineer's team statistics.
    pub fn update_team_performance(&mut self, team: &str, goals_for: u32, goals_against: u32)
        requires
            old(self).wf(),
        ensures
            final(self).wf(),
            crate::features::team_map(final(self).feature_engineer.team_stats)
                .contains_key(team@),
            final(self).prediction_count == old(self).prediction_count,
    {
        self.feature_engineer.update_team_stats(team, goals_for, goals_against);
    }

    /// How many predictions this service has produced.
    pub fn get_prediction_count(&self) -> (r: u64)
        ensures
            r == self.prediction_count,
    {
        self.prediction_count
    }

    /// A view of the feature engineer, for the control surface.
    pub fn get_feature_engineer(&self) -> (r: &FeatureEngineer)
        ensures
            r == self.feature_engineer,
    {
        &self.feature_engineer
    }
}

} // verus!
