//! What a turn and the models make of a model call: the health of the model,
//! the model that takes over, and what the clients are told.
use vstd::prelude::*;

use crate::config::LlmStrength;
use crate::events::ServerEvent;
use crate::llm::manager::{
    chosen, law_choice_is_best, lemma_model_index, models_of, scope_text, LlmManager,
};
use crate::session::turn::{
    below, first_line_of, is_llm_failed, is_retriable_llm_error, FailureStep, Phase, Turn,
};
use crate::text::texts;

verus! {

/// The model replied: it is healthy again, and its reply is to be saved.
pub fn call_replied(turn: &mut Turn, models: &mut LlmManager)
    requires
        old(turn).wf(),
        old(turn).phase == Phase::Calling,
        old(models).wf(),
    ensures
        final(turn).wf(),
        final(turn).moved_to(old(turn), Phase::Saving),
        below(final(turn).rank(), old(turn).rank()),
        final(models).wf(),
        final(models).marked_well(old(models), old(turn).model@),
{
    models.mark_success(turn.model.as_str());
    turn.call_succeeded();
}

/// The position of the model that takes over after a failure, if any: the best
/// fit for the agent that was not tried in this round.
pub open spec fn successor(
    turn: Turn,
    models: LlmManager,
    error: Seq<char>,
    scope: Option<&str>,
    strength: Option<LlmStrength>,
) -> Option<usize> {
    if turn.may_fall_back(error) {
        chosen(models.slots@, texts(turn.tried@), scope_text(scope), strength)
    } else {
        None
    }
}

/// The model call failed: the failure is counted, and another model takes over
/// or the turn is over. The first result says whether to call the turn's model
/// now, the second is the event to send.
pub fn fall_back(
    turn: &mut Turn,
    models: &mut LlmManager,
    error: &str,
    scope: Option<&str>,
    strength: Option<LlmStrength>,
) -> (r: (bool, ServerEvent))
    requires
        old(turn).wf(),
        old(turn).phase == Phase::Calling,
        old(models).wf(),
        old(models).can_mark_failure(old(turn).model@),
    ensures
        final(turn).wf(),
        below(final(turn).rank(), old(turn).rank()),
        final(models).wf(),
        final(models).marked_failed(old(models), old(turn).model@, error@),
        match successor(*old(turn), *final(models), error@, scope, strength) {
            Some(i) => {
                let next = final(models).slots@[i as int].model.name@;
                &&& r.0
                &&& final(turn).model@ == next
                &&& texts(final(turn).tried@) == texts(old(turn).tried@).push(next)
                &&& *final(turn) == Turn {
                    model: final(turn).model,
                    tried: final(turn).tried,
                    ..*old(turn)
                }
                &&& r.1 matches ServerEvent::ModelFallback { from, to, reason } && from@
                    == old(turn).model@ && to@ == next && reason@ == first_line_of(error@)
            },
            None => {
                &&& !r.0
                &&& final(turn).moved_to(old(turn), Phase::Ended)
                &&& is_llm_failed(r.1, texts(old(turn).tried@), error@)
            },
        },
{
    models.mark_failure(turn.model.as_str(), error);
    match turn.call_failed(error) {
        FailureStep::GiveUp(event) => (false, event),
        FailureStep::SelectAnother => match models.select_excluding(&turn.tried, scope, strength) {
            Ok(i) => {
                let next: String = models.slots[i].model.name.clone();
                (true, turn.model_selected(next, error))
            },
            Err(_) => (false, turn.no_model_selected(error)),
        },
    }
}

/// What follows a failed call: another model is called next exactly where
/// fewer than three were tried in this round, the failure is worth it and a
/// model is left that was not tried. In any case the failure is counted against
/// the model that failed, and only against it.
pub proof fn law_fall_back(
    turn: &mut Turn,
    models: &mut LlmManager,
    error: &str,
    scope: Option<&str>,
    strength: Option<LlmStrength>,
    r: (bool, ServerEvent),
    worth_it: bool,
)
    requires
        call_ensures(fall_back, (turn, models, error, scope, strength), r),
        call_ensures(is_retriable_llm_error, (error,), worth_it),
        old(turn).wf(),
        old(models).wf(),
        final(models).slots@.len() <= usize::MAX,
    ensures
        r.0 <==> old(turn).tried@.len() < 3 && worth_it && exists|k: int|
            0 <= k < old(models).slots@.len() && !texts(old(turn).tried@).contains(
                (#[trigger] old(models).slots@[k]).model.name@,
            ),
        r.0 ==> {
            &&& r.1 is ModelFallback
            &&& final(turn).phase == old(turn).phase
            &&& !texts(old(turn).tried@).contains(final(turn).model@)
            &&& texts(final(turn).tried@) == texts(old(turn).tried@).push(final(turn).model@)
            &&& exists|k: int|
                0 <= k < old(models).slots@.len() && (#[trigger] old(models).slots@[k]).model.name@
                    == final(turn).model@
        },
        !r.0 ==> r.1 is LlmFailed && final(turn).phase == Phase::Ended,
        final(models).slots@.len() == old(models).slots@.len(),
        forall|k: int|
            0 <= k < old(models).slots@.len() ==> (#[trigger] final(models).slots@[k]).model
                == old(models).slots@[k].model && (old(models).slots@[k].model.name@ != old(
                turn,
            ).model@ ==> final(models).slots@[k] == old(models).slots@[k]),
{
    let m = *final(models);
    let name = old(turn).model@;
    lemma_index_of(*old(models), name);
    assert forall|k: int| 0 <= k < old(models).slots@.len() implies (#[trigger] m.slots@[k]).model
        == old(models).slots@[k].model && (old(models).slots@[k].model.name@ != name
        ==> m.slots@[k] == old(models).slots@[k]) by {}
    law_choice_is_best(m.slots@, texts(old(turn).tried@), scope_text(scope), strength);
    let tried = texts(old(turn).tried@);
    let next = chosen(m.slots@, tried, scope_text(scope), strength);
    match next {
        Some(i) => {
            assert(old(models).slots@[i as int].model.name@ == m.slots@[i as int].model.name@);
            assert(!tried.contains(old(models).slots@[i as int].model.name@));
        },
        None => {
            assert forall|k: int| 0 <= k < old(models).slots@.len() implies tried.contains(
                (#[trigger] old(models).slots@[k]).model.name@,
            ) by {
                assert(tried.contains(m.slots@[k].model.name@));
            }
        },
    }
}

proof fn lemma_index_of(m: LlmManager, name: Seq<char>)
    ensures
        m.index_of(name) matches Some(i) ==> 0 <= i < m.slots@.len() && m.slots@[i].model.name@
            == name,
{
    lemma_model_index(models_of(m.slots@), name);
}

/// A model that answers counts as healthy again, and its answer is saved.
pub proof fn law_a_reply_heals(turn: &mut Turn, models: &mut LlmManager, name: &str, at: Option<usize>)
    requires
        call_ensures(call_replied, (turn, models), ()),
        name@ == old(turn).model@,
        call_ensures(LlmManager::position, (&*old(models), name), at),
    ensures
        final(turn).phase is Saving && final(turn).model == old(turn).model,
        at matches Some(i) ==> final(models).slots@[i as int].health.status is Healthy
            && final(models).slots@[i as int].health.consecutive_failures == 0
            && final(models).slots@[i as int].health.last_error is None,
        final(models).slots@.len() == old(models).slots@.len(),
{
}

} // verus!
