//! Properties that hold across the planner's operations.

use vstd::prelude::*;

use super::spec::with_id;
use super::{DeploymentModel, Generation, RetryReceipt};
use crate::identifiers::RetryId;
use crate::model::{DeployPlan, DeploymentEvent, GenerationId, GenerationStatus};
use crate::identifiers::{blank, retry_text_valid, BuildId};
use crate::search::{first_match, lemma_first_match, lemma_match_push, lemma_matches_agree};
use super::spec::{
    activation_consistent, active_with_build, bound_generation, previous_after_pause, text_of, with_build,
    with_nonce, with_status,
};
use crate::model::{ActivationPhase, DeployError};

verus! {

/// Replacing a generation's record keeps every id where it was.
pub proof fn lemma_set_generation_keeps_ids(m: DeploymentModel, i: int, generation: Generation, id: GenerationId)
    requires
        0 <= i < m.generations.len(),
    ensures
        m.set_generation(i, generation).index_of(id) == m.index_of(id),
        m.set_generation(i, generation).generations.len() == m.generations.len(),
{
    let t = m.set_generation(i, generation).generations;
    assert forall|j: int| 0 <= j < m.generations.len() implies with_id(id)(#[trigger] m.generations[j])
        == with_id(id)(t[j]) by {}
    lemma_matches_agree(m.generations, with_id(id), t, with_id(id));
}

/// Replaying a reported event once it was accepted changes nothing and
/// returns the same next action: every report is idempotent.
pub proof fn law_reconcile_idempotent(m: DeploymentModel, event: DeploymentEvent)
    requires
        m.reconcile(event).1 is Ok,
    ensures
        m.reconcile(event).0.reconcile(event) == m.reconcile(event),
{
    let next = m.reconcile(event).0;
    assert(m.transition(event) == Ok::<DeploymentModel, crate::model::DeployError>(next));
    lemma_transition_idempotent(m, event);
}

/// A second report of the same outcome leaves the state it produced unchanged.
proof fn lemma_transition_idempotent(m: DeploymentModel, event: DeploymentEvent)
    requires
        m.transition(event) is Ok,
    ensures
        m.transition(event)->Ok_0.transition(event) == m.transition(event),
{
    let next = m.transition(event)->Ok_0;
    match event {
        DeploymentEvent::Prepared { target } => {},
        DeploymentEvent::PreviousPaused { target } => {},
        DeploymentEvent::TargetAccepting { target } => {},
        DeploymentEvent::AdmissionsResumed { failed_target } => {},
        DeploymentEvent::ConnectionsObserved { generation, active } => {
            lemma_first_match(m.generations, with_id(generation));
            let i = m.index_of(generation)->0;
            if m.generations[i].1.status == GenerationStatus::Active
                || m.generations[i].1.status == GenerationStatus::Draining {
                let g = Generation { active_connections: Some(active), ..m.generations[i].1 };
                lemma_set_generation_keeps_ids(m, i, g, generation);
                assert(next.set_generation(i, g) =~= next);
            }
        },
        DeploymentEvent::Retired { generation } => {
            lemma_first_match(m.generations, with_id(generation));
            let i = m.index_of(generation)->0;
            if m.generations[i].1.status != GenerationStatus::Retired {
                let g = super::spec::with_generation_status(m.generations[i].1, GenerationStatus::Retired);
                lemma_set_generation_keeps_ids(m, i, g, generation);
            }
        },
        DeploymentEvent::Failed { generation, reason } => {
            lemma_first_match(m.generations, with_id(generation));
            let i = m.index_of(generation)->0;
            let status = m.generations[i].1.status;
            if status != GenerationStatus::Failed && status != GenerationStatus::Retired {
                let g = Generation {
                    status: GenerationStatus::Failed,
                    failure: Some(reason),
                    ..m.generations[i].1
                };
                lemma_set_generation_keeps_ids(m, i, g, generation);
            }
        },
    }
}

/// The state `stage` produces, when it succeeds.
pub open spec fn staged(m: DeploymentModel, build: BuildId) -> DeploymentModel {
    m.stage(build)->Ok_0.0
}

/// Staging a non-blank build when nothing else is staged keeps a valid state valid.
pub proof fn lemma_stage_valid(m: DeploymentModel, build: BuildId)
    requires
        m.valid(),
        !m.has_status(GenerationStatus::Staged),
        !blank(build@),
        m.stage(build) is Ok,
    ensures
        staged(m, build).valid(),
{
    let s = staged(m, build);
    let n = m.next_generation;
    let entry = s.generations.last();
    assert(s.generations == m.generations.push(entry));
    assert forall|id: GenerationId| m.index_of(id) is Some implies s.index_of(id) == m.index_of(id) by {
        lemma_match_push(m.generations, entry, with_id(id));
    }
    assert(!s.id_out_of_range()) by {
        assert forall|i: int| 0 <= i < s.generations.len() implies !((#[trigger] s.generations[i]).0.0 == 0
            || s.generations[i].0.0 >= s.next_generation) by {
            if i < m.generations.len() {
                assert(m.generations[i] == s.generations[i]);
            }
        }
    }
    assert(!s.blank_build()) by {
        assert forall|i: int| 0 <= i < s.generations.len() implies !blank((#[trigger] s.generations[i]).1.build@) by {
            if i < m.generations.len() {
                assert(m.generations[i] == s.generations[i]);
            }
        }
    }
    assert(!s.status_repeated(GenerationStatus::Active)) by {
        assert forall|i: int, j: int| 0 <= i < j < s.generations.len() implies !((#[trigger] s.generations[i]).1.status
            == GenerationStatus::Active && (#[trigger] s.generations[j]).1.status == GenerationStatus::Active) by {
            if j < m.generations.len() {
                assert(m.generations[i] == s.generations[i] && m.generations[j] == s.generations[j]);
            }
        }
    }
    assert(!s.status_repeated(GenerationStatus::Staged)) by {
        assert forall|i: int, j: int| 0 <= i < j < s.generations.len() implies !((#[trigger] s.generations[i]).1.status
            == GenerationStatus::Staged && (#[trigger] s.generations[j]).1.status == GenerationStatus::Staged) by {
            assert(m.generations[i] == s.generations[i]);
        }
    }
    assert(!s.failure_contradiction()) by {
        assert forall|i: int| 0 <= i < s.generations.len() implies super::spec::failure_consistent(
            (#[trigger] s.generations[i]).1,
        ) by {
            if i < m.generations.len() {
                assert(m.generations[i] == s.generations[i]);
            }
        }
    }
    if let Some(id) = m.last_rollback {
        lemma_match_push(m.generations, entry, with_id(id));
        lemma_first_match(m.generations, with_id(id));
        let i = m.index_of(id)->0;
        assert(s.generations[i] == m.generations[i]);
    }
    assert(!s.receipts_invalid()) by {
        assert forall|k: int| 0 <= k < s.retry_receipts.len() implies !s.receipt_invalid(#[trigger] s.retry_receipts[k]) by {
            assert(!m.receipt_invalid(m.retry_receipts[k]));
            assert(m.retry_receipts[k] == s.retry_receipts[k]);
            let g = m.retry_receipts[k].1.generation;
            lemma_match_push(m.generations, entry, with_id(g));
            lemma_first_match(m.generations, with_id(g));
            let i = m.index_of(g)->0;
            assert(s.generations[i] == m.generations[i]);
        }
    }
}

/// Deploying the same build twice records its intent once: the second
/// request leaves the state as the first left it and returns the same action.
pub proof fn law_plan_deploy_idempotent(m: DeploymentModel, build: BuildId)
    requires
        !blank(build@),
        m.plan_deploy(build).1 is Ok,
    ensures
        m.plan_deploy(build).0.plan_deploy(build) == m.plan_deploy(build),
{
    if m.current_attempt_for(build@) is None {
        let s = staged(m, build);
        let entry = s.generations.last();
        assert(s.generations == m.generations.push(entry));
        lemma_stage_valid(m, build);
        lemma_match_push(m.generations, entry, active_with_build(build@));
        lemma_match_push(m.generations, entry, with_build(build@));
        lemma_match_push(m.generations, entry, with_status(GenerationStatus::Staged));
        lemma_first_match(m.generations, with_status(GenerationStatus::Staged));
        assert(s.current_attempt_for(build@) == Some((entry.0, GenerationStatus::Staged)));
        assert(s.has_status(GenerationStatus::Staged)) by {
            assert(s.generations[s.generations.len() - 1].1.status == GenerationStatus::Staged);
        }
    }
}

/// `after` keeps every generation of `before` under the same id and build,
/// and every generation it adds has an id `before` had not yet handed out.
pub open spec fn extends_history(before: DeploymentModel, after: DeploymentModel) -> bool {
    &&& after.next_generation >= before.next_generation
    &&& after.generations.len() >= before.generations.len()
    &&& forall|i: int|
        0 <= i < before.generations.len() ==> (#[trigger] after.generations[i]).0 == before.generations[i].0
            && after.generations[i].1.build == before.generations[i].1.build
    &&& forall|i: int|
        before.generations.len() <= i < after.generations.len() ==> (#[trigger] after.generations[i]).0.0
            >= before.next_generation
}

/// A transition only rewrites the records of existing generations and the activation.
proof fn lemma_transition_shape(m: DeploymentModel, event: DeploymentEvent)
    requires
        m.transition(event) is Ok,
    ensures
        ({
            let next = m.transition(event)->Ok_0;
            &&& next.version == m.version
            &&& next.next_generation == m.next_generation
            &&& next.retry_receipts == m.retry_receipts
            &&& next.generations.len() == m.generations.len()
            &&& forall|i: int|
                0 <= i < m.generations.len() ==> (#[trigger] next.generations[i]).0 == m.generations[i].0
                    && next.generations[i].1.build == m.generations[i].1.build
        }),
{
    match event {
        DeploymentEvent::PreviousPaused { target } => {
            let a = m.activation->0;
            if let Some(p) = a.previous {
                lemma_first_match(m.generations, with_id(p));
            }
        },
        DeploymentEvent::TargetAccepting { target } => {
            lemma_first_match(m.generations, with_id(target));
        },
        DeploymentEvent::AdmissionsResumed { failed_target } => {
            if let Some(a) = m.activation {
                lemma_first_match(m.generations, with_id(a.previous->0));
            }
        },
        DeploymentEvent::ConnectionsObserved { generation, active } => {
            lemma_first_match(m.generations, with_id(generation));
        },
        DeploymentEvent::Retired { generation } => {
            lemma_first_match(m.generations, with_id(generation));
        },
        DeploymentEvent::Failed { generation, reason } => {
            lemma_first_match(m.generations, with_id(generation));
        },
        _ => {},
    }
}

/// Every report, accepted or refused, keeps generation ids and builds, and
/// keeps the state well formed.
pub proof fn law_reconcile_history(m: DeploymentModel, event: DeploymentEvent)
    requires
        m.wf(),
    ensures
        extends_history(m, m.reconcile(event).0),
        m.reconcile(event).0.wf(),
{
    if m.reconcile(event).1 is Ok {
        lemma_transition_shape(m, event);
    }
}

/// A refused report leaves the state exactly as it was.
pub proof fn law_reconcile_refusal_changes_nothing(m: DeploymentModel, event: DeploymentEvent)
    requires
        m.reconcile(event).1 is Err,
    ensures
        m.reconcile(event).0 == m,
{
}

/// Every accepted report leaves a state that passes validation.
pub proof fn law_reconcile_keeps_valid(m: DeploymentModel, event: DeploymentEvent)
    requires
        m.reconcile(event).1 is Ok,
    ensures
        m.reconcile(event).0.valid(),
{
}

/// Once a generation has failed or retired, a later failure report for it,
/// whatever its reason, changes nothing and returns the same action.
pub proof fn law_failure_report_idempotent(
    m: DeploymentModel,
    generation: GenerationId,
    first: String,
    second: String,
)
    requires
        m.reconcile(DeploymentEvent::Failed { generation, reason: first }).1 is Ok,
    ensures
        ({
            let after = m.reconcile(DeploymentEvent::Failed { generation, reason: first });
            after.0.reconcile(DeploymentEvent::Failed { generation, reason: second }) == after
        }),
{
    let event = DeploymentEvent::Failed { generation, reason: first };
    let next = m.reconcile(event).0;
    lemma_transition_shape(m, event);
    lemma_first_match(m.generations, with_id(generation));
    let i = m.index_of(generation)->0;
    let status = m.generations[i].1.status;
    if status != GenerationStatus::Failed && status != GenerationStatus::Retired {
        let g = Generation { status: GenerationStatus::Failed, failure: Some(first), ..m.generations[i].1 };
        lemma_set_generation_keeps_ids(m, i, g, generation);
    }
}

/// A generation is retired only after it drained to zero open connections.
pub proof fn law_retire_requires_drained(m: DeploymentModel, generation: GenerationId)
    requires
        m.reconcile(DeploymentEvent::Retired { generation }).1 is Ok,
    ensures
        m.status_of(generation) == Some(GenerationStatus::Retired) || (m.status_of(generation) == Some(
            GenerationStatus::Draining,
        ) && m.lookup(generation)->0.active_connections == Some(0u64)),
{
}

/// Planning a deployment keeps generation ids and builds, only ever adds a
/// generation under a fresh id, and keeps the state well formed.
pub proof fn law_plan_deploy_history(m: DeploymentModel, build: BuildId)
    requires
        m.wf(),
    ensures
        extends_history(m, m.plan_deploy(build).0),
        m.plan_deploy(build).0.wf(),
{
    if m.plan_deploy(build).1 is Ok && m.current_attempt_for(build@) is None {
        let s = staged(m, build);
        assert(!m.id_out_of_range());
        assert forall|i: int, j: int| 0 <= i < j < s.generations.len() implies (#[trigger] s.generations[i]).0.0
            < (#[trigger] s.generations[j]).0.0 by {
            if j == m.generations.len() {
                assert(m.generations[i] == s.generations[i]);
            } else {
                assert(m.generations[i] == s.generations[i] && m.generations[j] == s.generations[j]);
            }
        }
    }
}

/// A refused deployment request leaves the state exactly as it was.
pub proof fn law_plan_deploy_refusal_changes_nothing(m: DeploymentModel, build: BuildId)
    requires
        m.plan_deploy(build).1 is Err,
    ensures
        m.plan_deploy(build).0 == m,
{
}

/// Every accepted deployment request of a non-blank build leaves a valid state.
pub proof fn law_plan_deploy_keeps_valid(m: DeploymentModel, build: BuildId)
    requires
        !blank(build@),
        m.plan_deploy(build).1 is Ok,
    ensures
        m.plan_deploy(build).0.valid(),
{
    if m.current_attempt_for(build@) is None {
        lemma_stage_valid(m, build);
    }
}

/// A retry changes the state only by staging, and then it says so.
proof fn lemma_retry_deploy_shape(m: DeploymentModel, build: BuildId)
    requires
        m.wf(),
    ensures
        extends_history(m, m.retry_deploy(build).0),
        m.retry_deploy(build).0.wf(),
        m.retry_deploy(build).0.retry_receipts == m.retry_receipts,
        m.retry_deploy(build).0 != m ==> m.retry_deploy(build).1 matches Ok(Some(
            DeployPlan::StageTarget { .. },
        )),
{
    law_plan_deploy_history(m, build);
    if m.validate() is Ok && !m.deployment_in_progress() && !(m.has_build_with_status(
        build@,
        GenerationStatus::Active,
    ) || !m.has_build_with_status(build@, GenerationStatus::Failed)) && m.stage(build) is Ok {
        let s = staged(m, build);
        assert(!m.id_out_of_range());
        assert forall|i: int, j: int| 0 <= i < j < s.generations.len() implies (#[trigger] s.generations[i]).0.0
            < (#[trigger] s.generations[j]).0.0 by {
            if j == m.generations.len() {
                assert(m.generations[i] == s.generations[i]);
            } else {
                assert(m.generations[i] == s.generations[i] && m.generations[j] == s.generations[j]);
            }
        }
    }
    if m.retry_deploy(build).0 != m {
        if m.current_attempt_for(build@) is Some {
            assert(m.plan_deploy(build).0 == m);
        }
    }
}

/// An explicit retry keeps generation ids and builds, adds at most one
/// generation under a fresh id, and keeps the state well formed.
pub proof fn law_retry_deploy_history(m: DeploymentModel, build: BuildId)
    requires
        m.wf(),
    ensures
        extends_history(m, m.retry_deploy(build).0),
        m.retry_deploy(build).0.wf(),
{
    lemma_retry_deploy_shape(m, build);
}

/// A refused retry leaves the state exactly as it was.
pub proof fn law_retry_deploy_refusal_changes_nothing(m: DeploymentModel, build: BuildId)
    requires
        m.retry_deploy(build).1 is Err,
    ensures
        m.retry_deploy(build).0 == m,
{
}

/// Every accepted retry of a non-blank build leaves a valid state.
pub proof fn law_retry_deploy_keeps_valid(m: DeploymentModel, build: BuildId)
    requires
        !blank(build@),
        m.retry_deploy(build).1 is Ok,
    ensures
        m.retry_deploy(build).0.valid(),
{
    if m.plan_deploy(build).1 is Ok {
        law_plan_deploy_keeps_valid(m, build);
    }
    if !m.deployment_in_progress() && m.stage(build) is Ok {
        lemma_stage_valid(m, build);
    }
}

/// Binding a retry nonce keeps generation ids and builds and keeps the state well formed.
pub proof fn law_consume_retry_history(m: DeploymentModel, build: BuildId, id: RetryId)
    requires
        m.wf(),
    ensures
        extends_history(m, m.consume_retry(build, id).0),
        m.consume_retry(build, id).0.wf(),
{
    lemma_retry_deploy_shape(m, build);
    if m.validate() is Ok && m.receipt_index(id@) is None {
        let retried = m.retry_deploy(build).0;
        let after = m.consume_retry(build, id).0;
        lemma_first_match_facts_nonce(m.retry_receipts, id@);
        assert forall|i: int, j: int| 0 <= i < j < after.retry_receipts.len() implies (#[trigger] after.retry_receipts[i]).0@
            != (#[trigger] after.retry_receipts[j]).0@ by {
            if j == m.retry_receipts.len() {
                assert(!with_nonce(id@)(m.retry_receipts[i]));
            }
        }
    }
}

proof fn lemma_first_match_facts_nonce(receipts: Seq<(RetryId, RetryReceipt)>, id: Seq<char>)
    ensures
        first_match(receipts, with_nonce(id)) is None ==> forall|j: int|
            0 <= j < receipts.len() ==> !with_nonce(id)(#[trigger] receipts[j]),
{
    lemma_first_match(receipts, with_nonce(id));
}

/// A refused nonce binding leaves the state exactly as it was.
pub proof fn law_consume_retry_refusal_changes_nothing(m: DeploymentModel, build: BuildId, id: RetryId)
    requires
        m.wf(),
        m.consume_retry(build, id).1 is Err,
    ensures
        m.consume_retry(build, id).0 == m,
{
    lemma_retry_deploy_shape(m, build);
}

/// Replaying a bound nonce for its build never allocates again: it changes
/// nothing and reports the nonce as bound.
pub proof fn law_consume_retry_replay(m: DeploymentModel, build: BuildId, id: RetryId)
    requires
        m.wf(),
        m.consume_retry(build, id).1 == Ok::<bool, crate::model::DeployError>(true),
        m.consume_retry(build, id).0.valid(),
    ensures
        m.consume_retry(build, id).0.consume_retry(build, id) == m.consume_retry(build, id),
{
    lemma_retry_deploy_shape(m, build);
    let after = m.consume_retry(build, id).0;
    if m.receipt_index(id@) is None {
        lemma_first_match_facts_nonce(m.retry_receipts, id@);
        let retried = m.retry_deploy(build).0;
        crate::search::lemma_match_push(
            retried.retry_receipts,
            (id, RetryReceipt { build: build, generation: bound_generation(m.retry_deploy(build).1->Ok_0->0)->0 }),
            with_nonce(id@),
        );
        crate::search::lemma_first_match_none(m.retry_receipts, with_nonce(id@));
    }
}

/// A nonce is bound only to a generation of the build it asked for, and a
/// binding keeps a valid state valid.
pub proof fn law_consume_retry_binds_own_build(m: DeploymentModel, build: BuildId, id: RetryId)
    requires
        m.wf(),
        !blank(build@),
        retry_text_valid(id@),
        m.consume_retry(build, id).1 == Ok::<bool, crate::model::DeployError>(true),
    ensures
        m.consume_retry(build, id).0.valid(),
        m.consume_retry(build, id).0.receipt_index(id@) matches Some(k) && {
            let after = m.consume_retry(build, id).0;
            &&& after.retry_receipts[k].1.build@ == build@
            &&& after.holds_build(after.retry_receipts[k].1.generation, build@)
        },
{
    let after = m.consume_retry(build, id).0;
    lemma_retry_deploy_shape(m, build);
    law_consume_retry_history(m, build, id);
    match m.receipt_index(id@) {
        Some(k) => {
            lemma_first_match(m.retry_receipts, with_nonce(id@));
            assert(!m.receipt_invalid(m.retry_receipts[k]));
        },
        None => {
            law_retry_deploy_keeps_valid(m, build);
            let retried = m.retry_deploy(build).0;
            let generation = bound_generation(m.retry_deploy(build).1->Ok_0->0)->0;
            let receipt = (id, RetryReceipt { build: build, generation: generation });
            assert(after.retry_receipts == retried.retry_receipts.push(receipt));
            lemma_first_match_facts_nonce(m.retry_receipts, id@);
            lemma_match_push(retried.retry_receipts, receipt, with_nonce(id@));
            crate::search::lemma_first_match_none(m.retry_receipts, with_nonce(id@));
            assert(!after.receipts_invalid()) by {
                assert forall|k: int| 0 <= k < after.retry_receipts.len() implies !after.receipt_invalid(
                    #[trigger] after.retry_receipts[k],
                ) by {
                    if k < retried.retry_receipts.len() {
                        assert(after.retry_receipts[k] == retried.retry_receipts[k]);
                        assert(!retried.receipt_invalid(retried.retry_receipts[k]));
                    }
                }
            }
            assert(after.validate() == retried.validate());
        },
    }
}

/// A nonce already bound to `build` is answered as bound, with the state left
/// exactly as it is, however many reports, rollbacks or writes came since.
pub proof fn law_bound_nonce_replays(m: DeploymentModel, build: BuildId, id: RetryId)
    requires
        m.valid(),
        m.receipt_index(id@) matches Some(k) && m.retry_receipts[k].1.build@ == build@,
    ensures
        m.consume_retry(build, id) == (m, Ok::<bool, crate::model::DeployError>(true)),
{
}

/// Every operation but binding a nonce keeps the receipts exactly, so a bound
/// nonce stays bound through reports, deployments, retries and reservations.
pub proof fn law_receipts_survive(m: DeploymentModel, event: DeploymentEvent, build: BuildId, existing: u64)
    ensures
        m.reconcile(event).0.retry_receipts == m.retry_receipts,
        m.plan_deploy(build).0.retry_receipts == m.retry_receipts,
        m.retry_deploy(build).0.retry_receipts == m.retry_receipts,
        m.reserve_generation_ids_after(existing).0.retry_receipts == m.retry_receipts,
{
    if m.validate() is Ok && m.transition(event) is Ok {
        lemma_transition_shape(m, event);
    }
}

/// A status that is present is one of `allowed`; an absent one always fits.
pub open spec fn status_in(previous: Option<GenerationStatus>, allowed: Seq<GenerationStatus>) -> bool {
    match previous {
        None => true,
        Some(status) => allowed.contains(status),
    }
}

/// An activation is accepted exactly when its target and previous generation
/// exist and differ and their statuses fit it:
/// - a failed activation needs a failed target with the same reason, a phase
///   past `Prepared`, and a previous generation that is absent, draining,
///   retired or failed;
/// - `Prepared` needs a staged target and a previous one absent, active or failed;
/// - `PreviousPaused` needs a staged target and a previous one absent,
///   draining or failed;
/// - `TargetAccepting` needs an active target and a previous one absent,
///   draining, retired or failed.
/// A missing generation is reported by its id, any other refusal as an
/// invalid persisted state, and no activation at all is accepted.
pub proof fn law_activation_acceptance(m: DeploymentModel)
    ensures
        m.activation is None ==> m.validate_activation() == Ok::<(), DeployError>(()),
        m.activation is Some ==> ({
            let a = m.activation->0;
            let previous_found = match a.previous {
                Some(p) => m.lookup(p) is Some,
                None => true,
            };
            &&& m.lookup(a.target) is None ==> m.validate_activation() == Err::<(), DeployError>(
                DeployError::UnknownGeneration(a.target),
            )
            &&& (m.lookup(a.target) is Some && a.previous != Some(a.target) && a.previous is Some
                && m.lookup(a.previous->0) is None) ==> m.validate_activation() == Err::<(), DeployError>(
                DeployError::UnknownGeneration(a.previous->0),
            )
            &&& (m.lookup(a.target) is Some && (a.previous == Some(a.target) || previous_found))
                ==> m.validate_activation() is Ok || m.validate_activation() is Err && m.validate_activation()->Err_0
                is InvalidPersistedState
            &&& (m.lookup(a.target) is Some && previous_found) ==> {
                let target = m.lookup(a.target)->0.status;
                let target_failure = m.lookup(a.target)->0.failure;
                let previous = match a.previous {
                    Some(p) => Some(m.lookup(p)->0.status),
                    None => None,
                };
                (m.validate_activation() is Ok) <==> {
                    &&& a.previous != Some(a.target)
                    &&& if a.failure is Some {
                        &&& target == GenerationStatus::Failed
                        &&& text_of(target_failure) == text_of(a.failure)
                        &&& a.phase != ActivationPhase::Prepared
                        &&& status_in(
                            previous,
                            seq![GenerationStatus::Draining, GenerationStatus::Retired, GenerationStatus::Failed],
                        )
                    } else {
                        match a.phase {
                            ActivationPhase::Prepared => target == GenerationStatus::Staged && status_in(
                                previous,
                                seq![GenerationStatus::Active, GenerationStatus::Failed],
                            ),
                            ActivationPhase::PreviousPaused => target == GenerationStatus::Staged && status_in(
                                previous,
                                seq![GenerationStatus::Draining, GenerationStatus::Failed],
                            ),
                            ActivationPhase::TargetAccepting => target == GenerationStatus::Active && status_in(
                                previous,
                                seq![GenerationStatus::Draining, GenerationStatus::Retired, GenerationStatus::Failed],
                            ),
                        }
                    }
                }
            }
        }),
{
    if let Some(a) = m.activation {
        if let Some(p) = a.previous {
            if let Some(g) = m.lookup(p) {
                let s = g.status;
                assert(seq![GenerationStatus::Draining, GenerationStatus::Retired, GenerationStatus::Failed].contains(s)
                    <==> (s == GenerationStatus::Draining || s == GenerationStatus::Retired || s == GenerationStatus::Failed))
                    by {
                    if s == GenerationStatus::Retired {
                        assert(seq![GenerationStatus::Draining, GenerationStatus::Retired, GenerationStatus::Failed][1] == s);
                    }
                    if s == GenerationStatus::Failed {
                        assert(seq![GenerationStatus::Draining, GenerationStatus::Retired, GenerationStatus::Failed][2] == s);
                    }
                    if s == GenerationStatus::Draining {
                        assert(seq![GenerationStatus::Draining, GenerationStatus::Retired, GenerationStatus::Failed][0] == s);
                    }
                }
                assert(seq![GenerationStatus::Active, GenerationStatus::Failed].contains(s)
                    <==> (s == GenerationStatus::Active || s == GenerationStatus::Failed)) by {
                    if s == GenerationStatus::Active {
                        assert(seq![GenerationStatus::Active, GenerationStatus::Failed][0] == s);
                    }
                    if s == GenerationStatus::Failed {
                        assert(seq![GenerationStatus::Active, GenerationStatus::Failed][1] == s);
                    }
                }
                assert(seq![GenerationStatus::Draining, GenerationStatus::Failed].contains(s)
                    <==> (s == GenerationStatus::Draining || s == GenerationStatus::Failed)) by {
                    if s == GenerationStatus::Draining {
                        assert(seq![GenerationStatus::Draining, GenerationStatus::Failed][0] == s);
                    }
                    if s == GenerationStatus::Failed {
                        assert(seq![GenerationStatus::Draining, GenerationStatus::Failed][1] == s);
                    }
                }
            }
        }
    }
}

/// With nothing staged, draining to zero or active and no handoff recorded,
/// a state with failed attempts is unavailable, and the failure it names is
/// the newest one: no later generation has failed.
pub proof fn law_unavailable_names_newest_failure(m: DeploymentModel)
    requires
        m.valid(),
        m.activation is None,
        forall|i: int|
            0 <= i < m.generations.len() ==> {
                let g = (#[trigger] m.generations[i]).1;
                &&& g.status != GenerationStatus::Staged
                &&& g.status != GenerationStatus::Active
                &&& !(g.status == GenerationStatus::Draining && g.active_connections == Some(0u64))
            },
        exists|i: int| 0 <= i < m.generations.len() && (#[trigger] m.generations[i]).1.status == GenerationStatus::Failed,
    ensures
        m.current_plan() matches Ok(DeployPlan::Unavailable { failed_target, active }) && active is None
            && exists|i: int|
            0 <= i < m.generations.len() && (#[trigger] m.generations[i]).0 == failed_target
                && m.generations[i].1.status == GenerationStatus::Failed && forall|j: int|
                i < j < m.generations.len() ==> (#[trigger] m.generations[j]).1.status != GenerationStatus::Failed,
{
    let gens = m.generations;
    lemma_first_match(gens, with_status(GenerationStatus::Staged));
    lemma_first_match(gens, super::spec::drained());
    lemma_first_match(gens, with_status(GenerationStatus::Active));
    crate::search::lemma_last_match(gens, with_status(GenerationStatus::Failed));
    let w = choose|i: int| 0 <= i < gens.len() && (#[trigger] gens[i]).1.status == GenerationStatus::Failed;
    assert(with_status(GenerationStatus::Failed)(gens[w]));
    assert(first_match(gens, with_status(GenerationStatus::Staged)) is None) by {
        if first_match(gens, with_status(GenerationStatus::Staged)) is Some {
            let k = first_match(gens, with_status(GenerationStatus::Staged))->0;
            assert(with_status(GenerationStatus::Staged)(gens[k]));
        }
    }
    assert(first_match(gens, super::spec::drained()) is None) by {
        if first_match(gens, super::spec::drained()) is Some {
            let k = first_match(gens, super::spec::drained())->0;
            assert(super::spec::drained()(gens[k]));
        }
    }
    assert(first_match(gens, with_status(GenerationStatus::Active)) is None) by {
        if first_match(gens, with_status(GenerationStatus::Active)) is Some {
            let k = first_match(gens, with_status(GenerationStatus::Active))->0;
            assert(with_status(GenerationStatus::Active)(gens[k]));
        }
    }
    let j = crate::search::last_match(gens, with_status(GenerationStatus::Failed))->0;
    assert forall|k: int| j < k < gens.len() implies (#[trigger] gens[k]).1.status != GenerationStatus::Failed by {
        assert(!with_status(GenerationStatus::Failed)(gens[k]));
    }
}

/// While a handoff is in flight (an activation short of accepting, or a
/// failed one whose previous generation is still draining), deploying any
/// build other than the handoff's target is refused as busy and changes
/// nothing.
pub proof fn law_deploy_busy_during_handoff(m: DeploymentModel, build: BuildId)
    requires
        m.wf(),
        m.valid(),
        m.activation matches Some(a) && {
            &&& (a.failure is None && a.phase != ActivationPhase::TargetAccepting) || (a.failure is Some
                && a.previous is Some && m.status_of(a.previous->0) == Some(GenerationStatus::Draining))
            &&& m.lookup(a.target) is Some
            &&& m.lookup(a.target)->0.build@ != build@
        },
    ensures
        m.plan_deploy(build) == (m, Err::<DeployPlan, DeployError>(DeployError::DeploymentBusy)),
{
    let a = m.activation->0;
    let gens = m.generations;
    assert(m.deployment_in_progress());
    lemma_first_match(gens, with_id(a.target));
    lemma_first_match(gens, active_with_build(build@));
    crate::search::lemma_last_match(gens, with_build(build@));
    if let Some((id, status)) = m.current_attempt_for(build@) {
        assert(id != a.target) by {
            let t = m.index_of(a.target)->0;
            let i = match first_match(gens, active_with_build(build@)) {
                Some(i) => i,
                None => crate::search::last_match(gens, with_build(build@))->0,
            };
            assert(gens[i].0 == id);
            assert(gens[i].1.build@ == build@);
            if id == a.target {
                if i < t {
                    assert(gens[i].0.0 < gens[t].0.0);
                } else if t < i {
                    assert(gens[t].0.0 < gens[i].0.0);
                }
            }
        }
    }
}

/// Writing a well-formed state out and reading it back gives the same state:
/// `from_persisted(to_persisted(s))` has exactly the model of `s`.
pub proof fn law_persisted_round_trip(m: DeploymentModel)
    requires
        m.wf(),
    ensures
        (DeploymentModel {
            generations: super::persisted::entries_by_id(m.generations),
            retry_receipts: super::persisted::receipts_by_nonce(m.retry_receipts),
            ..m
        }) == m,
{
    super::persisted::lemma_entries_by_id_identity(m.generations);
    super::persisted::lemma_receipts_by_nonce_identity(m.retry_receipts);
}

/// Reserving ids never lowers the next id, keeps every generation, and once
/// accepted guarantees the next staged id is above `existing`.
pub proof fn law_reserve_generation_ids(m: DeploymentModel, existing: u64)
    requires
        m.wf(),
    ensures
        extends_history(m, m.reserve_generation_ids_after(existing).0),
        m.reserve_generation_ids_after(existing).0.wf(),
        m.reserve_generation_ids_after(existing).1 is Ok ==> m.reserve_generation_ids_after(existing).0.next_generation
            > existing,
        m.reserve_generation_ids_after(existing).1 is Err ==> m.reserve_generation_ids_after(existing).0 == m,
{
}

} // verus!
