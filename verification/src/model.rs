//! Identifiers, plans, events and snapshots shared by the deployment planner.

use vstd::prelude::*;

use crate::identifiers::BuildId;
use crate::text::{debug_escaped, decimal_text, push_decimal, push_escaped};

verus! {

/// A deployment attempt. Ids are allocated once and never reused.
#[derive(Debug, Clone, Copy, PartialEq, Eq, PartialOrd, Ord, Hash, Structural)]
pub struct GenerationId(pub u64);

impl GenerationId {
    pub open spec fn spec_get(self) -> u64 {
        self.0
    }

    pub fn from_raw(value: u64) -> (id: Self)
        ensures
            id.spec_get() == value,
    {
        GenerationId(value)
    }

    #[verifier::when_used_as_spec(spec_get)]
    pub fn get(self) -> (value: u64)
        ensures
            value == self.spec_get(),
    {
        self.0
    }
}

/// Lifecycle of one deployment attempt.
#[derive(Debug, Clone, Copy, PartialEq, Eq, Structural)]
pub enum GenerationStatus {
    Staged,
    Active,
    Draining,
    Retired,
    Failed,
}

/// Progress of the in-flight handoff from the previous to the target generation.
#[derive(Debug, Clone, Copy, PartialEq, Eq, Structural)]
pub enum ActivationPhase {
    Prepared,
    PreviousPaused,
    TargetAccepting,
}

/// Errors reported by the deployment planner.
#[derive(Debug, Clone, PartialEq, Eq)]
pub enum DeployError {
    InvalidBuildId,
    InvalidRetryId,
    DeploymentBusy,
    UnknownGeneration(GenerationId),
    InvalidTransition(&'static str),
    InvalidPersistedState(&'static str),
    GenerationIdsExhausted,
}

/// The single next action the host must take to converge a deployment.
#[derive(Debug, PartialEq, Eq)]
pub enum DeployPlan {
    StageTarget { target: GenerationId, build: BuildId },
    PauseAdmissions { previous: Option<GenerationId>, target: GenerationId },
    StartAccepting { target: GenerationId },
    ResumeAdmissions { previous: GenerationId, failed_target: GenerationId },
    Retire { generation: GenerationId },
    Settled { active: Option<GenerationId> },
    Unavailable { failed_target: GenerationId, active: Option<GenerationId> },
}

/// An outcome the host observed and reports back to the planner.
#[derive(Debug, PartialEq, Eq)]
pub enum DeploymentEvent {
    Prepared { target: GenerationId },
    PreviousPaused { target: GenerationId },
    TargetAccepting { target: GenerationId },
    AdmissionsResumed { failed_target: GenerationId },
    ConnectionsObserved { generation: GenerationId, active: u64 },
    Retired { generation: GenerationId },
    Failed { generation: GenerationId, reason: String },
}

#[derive(Debug, PartialEq, Eq)]
pub struct GenerationSnapshot {
    pub id: GenerationId,
    pub build: BuildId,
    pub status: GenerationStatus,
    pub active_connections: Option<u64>,
    pub failure: Option<String>,
}

#[derive(Debug, PartialEq, Eq)]
pub struct ActivationSnapshot {
    pub target: GenerationId,
    pub previous: Option<GenerationId>,
    pub phase: ActivationPhase,
    pub failure: Option<String>,
}

#[derive(Debug, PartialEq, Eq)]
pub struct DeploymentSnapshot {
    pub generations: Vec<GenerationSnapshot>,
    pub activation: Option<ActivationSnapshot>,
    pub last_rollback: Option<GenerationId>,
}

/// The text `{:?}` writes for an error: the variant's name, then its field
/// in parentheses, a generation id as `GenerationId(n)` and a message quoted
/// with its characters escaped.
pub open spec fn deploy_error_text(error: DeployError) -> Seq<char> {
    match error {
        DeployError::InvalidBuildId => "InvalidBuildId"@,
        DeployError::InvalidRetryId => "InvalidRetryId"@,
        DeployError::DeploymentBusy => "DeploymentBusy"@,
        DeployError::UnknownGeneration(generation) => "UnknownGeneration(GenerationId("@ + decimal_text(
            generation.0 as nat,
        ) + "))"@,
        DeployError::InvalidTransition(message) => "InvalidTransition(\""@ + debug_escaped(message@) + "\")"@,
        DeployError::InvalidPersistedState(message) => "InvalidPersistedState(\""@ + debug_escaped(message@)
            + "\")"@,
        DeployError::GenerationIdsExhausted => "GenerationIdsExhausted"@,
    }
}

fn quoted(name: &str, message: &str) -> (text: String)
    ensures
        text@ == name@ + "(\""@ + debug_escaped(message@) + "\")"@,
{
    let mut text = String::from_str(name);
    text.append("(\"");
    push_escaped(&mut text, message);
    text.append("\")");
    proof {
        assert(text@ =~= name@ + "(\""@ + debug_escaped(message@) + "\")"@);
    }
    text
}

impl DeployError {
    /// The error's text, as `{:?}` prints it. Characters outside ASCII are
    /// written as themselves; `{:?}` would escape the few of them that are
    /// not printable or that extend the character before them, which no
    /// message of this library holds.
    pub fn describe(&self) -> (text: String)
        ensures
            text@ == deploy_error_text(*self),
    {
        match self {
            DeployError::InvalidBuildId => String::from_str("InvalidBuildId"),
            DeployError::InvalidRetryId => String::from_str("InvalidRetryId"),
            DeployError::DeploymentBusy => String::from_str("DeploymentBusy"),
            DeployError::UnknownGeneration(generation) => {
                let mut text = String::from_str("UnknownGeneration(GenerationId(");
                push_decimal(&mut text, generation.get());
                text.append("))");
                proof {
                    assert(text@ =~= deploy_error_text(*self));
                }
                text
            },
            DeployError::InvalidTransition(message) => {
                let text = quoted("InvalidTransition", message);
                proof {
                    reveal_strlit("InvalidTransition");
                    reveal_strlit("InvalidTransition(\"");
                    reveal_strlit("(\"");
                    assert(text@ =~= deploy_error_text(*self));
                }
                text
            },
            DeployError::InvalidPersistedState(message) => {
                let text = quoted("InvalidPersistedState", message);
                proof {
                    reveal_strlit("InvalidPersistedState");
                    reveal_strlit("InvalidPersistedState(\"");
                    reveal_strlit("(\"");
                    assert(text@ =~= deploy_error_text(*self));
                }
                text
            },
            DeployError::GenerationIdsExhausted => String::from_str("GenerationIdsExhausted"),
        }
    }
}

} // verus!
