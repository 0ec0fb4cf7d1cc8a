//! Persisted planning for zero-disconnect router generation handoffs.
//!
//! `state` holds the deployment state machine: from durable state and the
//! host outcomes reported to it, it decides the single idempotent action the
//! host must take next. `identifiers` holds build identities and retry nonces.

pub mod assoc;
pub mod identifiers;
pub mod lifecycle;
pub mod model;
pub mod retry;
pub mod process;
pub mod search;
pub mod state;
pub mod text;

pub use identifiers::{BuildId, RetryId};
pub use model::{
    ActivationPhase, ActivationSnapshot, DeployError, DeployPlan, DeploymentEvent,
    DeploymentSnapshot, GenerationId, GenerationSnapshot, GenerationStatus,
};
pub use state::persisted::PersistedState;
pub use state::{Activation, DeploymentState, Generation, RetryReceipt};
