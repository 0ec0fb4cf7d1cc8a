//! The control messages exchanged between the coordinator and its workers.

use vstd::prelude::*;

use super::pending::HandoffId;
use crate::model::GenerationId;

verus! {

/// How long the coordinator may take to resolve and signal worker units
/// before it acts on its own, in milliseconds.
pub const COORDINATOR_PRE_SIGNAL_OPERATION_TIMEOUT_MS: u64 = 7000;

/// How long a stopping coordinator keeps delivering handoffs still in
/// flight, in milliseconds.
pub const COORDINATOR_SHUTDOWN_DRAIN_TIMEOUT_MS: u64 = 10000;

/// One control message on a coordinator/worker channel.
#[derive(Clone, Copy, Debug, PartialEq, Eq, Structural)]
pub enum Control {
    /// A worker introduces itself after connecting.
    WorkerHello { generation: GenerationId, instance: u64 },
    /// The coordinator answers a hello with its epoch.
    CoordinatorHello { epoch: u64 },
    /// The worker is listening and can take clients once activated.
    Ready { generation: GenerationId },
    /// The coordinator asks a worker to stop admitting and drain.
    Drain { generation: GenerationId },
    /// The worker stopped admitting new clients.
    AdmissionsPaused { generation: GenerationId },
    /// The coordinator asks a worker to admit clients.
    Activate { generation: GenerationId },
    /// The worker admits clients.
    Accepting { generation: GenerationId },
    /// The worker parked an offered descriptor.
    ConnectionAck { handoff_id: HandoffId },
    /// The coordinator tells the worker to serve a parked descriptor.
    ConnectionCommitted { handoff_id: HandoffId },
    /// The worker serves the descriptor.
    ConnectionCommitAck { handoff_id: HandoffId },
    /// The coordinator tells the worker to forget the handoff.
    ConnectionFinalized { handoff_id: HandoffId },
    /// The worker forgot the handoff.
    ConnectionFinalizedAck { handoff_id: HandoffId },
    /// The worker's count of open client connections.
    ConnectionsObserved { generation: GenerationId, active: u64 },
}

pub open spec fn spec_is_connection_ack(message: Control) -> bool {
    ||| message is ConnectionAck
    ||| message is ConnectionCommitAck
    ||| message is ConnectionFinalizedAck
}

/// Whether a message is a connection acknowledgement rather than a statement
/// about the worker's own lifecycle.
///
/// These name their handoff by id and drive only idempotent transitions, so
/// they stay valid across a worker reconnect. Dropping one because a newer
/// registration replaced the sender strands that handoff, and the client
/// descriptor behind it, until the settle timeout reclaims them.
pub fn is_connection_ack(message: &Control) -> (ack: bool)
    ensures
        ack == spec_is_connection_ack(*message),
{
    match message {
        Control::ConnectionAck { .. } => true,
        Control::ConnectionCommitAck { .. } => true,
        Control::ConnectionFinalizedAck { .. } => true,
        _ => false,
    }
}

/// Only a peer running as the coordinator's own user may join the control plane.
pub fn trusted_peer(peer_uid: u32, coordinator_uid: u32) -> (trusted: bool)
    ensures
        trusted == (peer_uid == coordinator_uid),
{
    peer_uid == coordinator_uid
}

} // verus!
