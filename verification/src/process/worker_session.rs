//! A worker's decisions over its sessions with coordinators.
//!
//! The worker says hello, learns the coordinator's epoch, reports that it is
//! ready, and then follows the coordinator's controls: it admits clients
//! when activated, stops admitting and drains when told to, and takes
//! client descriptors through the handoff protocol. It exits once it is
//! draining, serves no connection and holds no parked descriptor.

use vstd::prelude::*;

use super::control::Control;
use super::handoffs::{Commit, Handoffs, Offered};
use super::pending::HandoffId;
use crate::model::GenerationId;

verus! {

/// What the worker does after a control message.
pub struct WorkerReply<S> {
    /// Controls to send back, in order.
    pub send: Vec<Control>,
    /// Also report the current number of open connections after them.
    pub report_connections: bool,
    /// A committed client descriptor to start serving.
    pub serve: Option<S>,
}

pub struct WorkerSession<S> {
    pub generation: GenerationId,
    /// Whether the worker admits clients.
    pub active: bool,
    /// Whether the worker stopped admitting and waits for its connections to end.
    pub draining: bool,
    pub handoffs: Handoffs<S>,
    /// The epoch of the last coordinator the worker greeted.
    pub coordinator_epoch: Option<u64>,
}

impl<S> WorkerSession<S> {
    pub open spec fn wf(&self) -> bool {
        self.handoffs@.wf()
    }

    /// A fresh worker of `generation`: neither admitting nor draining.
    pub fn new(generation: GenerationId) -> (session: Self)
        ensures
            session.wf(),
            session.generation == generation,
            !session.active && !session.draining,
            session.coordinator_epoch is None,
            session.handoffs@.pending.len() == 0 && session.handoffs@.committed.len() == 0,
    {
        let session = WorkerSession {
            generation,
            active: false,
            draining: false,
            handoffs: Handoffs::new(),
            coordinator_epoch: None,
        };
        proof {
            assert(session.handoffs@.wf());
        }
        session
    }

    /// The coordinator answered the hello with `epoch`. A coordinator of a
    /// new epoch no longer knows this worker's handoffs: every parked
    /// descriptor is returned to be served, and the commit tombstones go.
    pub fn greeted(&mut self, epoch: u64) -> (orphans: Vec<S>)
        requires
            old(self).wf(),
        ensures
            final(self).wf(),
            final(self).coordinator_epoch == Some(epoch),
            final(self).generation == old(self).generation,
            final(self).active == old(self).active,
            final(self).draining == old(self).draining,
            old(self).coordinator_epoch is None || old(self).coordinator_epoch == Some(epoch) ==> orphans@.len() == 0
                && final(self).handoffs@ == old(self).handoffs@,
            old(self).coordinator_epoch is Some && old(self).coordinator_epoch != Some(epoch) ==> {
                &&& orphans@ == old(self).handoffs@.pending.map_values(|p: (HandoffId, S)| p.1)
                &&& final(self).handoffs@.pending.len() == 0
                &&& final(self).handoffs@.committed.len() == 0
            },
    {
        let previous = self.coordinator_epoch;
        self.coordinator_epoch = Some(epoch);
        let orphans = self.handoffs.reconcile_epoch(previous, epoch);
        proof {
            if previous is Some && previous != Some(epoch) {
                assert(self.handoffs@.wf());
            }
        }
        orphans
    }

    /// The controls a worker sends once greeted: it is ready. The caller
    /// follows them with its count of open connections.
    pub fn ready(&self) -> (control: Control)
        ensures
            control == (Control::Ready { generation: self.generation }),
    {
        Control::Ready { generation: self.generation }
    }

    /// Whether the worker may exit: it drains, serves no connection
    /// (`observed` open ones) and holds no parked descriptor.
    pub fn drained(&self, observed: u64) -> (done: bool)
        ensures
            done == (self.draining && observed == 0 && self.handoffs@.pending.len() == 0),
    {
        self.draining && observed == 0 && self.handoffs.pending_is_empty()
    }

    /// A client descriptor was offered under `id`. While the worker admits
    /// clients it is parked and acknowledged (or, for a handoff already
    /// committed, the commit is acknowledged again); otherwise it is dropped
    /// unanswered.
    pub fn offered(&mut self, id: HandoffId, stream: S) -> (reply: Option<Control>)
        requires
            old(self).wf(),
        ensures
            final(self).wf(),
            final(self).active == old(self).active,
            final(self).draining == old(self).draining,
            final(self).generation == old(self).generation,
            final(self).coordinator_epoch == old(self).coordinator_epoch,
            !old(self).active ==> reply is None && final(self).handoffs@ == old(self).handoffs@,
            old(self).active && old(self).handoffs@.is_committed(id) ==> reply == Some(
                Control::ConnectionCommitAck { handoff_id: id },
            ) && final(self).handoffs@ == old(self).handoffs@,
            old(self).active && !old(self).handoffs@.is_committed(id) ==> reply == Some(
                Control::ConnectionAck { handoff_id: id },
            ),
            old(self).active && !old(self).handoffs@.is_committed(id) && old(self).handoffs@.is_parked(id)
                ==> final(self).handoffs@ == old(self).handoffs@,
            old(self).active && !old(self).handoffs@.is_committed(id) && !old(self).handoffs@.is_parked(id)
                ==> final(self).handoffs@.pending == old(self).handoffs@.pending.push((id, stream))
                && final(self).handoffs@.committed == old(self).handoffs@.committed,
    {
        if !self.active {
            return None;
        }
        match self.handoffs.register(id, stream) {
            Offered::ConnectionAck(id) => Some(Control::ConnectionAck { handoff_id: id }),
            Offered::ConnectionCommitAck(id) => Some(Control::ConnectionCommitAck { handoff_id: id }),
        }
    }

    /// Follows one control message from the coordinator.
    pub fn on_control(&mut self, message: Control) -> (reply: WorkerReply<S>)
        requires
            old(self).wf(),
        ensures
            final(self).wf(),
            final(self).generation == old(self).generation,
            final(self).coordinator_epoch == old(self).coordinator_epoch,
            match message {
                Control::Activate { generation } => if generation == old(self).generation {
                    &&& final(self).active && !final(self).draining
                    &&& final(self).handoffs@ == old(self).handoffs@
                    &&& reply.send@ == seq![Control::Accepting { generation }]
                    &&& !reply.report_connections && reply.serve is None
                } else {
                    unanswered(*old(self), *final(self), reply)
                },
                Control::Drain { generation } => if generation == old(self).generation {
                    &&& !final(self).active && final(self).draining
                    &&& final(self).handoffs@.pending.len() == 0
                    &&& final(self).handoffs@.committed == old(self).handoffs@.committed
                    &&& reply.send@ == seq![Control::AdmissionsPaused { generation }]
                    &&& reply.report_connections && reply.serve is None
                } else {
                    unanswered(*old(self), *final(self), reply)
                },
                Control::ConnectionCommitted { handoff_id } => {
                    &&& final(self).active == old(self).active
                    &&& final(self).draining == old(self).draining
                    &&& !reply.report_connections
                    &&& if old(self).handoffs@.is_committed(handoff_id) {
                        &&& final(self).handoffs@ == old(self).handoffs@
                        &&& reply.serve is None
                        &&& reply.send@ == seq![Control::ConnectionCommitAck { handoff_id }]
                    } else {
                        match old(self).handoffs@.parked_index(handoff_id) {
                            None => final(self).handoffs@ == old(self).handoffs@ && reply.serve is None
                                && reply.send@.len() == 0,
                            Some(i) => {
                                &&& reply.serve == Some(old(self).handoffs@.pending[i].1)
                                &&& final(self).handoffs@.pending == old(self).handoffs@.pending.remove(i)
                                &&& final(self).handoffs@.committed == old(self).handoffs@.committed.push(handoff_id)
                                &&& reply.send@ == seq![Control::ConnectionCommitAck { handoff_id }]
                            },
                        }
                    }
                },
                Control::ConnectionFinalized { handoff_id } => {
                    &&& final(self).active == old(self).active
                    &&& final(self).draining == old(self).draining
                    &&& !final(self).handoffs@.is_committed(handoff_id)
                    &&& !final(self).handoffs@.is_parked(handoff_id)
                    &&& forall|other: HandoffId| other != handoff_id ==> (final(self).handoffs@.is_committed(other)
                        == old(self).handoffs@.is_committed(other))
                    &&& forall|other: HandoffId| other != handoff_id ==> (final(self).handoffs@.is_parked(other)
                        == old(self).handoffs@.is_parked(other))
                    &&& reply.send@ == seq![Control::ConnectionFinalizedAck { handoff_id }]
                    &&& !reply.report_connections && reply.serve is None
                },
                _ => unanswered(*old(self), *final(self), reply),
            },
    {
        let mut send: Vec<Control> = Vec::new();
        match message {
            Control::Activate { generation } => {
                if generation != self.generation {
                    return WorkerReply { send, report_connections: false, serve: None };
                }
                self.draining = false;
                self.active = true;
                send.push(Control::Accepting { generation });
                WorkerReply { send, report_connections: false, serve: None }
            },
            Control::Drain { generation } => {
                if generation != self.generation {
                    return WorkerReply { send, report_connections: false, serve: None };
                }
                self.active = false;
                self.draining = true;
                self.handoffs.clear_pending();
                proof {
                    assert(self.handoffs@.wf());
                }
                send.push(Control::AdmissionsPaused { generation });
                WorkerReply { send, report_connections: true, serve: None }
            },
            Control::ConnectionCommitted { handoff_id } => {
                match self.handoffs.commit(handoff_id) {
                    Commit::New(stream) => {
                        send.push(Control::ConnectionCommitAck { handoff_id });
                        WorkerReply { send, report_connections: false, serve: Some(stream) }
                    },
                    Commit::AlreadyCommitted => {
                        send.push(Control::ConnectionCommitAck { handoff_id });
                        WorkerReply { send, report_connections: false, serve: None }
                    },
                    Commit::Unknown => WorkerReply { send, report_connections: false, serve: None },
                }
            },
            Control::ConnectionFinalized { handoff_id } => {
                self.handoffs.finalize(handoff_id);
                send.push(Control::ConnectionFinalizedAck { handoff_id });
                WorkerReply { send, report_connections: false, serve: None }
            },
            _ => WorkerReply { send, report_connections: false, serve: None },
        }
    }
}

/// A control the worker ignores changes nothing and is not answered.
pub open spec fn unanswered<S>(before: WorkerSession<S>, after: WorkerSession<S>, reply: WorkerReply<S>) -> bool {
    &&& after.active == before.active
    &&& after.draining == before.draining
    &&& after.handoffs@ == before.handoffs@
    &&& reply.send@.len() == 0
    &&& !reply.report_connections
    &&& reply.serve is None
}

} // verus!
