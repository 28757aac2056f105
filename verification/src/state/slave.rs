//! The agent's state: the phase of the connection, capabilities and the
//! set of request ids whose tasks are running.

use vstd::prelude::*;
use std::collections::HashSet;
use crate::keys::set_members;
use crate::state::connection::{ConnectionPhase, PeerCapabilities};

verus! {

broadcast use vstd::std_specs::hash::group_hash_axioms;

/// The agent's state as mathematical values.
pub struct SlaveView {
    pub phase: ConnectionPhase,
    pub local: PeerCapabilities,
    pub negotiated: Option<PeerCapabilities>,
    pub active_tasks: Set<u64>,
}

/// The state that an agent keeps of itself.
pub struct SlaveState {
    phase: ConnectionPhase,
    local_capabilities: PeerCapabilities,
    negotiated_capabilities: Option<PeerCapabilities>,
    active_tasks: HashSet<u64>,
}

impl View for SlaveState {
    type V = SlaveView;

    closed spec fn view(&self) -> SlaveView {
        SlaveView {
            phase: self.phase,
            local: self.local_capabilities,
            negotiated: self.negotiated_capabilities,
            active_tasks: self.active_tasks@,
        }
    }
}

impl Default for SlaveState {
    fn default() -> (r: SlaveState)
        ensures
            r@.active_tasks == Set::<u64>::empty(),
            r@.phase == ConnectionPhase::Disconnected,
    {
        SlaveState::new()
    }
}

impl SlaveState {
    /// A disconnected agent with full local capabilities and no task.
    pub fn new() -> (r: SlaveState)
        ensures
            r@ == (SlaveView {
                phase: ConnectionPhase::Disconnected,
                local: PeerCapabilities::full(),
                negotiated: None,
                active_tasks: Set::<u64>::empty(),
            }),
    {
        SlaveState {
            phase: ConnectionPhase::Disconnected,
            local_capabilities: PeerCapabilities::default(),
            negotiated_capabilities: None,
            active_tasks: HashSet::new(),
        }
    }

    /// The phase of the connection.
    pub fn phase(&self) -> (r: &ConnectionPhase)
        ensures
            *r == self@.phase,
    {
        &self.phase
    }

    /// The phase of the connection, for transitions.
    pub fn phase_mut(&mut self) -> (r: &mut ConnectionPhase)
        ensures
            *r == old(self)@.phase,
            final(self)@ == (SlaveView { phase: *final(r), ..old(self)@ }),
    {
        &mut self.phase
    }

    /// The capabilities that this side advertises.
    pub fn local_capabilities(&self) -> (r: &PeerCapabilities)
        ensures
            *r == self@.local,
    {
        &self.local_capabilities
    }

    /// Sets the capabilities that this side advertises.
    pub fn set_local_capabilities(&mut self, caps: PeerCapabilities)
        ensures
            final(self)@ == (SlaveView { local: caps, ..old(self)@ }),
    {
        self.local_capabilities = caps;
    }

    /// The negotiated capabilities, once the handshake has set them.
    pub fn negotiated_capabilities(&self) -> (r: Option<&PeerCapabilities>)
        ensures
            match r {
                Some(c) => self@.negotiated == Some(*c),
                None => self@.negotiated.is_none(),
            },
    {
        self.negotiated_capabilities.as_ref()
    }

    /// Negotiates with the capabilities of the controller, stores the
    /// result and returns it.
    pub fn negotiate_capabilities(&mut self, remote: &PeerCapabilities) -> (r: &PeerCapabilities)
        ensures
            *r == old(self)@.local.negotiated(*remote),
            final(self)@ == (SlaveView { negotiated: Some(*r), ..old(self)@ }),
    {
        let negotiated = self.local_capabilities.negotiate(remote);
        self.negotiated_capabilities = Some(negotiated);
        self.negotiated_capabilities.as_ref().unwrap()
    }

    /// Marks a task as running. Returns `false`, and changes nothing, if
    /// the id is already there: the guard against spawning twice.
    pub fn register_task(&mut self, request_id: u64) -> (r: bool)
        ensures
            r == !old(self)@.active_tasks.contains(request_id),
            final(self)@ == (SlaveView {
                active_tasks: old(self)@.active_tasks.insert(request_id),
                ..old(self)@
            }),
    {
        self.active_tasks.insert(request_id)
    }

    /// Takes a task out of the running set. Returns whether it was there.
    pub fn complete_task(&mut self, request_id: u64) -> (r: bool)
        ensures
            r == old(self)@.active_tasks.contains(request_id),
            final(self)@ == (SlaveView {
                active_tasks: old(self)@.active_tasks.remove(request_id),
                ..old(self)@
            }),
    {
        self.active_tasks.remove(&request_id)
    }

    /// The number of running tasks.
    pub fn active_task_count(&self) -> (r: usize)
        ensures
            r == self@.active_tasks.len(),
    {
        self.active_tasks.len()
    }

    /// Whether a task is running under this id.
    pub fn is_task_running(&self, request_id: u64) -> (r: bool)
        ensures
            r == self@.active_tasks.contains(request_id),
    {
        self.active_tasks.contains(&request_id)
    }

    /// The ids of the running tasks, each once, in no particular order.
    pub fn active_task_ids(&self) -> (r: Vec<u64>)
        ensures
            r@.no_duplicates(),
            r@.to_set() == self@.active_tasks,
            r@.len() == self@.active_tasks.len(),
    {
        set_members(&self.active_tasks)
    }
}

} // verus!
