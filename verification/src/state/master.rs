//! The controller's state: the phase of the connection, capabilities and
//! the table of outstanding requests with their deadlines.
//!
//! Expiry is not automatic: the owner scans the table when it sees fit and
//! decides what to do with the requests that ran out of time.

use vstd::prelude::*;
use std::collections::HashMap;
use std::time::Duration;
use std::time::Instant;
use crate::clock::{duration_nanos, instant_gap};
use crate::keys::{lemma_push, map_keys};
use crate::packet::Packet;
use crate::state::connection::{ConnectionPhase, PeerCapabilities};

verus! {

broadcast use vstd::std_specs::hash::group_hash_axioms;

/// A request that was sent and not yet answered.
#[derive(Debug)]
pub struct TrackedRequest {
    /// The packet that was sent.
    pub packet: Packet,
    /// When it was sent.
    pub sent_at: Instant,
    /// How long to wait for the answer; `None` waits forever.
    pub deadline: Option<Duration>,
}

impl TrackedRequest {
    /// Whether the deadline has passed at the instant `now`: there is one,
    /// and more time than it allows lies between `sent_at` and `now`.
    pub open spec fn expired_at(self, now: Instant) -> bool {
        match self.deadline {
            Some(d) => duration_nanos(instant_gap(now, self.sent_at)) > duration_nanos(d),
            None => false,
        }
    }

    /// Whether the deadline has passed at the instant `now`.
    pub fn is_expired_at(&self, now: &Instant) -> (r: bool)
        ensures
            r == self.expired_at(*now),
    {
        match &self.deadline {
            Some(d) => {
                let waited = now.duration_since(self.sent_at);
                waited.as_nanos() > d.as_nanos()
            },
            None => false,
        }
    }

    /// Whether the deadline has passed, by the clock. A request without a
    /// deadline never expires.
    pub fn is_expired(&self) -> (r: bool)
        ensures
            self.deadline.is_none() ==> !r,
            exists|now: Instant| r == #[trigger] self.expired_at(now),
    {
        let now = Instant::now();
        self.is_expired_at(&now)
    }

    /// How long the request has been in flight, by the clock.
    pub fn elapsed(&self) -> (r: Duration)
        ensures
            exists|now: Instant| r == #[trigger] instant_gap(now, self.sent_at),
    {
        let now = Instant::now();
        now.duration_since(self.sent_at)
    }
}

/// The controller's state as mathematical values.
pub struct MasterView {
    pub phase: ConnectionPhase,
    pub negotiated: Option<PeerCapabilities>,
    pub local: PeerCapabilities,
    pub requests: Map<u64, TrackedRequest>,
    pub default_timeout: Option<Duration>,
}

/// Tracks the outstanding requests and the state of the connection on the
/// controller's side.
#[derive(Debug)]
pub struct MasterState {
    phase: ConnectionPhase,
    negotiated_capabilities: Option<PeerCapabilities>,
    local_capabilities: PeerCapabilities,
    requests: HashMap<u64, TrackedRequest>,
    default_timeout: Option<Duration>,
}

impl View for MasterState {
    type V = MasterView;

    closed spec fn view(&self) -> MasterView {
        MasterView {
            phase: self.phase,
            negotiated: self.negotiated_capabilities,
            local: self.local_capabilities,
            requests: self.requests@,
            default_timeout: self.default_timeout,
        }
    }
}

/// The entry that tracking makes for a packet sent at `now`.
pub open spec fn tracked_as(packet: Packet, now: Instant, deadline: Option<Duration>) -> TrackedRequest {
    TrackedRequest { packet, sent_at: now, deadline }
}

/// The ids of the requests whose deadline has passed at `now`.
pub open spec fn expired_ids(requests: Map<u64, TrackedRequest>, now: Instant) -> Set<u64> {
    Set::new(|id: u64| requests.contains_key(id) && requests[id].expired_at(now))
}

/// The ids of drained requests, in the order of the list.
pub open spec fn drained_ids(drained: Seq<(u64, TrackedRequest)>) -> Seq<u64> {
    Seq::new(drained.len(), |i: int| drained[i].0)
}

impl Default for MasterState {
    fn default() -> (r: MasterState)
        ensures
            r@.requests == Map::<u64, TrackedRequest>::empty(),
            r@.phase == ConnectionPhase::Disconnected,
    {
        MasterState::new()
    }
}

impl MasterState {
    /// A disconnected controller with full local capabilities, no
    /// request and no default deadline.
    pub fn new() -> (r: MasterState)
        ensures
            r@ == (MasterView {
                phase: ConnectionPhase::Disconnected,
                negotiated: None,
                local: PeerCapabilities::full(),
                requests: Map::<u64, TrackedRequest>::empty(),
                default_timeout: None,
            }),
    {
        MasterState {
            phase: ConnectionPhase::Disconnected,
            negotiated_capabilities: None,
            local_capabilities: PeerCapabilities::default(),
            requests: HashMap::new(),
            default_timeout: None,
        }
    }

    /// The phase of the connection.
    pub fn phase(&self) -> (r: &ConnectionPhase)
        ensures
            *r == self@.phase,
    {
        &self.phase
    }

    /// The phase of the connection, for transitions.
    pub fn phase_mut(&mut self) -> (r: &mut ConnectionPhase)
        ensures
            *r == old(self)@.phase,
            final(self)@ == (MasterView { phase: *final(r), ..old(self)@ }),
    {
        &mut self.phase
    }

    /// The capabilities that this side advertises.
    pub fn local_capabilities(&self) -> (r: &PeerCapabilities)
        ensures
            *r == self@.local,
    {
        &self.local_capabilities
    }

    /// Sets the capabilities that this side advertises.
    pub fn set_local_capabilities(&mut self, caps: PeerCapabilities)
        ensures
            final(self)@ == (MasterView { local: caps, ..old(self)@ }),
    {
        self.local_capabilities = caps;
    }

    /// The negotiated capabilities, once the handshake has set them.
    pub fn negotiated_capabilities(&self) -> (r: Option<&PeerCapabilities>)
        ensures
            match r {
                Some(c) => self@.negotiated == Some(*c),
                None => self@.negotiated.is_none(),
            },
    {
        self.negotiated_capabilities.as_ref()
    }

    /// Negotiates with the capabilities of the remote peer, stores the
    /// result and returns it.
    pub fn negotiate_capabilities(&mut self, remote: &PeerCapabilities) -> (r: &PeerCapabilities)
        ensures
            *r == old(self)@.local.negotiated(*remote),
            final(self)@ == (MasterView { negotiated: Some(*r), ..old(self)@ }),
    {
        let negotiated = self.local_capabilities.negotiate(remote);
        self.negotiated_capabilities = Some(negotiated);
        self.negotiated_capabilities.as_ref().unwrap()
    }

    /// Sets the deadline that `track` gives to new requests.
    pub fn set_default_timeout(&mut self, timeout: Duration)
        ensures
            final(self)@ == (MasterView { default_timeout: Some(timeout), ..old(self)@ }),
    {
        self.default_timeout = Some(timeout);
    }

    /// Clears the default deadline: requests tracked from now on never
    /// expire unless they are given a deadline of their own.
    pub fn clear_default_timeout(&mut self)
        ensures
            final(self)@ == (MasterView { default_timeout: None, ..old(self)@ }),
    {
        self.default_timeout = None;
    }

    /// Tracks a request sent at `now` under `request_id`, in place of any
    /// request tracked under that id before.
    pub fn track_at(
        &mut self,
        request_id: u64,
        packet: Packet,
        deadline: Option<Duration>,
        now: Instant,
    )
        ensures
            final(self)@ == (MasterView {
                requests: old(self)@.requests.insert(
                    request_id,
                    TrackedRequest { packet, sent_at: now, deadline },
                ),
                ..old(self)@
            }),
    {
        self.requests.insert(request_id, TrackedRequest { packet, sent_at: now, deadline });
    }

    /// Tracks a request sent now, with the default deadline.
    pub fn track(&mut self, request_id: u64, packet: Packet)
        ensures
            exists|now: Instant|
                final(self)@ == (MasterView {
                    requests: old(self)@.requests.insert(
                        request_id,
                        #[trigger] tracked_as(packet, now, old(self)@.default_timeout),
                    ),
                    ..old(self)@
                }),
    {
        let deadline = self.default_timeout;
        self.track_with_deadline(request_id, packet, deadline);
    }

    /// Tracks a request sent now, with the given deadline; `None` never
    /// expires.
    pub fn track_with_deadline(
        &mut self,
        request_id: u64,
        packet: Packet,
        deadline: Option<Duration>,
    )
        ensures
            exists|now: Instant|
                final(self)@ == (MasterView {
                    requests: old(self)@.requests.insert(
                        request_id,
                        #[trigger] tracked_as(packet, now, deadline),
                    ),
                    ..old(self)@
                }),
    {
        let now = Instant::now();
        self.track_at(request_id, packet, deadline, now);
        assert(final(self)@.requests == old(self)@.requests.insert(
            request_id,
            tracked_as(packet, now, deadline),
        ));
    }

    /// Completes a request: takes it from the table and returns its
    /// packet, or `None` if the id is not tracked.
    pub fn resolve(&mut self, request_id: u64) -> (r: Option<Packet>)
        ensures
            final(self)@ == (MasterView {
                requests: old(self)@.requests.remove(request_id),
                ..old(self)@
            }),
            match r {
                Some(p) => old(self)@.requests.contains_key(request_id) && p
                    == old(self)@.requests[request_id].packet,
                None => !old(self)@.requests.contains_key(request_id),
            },
    {
        match self.requests.remove(&request_id) {
            Some(req) => Some(req.packet),
            None => None,
        }
    }

    /// The number of requests in flight.
    pub fn pending_count(&self) -> (r: usize)
        ensures
            r == self@.requests.len(),
            self@.requests.dom().finite(),
    {
        self.requests.len()
    }

    /// Whether a request is in flight under this id.
    pub fn is_request_pending(&self, request_id: u64) -> (r: bool)
        ensures
            r == self@.requests.contains_key(request_id),
    {
        self.requests.contains_key(&request_id)
    }

    /// The request tracked under this id, if any.
    pub fn get_request(&self, request_id: u64) -> (r: Option<&TrackedRequest>)
        ensures
            match r {
                Some(req) => self@.requests.contains_key(request_id) && *req
                    == self@.requests[request_id],
                None => !self@.requests.contains_key(request_id),
            },
    {
        self.requests.get(&request_id)
    }

    /// The ids of the requests whose deadline has passed at `now`, each
    /// once, in no particular order. Nothing is removed.
    pub fn check_timeouts_at(&self, now: &Instant) -> (r: Vec<u64>)
        ensures
            r@.no_duplicates(),
            r@.to_set() == expired_ids(self@.requests, *now),
    {
        let ids = map_keys(&self.requests);
        let mut out: Vec<u64> = Vec::new();
        let mut i: usize = 0;
        while i < ids.len()
            invariant
                i <= ids@.len(),
                ids@.no_duplicates(),
                ids@.to_set() == self.requests@.dom(),
                out@.no_duplicates(),
                forall|k: u64| #[trigger]
                    out@.contains(k) <==> ids@.take(i as int).contains(k)
                        && self.requests@.contains_key(k) && self.requests@[k].expired_at(*now),
            decreases ids@.len() - i,
        {
            let id = ids[i];
            let ghost seen = ids@.take(i as int);
            let ghost before = out@;
            proof {
                assert(ids@.to_set().contains(id));
                assert(ids@.take(i + 1) =~= seen.push(id));
                assert(!seen.contains(id)) by {
                    if seen.contains(id) {
                        let j = choose|j: int| 0 <= j < seen.len() && seen[j] == id;
                        assert(ids@[j] == ids@[i as int]);
                    }
                }
                lemma_push(seen, id);
                lemma_push(before, id);
            }
            match self.requests.get(&id) {
                Some(req) => {
                    if req.is_expired_at(now) {
                        out.push(id);
                    }
                },
                None => {},
            }
            i += 1;
        }
        assert(ids@.take(ids@.len() as int) =~= ids@);
        assert(out@.to_set() =~= expired_ids(self@.requests, *now));
        out
    }

    /// The ids of the requests whose deadline has passed, by the clock,
    /// each once. Nothing is removed: the caller decides between retry,
    /// notice and drop.
    pub fn check_timeouts(&self) -> (r: Vec<u64>)
        ensures
            r@.no_duplicates(),
            exists|now: Instant| r@.to_set() == #[trigger] expired_ids(self@.requests, now),
    {
        let now = Instant::now();
        self.check_timeouts_at(&now)
    }

    /// Takes every request whose deadline has passed at `now` out of the
    /// table and returns them with their ids, each once.
    pub fn drain_expired_at(&mut self, now: &Instant) -> (r: Vec<(u64, TrackedRequest)>)
        ensures
            final(self)@ == (MasterView {
                requests: old(self)@.requests.remove_keys(
                    expired_ids(old(self)@.requests, *now),
                ),
                ..old(self)@
            }),
            drained_ids(r@).no_duplicates(),
            drained_ids(r@).to_set() == expired_ids(old(self)@.requests, *now),
            forall|i: int|
                0 <= i < r@.len() ==> old(self)@.requests.contains_key(#[trigger] r@[i].0)
                    && r@[i].1 == old(self)@.requests[r@[i].0],
    {
        let ids = self.check_timeouts_at(now);
        let ghost before = self.requests@;
        let ghost gone = expired_ids(before, *now);
        let mut out: Vec<(u64, TrackedRequest)> = Vec::new();
        let mut i: usize = 0;
        while i < ids.len()
            invariant
                i <= ids@.len(),
                ids@.no_duplicates(),
                ids@.to_set() == gone,
                gone == expired_ids(before, *now),
                before == old(self)@.requests,
                self@ == (MasterView { requests: self.requests@, ..old(self)@ }),
                self.requests@ == before.remove_keys(ids@.take(i as int).to_set()),
                drained_ids(out@) == ids@.take(i as int),
                forall|j: int|
                    0 <= j < out@.len() ==> before.contains_key(#[trigger] out@[j].0) && out@[j].1
                        == before[out@[j].0],
            decreases ids@.len() - i,
        {
            let id = ids[i];
            let ghost taken = ids@.take(i as int);
            assert(ids@.to_set().contains(id));
            assert(!taken.to_set().contains(id)) by {
                if taken.contains(id) {
                    let j = choose|j: int| 0 <= j < taken.len() && taken[j] == id;
                    assert(ids@[j] == ids@[i as int]);
                }
            }
            assert(self.requests@.contains_key(id));
            match self.requests.remove(&id) {
                Some(req) => {
                    out.push((id, req));
                },
                None => {},
            }
            assert(ids@.take(i + 1) =~= taken.push(id));
            proof {
                lemma_push(taken, id);
            }
            assert(taken.push(id).to_set() =~= taken.to_set().insert(id));
            assert(self.requests@ =~= before.remove_keys(ids@.take(i + 1).to_set()));
            assert(drained_ids(out@) =~= ids@.take(i + 1));
            i += 1;
        }
        assert(ids@.take(ids@.len() as int) =~= ids@);
        out
    }

    /// Takes every request whose deadline has passed, by the clock, out of
    /// the table and returns them with their ids.
    pub fn drain_expired(&mut self) -> (r: Vec<(u64, TrackedRequest)>)
        ensures
            drained_ids(r@).no_duplicates(),
            exists|now: Instant|
                final(self)@ == (MasterView {
                    requests: old(self)@.requests.remove_keys(
                        #[trigger] expired_ids(old(self)@.requests, now),
                    ),
                    ..old(self)@
                }) && drained_ids(r@).to_set() == expired_ids(old(self)@.requests, now),
            forall|i: int|
                0 <= i < r@.len() ==> old(self)@.requests.contains_key(#[trigger] r@[i].0)
                    && r@[i].1 == old(self)@.requests[r@[i].0],
    {
        let now = Instant::now();
        self.drain_expired_at(&now)
    }
}

} // verus!
