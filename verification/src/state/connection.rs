//! The phase of a peer connection and the capabilities of a peer.
//!
//! ```text
//!  Disconnected --> Connecting --> Handshaking --> Connected
//!       ^               |               |              |
//!       |               v               v              v
//!       +-------- Disconnecting <-------+--------------+
//! ```

use vstd::prelude::*;
use vstd::string::StringExecFns;
use std::time::Duration;
use std::time::Instant;
use crate::clock::instant_gap;
use crate::error::TixError;

verus! {

/// The phase of a peer connection.
#[derive(Debug, Clone, PartialEq, Eq)]
pub enum ConnectionPhase {
    /// No connection: the first and the last state.
    Disconnected,
    /// A connection was started and is not yet established.
    Connecting,
    /// The link is up and the handshake is under way.
    Handshaking,
    /// The handshake is done; commands and responses can flow.
    Connected {
        /// When the connection became `Connected`.
        since: Instant,
    },
    /// A graceful shutdown is under way.
    Disconnecting,
}

/// A phase without what it carries: the nodes of the transition graph.
#[derive(Debug, Clone, Copy, PartialEq, Eq, Structural)]
pub enum PhaseKind {
    Disconnected,
    Connecting,
    Handshaking,
    Connected,
    Disconnecting,
}

/// The edges that the validated transitions may take.
pub open spec fn allowed_edge(from: PhaseKind, to: PhaseKind) -> bool {
    match (from, to) {
        (PhaseKind::Disconnected, PhaseKind::Connecting) => true,
        (PhaseKind::Connecting, PhaseKind::Handshaking) => true,
        (PhaseKind::Handshaking, PhaseKind::Connected) => true,
        (PhaseKind::Handshaking, PhaseKind::Disconnecting) => true,
        (PhaseKind::Connected, PhaseKind::Disconnecting) => true,
        (PhaseKind::Disconnecting, PhaseKind::Disconnected) => true,
        (PhaseKind::Connecting, PhaseKind::Disconnected) => true,
        (PhaseKind::Handshaking, PhaseKind::Disconnected) => true,
        _ => false,
    }
}

/// What a validated transition towards `to` does to a phase: it either
/// takes the edge, or refuses with `ProtocolViolation` and changes
/// nothing.
pub open spec fn validated_step(
    before: ConnectionPhase,
    to: PhaseKind,
    after: ConnectionPhase,
    r: Result<(), TixError>,
) -> bool {
    if allowed_edge(before.kind(), to) {
        r is Ok && after.kind() == to
    } else {
        r matches Err(TixError::ProtocolViolation(_)) && after == before
    }
}

impl Default for ConnectionPhase {
    fn default() -> (r: ConnectionPhase)
        ensures
            r == ConnectionPhase::Disconnected,
    {
        ConnectionPhase::Disconnected
    }
}

impl ConnectionPhase {
    /// The node of the transition graph that this phase is.
    pub open spec fn kind(self) -> PhaseKind {
        match self {
            ConnectionPhase::Disconnected => PhaseKind::Disconnected,
            ConnectionPhase::Connecting => PhaseKind::Connecting,
            ConnectionPhase::Handshaking => PhaseKind::Handshaking,
            ConnectionPhase::Connected { .. } => PhaseKind::Connected,
            ConnectionPhase::Disconnecting => PhaseKind::Disconnecting,
        }
    }

    /// The node of the transition graph that this phase is.
    pub fn phase_kind(&self) -> (r: PhaseKind)
        ensures
            r == self.kind(),
    {
        match self {
            ConnectionPhase::Disconnected => PhaseKind::Disconnected,
            ConnectionPhase::Connecting => PhaseKind::Connecting,
            ConnectionPhase::Handshaking => PhaseKind::Handshaking,
            ConnectionPhase::Connected { .. } => PhaseKind::Connected,
            ConnectionPhase::Disconnecting => PhaseKind::Disconnecting,
        }
    }

    /// Whether the connection is established.
    pub fn is_connected(&self) -> (r: bool)
        ensures
            r == (self.kind() == PhaseKind::Connected),
    {
        match self {
            ConnectionPhase::Connected { .. } => true,
            _ => false,
        }
    }

    /// Whether there is no connection.
    pub fn is_disconnected(&self) -> (r: bool)
        ensures
            r == (self.kind() == PhaseKind::Disconnected),
    {
        match self {
            ConnectionPhase::Disconnected => true,
            _ => false,
        }
    }

    /// How long the connection has been `Connected` at the instant `now`;
    /// `None` in every other phase.
    pub fn connected_duration_at(&self, now: &Instant) -> (r: Option<Duration>)
        ensures
            match *self {
                ConnectionPhase::Connected { since } => r == Some(instant_gap(*now, since)),
                _ => r.is_none(),
            },
    {
        match self {
            ConnectionPhase::Connected { since } => Some(now.duration_since(*since)),
            _ => None,
        }
    }

    /// How long the connection has been `Connected`, by the clock; `None`
    /// in every other phase.
    pub fn connected_duration(&self) -> (r: Option<Duration>)
        ensures
            r.is_some() == (self.kind() == PhaseKind::Connected),
            match *self {
                ConnectionPhase::Connected { since } => exists|now: Instant|
                    r == Some(#[trigger] instant_gap(now, since)),
                _ => true,
            },
    {
        let now = Instant::now();
        self.connected_duration_at(&now)
    }

    /// To `Connecting`; allowed from `Disconnected`.
    pub fn begin_connect(&mut self) -> (r: Result<(), TixError>)
        ensures
            validated_step(*old(self), PhaseKind::Connecting, *final(self), r),
            r is Ok ==> *final(self) == ConnectionPhase::Connecting,
    {
        match self {
            ConnectionPhase::Disconnected => {
                *self = ConnectionPhase::Connecting;
                Ok(())
            },
            _ => Err(TixError::ProtocolViolation("cannot connect: not in Disconnected state")),
        }
    }

    /// To `Handshaking`; allowed from `Connecting`.
    pub fn begin_handshake(&mut self) -> (r: Result<(), TixError>)
        ensures
            validated_step(*old(self), PhaseKind::Handshaking, *final(self), r),
            r is Ok ==> *final(self) == ConnectionPhase::Handshaking,
    {
        match self {
            ConnectionPhase::Connecting => {
                *self = ConnectionPhase::Handshaking;
                Ok(())
            },
            _ => Err(TixError::ProtocolViolation("cannot handshake: not in Connecting state")),
        }
    }

    /// To `Connected` as of `now`; allowed from `Handshaking`.
    pub fn complete_handshake_at(&mut self, now: Instant) -> (r: Result<(), TixError>)
        ensures
            validated_step(*old(self), PhaseKind::Connected, *final(self), r),
            r is Ok ==> *final(self) == (ConnectionPhase::Connected { since: now }),
    {
        match self {
            ConnectionPhase::Handshaking => {
                *self = ConnectionPhase::Connected { since: now };
                Ok(())
            },
            _ => Err(
                TixError::ProtocolViolation("cannot complete handshake: not in Handshaking state"),
            ),
        }
    }

    /// To `Connected` as of the clock's reading; allowed from
    /// `Handshaking`.
    pub fn complete_handshake(&mut self) -> (r: Result<(), TixError>)
        ensures
            validated_step(*old(self), PhaseKind::Connected, *final(self), r),
    {
        let now = Instant::now();
        self.complete_handshake_at(now)
    }

    /// To `Disconnecting`; allowed from `Handshaking` and `Connected`.
    pub fn begin_disconnect(&mut self) -> (r: Result<(), TixError>)
        ensures
            validated_step(*old(self), PhaseKind::Disconnecting, *final(self), r),
            r is Ok ==> *final(self) == ConnectionPhase::Disconnecting,
    {
        match self {
            ConnectionPhase::Handshaking => {
                *self = ConnectionPhase::Disconnecting;
                Ok(())
            },
            ConnectionPhase::Connected { .. } => {
                *self = ConnectionPhase::Disconnecting;
                Ok(())
            },
            _ => Err(
                TixError::ProtocolViolation(
                    "cannot disconnect: not in Handshaking or Connected state",
                ),
            ),
        }
    }

    /// To `Disconnected`; allowed from `Disconnecting`, `Connecting` and
    /// `Handshaking`.
    pub fn finish_disconnect(&mut self) -> (r: Result<(), TixError>)
        ensures
            validated_step(*old(self), PhaseKind::Disconnected, *final(self), r),
            r is Ok ==> *final(self) == ConnectionPhase::Disconnected,
    {
        match self {
            ConnectionPhase::Disconnecting => {
                *self = ConnectionPhase::Disconnected;
                Ok(())
            },
            ConnectionPhase::Connecting => {
                *self = ConnectionPhase::Disconnected;
                Ok(())
            },
            ConnectionPhase::Handshaking => {
                *self = ConnectionPhase::Disconnected;
                Ok(())
            },
            _ => Err(
                TixError::ProtocolViolation(
                    "cannot finish disconnect: not in a disconnectable state",
                ),
            ),
        }
    }

    /// To `Disconnected` from any phase, without validation: for errors
    /// that cannot be recovered from.
    pub fn force_disconnect(&mut self)
        ensures
            *final(self) == ConnectionPhase::Disconnected,
    {
        *self = ConnectionPhase::Disconnected;
    }

    /// The name of the phase.
    pub fn to_string(&self) -> (s: String)
        ensures
            s@ == match self.kind() {
                PhaseKind::Disconnected => "Disconnected"@,
                PhaseKind::Connecting => "Connecting"@,
                PhaseKind::Handshaking => "Handshaking"@,
                PhaseKind::Connected => "Connected"@,
                PhaseKind::Disconnecting => "Disconnecting"@,
            },
    {
        match self {
            ConnectionPhase::Disconnected => String::from_str("Disconnected"),
            ConnectionPhase::Connecting => String::from_str("Connecting"),
            ConnectionPhase::Handshaking => String::from_str("Handshaking"),
            ConnectionPhase::Connected { .. } => String::from_str("Connected"),
            ConnectionPhase::Disconnecting => String::from_str("Disconnecting"),
        }
    }
}

/// The validated transitions are acyclic but for the return to
/// `Disconnected`: ranked by progress, every edge that does not end in
/// `Disconnected` goes strictly up, and `Connected` is left only towards
/// `Disconnecting`.
pub proof fn lemma_transitions_form_dag(from: PhaseKind, to: PhaseKind)
    requires
        allowed_edge(from, to),
    ensures
        from != to,
        to != PhaseKind::Disconnected ==> phase_rank(from) < phase_rank(to),
        from == PhaseKind::Connected ==> to == PhaseKind::Disconnecting,
        from == PhaseKind::Disconnected ==> to == PhaseKind::Connecting,
{
}

/// How far along its life a connection is in a phase.
pub open spec fn phase_rank(k: PhaseKind) -> nat {
    match k {
        PhaseKind::Disconnected => 0,
        PhaseKind::Connecting => 1,
        PhaseKind::Handshaking => 2,
        PhaseKind::Connected => 3,
        PhaseKind::Disconnecting => 4,
    }
}

/// What a peer says it can do, exchanged in the handshake.
#[derive(Debug, Clone, Copy, PartialEq, Eq, Structural)]
pub struct PeerCapabilities {
    /// Streams shell output.
    pub shell_streaming: bool,
    /// Transfers files by delta sync.
    pub file_delta_sync: bool,
    /// Captures the screen.
    pub screen_capture: bool,
    /// Compresses payloads.
    pub compression: bool,
    /// The largest payload that the peer accepts.
    pub max_payload_size: u64,
}

impl Default for PeerCapabilities {
    fn default() -> (r: PeerCapabilities)
        ensures
            r == PeerCapabilities::full(),
    {
        PeerCapabilities {
            shell_streaming: true,
            file_delta_sync: true,
            screen_capture: true,
            compression: true,
            max_payload_size: 262144,
        }
    }
}

impl PeerCapabilities {
    /// Every feature, and the protocol's own payload limit.
    pub open spec fn full() -> PeerCapabilities {
        PeerCapabilities {
            shell_streaming: true,
            file_delta_sync: true,
            screen_capture: true,
            compression: true,
            max_payload_size: 262144,
        }
    }

    /// The capabilities that both peers have: the AND of each feature and
    /// the smaller of the two limits.
    pub open spec fn negotiated(self, remote: PeerCapabilities) -> PeerCapabilities {
        PeerCapabilities {
            shell_streaming: self.shell_streaming && remote.shell_streaming,
            file_delta_sync: self.file_delta_sync && remote.file_delta_sync,
            screen_capture: self.screen_capture && remote.screen_capture,
            compression: self.compression && remote.compression,
            max_payload_size: if self.max_payload_size <= remote.max_payload_size {
                self.max_payload_size
            } else {
                remote.max_payload_size
            },
        }
    }

    /// The capabilities that both peers have.
    pub fn negotiate(&self, remote: &PeerCapabilities) -> (r: PeerCapabilities)
        ensures
            r == self.negotiated(*remote),
    {
        PeerCapabilities {
            shell_streaming: self.shell_streaming && remote.shell_streaming,
            file_delta_sync: self.file_delta_sync && remote.file_delta_sync,
            screen_capture: self.screen_capture && remote.screen_capture,
            compression: self.compression && remote.compression,
            max_payload_size: if self.max_payload_size <= remote.max_payload_size {
                self.max_payload_size
            } else {
                remote.max_payload_size
            },
        }
    }
}

/// Negotiation is commutative: either peer computes the same result.
pub proof fn lemma_negotiate_commutative(a: PeerCapabilities, b: PeerCapabilities)
    ensures
        a.negotiated(b) == b.negotiated(a),
{
}

/// Negotiation is idempotent: a peer negotiating with itself keeps its
/// capabilities, and negotiating again with the same peer changes
/// nothing.
pub proof fn lemma_negotiate_idempotent(a: PeerCapabilities, b: PeerCapabilities)
    ensures
        a.negotiated(a) == a,
        a.negotiated(b).negotiated(b) == a.negotiated(b),
{
}

} // verus!
