//! Endpoints of the control stream.

use vstd::prelude::*;
use vstd::string::StringExecFns;
use crate::text::{decimal, decimal_text};

verus! {

/// Capacity of the outbound and of the inbound queue of a connection.
/// The queues are bounded so that a slow peer holds the senders back.
pub const QUEUE_CAPACITY: usize = 128;

/// Seconds between two heartbeats of a connection. Heartbeats share the
/// outbound queue with everything else, so a stalled network pauses them
/// too.
pub const HEARTBEAT_INTERVAL_SECS: u64 = 5;

/// A remote endpoint: an IP address and a port.
#[derive(Debug)]
pub struct ConnectionInfo {
    ip: String,
    port: u16,
}

impl Clone for ConnectionInfo {
    fn clone(&self) -> (r: ConnectionInfo)
        ensures
            r.spec_ip() == self.spec_ip(),
            r.spec_port() == self.spec_port(),
    {
        ConnectionInfo { ip: self.ip.clone(), port: self.port }
    }
}

impl ConnectionInfo {
    /// The address as text.
    pub closed spec fn spec_ip(&self) -> Seq<char> {
        self.ip@
    }

    /// The port.
    pub closed spec fn spec_port(&self) -> u16 {
        self.port
    }

    /// The text `ip:port` of an endpoint.
    pub open spec fn socket_text(ip: Seq<char>, port: u16) -> Seq<char> {
        ip + seq![':'] + decimal_text(port as nat)
    }

    /// An endpoint.
    pub fn new(ip: String, port: u16) -> (r: ConnectionInfo)
        ensures
            r.spec_ip() == ip@,
            r.spec_port() == port,
    {
        ConnectionInfo { ip, port }
    }

    /// The IP address.
    pub fn ip(&self) -> (r: &str)
        ensures
            r@ == self.spec_ip(),
    {
        self.ip.as_str()
    }

    /// The port.
    pub fn port(&self) -> (r: u16)
        ensures
            r == self.spec_port(),
    {
        self.port
    }

    /// The endpoint as `ip:port`, for binding and connecting.
    pub fn to_socket_string(&self) -> (r: String)
        ensures
            r@ == ConnectionInfo::socket_text(self.spec_ip(), self.spec_port()),
    {
        let mut s = self.ip.clone();
        proof {
            reveal_strlit(":");
        }
        s.append(":");
        let p = decimal(self.port as u64);
        s.append(p.as_str());
        assert(s@ =~= self.ip@ + seq![':'] + decimal_text(self.port as nat));
        s
    }

    /// The endpoint as `ip:port`.
    pub fn to_string(&self) -> (r: String)
        ensures
            r@ == ConnectionInfo::socket_text(self.spec_ip(), self.spec_port()),
    {
        self.to_socket_string()
    }
}

} // verus!
