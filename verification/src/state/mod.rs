//! Connection state: the phase machine, negotiated capabilities, the
//! controller's table of outstanding requests and the agent's set of
//! running tasks.

pub mod connection;
pub mod master;
pub mod slave;

pub use connection::{ConnectionPhase, PeerCapabilities};
pub use master::{MasterState, TrackedRequest};
pub use slave::SlaveState;
