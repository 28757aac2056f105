//! Core of the TIX remote-control framework: the binary command/response
//! protocol and its framing, connection and request state, the task
//! registry, the screen-streaming pipeline, and the state behind the
//! controller's console and file explorer.

pub mod agent;
pub mod clock;
pub mod codec;
pub mod config;
pub mod console;
pub mod controller;
pub mod error;
pub mod explorer;
pub mod flags;
pub mod header;
pub mod keys;
pub mod listing;
pub mod message;
pub mod network;
pub mod packet;
pub mod protocol;
pub mod rdp;
pub mod state;
pub mod task;
pub mod text;
pub mod textscan;
pub mod wire;

pub use codec::TixCodec;
pub use error::{TaskError, TixError};
pub use flags::ProtocolFlags;
pub use header::{PacketHeader, HEADER_SIZE};
pub use message::{Command, MessageType};
pub use network::ConnectionInfo;
pub use state::{ConnectionPhase, MasterState, PeerCapabilities, SlaveState, TrackedRequest};
pub use task::{Task, TaskEvent, TaskOptions, TaskPool};
pub use packet::{Packet, MAX_FRAME_SIZE, MAX_PAYLOAD_SIZE};
