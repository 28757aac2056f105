//! The payloads of the protocol's services: shell, file transfer and
//! remote desktop.
//!
//! A payload travels as the body of a packet. This module names the
//! fields of each payload, turns a payload into bytes and back, and says
//! in which packet a payload travels: with which command, as a command
//! or a response, and under which flags.

pub mod encoding;
pub mod file;
pub mod screen;
pub mod shell;

pub use file::{
    DeltaChunkInfo, DeltaSyncRequest, FileChunk, FileHashVerification, FileMetadata,
    FileTransferHeader, FileTransferRequest,
};
pub use screen::{
    KeyAction, KeyEvent, MouseButton, MouseEvent, MouseEventKind, ScreenConfig, ScreenFrame,
    ScreenStartRequest, ScreenStopRequest,
};
pub use shell::{ShellExecuteRequest, ShellExitStatus, ShellOutputChunk, ShellResizeRequest};
