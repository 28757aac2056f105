//! The screen-streaming pipeline: raw frames, block-level change
//! detection, the adaptive encoder and the decoder, the datagram framing
//! and the bandwidth estimator that feeds the encoder.

pub mod bandwidth;
pub mod control;
pub mod decoder;
pub mod delta;
pub mod encoder;
pub mod input;
pub mod roundtrip;
pub mod service;
pub mod transport;
pub mod types;

pub use bandwidth::BandwidthEstimator;
pub use decoder::{DecodedBlock, DecodedFrame, FrameDecoder};
pub use delta::{Block, DeltaDetector, DeltaFrame};
pub use encoder::{AdaptiveEncoder, EncodedFrame};
pub use service::ScreenServiceConfig;
pub use transport::{ChunkHeader, FrameAssembler, FrameHeader, FrameSender};
pub use types::{PixelFormat, RawScreenFrame};
