//! The settings of the agent's screen service.

use vstd::prelude::*;
use vstd::string::StringExecFns;
use crate::rdp::service::ScreenServiceConfig;

verus! {

/// Network settings.
#[derive(Debug, Clone, Copy, PartialEq, Eq, Structural)]
pub struct NetworkConfig {
    /// The datagram port for screen data.
    pub listen_port: u16,
    /// The stream port for control connections.
    pub control_port: u16,
    /// How many controllers may connect at once.
    pub max_connections: u32,
}

impl Default for NetworkConfig {
    fn default() -> (r: NetworkConfig)
        ensures
            r == (NetworkConfig { listen_port: 7331, control_port: 7332, max_connections: 1 }),
    {
        NetworkConfig { listen_port: 7331, control_port: 7332, max_connections: 1 }
    }
}

/// Capture settings.
#[derive(Debug, Clone)]
pub struct ScreenConfig {
    /// Quality preset: `low`, `medium` or `high`.
    pub capture_quality: String,
    /// Target frames per second.
    pub fps: u8,
    /// Whether to send only changed blocks.
    pub delta_detection: bool,
    /// Tile size of change detection, in pixels.
    pub block_size: usize,
    /// Index of the monitor; 0 is the primary one.
    pub monitor_index: u32,
    /// How long a capture waits for a new frame, in milliseconds.
    pub capture_timeout_ms: u32,
}

impl Default for ScreenConfig {
    fn default() -> (r: ScreenConfig)
        ensures
            r.capture_quality@ == "high"@,
            r.fps == 60,
            r.delta_detection,
            r.block_size == 64,
            r.monitor_index == 0,
            r.capture_timeout_ms == 100,
    {
        ScreenConfig {
            capture_quality: String::from_str("high"),
            fps: 60,
            delta_detection: true,
            block_size: 64,
            monitor_index: 0,
            capture_timeout_ms: 100,
        }
    }
}

/// Performance settings.
#[derive(Debug, Clone, Copy, PartialEq, Eq, Structural)]
pub struct PerformanceConfig {
    /// Target bandwidth in mebibytes per second.
    pub target_bandwidth_mbps: u64,
    /// Whether the encoder adapts to the measured bandwidth.
    pub adaptive_quality: bool,
}

impl Default for PerformanceConfig {
    fn default() -> (r: PerformanceConfig)
        ensures
            r == (PerformanceConfig { target_bandwidth_mbps: 100, adaptive_quality: true }),
    {
        PerformanceConfig { target_bandwidth_mbps: 100, adaptive_quality: true }
    }
}

/// Logging settings.
#[derive(Debug, Clone)]
pub struct LoggingConfig {
    /// Log level: `trace`, `debug`, `info`, `warn` or `error`.
    pub level: String,
    /// Path of the log file; empty logs to stderr.
    pub file: String,
}

impl Default for LoggingConfig {
    fn default() -> (r: LoggingConfig)
        ensures
            r.level@ == "info"@,
            r.file@ == Seq::<char>::empty(),
    {
        LoggingConfig { level: String::from_str("info"), file: String::new() }
    }
}

/// The settings of the agent's screen service.
#[derive(Debug, Clone)]
pub struct SlaveConfig {
    /// Network settings.
    pub network: NetworkConfig,
    /// Capture settings.
    pub screen: ScreenConfig,
    /// Performance settings.
    pub performance: PerformanceConfig,
    /// Logging settings.
    pub logging: LoggingConfig,
}

impl Default for SlaveConfig {
    fn default() -> (r: SlaveConfig)
        ensures
            r.network == (NetworkConfig { listen_port: 7331, control_port: 7332, max_connections: 1 }),
            r.screen.fps == 60,
            r.screen.block_size == 64,
            r.screen.monitor_index == 0,
            r.screen.capture_timeout_ms == 100,
            r.screen.delta_detection,
            r.screen.capture_quality@ == "high"@,
            r.performance == (PerformanceConfig { target_bandwidth_mbps: 100, adaptive_quality: true }),
            r.logging.level@ == "info"@,
            r.logging.file@ == Seq::<char>::empty(),
    {
        SlaveConfig {
            network: NetworkConfig::default(),
            screen: ScreenConfig::default(),
            performance: PerformanceConfig::default(),
            logging: LoggingConfig::default(),
        }
    }
}

impl SlaveConfig {
    /// The configuration of the capture service that these settings ask
    /// for: the frame rate kept between 1 and 60, tiles of 8 pixels or
    /// more, the bandwidth in bytes per second.
    pub open spec fn service_config(&self) -> ScreenServiceConfig {
        ScreenServiceConfig {
            target_fps: if self.screen.fps < 1 {
                1
            } else if self.screen.fps > 60 {
                60
            } else {
                self.screen.fps
            },
            block_size: if self.screen.block_size < 8 {
                8
            } else {
                self.screen.block_size
            },
            target_bandwidth: (self.performance.target_bandwidth_mbps * 1048576) as u64,
            monitor_index: self.screen.monitor_index,
            capture_timeout_ms: self.screen.capture_timeout_ms,
        }
    }

    /// The configuration of the capture service that these settings ask
    /// for.
    pub fn to_service_config(&self) -> (r: ScreenServiceConfig)
        requires
            self.performance.target_bandwidth_mbps * 1048576 <= u64::MAX,
        ensures
            r == self.service_config(),
            1 <= r.target_fps <= 60,
            r.block_size >= 8,
    {
        ScreenServiceConfig {
            target_fps: if self.screen.fps < 1 {
                1
            } else if self.screen.fps > 60 {
                60
            } else {
                self.screen.fps
            },
            block_size: if self.screen.block_size < 8 {
                8
            } else {
                self.screen.block_size
            },
            target_bandwidth: self.performance.target_bandwidth_mbps * 1048576,
            monitor_index: self.screen.monitor_index,
            capture_timeout_ms: self.screen.capture_timeout_ms,
        }
    }
}

} // verus!
