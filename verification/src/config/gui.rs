//! The settings of the viewer.

use vstd::prelude::*;
use vstd::string::StringExecFns;

verus! {

/// Network settings.
#[derive(Debug, Clone)]
pub struct NetworkConfig {
    /// The control address of the agent, as `ip:port`.
    pub slave_address: String,
    /// How long to wait for the connection, in milliseconds.
    pub timeout_ms: u64,
}

impl Default for NetworkConfig {
    fn default() -> (r: NetworkConfig)
        ensures
            r.slave_address@ == "127.0.0.1:7332"@,
            r.timeout_ms == 5000,
    {
        NetworkConfig { slave_address: String::from_str("127.0.0.1:7332"), timeout_ms: 5000 }
    }
}

/// Display settings.
#[derive(Debug, Clone, Copy, PartialEq, Eq, Structural)]
pub struct DisplayConfig {
    /// Width of the window at the start.
    pub width: u32,
    /// Height of the window at the start.
    pub height: u32,
    /// Whether to start in full screen.
    pub fullscreen: bool,
    /// Whether drawing waits for the monitor's refresh.
    pub vsync: bool,
}

impl Default for DisplayConfig {
    fn default() -> (r: DisplayConfig)
        ensures
            r == (DisplayConfig { width: 1920, height: 1080, fullscreen: false, vsync: true }),
    {
        DisplayConfig { width: 1920, height: 1080, fullscreen: false, vsync: true }
    }
}

/// Performance settings.
#[derive(Debug, Clone)]
pub struct PerformanceConfig {
    /// How many frames are buffered before frames are dropped.
    pub buffer_size: u32,
    /// Quality hint: `low`, `medium` or `high`.
    pub quality: String,
}

impl Default for PerformanceConfig {
    fn default() -> (r: PerformanceConfig)
        ensures
            r.buffer_size == 3,
            r.quality@ == "high"@,
    {
        PerformanceConfig { buffer_size: 3, quality: String::from_str("high") }
    }
}

/// Input forwarding settings.
#[derive(Debug, Clone, Copy, PartialEq, Eq, Structural)]
pub struct InputConfig {
    /// Whether mouse events are forwarded.
    pub capture_mouse: bool,
    /// Whether keyboard events are forwarded.
    pub capture_keyboard: bool,
}

impl Default for InputConfig {
    fn default() -> (r: InputConfig)
        ensures
            r == (InputConfig { capture_mouse: true, capture_keyboard: true }),
    {
        InputConfig { capture_mouse: true, capture_keyboard: true }
    }
}

/// Logging settings.
#[derive(Debug, Clone)]
pub struct LoggingConfig {
    /// Log level.
    pub level: String,
    /// Path of the log file; empty logs to stderr.
    pub file: String,
}

impl Default for LoggingConfig {
    fn default() -> (r: LoggingConfig)
        ensures
            r.level@ == "info"@,
            r.file@ == Seq::<char>::empty(),
    {
        LoggingConfig { level: String::from_str("info"), file: String::new() }
    }
}

/// The settings of the viewer.
#[derive(Debug, Clone)]
pub struct GuiConfig {
    /// Network settings.
    pub network: NetworkConfig,
    /// Display settings.
    pub display: DisplayConfig,
    /// Performance settings.
    pub performance: PerformanceConfig,
    /// Input forwarding settings.
    pub input: InputConfig,
    /// Logging settings.
    pub logging: LoggingConfig,
}

impl Default for GuiConfig {
    fn default() -> (r: GuiConfig)
        ensures
            r.network.slave_address@ == "127.0.0.1:7332"@,
            r.network.timeout_ms == 5000,
            r.display == (DisplayConfig { width: 1920, height: 1080, fullscreen: false, vsync: true }),
            r.performance.buffer_size == 3,
            r.performance.quality@ == "high"@,
            r.input == (InputConfig { capture_mouse: true, capture_keyboard: true }),
            r.logging.level@ == "info"@,
            r.logging.file@ == Seq::<char>::empty(),
    {
        GuiConfig {
            network: NetworkConfig::default(),
            display: DisplayConfig::default(),
            performance: PerformanceConfig::default(),
            input: InputConfig::default(),
            logging: LoggingConfig::default(),
        }
    }
}

} // verus!
