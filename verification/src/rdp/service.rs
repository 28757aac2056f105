//! The decisions of the capture service and of the screen client.
//!
//! The capture loop runs at the cadence of the target frame rate:
//! capture, detect, encode and send unless nothing changed, feed the
//! estimator, adjust the encoder once a second, sleep out the rest of the
//! interval. The loop itself, with its captures, sends and sleeps, is the
//! caller's; what it decides on the way is here.

use vstd::prelude::*;
use std::collections::VecDeque;
use std::time::Duration;
use crate::clock::{duration_nanos, longer_than};
use crate::rdp::delta::DeltaFrame;

verus! {

/// The configuration of the capture service.
#[derive(Debug, Clone, Copy, PartialEq, Eq, Structural)]
pub struct ScreenServiceConfig {
    /// Target frames per second, 1 to 60.
    pub target_fps: u8,
    /// Tile size of change detection, in pixels.
    pub block_size: usize,
    /// Target bandwidth in bytes per second.
    pub target_bandwidth: u64,
    /// Index of the monitor; 0 is the primary one.
    pub monitor_index: u32,
    /// How long a capture waits for a new frame, in milliseconds.
    pub capture_timeout_ms: u32,
}

impl Default for ScreenServiceConfig {
    fn default() -> (r: ScreenServiceConfig)
        ensures
            r == ScreenServiceConfig::defaults(),
    {
        ScreenServiceConfig {
            target_fps: 60,
            block_size: 64,
            target_bandwidth: 104857600,
            monitor_index: 0,
            capture_timeout_ms: 100,
        }
    }
}

impl ScreenServiceConfig {
    /// The defaults: 60 frames per second, tiles of 64 pixels, 100 MiB
    /// per second, the primary monitor, 100 ms capture timeout.
    pub open spec fn defaults() -> ScreenServiceConfig {
        ScreenServiceConfig {
            target_fps: 60,
            block_size: 64,
            target_bandwidth: 104857600,
            monitor_index: 0,
            capture_timeout_ms: 100,
        }
    }
}

/// The length of one frame interval at `target_fps` frames per second,
/// in whole nanoseconds.
pub fn frame_interval(target_fps: u8) -> (r: Duration)
    requires
        target_fps > 0,
    ensures
        duration_nanos(r) == 1_000_000_000int / (target_fps as int),
{
    Duration::from_nanos(1_000_000_000u64 / (target_fps as u64))
}

/// Whether a frame is worth sending: a full frame always is, a delta
/// only when a block changed.
pub fn should_transmit(delta: &DeltaFrame) -> (r: bool)
    ensures
        r == (delta.full_frame || delta.changed_blocks@.len() > 0),
{
    delta.full_frame || delta.changed_blocks.len() > 0
}

/// Whether the encoder is due for an adjustment: more than a second has
/// passed since the last one.
pub fn adjustment_due(since_last: &Duration) -> (r: bool)
    ensures
        r == (duration_nanos(*since_last) > 1_000_000_000),
{
    since_last.as_nanos() > 1_000_000_000
}

/// How long to sleep so that the loop keeps its cadence: the rest of the
/// interval, or `None` when the interval is used up.
pub fn pace(elapsed: &Duration, interval: &Duration) -> (r: Option<Duration>)
    requires
        duration_nanos(*interval) <= u64::MAX,
    ensures
        match r {
            Some(rest) => longer_than(*interval, *elapsed) && duration_nanos(rest)
                == duration_nanos(*interval) - duration_nanos(*elapsed),
            None => !longer_than(*interval, *elapsed),
        },
{
    let e = elapsed.as_nanos();
    let i = interval.as_nanos();
    if e < i {
        Some(Duration::from_nanos((i - e) as u64))
    } else {
        None
    }
}

/// The sum of the first `n` values.
pub open spec fn sum_of(values: Seq<u64>, n: nat) -> nat
    decreases n,
{
    if n == 0 {
        0
    } else {
        sum_of(values, (n - 1) as nat) + values[n - 1] as nat
    }
}

/// The times between the arrivals of the last frames, at most 60 of
/// them, in nanoseconds: the rolling window that the frame rate of the
/// client is taken from.
pub struct ArrivalWindow {
    gaps: VecDeque<u64>,
}

impl View for ArrivalWindow {
    type V = Seq<u64>;

    closed spec fn view(&self) -> Seq<u64> {
        self.gaps@
    }
}

impl ArrivalWindow {
    /// An empty window.
    pub fn new() -> (r: ArrivalWindow)
        ensures
            r@ == Seq::<u64>::empty(),
    {
        ArrivalWindow { gaps: VecDeque::new() }
    }

    /// Adds the time since the frame before; the oldest time leaves when
    /// there are more than 60.
    pub fn push(&mut self, gap_nanos: u64)
        ensures
            final(self)@ == (if old(self)@.len() + 1 > 60 {
                old(self)@.push(gap_nanos).skip(1)
            } else {
                old(self)@.push(gap_nanos)
            }),
    {
        self.gaps.push_back(gap_nanos);
        if self.gaps.len() > 60 {
            let ghost before = self.gaps@;
            self.gaps.pop_front();
            assert(self.gaps@ =~= before.skip(1));
        }
    }

    /// The number of times in the window.
    pub fn len(&self) -> (r: usize)
        ensures
            r == self@.len(),
    {
        self.gaps.len()
    }

    /// The mean time between frames in nanoseconds, rounded down; `None`
    /// for an empty window. The frame rate is its inverse.
    pub fn average_nanos(&self) -> (r: Option<u64>)
        ensures
            match r {
                Some(avg) => self@.len() > 0 && avg == sum_of(self@, self@.len()) / self@.len(),
                None => self@.len() == 0,
            },
    {
        let n = self.gaps.len();
        if n == 0 {
            return None;
        }
        let mut sum: u128 = 0;
        let mut i: usize = 0;
        while i < n
            invariant
                i <= n,
                n == self.gaps@.len(),
                sum == sum_of(self.gaps@, i as nat),
                sum <= i * 0xFFFF_FFFF_FFFF_FFFF,
            decreases n - i,
        {
            sum = sum + self.gaps[i] as u128;
            i += 1;
        }
        let avg = sum / (n as u128);
        assert(avg <= 0xFFFF_FFFF_FFFF_FFFF) by (nonlinear_arith)
            requires
                avg == sum / (n as u128),
                sum <= n * 0xFFFF_FFFF_FFFF_FFFF,
                n > 0,
        ;
        Some(avg as u64)
    }
}

} // verus!
