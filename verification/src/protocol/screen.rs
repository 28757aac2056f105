//! The remote-desktop service: screen sessions and input events.
//!
//! ```text
//! controller --[ScreenStart]----------------> agent        ScreenStartRequest
//! agent      --[ScreenStart]----------------> controller   ScreenConfig
//! agent      --[ScreenFrame + STREAMING]----> controller   ScreenFrame (repeated)
//! controller --[ScreenStop]-----------------> agent        (empty)
//! controller --[InputMouse]-----------------> agent        MouseEvent
//! controller --[InputKeyboard]--------------> agent        KeyEvent
//! ```

pub mod key_modifiers;

use vstd::prelude::*;
use vstd::string::StringExecFns;
use crate::error::TixError;
use crate::flags::{ProtocolFlags, FLAG_STREAMING};
use crate::message::{Command, MessageType};
use crate::packet::{constructed, Packet};
use crate::protocol::encoding::lemma_mouse_event_roundtrip;
use crate::protocol::encoding::lemma_key_event_roundtrip;
use crate::protocol::encoding::{
    decode_key_event, decode_mouse_event, decode_screen_config, decode_screen_frame,
    decode_screen_start, encode_key_event, encode_mouse_event, encode_screen_config,
    encode_screen_frame, encode_screen_start, key_event_bytes, key_event_record,
    mouse_event_bytes, mouse_event_record, screen_config_bytes, screen_config_record,
    screen_frame_bytes, screen_frame_record, screen_start_bytes, screen_start_record,
};

verus! {

/// The encodings of a screen frame.
#[derive(Debug, Clone, Copy, PartialEq, Eq, Hash, Structural)]
pub enum ImageFormat {
    /// JPEG: lossy and fast.
    Jpeg,
    /// PNG: lossless and slower.
    Png,
    /// Raw BGRA pixels.
    RawBgra,
    /// Raw RGB pixels.
    RawRgb,
}

impl Default for ImageFormat {
    fn default() -> (r: ImageFormat)
        ensures
            r == ImageFormat::Jpeg,
    {
        ImageFormat::Jpeg
    }
}

impl ImageFormat {
    /// The name of the format.
    pub fn to_string(&self) -> (s: String)
        ensures
            s@ == match self {
                ImageFormat::Jpeg => "jpeg"@,
                ImageFormat::Png => "png"@,
                ImageFormat::RawBgra => "raw_bgra"@,
                ImageFormat::RawRgb => "raw_rgb"@,
            },
    {
        match self {
            ImageFormat::Jpeg => String::from_str("jpeg"),
            ImageFormat::Png => String::from_str("png"),
            ImageFormat::RawBgra => String::from_str("raw_bgra"),
            ImageFormat::RawRgb => String::from_str("raw_rgb"),
        }
    }
}

/// A rectangle of the screen to capture.
#[derive(Debug, Clone, Copy, PartialEq, Eq, Structural)]
pub struct CaptureRegion {
    pub x: u32,
    pub y: u32,
    pub width: u32,
    pub height: u32,
}

impl CaptureRegion {
    /// A region.
    pub fn new(x: u32, y: u32, width: u32, height: u32) -> (r: CaptureRegion)
        ensures
            r == (CaptureRegion { x, y, width, height }),
    {
        CaptureRegion { x, y, width, height }
    }

    /// The region of a whole screen of the given size.
    pub fn full_screen(width: u32, height: u32) -> (r: CaptureRegion)
        ensures
            r == (CaptureRegion { x: 0, y: 0, width, height }),
    {
        CaptureRegion { x: 0, y: 0, width, height }
    }
}

/// A request to start a screen session.
#[derive(Debug, Clone, Copy, PartialEq, Eq, Structural)]
pub struct ScreenStartRequest {
    /// Quality, 0 to 100; 100 is lossless.
    pub quality: u8,
    /// Frames per second, 1 to 60.
    pub fps: u8,
    /// The region to capture; `None` is the whole screen.
    pub region: Option<CaptureRegion>,
    /// The preferred encoding of frames.
    pub format: ImageFormat,
    /// Whether frames carry the cursor.
    pub include_cursor: bool,
    /// Index of the monitor; 0 is the primary one.
    pub monitor: u8,
}

impl Default for ScreenStartRequest {
    fn default() -> (r: ScreenStartRequest)
        ensures
            r == ScreenStartRequest::defaults(),
    {
        ScreenStartRequest {
            quality: 75,
            fps: 30,
            region: None,
            format: ImageFormat::Jpeg,
            include_cursor: true,
            monitor: 0,
        }
    }
}

impl ScreenStartRequest {
    /// The defaults: quality 75, 30 frames per second, the whole primary
    /// screen as JPEG, with the cursor.
    pub open spec fn defaults() -> ScreenStartRequest {
        ScreenStartRequest {
            quality: 75,
            fps: 30,
            region: None,
            format: ImageFormat::Jpeg,
            include_cursor: true,
            monitor: 0,
        }
    }

    /// A request with the defaults.
    pub fn new() -> (r: ScreenStartRequest)
        ensures
            r == ScreenStartRequest::defaults(),
    {
        ScreenStartRequest {
            quality: 75,
            fps: 30,
            region: None,
            format: ImageFormat::Jpeg,
            include_cursor: true,
            monitor: 0,
        }
    }

    /// Sets the quality; more than 100 is taken as 100.
    pub fn with_quality(self, quality: u8) -> (r: ScreenStartRequest)
        ensures
            r == (ScreenStartRequest {
                quality: if quality <= 100 {
                    quality
                } else {
                    100
                },
                ..self
            }),
    {
        let mut r = self;
        r.quality = if quality <= 100 {
            quality
        } else {
            100
        };
        r
    }

    /// Sets the frames per second, kept between 1 and 60.
    pub fn with_fps(self, fps: u8) -> (r: ScreenStartRequest)
        ensures
            r == (ScreenStartRequest {
                fps: if fps < 1 {
                    1
                } else if fps > 60 {
                    60
                } else {
                    fps
                },
                ..self
            }),
    {
        let mut r = self;
        r.fps = if fps < 1 {
            1
        } else if fps > 60 {
            60
        } else {
            fps
        };
        r
    }

    /// Sets the region to capture.
    pub fn with_region(self, region: CaptureRegion) -> (r: ScreenStartRequest)
        ensures
            r == (ScreenStartRequest { region: Some(region), ..self }),
    {
        let mut r = self;
        r.region = Some(region);
        r
    }

    /// Sets the encoding of frames.
    pub fn with_format(self, format: ImageFormat) -> (r: ScreenStartRequest)
        ensures
            r == (ScreenStartRequest { format, ..self }),
    {
        let mut r = self;
        r.format = format;
        r
    }
}

/// The configuration that the agent settled on, sent back after
/// `ScreenStart`.
#[derive(Debug, Clone, PartialEq)]
pub struct ScreenConfig {
    /// Width of the screen in pixels.
    pub width: u32,
    /// Height of the screen in pixels.
    pub height: u32,
    /// Quality in use.
    pub quality: u8,
    /// Frames per second in use.
    pub fps: u8,
    /// Encoding of the frames.
    pub format: ImageFormat,
    /// Name of the monitor.
    pub monitor_name: String,
}

impl ScreenConfig {
}

/// A request to stop the screen session. It has no fields.
#[derive(Debug, Clone, Copy, PartialEq, Eq, Structural)]
pub struct ScreenStopRequest;

impl Default for ScreenStopRequest {
    fn default() -> (r: ScreenStopRequest) {
        ScreenStopRequest
    }
}

impl ScreenStopRequest {
    /// The `ScreenStop` command packet, with an empty payload.
    pub fn into_packet(self, request_id: u64) -> (r: Result<Packet, TixError>)
        ensures
            r is Ok,
            constructed(
                r,
                MessageType::Command,
                request_id,
                Command::ScreenStop,
                Seq::<u8>::empty(),
                0,
            ),
    {
        Packet::new_command(request_id, Command::ScreenStop, Vec::new())
    }
}

/// Where the cursor is and whether it shows.
#[derive(Debug, Clone, Copy, PartialEq, Eq, Structural)]
pub struct CursorInfo {
    /// X position in screen coordinates.
    pub x: i32,
    /// Y position in screen coordinates.
    pub y: i32,
    /// Whether the cursor shows.
    pub visible: bool,
}

impl CursorInfo {
    /// A cursor record.
    pub fn new(x: i32, y: i32, visible: bool) -> (r: CursorInfo)
        ensures
            r == (CursorInfo { x, y, visible }),
    {
        CursorInfo { x, y, visible }
    }
}

/// One frame of the screen on the control stream.
#[derive(Debug, Clone, PartialEq)]
pub struct ScreenFrame {
    /// Number of the frame, from 0.
    pub frame_number: u64,
    /// Capture time in microseconds since the start of the capture.
    pub timestamp_us: u64,
    /// Width in pixels.
    pub width: u32,
    /// Height in pixels.
    pub height: u32,
    /// Encoding of `data`.
    pub format: ImageFormat,
    /// The encoded image.
    pub data: Vec<u8>,
    /// The cursor, if the frame carries it.
    pub cursor: Option<CursorInfo>,
    /// Whether the frame is a delta against the one before.
    pub is_delta: bool,
}

impl ScreenFrame {
}

/// The kinds of mouse events.
#[derive(Debug, Clone, Copy, PartialEq, Eq, Structural)]
pub enum MouseEventKind {
    Move,
    Press,
    Release,
    Scroll,
    DoubleClick,
}

/// The buttons of a mouse.
#[derive(Debug, Clone, Copy, PartialEq, Eq, Structural)]
pub enum MouseButton {
    /// No button is involved.
    NoButton,
    Left,
    Right,
    Middle,
    X1,
    X2,
}

/// A mouse event to inject on the agent.
#[derive(Debug, Clone, Copy, PartialEq, Eq, Structural)]
pub struct MouseEvent {
    /// X position in screen coordinates.
    pub x: i32,
    /// Y position in screen coordinates.
    pub y: i32,
    /// What happened.
    pub kind: MouseEventKind,
    /// The button, where one is involved.
    pub button: MouseButton,
    /// How far the wheel turned, for scroll events.
    pub scroll_delta: i16,
}

impl MouseEvent {
    /// The pointer moved.
    pub fn move_to(x: i32, y: i32) -> (r: MouseEvent)
        ensures
            r == (MouseEvent {
                x,
                y,
                kind: MouseEventKind::Move,
                button: MouseButton::NoButton,
                scroll_delta: 0,
            }),
    {
        MouseEvent {
            x,
            y,
            kind: MouseEventKind::Move,
            button: MouseButton::NoButton,
            scroll_delta: 0,
        }
    }

    /// A button went down.
    pub fn press(x: i32, y: i32, button: MouseButton) -> (r: MouseEvent)
        ensures
            r == (MouseEvent { x, y, kind: MouseEventKind::Press, button, scroll_delta: 0 }),
    {
        MouseEvent { x, y, kind: MouseEventKind::Press, button, scroll_delta: 0 }
    }

    /// A button went up.
    pub fn release(x: i32, y: i32, button: MouseButton) -> (r: MouseEvent)
        ensures
            r == (MouseEvent { x, y, kind: MouseEventKind::Release, button, scroll_delta: 0 }),
    {
        MouseEvent { x, y, kind: MouseEventKind::Release, button, scroll_delta: 0 }
    }

    /// The wheel turned.
    pub fn scroll(x: i32, y: i32, delta: i16) -> (r: MouseEvent)
        ensures
            r == (MouseEvent {
                x,
                y,
                kind: MouseEventKind::Scroll,
                button: MouseButton::NoButton,
                scroll_delta: delta,
            }),
    {
        MouseEvent {
            x,
            y,
            kind: MouseEventKind::Scroll,
            button: MouseButton::NoButton,
            scroll_delta: delta,
        }
    }
}

/// Whether a key went down or up.
#[derive(Debug, Clone, Copy, PartialEq, Eq, Structural)]
pub enum KeyAction {
    Press,
    Release,
}

/// A keyboard event to inject on the agent.
#[derive(Debug, Clone, Copy, PartialEq, Eq, Structural)]
pub struct KeyEvent {
    /// The virtual key code.
    pub virtual_key: u16,
    /// The hardware scan code.
    pub scan_code: u16,
    /// Whether the key went down or up.
    pub action: KeyAction,
    /// The modifier bits.
    pub modifiers: u8,
}

impl KeyEvent {
    /// A key went down.
    pub fn press(virtual_key: u16, scan_code: u16, modifiers: u8) -> (r: KeyEvent)
        ensures
            r == (KeyEvent { virtual_key, scan_code, action: KeyAction::Press, modifiers }),
    {
        KeyEvent { virtual_key, scan_code, action: KeyAction::Press, modifiers }
    }

    /// A key went up.
    pub fn release(virtual_key: u16, scan_code: u16, modifiers: u8) -> (r: KeyEvent)
        ensures
            r == (KeyEvent { virtual_key, scan_code, action: KeyAction::Release, modifiers }),
    {
        KeyEvent { virtual_key, scan_code, action: KeyAction::Release, modifiers }
    }

    /// Whether any bit of `modifier` is set in the modifiers of the
    /// event.
    pub fn has_modifier(&self, modifier: u8) -> (r: bool)
        ensures
            r == (self.modifiers & modifier != 0),
    {
        self.modifiers & modifier != 0
    }
}

impl ImageFormat {
    /// The number of the variant in the encoding: its place in the list
    /// of variants, counted from zero.
    pub open spec fn spec_index(self) -> u32 {
        match self {
            ImageFormat::Jpeg => 0,
            ImageFormat::Png => 1,
            ImageFormat::RawBgra => 2,
            ImageFormat::RawRgb => 3,
        }
    }

    /// The number of the variant in the encoding.
    pub fn index(self) -> (r: u32)
        ensures
            r == self.spec_index(),
            r < 4,
    {
        match self {
            ImageFormat::Jpeg => 0,
            ImageFormat::Png => 1,
            ImageFormat::RawBgra => 2,
            ImageFormat::RawRgb => 3,
        }
    }

    /// The variant with this number, if there is one.
    pub fn from_index(index: u32) -> (r: Option<ImageFormat>)
        ensures
            match r {
                Some(v) => v.spec_index() == index,
                None => index >= 4,
            },
    {
        match index {
            0 => Some(ImageFormat::Jpeg),
            1 => Some(ImageFormat::Png),
            2 => Some(ImageFormat::RawBgra),
            3 => Some(ImageFormat::RawRgb),
            _ => None,
        }
    }
}

impl MouseEventKind {
    /// The number of the variant in the encoding: its place in the list
    /// of variants, counted from zero.
    pub open spec fn spec_index(self) -> u32 {
        match self {
            MouseEventKind::Move => 0,
            MouseEventKind::Press => 1,
            MouseEventKind::Release => 2,
            MouseEventKind::Scroll => 3,
            MouseEventKind::DoubleClick => 4,
        }
    }

    /// The number of the variant in the encoding.
    pub fn index(self) -> (r: u32)
        ensures
            r == self.spec_index(),
            r < 5,
    {
        match self {
            MouseEventKind::Move => 0,
            MouseEventKind::Press => 1,
            MouseEventKind::Release => 2,
            MouseEventKind::Scroll => 3,
            MouseEventKind::DoubleClick => 4,
        }
    }

    /// The variant with this number, if there is one.
    pub fn from_index(index: u32) -> (r: Option<MouseEventKind>)
        ensures
            match r {
                Some(v) => v.spec_index() == index,
                None => index >= 5,
            },
    {
        match index {
            0 => Some(MouseEventKind::Move),
            1 => Some(MouseEventKind::Press),
            2 => Some(MouseEventKind::Release),
            3 => Some(MouseEventKind::Scroll),
            4 => Some(MouseEventKind::DoubleClick),
            _ => None,
        }
    }
}

impl MouseButton {
    /// The number of the variant in the encoding: its place in the list
    /// of variants, counted from zero.
    pub open spec fn spec_index(self) -> u32 {
        match self {
            MouseButton::NoButton => 0,
            MouseButton::Left => 1,
            MouseButton::Right => 2,
            MouseButton::Middle => 3,
            MouseButton::X1 => 4,
            MouseButton::X2 => 5,
        }
    }

    /// The number of the variant in the encoding.
    pub fn index(self) -> (r: u32)
        ensures
            r == self.spec_index(),
            r < 6,
    {
        match self {
            MouseButton::NoButton => 0,
            MouseButton::Left => 1,
            MouseButton::Right => 2,
            MouseButton::Middle => 3,
            MouseButton::X1 => 4,
            MouseButton::X2 => 5,
        }
    }

    /// The variant with this number, if there is one.
    pub fn from_index(index: u32) -> (r: Option<MouseButton>)
        ensures
            match r {
                Some(v) => v.spec_index() == index,
                None => index >= 6,
            },
    {
        match index {
            0 => Some(MouseButton::NoButton),
            1 => Some(MouseButton::Left),
            2 => Some(MouseButton::Right),
            3 => Some(MouseButton::Middle),
            4 => Some(MouseButton::X1),
            5 => Some(MouseButton::X2),
            _ => None,
        }
    }
}

impl KeyAction {
    /// The number of the variant in the encoding: its place in the list
    /// of variants, counted from zero.
    pub open spec fn spec_index(self) -> u32 {
        match self {
            KeyAction::Press => 0,
            KeyAction::Release => 1,
        }
    }

    /// The number of the variant in the encoding.
    pub fn index(self) -> (r: u32)
        ensures
            r == self.spec_index(),
            r < 2,
    {
        match self {
            KeyAction::Press => 0,
            KeyAction::Release => 1,
        }
    }

    /// The variant with this number, if there is one.
    pub fn from_index(index: u32) -> (r: Option<KeyAction>)
        ensures
            match r {
                Some(v) => v.spec_index() == index,
                None => index >= 2,
            },
    {
        match index {
            0 => Some(KeyAction::Press),
            1 => Some(KeyAction::Release),
            _ => None,
        }
    }
}

/// A capture region as it is encoded.
pub open spec fn region_record(region: Option<CaptureRegion>) -> Option<(u32, u32, u32, u32)> {
    match region {
        Some(r) => Some((r.x, r.y, r.width, r.height)),
        None => None,
    }
}

/// The region as plain values.
fn region_fields(region: &Option<CaptureRegion>) -> (r: Option<(u32, u32, u32, u32)>)
    ensures
        r == region_record(*region),
        r.deep_view() == region_record(*region),
{
    match region {
        Some(r) => Some((r.x, r.y, r.width, r.height)),
        None => None,
    }
}

/// The region that these plain values stand for.
fn region_of(record: Option<(u32, u32, u32, u32)>) -> (r: Option<CaptureRegion>)
    ensures
        region_record(r) == record,
        region_record(r) == record.deep_view(),
{
    match record {
        Some(t) => Some(CaptureRegion { x: t.0, y: t.1, width: t.2, height: t.3 }),
        None => None,
    }
}

/// A cursor as it is encoded.
pub open spec fn cursor_record(cursor: Option<CursorInfo>) -> Option<(i32, i32, bool)> {
    match cursor {
        Some(c) => Some((c.x, c.y, c.visible)),
        None => None,
    }
}

/// The cursor as plain values.
fn cursor_fields(cursor: &Option<CursorInfo>) -> (r: Option<(i32, i32, bool)>)
    ensures
        r == cursor_record(*cursor),
        r.deep_view() == cursor_record(*cursor),
{
    match cursor {
        Some(c) => Some((c.x, c.y, c.visible)),
        None => None,
    }
}

/// The cursor that these plain values stand for.
fn cursor_of(record: Option<(i32, i32, bool)>) -> (r: Option<CursorInfo>)
    ensures
        cursor_record(r) == record,
        cursor_record(r) == record.deep_view(),
{
    match record {
        Some(t) => Some(CursorInfo { x: t.0, y: t.1, visible: t.2 }),
        None => None,
    }
}

impl ScreenStartRequest {
    /// The record of the fields, as it is encoded.
    pub open spec fn record(&self) -> (u8, u8, Option<(u32, u32, u32, u32)>, u32, bool, u8) {
        (
            self.quality,
            self.fps,
            region_record(self.region),
            self.format.spec_index(),
            self.include_cursor,
            self.monitor,
        )
    }

    /// Whether a record names variants that there are.
    pub open spec fn known(record: (u8, u8, Option<(u32, u32, u32, u32)>, u32, bool, u8)) -> bool {
        record.3 < 4
    }

    /// The payload as bytes: the encoding of its record.
    pub fn to_bytes(&self) -> (r: Result<Vec<u8>, TixError>)
        ensures
            match r {
                Ok(bytes) => {
                    &&& screen_start_bytes(self.record()) == Some(bytes@)
                    &&& screen_start_record(bytes@) == Some(self.record())
                },
                Err(e) => screen_start_bytes(self.record()).is_none() && e is Encoding,
            },
    {
        let record = (
            self.quality,
            self.fps,
            region_fields(&self.region),
            self.format.index(),
            self.include_cursor,
            self.monitor,
        );
        assert(record.deep_view() == self.record());
        match encode_screen_start(&record) {
            Ok(bytes) => Ok(bytes),
            Err(text) => Err(TixError::Encoding(text)),
        }
    }

    /// Reads the payload from bytes. Bytes that are no encoding of such a
    /// record are refused.
    pub fn from_bytes(bytes: &[u8]) -> (r: Result<ScreenStartRequest, TixError>)
        ensures
            match r {
                Ok(v) => screen_start_record(bytes@) == Some(v.record()),
                Err(e) => e is Encoding && (match screen_start_record(bytes@) {
                    Some(record) => !Self::known(record),
                    None => true,
                }),
            },
    {
        match decode_screen_start(bytes) {
            Ok(record) => {
                match ImageFormat::from_index(record.3) {
                    Some(format) => {
                        let v = ScreenStartRequest {
                            quality: record.0,
                            fps: record.1,
                            region: region_of(record.2),
                            format,
                            include_cursor: record.4,
                            monitor: record.5,
                        };
                        assert(v.record() == record.deep_view());
                        Ok(v)
                    },
                    None => Err(TixError::Encoding(String::from_str("unknown variant"))),
                }
            },
            Err(text) => Err(TixError::Encoding(text)),
        }
    }

    /// The command packet that carries this payload: its bytes are the
    /// payload of the packet. A payload that cannot be encoded, or whose
    /// bytes are over the limit of a packet, gives the error.
    pub fn into_packet(self, request_id: u64) -> (r: Result<Packet, TixError>)
        ensures
            match screen_start_bytes(self.record()) {
                Some(payload) => constructed(
                    r,
                    MessageType::Command,
                    request_id,
                    Command::ScreenStart,
                    payload,
                    0,
                ),
                None => r matches Err(TixError::Encoding(_)),
            },
    {
        match self.to_bytes() {
            Ok(payload) => Packet::new_command(request_id, Command::ScreenStart, payload),
            Err(e) => Err(e),
        }
    }
}

impl ScreenConfig {
    /// The record of the fields, as it is encoded.
    pub open spec fn record(&self) -> (u32, u32, u8, u8, u32, Seq<char>) {
        (
            self.width,
            self.height,
            self.quality,
            self.fps,
            self.format.spec_index(),
            self.monitor_name.deep_view(),
        )
    }

    /// Whether a record names variants that there are.
    pub open spec fn known(record: (u32, u32, u8, u8, u32, Seq<char>)) -> bool {
        record.4 < 4
    }

    /// The payload as bytes: the encoding of its record.
    pub fn to_bytes(&self) -> (r: Result<Vec<u8>, TixError>)
        ensures
            match r {
                Ok(bytes) => {
                    &&& screen_config_bytes(self.record()) == Some(bytes@)
                    &&& screen_config_record(bytes@) == Some(self.record())
                },
                Err(e) => screen_config_bytes(self.record()).is_none() && e is Encoding,
            },
    {
        let record = (
            self.width,
            self.height,
            self.quality,
            self.fps,
            self.format.index(),
            &self.monitor_name,
        );
        assert(record.deep_view() == self.record());
        match encode_screen_config(&record) {
            Ok(bytes) => Ok(bytes),
            Err(text) => Err(TixError::Encoding(text)),
        }
    }

    /// Reads the payload from bytes. Bytes that are no encoding of such a
    /// record are refused.
    pub fn from_bytes(bytes: &[u8]) -> (r: Result<ScreenConfig, TixError>)
        ensures
            match r {
                Ok(v) => screen_config_record(bytes@) == Some(v.record()),
                Err(e) => e is Encoding && (match screen_config_record(bytes@) {
                    Some(record) => !Self::known(record),
                    None => true,
                }),
            },
    {
        match decode_screen_config(bytes) {
            Ok(record) => {
                match ImageFormat::from_index(record.4) {
                    Some(format) => {
                        let v = ScreenConfig {
                            width: record.0,
                            height: record.1,
                            quality: record.2,
                            fps: record.3,
                            format,
                            monitor_name: record.5,
                        };
                        assert(v.record() == record.deep_view());
                        Ok(v)
                    },
                    None => Err(TixError::Encoding(String::from_str("unknown variant"))),
                }
            },
            Err(text) => Err(TixError::Encoding(text)),
        }
    }

    /// The response packet that carries this payload: its bytes are the
    /// payload of the packet. A payload that cannot be encoded, or whose
    /// bytes are over the limit of a packet, gives the error.
    pub fn into_packet(self, request_id: u64) -> (r: Result<Packet, TixError>)
        ensures
            match screen_config_bytes(self.record()) {
                Some(payload) => constructed(
                    r,
                    MessageType::Response,
                    request_id,
                    Command::ScreenStart,
                    payload,
                    0,
                ),
                None => r matches Err(TixError::Encoding(_)),
            },
    {
        match self.to_bytes() {
            Ok(payload) => Packet::new_response(request_id, Command::ScreenStart, payload),
            Err(e) => Err(e),
        }
    }
}

impl ScreenFrame {
    /// The record of the fields, as it is encoded.
    pub open spec fn record(&self) -> (
        u64,
        u64,
        u32,
        u32,
        u32,
        Seq<u8>,
        Option<(i32, i32, bool)>,
        bool,
    ) {
        (
            self.frame_number,
            self.timestamp_us,
            self.width,
            self.height,
            self.format.spec_index(),
            self.data.deep_view(),
            cursor_record(self.cursor),
            self.is_delta,
        )
    }

    /// Whether a record names variants that there are.
    pub open spec fn known(record: (
        u64,
        u64,
        u32,
        u32,
        u32,
        Seq<u8>,
        Option<(i32, i32, bool)>,
        bool,
    )) -> bool {
        record.4 < 4
    }

    /// The payload as bytes: the encoding of its record.
    pub fn to_bytes(&self) -> (r: Result<Vec<u8>, TixError>)
        ensures
            match r {
                Ok(bytes) => {
                    &&& screen_frame_bytes(self.record()) == Some(bytes@)
                    &&& screen_frame_record(bytes@) == Some(self.record())
                },
                Err(e) => screen_frame_bytes(self.record()).is_none() && e is Encoding,
            },
    {
        let record = (
            self.frame_number,
            self.timestamp_us,
            self.width,
            self.height,
            self.format.index(),
            &self.data,
            cursor_fields(&self.cursor),
            self.is_delta,
        );
        assert(record.deep_view() == self.record());
        match encode_screen_frame(&record) {
            Ok(bytes) => Ok(bytes),
            Err(text) => Err(TixError::Encoding(text)),
        }
    }

    /// Reads the payload from bytes. Bytes that are no encoding of such a
    /// record are refused.
    pub fn from_bytes(bytes: &[u8]) -> (r: Result<ScreenFrame, TixError>)
        ensures
            match r {
                Ok(v) => screen_frame_record(bytes@) == Some(v.record()),
                Err(e) => e is Encoding && (match screen_frame_record(bytes@) {
                    Some(record) => !Self::known(record),
                    None => true,
                }),
            },
    {
        match decode_screen_frame(bytes) {
            Ok(record) => {
                match ImageFormat::from_index(record.4) {
                    Some(format) => {
                        let v = ScreenFrame {
                            frame_number: record.0,
                            timestamp_us: record.1,
                            width: record.2,
                            height: record.3,
                            format,
                            data: record.5,
                            cursor: cursor_of(record.6),
                            is_delta: record.7,
                        };
                        assert(v.record() == record.deep_view());
                        Ok(v)
                    },
                    None => Err(TixError::Encoding(String::from_str("unknown variant"))),
                }
            },
            Err(text) => Err(TixError::Encoding(text)),
        }
    }

    /// The response packet that carries this payload: its bytes are the
    /// payload of the packet. A payload that cannot be encoded, or whose
    /// bytes are over the limit of a packet, gives the error.
    pub fn into_packet(self, request_id: u64) -> (r: Result<Packet, TixError>)
        ensures
            match screen_frame_bytes(self.record()) {
                Some(payload) => constructed(
                    r,
                    MessageType::Response,
                    request_id,
                    Command::ScreenFrame,
                    payload,
                    FLAG_STREAMING,
                ),
                None => r matches Err(TixError::Encoding(_)),
            },
    {
        match self.to_bytes() {
            Ok(payload) => Packet::new_response_with_flags(
                request_id,
                Command::ScreenFrame,
                payload,
                ProtocolFlags::streaming(),
            ),
            Err(e) => Err(e),
        }
    }
}

impl MouseEvent {
    /// The record of the fields, as it is encoded.
    pub open spec fn record(&self) -> (i32, i32, u32, u32, i16) {
        (self.x, self.y, self.kind.spec_index(), self.button.spec_index(), self.scroll_delta)
    }

    /// Whether a record names variants that there are.
    pub open spec fn known(record: (i32, i32, u32, u32, i16)) -> bool {
        record.2 < 5 && record.3 < 6
    }

    /// The payload as bytes: the encoding of its record.
    pub fn to_bytes(&self) -> (r: Result<Vec<u8>, TixError>)
        ensures
            r is Ok,
            match r {
                Ok(bytes) => {
                    &&& mouse_event_bytes(self.record()) == Some(bytes@)
                    &&& mouse_event_record(bytes@) == Some(self.record())
                },
                Err(e) => mouse_event_bytes(self.record()).is_none() && e is Encoding,
            },
    {
        proof {
            lemma_mouse_event_roundtrip(self.record(), Seq::empty());
            assert(mouse_event_bytes(self.record()).unwrap() + Seq::<u8>::empty() =~= mouse_event_bytes(
                self.record(),
            ).unwrap());
        }
        let record = (self.x, self.y, self.kind.index(), self.button.index(), self.scroll_delta);
        assert(record.deep_view() == self.record());
        match encode_mouse_event(&record) {
            Ok(bytes) => Ok(bytes),
            Err(text) => Err(TixError::Encoding(text)),
        }
    }

    /// Reads the payload from bytes. Bytes that are no encoding of such a
    /// record are refused.
    pub fn from_bytes(bytes: &[u8]) -> (r: Result<MouseEvent, TixError>)
        ensures
            match r {
                Ok(v) => mouse_event_record(bytes@) == Some(v.record()),
                Err(e) => e is Encoding && (match mouse_event_record(bytes@) {
                    Some(record) => !Self::known(record),
                    None => true,
                }),
            },
    {
        match decode_mouse_event(bytes) {
            Ok(record) => {
                match MouseEventKind::from_index(record.2) {
                    Some(kind) => {
                        match MouseButton::from_index(record.3) {
                            Some(button) => {
                                let v = MouseEvent {
                                    x: record.0,
                                    y: record.1,
                                    kind,
                                    button,
                                    scroll_delta: record.4,
                                };
                                assert(v.record() == record.deep_view());
                                Ok(v)
                            },
                            None => Err(TixError::Encoding(String::from_str("unknown variant"))),
                        }
                    },
                    None => Err(TixError::Encoding(String::from_str("unknown variant"))),
                }
            },
            Err(text) => Err(TixError::Encoding(text)),
        }
    }

    /// The command packet that carries this payload: its bytes are the
    /// payload of the packet. A payload that cannot be encoded, or whose
    /// bytes are over the limit of a packet, gives the error.
    pub fn into_packet(self, request_id: u64) -> (r: Result<Packet, TixError>)
        ensures
            r is Ok,
            match mouse_event_bytes(self.record()) {
                Some(payload) => constructed(
                    r,
                    MessageType::Command,
                    request_id,
                    Command::InputMouse,
                    payload,
                    0,
                ),
                None => r matches Err(TixError::Encoding(_)),
            },
    {
        proof {
            lemma_mouse_event_roundtrip(self.record(), Seq::empty());
        }
        match self.to_bytes() {
            Ok(payload) => Packet::new_command(request_id, Command::InputMouse, payload),
            Err(e) => Err(e),
        }
    }
}

impl KeyEvent {
    /// The record of the fields, as it is encoded.
    pub open spec fn record(&self) -> (u16, u16, u32, u8) {
        (self.virtual_key, self.scan_code, self.action.spec_index(), self.modifiers)
    }

    /// Whether a record names variants that there are.
    pub open spec fn known(record: (u16, u16, u32, u8)) -> bool {
        record.2 < 2
    }

    /// The payload as bytes: the encoding of its record.
    pub fn to_bytes(&self) -> (r: Result<Vec<u8>, TixError>)
        ensures
            r is Ok,
            match r {
                Ok(bytes) => {
                    &&& key_event_bytes(self.record()) == Some(bytes@)
                    &&& key_event_record(bytes@) == Some(self.record())
                },
                Err(e) => key_event_bytes(self.record()).is_none() && e is Encoding,
            },
    {
        proof {
            lemma_key_event_roundtrip(self.record(), Seq::empty());
            assert(key_event_bytes(self.record()).unwrap() + Seq::<u8>::empty() =~= key_event_bytes(
                self.record(),
            ).unwrap());
        }
        let record = (self.virtual_key, self.scan_code, self.action.index(), self.modifiers);
        assert(record.deep_view() == self.record());
        match encode_key_event(&record) {
            Ok(bytes) => Ok(bytes),
            Err(text) => Err(TixError::Encoding(text)),
        }
    }

    /// Reads the payload from bytes. Bytes that are no encoding of such a
    /// record are refused.
    pub fn from_bytes(bytes: &[u8]) -> (r: Result<KeyEvent, TixError>)
        ensures
            match r {
                Ok(v) => key_event_record(bytes@) == Some(v.record()),
                Err(e) => e is Encoding && (match key_event_record(bytes@) {
                    Some(record) => !Self::known(record),
                    None => true,
                }),
            },
    {
        match decode_key_event(bytes) {
            Ok(record) => {
                match KeyAction::from_index(record.2) {
                    Some(action) => {
                        let v = KeyEvent {
                            virtual_key: record.0,
                            scan_code: record.1,
                            action,
                            modifiers: record.3,
                        };
                        assert(v.record() == record.deep_view());
                        Ok(v)
                    },
                    None => Err(TixError::Encoding(String::from_str("unknown variant"))),
                }
            },
            Err(text) => Err(TixError::Encoding(text)),
        }
    }

    /// The command packet that carries this payload: its bytes are the
    /// payload of the packet. A payload that cannot be encoded, or whose
    /// bytes are over the limit of a packet, gives the error.
    pub fn into_packet(self, request_id: u64) -> (r: Result<Packet, TixError>)
        ensures
            r is Ok,
            match key_event_bytes(self.record()) {
                Some(payload) => constructed(
                    r,
                    MessageType::Command,
                    request_id,
                    Command::InputKeyboard,
                    payload,
                    0,
                ),
                None => r matches Err(TixError::Encoding(_)),
            },
    {
        proof {
            lemma_key_event_roundtrip(self.record(), Seq::empty());
        }
        match self.to_bytes() {
            Ok(payload) => Packet::new_command(request_id, Command::InputKeyboard, payload),
            Err(e) => Err(e),
        }
    }
}

} // verus!
