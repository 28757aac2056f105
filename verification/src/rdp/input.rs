//! Input events on their way between the viewer's window and the agent's
//! input stream.
//!
//! The viewer turns the events of its window into protocol events; the
//! agent replays protocol events through the input primitive of its
//! platform, which knows presses and releases but no double click.

use vstd::prelude::*;
use crate::protocol::screen::{KeyAction, KeyEvent, MouseButton, MouseEvent, MouseEventKind};

verus! {

/// The buttons that a window reports.
#[derive(Debug, Clone, Copy, PartialEq, Eq, Structural)]
pub enum MouseBtn {
    Left,
    Right,
    Middle,
}

/// What a window reports.
#[derive(Debug, Clone, Copy, PartialEq, Eq, Structural)]
pub enum WindowEvent {
    /// The window is asked to close.
    Close,
    /// The window has a new size.
    Resize(u32, u32),
    /// The pointer moved, in coordinates of the window.
    MouseMove(i32, i32),
    /// A button went down (`true`) or up.
    MouseButton(MouseBtn, bool),
    /// The wheel turned.
    MouseWheel(i16),
    /// A key went down (`true`) or up: virtual key code, scan code.
    Key(u16, u16, bool),
}

/// An input event to send to the agent.
#[derive(Debug, Clone, Copy, PartialEq, Eq, Structural)]
pub enum InputAction {
    Mouse(MouseEvent),
    Key(KeyEvent),
}

/// The protocol event for an event of the window, if it has one.
pub open spec fn translated(event: WindowEvent, remote_x: i32, remote_y: i32) -> Option<
    InputAction,
> {
    match event {
        WindowEvent::MouseMove(_, _) => Some(
            InputAction::Mouse(
                MouseEvent {
                    x: remote_x,
                    y: remote_y,
                    kind: MouseEventKind::Move,
                    button: MouseButton::NoButton,
                    scroll_delta: 0,
                },
            ),
        ),
        WindowEvent::MouseButton(btn, pressed) => Some(
            InputAction::Mouse(
                MouseEvent {
                    x: 0,
                    y: 0,
                    kind: if pressed {
                        MouseEventKind::Press
                    } else {
                        MouseEventKind::Release
                    },
                    button: match btn {
                        MouseBtn::Left => MouseButton::Left,
                        MouseBtn::Right => MouseButton::Right,
                        MouseBtn::Middle => MouseButton::Middle,
                    },
                    scroll_delta: 0,
                },
            ),
        ),
        WindowEvent::MouseWheel(delta) => Some(
            InputAction::Mouse(
                MouseEvent {
                    x: 0,
                    y: 0,
                    kind: MouseEventKind::Scroll,
                    button: MouseButton::NoButton,
                    scroll_delta: delta,
                },
            ),
        ),
        WindowEvent::Key(vk, scan, pressed) => Some(
            InputAction::Key(
                KeyEvent {
                    virtual_key: vk,
                    scan_code: scan,
                    action: if pressed {
                        KeyAction::Press
                    } else {
                        KeyAction::Release
                    },
                    modifiers: 0,
                },
            ),
        ),
        WindowEvent::Close => None,
        WindowEvent::Resize(_, _) => None,
    }
}

/// Turns an event of the window into a protocol event. A move goes to
/// `(remote_x, remote_y)`, the position of the pointer scaled to the
/// remote screen by the caller; button and wheel events carry no
/// position; closing and resizing are not input.
pub fn translate_event(event: &WindowEvent, remote_x: i32, remote_y: i32) -> (r: Option<InputAction>)
    ensures
        r == translated(*event, remote_x, remote_y),
{
    match event {
        WindowEvent::MouseMove(_, _) => Some(InputAction::Mouse(MouseEvent::move_to(remote_x, remote_y))),
        WindowEvent::MouseButton(btn, pressed) => {
            let button = match btn {
                MouseBtn::Left => MouseButton::Left,
                MouseBtn::Right => MouseButton::Right,
                MouseBtn::Middle => MouseButton::Middle,
            };
            if *pressed {
                Some(InputAction::Mouse(MouseEvent::press(0, 0, button)))
            } else {
                Some(InputAction::Mouse(MouseEvent::release(0, 0, button)))
            }
        },
        WindowEvent::MouseWheel(delta) => Some(InputAction::Mouse(MouseEvent::scroll(0, 0, *delta))),
        WindowEvent::Key(vk, scan, pressed) => {
            if *pressed {
                Some(InputAction::Key(KeyEvent::press(*vk, *scan, 0)))
            } else {
                Some(InputAction::Key(KeyEvent::release(*vk, *scan, 0)))
            }
        },
        WindowEvent::Close => None,
        WindowEvent::Resize(_, _) => None,
    }
}

/// The events that are injected for a mouse event, in order: a double
/// click is press, release, press, release of its button at its place;
/// every other event is injected as it is.
pub open spec fn injected_for(event: MouseEvent) -> Seq<MouseEvent> {
    if event.kind == MouseEventKind::DoubleClick {
        let down = MouseEvent { kind: MouseEventKind::Press, scroll_delta: 0, ..event };
        let up = MouseEvent { kind: MouseEventKind::Release, scroll_delta: 0, ..event };
        seq![down, up, down, up]
    } else {
        seq![event]
    }
}

/// The events to inject for a mouse event.
pub fn injection_steps(event: &MouseEvent) -> (r: Vec<MouseEvent>)
    ensures
        r@ == injected_for(*event),
{
    match event.kind {
        MouseEventKind::DoubleClick => {
            let down = MouseEvent::press(event.x, event.y, event.button);
            let up = MouseEvent::release(event.x, event.y, event.button);
            let steps = vec![down, up, down, up];
            assert(steps@ =~= injected_for(*event));
            steps
        },
        _ => {
            let steps = vec![*event];
            assert(steps@ =~= injected_for(*event));
            steps
        },
    }
}

} // verus!
