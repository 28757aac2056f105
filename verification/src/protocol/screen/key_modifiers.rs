//! The bits of the modifier field of a key event.

use vstd::prelude::*;

verus! {

/// No modifier.
pub const NONE: u8 = 0x00;

/// Shift.
pub const SHIFT: u8 = 0x01;

/// Control.
pub const CTRL: u8 = 0x02;

/// Alt.
pub const ALT: u8 = 0x04;

/// The Windows or Super key.
pub const META: u8 = 0x08;

} // verus!
