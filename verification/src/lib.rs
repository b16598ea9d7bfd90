//! Reliable radio link of a three-node split keyboard: frame layout,
//! addressing, acknowledged delivery with duplicate suppression, and the
//! request queues in front of the radio.
//!
//! Everything here works on plain values. The code that owns the radio
//! peripheral feeds hardware events in and carries the returned hardware
//! commands out.

use vstd::prelude::*;

pub mod radio;
pub mod trad_radio;

verus! {

/// Base address of the dongle endpoint.
pub const DONGLE_ADDRESS: u32 = 0x4B42_4430;

/// Base address shared by the two keyboard halves.
pub const KEYBOARD_ADDRESS: u32 = 0x4B42_4B31;

/// Address prefix of the dongle endpoint.
pub const DONGLE_PREFIX: u8 = 0xD0;

/// Address prefix of the left half.
pub const LEFT_PREFIX: u8 = 0xA1;

/// Address prefix of the right half.
pub const RIGHT_PREFIX: u8 = 0xA2;

} // verus!
