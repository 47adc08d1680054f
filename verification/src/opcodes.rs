//! Control bytes of the wire protocol, by direction.
//!
//! Every control byte has its top bit set. The two directions share the
//! numbers but not their meaning.
use vstd::prelude::*;

verus! {

/// Host to device: ask the device to acknowledge that it is ready.
pub const PLEASE_ESTABLISH: u8 = 0xFF;

/// Host to device: ask for the sampling bounds, the pins and the board name.
pub const REQUEST_BOARD_PARAMETERS: u8 = 0x80;

/// Host to device: make the pin named by the next byte an input.
pub const SET_PIN_MODE_INPUT: u8 = 0x81;

/// Host to device: make the pin named by the next byte an output.
pub const SET_PIN_MODE_OUTPUT: u8 = 0x82;

/// Host to device: take one sample of the inputs now.
pub const RUN_ONE_SAMPLE: u8 = 0x86;

/// Host to device: broadcast pin changes at the interval given by the next
/// two bytes, low byte first. The protocol leaves this number open; this
/// driver assigns `0x87`, the first number after `RUN_ONE_SAMPLE`.
pub const SUBSCRIBE: u8 = 0x87;

/// Device to host: the oldest outstanding command was rejected.
pub const ERROR: u8 = 0xFE;

/// Device to host: the oldest outstanding command was accepted.
pub const ACK: u8 = 0xFF;

/// Device to host: the minimum sample interval follows, low byte first.
pub const SAMPLING_BOUNDS: u8 = 0x80;

/// Device to host: a pin descriptor byte and a NUL-terminated name follow.
pub const PIN_DESCRIPTION: u8 = 0x81;

/// Device to host: the NUL-terminated board name follows.
pub const BOARD_DESCRIPTION: u8 = 0x82;

/// Bit of a broadcast byte or a pin descriptor that carries the level or the
/// pull-up capability.
pub const LEVEL_BIT: u8 = 0x40;

/// Bit that tells a control byte from a broadcast byte, and an analog pin
/// from a digital one in a pin descriptor.
pub const CONTROL_BIT: u8 = 0x80;

/// The bits of a broadcast byte or a pin descriptor that carry the hardware id.
pub const ID_MASK: u8 = 0x3F;

} // verus!
