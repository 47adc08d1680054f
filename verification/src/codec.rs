//! The wire codec: commands to bytes, bytes to frames.
//!
//! The byte layout is asymmetric. A byte with its top bit set is a control
//! byte; a byte with its top bit clear carries a pin id in bits 0 to 5 and a
//! level in bit 6, in both directions.
use vstd::prelude::*;
use crate::opcodes::{
    LEVEL_BIT, PLEASE_ESTABLISH, REQUEST_BOARD_PARAMETERS, RUN_ONE_SAMPLE, SET_PIN_MODE_INPUT,
    SET_PIN_MODE_OUTPUT, SUBSCRIBE,
};

verus! {

/// An outgoing command.
#[derive(Debug, Clone, Copy, PartialEq, Eq, Structural)]
pub enum Command {
    /// Ask the device to acknowledge that it is ready.
    PleaseEstablish,
    /// Ask for the sampling bounds, the pins and the board name.
    RequestBoardParameters,
    /// Make a pin an input.
    SetPinModeInput(u8),
    /// Make a pin an output.
    SetPinModeOutput(u8),
    /// Take one sample of the inputs now.
    RunOneSample,
    /// Drive a digital output pin high (`true`) or low.
    SetDigitalPinValue(u8, bool),
    /// Broadcast pin changes at this interval.
    Subscribe(u16),
}

/// The low byte of a 16-bit value.
pub open spec fn low_byte(value: u16) -> u8 {
    (value % 256) as u8
}

/// The high byte of a 16-bit value.
pub open spec fn high_byte(value: u16) -> u8 {
    (value / 256) as u8
}

/// The 16-bit value with the given low and high bytes.
pub open spec fn word_of(low: u8, high: u8) -> u16 {
    (low + 256 * high) as u16
}

/// The byte that carries a pin id and a level: the id in bits 0 to 5, the
/// level in bit 6. For an id below 64 the top bit is clear.
pub open spec fn level_byte(pin: u8, level: bool) -> u8 {
    pin | if level { LEVEL_BIT } else { 0u8 }
}

/// The bytes that a command puts on the wire.
pub open spec fn command_bytes(command: Command) -> Seq<u8> {
    match command {
        Command::PleaseEstablish => seq![PLEASE_ESTABLISH],
        Command::RequestBoardParameters => seq![REQUEST_BOARD_PARAMETERS],
        Command::SetPinModeInput(pin) => seq![SET_PIN_MODE_INPUT, pin],
        Command::SetPinModeOutput(pin) => seq![SET_PIN_MODE_OUTPUT, pin],
        Command::RunOneSample => seq![RUN_ONE_SAMPLE],
        Command::SetDigitalPinValue(pin, level) => seq![level_byte(pin, level)],
        Command::Subscribe(interval) => seq![SUBSCRIBE, low_byte(interval), high_byte(interval)],
    }
}

/// Splits a 16-bit value into its low and high byte.
pub fn split_word(value: u16) -> (bytes: (u8, u8))
    ensures
        bytes.0 == low_byte(value),
        bytes.1 == high_byte(value),
        word_of(bytes.0, bytes.1) == value,
{
    let low: u8 = (value % 256) as u8;
    let high: u8 = (value / 256) as u8;
    (low, high)
}

/// Joins a low and a high byte into a 16-bit value.
pub fn join_word(low: u8, high: u8) -> (value: u16)
    ensures
        value == word_of(low, high),
        low_byte(value) == low,
        high_byte(value) == high,
{
    let wide: u16 = high as u16;
    wide * 256 + low as u16
}

/// Encodes a command for the wire.
pub fn encode_command(command: &Command) -> (bytes: Vec<u8>)
    ensures
        bytes@ == command_bytes(*command),
{
    let mut bytes: Vec<u8> = Vec::new();
    match *command {
        Command::PleaseEstablish => {
            bytes.push(PLEASE_ESTABLISH);
        },
        Command::RequestBoardParameters => {
            bytes.push(REQUEST_BOARD_PARAMETERS);
        },
        Command::SetPinModeInput(pin) => {
            bytes.push(SET_PIN_MODE_INPUT);
            bytes.push(pin);
        },
        Command::SetPinModeOutput(pin) => {
            bytes.push(SET_PIN_MODE_OUTPUT);
            bytes.push(pin);
        },
        Command::RunOneSample => {
            bytes.push(RUN_ONE_SAMPLE);
        },
        Command::SetDigitalPinValue(pin, level) => {
            bytes.push(pin | if level { LEVEL_BIT } else { 0u8 });
        },
        Command::Subscribe(interval) => {
            let (low, high) = split_word(interval);
            bytes.push(SUBSCRIBE);
            bytes.push(low);
            bytes.push(high);
        },
    }
    bytes
}

/// An event from the device.
#[derive(Debug, Clone, PartialEq, Eq)]
pub enum Event {
    /// The device rejected this command.
    BoardError(Command),
    /// A digital pin changed to this level.
    DigitalPinStateChange(u8, bool),
    /// An analog pin changed to this value.
    AnalogPinStateChange(u8, u16),
    /// The minimum interval between two samples.
    SamplingBounds(u16),
    /// A pin: its hardware id, whether it is analog, whether it has a
    /// pull-up, and its name.
    PinDescription(u8, bool, bool, String),
    /// The name of the board.
    BoardDescription(String),
}

/// An event with its names as sequences of characters.
pub enum EventView {
    BoardError(Command),
    DigitalPinStateChange(u8, bool),
    AnalogPinStateChange(u8, u16),
    SamplingBounds(u16),
    PinDescription(u8, bool, bool, Seq<char>),
    BoardDescription(Seq<char>),
}

impl View for Event {
    type V = EventView;

    open spec fn view(&self) -> EventView {
        match *self {
            Event::BoardError(command) => EventView::BoardError(command),
            Event::DigitalPinStateChange(pin, level) => EventView::DigitalPinStateChange(pin, level),
            Event::AnalogPinStateChange(pin, value) => EventView::AnalogPinStateChange(pin, value),
            Event::SamplingBounds(interval) => EventView::SamplingBounds(interval),
            Event::PinDescription(pin, analog, pullup, name) => EventView::PinDescription(
                pin,
                analog,
                pullup,
                name@,
            ),
            Event::BoardDescription(name) => EventView::BoardDescription(name@),
        }
    }
}

/// The views of a sequence of events, in order.
pub open spec fn event_views(events: Seq<Event>) -> Seq<EventView> {
    events.map_values(|event: Event| event@)
}

} // verus!
