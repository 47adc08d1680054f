//! Capability discovery: what the device says of itself, once, right after
//! the handshake.
//!
//! The host asks with `Command::RequestBoardParameters`. The device answers
//! with its sampling bounds, then with one description for each pin, then
//! with the description of the board, which ends the answer. Anything else
//! means that host and device are out of step.
use vstd::prelude::*;
use crate::board::{pin_type, Capabilities, PinData, PinMode, PinStatus, PinType};
use crate::codec::{level_byte, Event};
use crate::error::CircuitDojoError;
use crate::opcodes::{BOARD_DESCRIPTION, ERROR, LEVEL_BIT, PIN_DESCRIPTION, SAMPLING_BOUNDS};

verus! {

/// The byte that announces an event on the wire. A change of a digital pin is
/// announced by the byte that carries it; a change of an analog pin has no
/// byte of its own in this protocol and stands here with its hardware id.
pub open spec fn lead_byte(event: Event) -> u8 {
    match event {
        Event::BoardError(_) => ERROR,
        Event::DigitalPinStateChange(pin, level) => level_byte(pin, level),
        Event::AnalogPinStateChange(pin, _) => pin,
        Event::SamplingBounds(_) => SAMPLING_BOUNDS,
        Event::PinDescription(_, _, _, _) => PIN_DESCRIPTION,
        Event::BoardDescription(_) => BOARD_DESCRIPTION,
    }
}

/// The record of a pin that was just described: no intent was issued for it
/// and nothing is known of its state.
pub open spec fn described_pin(id: u8, analog: bool, pullup: bool, name: String) -> PinData {
    PinData {
        tp: pin_type(analog, pullup),
        mode: PinMode::Unset,
        hw_id: id,
        ident: name,
        status: PinStatus::NoStatus,
    }
}

/// Discovery under way.
#[derive(Debug, PartialEq, Eq)]
pub struct Discovery {
    min_sample: Option<u16>,
    pins: Vec<PinData>,
}

/// Discovery under way, as the contracts speak of it.
#[verifier::ext_equal]
pub struct DiscoveryView {
    /// The sampling bounds, once the device has sent them.
    pub min_sample: Option<u16>,
    /// The pins described so far, in their order.
    pub pins: Seq<PinData>,
}

impl View for Discovery {
    type V = DiscoveryView;

    closed spec fn view(&self) -> DiscoveryView {
        DiscoveryView { min_sample: self.min_sample, pins: self.pins@ }
    }
}

/// How discovery stands after an event.
#[derive(Debug, PartialEq, Eq)]
pub enum Discovered {
    /// The answer of the device goes on.
    More(Discovery),
    /// The device has described the board: this is all of it.
    Done(Capabilities),
}

/// How discovery stands after an event, as the contracts speak of it.
pub enum DiscoveredView {
    /// The answer of the device goes on.
    More(DiscoveryView),
    /// The name of the board, the sampling bounds and the pins.
    Done(String, u16, Seq<PinData>),
}

impl View for Discovered {
    type V = DiscoveredView;

    open spec fn view(&self) -> DiscoveredView {
        match *self {
            Discovered::More(state) => DiscoveredView::More(state@),
            Discovered::Done(found) => DiscoveredView::Done(
                found.board_name,
                found.min_sample,
                found.pins@,
            ),
        }
    }
}

/// How discovery stands after an event, or the error that ends it. The
/// sampling bounds come first and once; the descriptions of the pins follow;
/// the description of the board comes last.
pub open spec fn after_event(state: DiscoveryView, event: Event) -> Result<
    DiscoveredView,
    CircuitDojoError,
> {
    match state.min_sample {
        None => match event {
            Event::SamplingBounds(interval) => Ok(
                DiscoveredView::More(
                    DiscoveryView { min_sample: Some(interval), pins: state.pins },
                ),
            ),
            _ => Err(CircuitDojoError::SynchronizationError(lead_byte(event))),
        },
        Some(interval) => match event {
            Event::PinDescription(id, analog, pullup, name) => Ok(
                DiscoveredView::More(
                    DiscoveryView {
                        min_sample: state.min_sample,
                        pins: state.pins.push(described_pin(id, analog, pullup, name)),
                    },
                ),
            ),
            Event::BoardDescription(name) => Ok(DiscoveredView::Done(name, interval, state.pins)),
            _ => Err(CircuitDojoError::SynchronizationError(lead_byte(event))),
        },
    }
}

/// What a step of discovery returned, as the contracts speak of it.
pub open spec fn discovered_view(step: Result<Discovered, CircuitDojoError>) -> Result<
    DiscoveredView,
    CircuitDojoError,
> {
    match step {
        Ok(next) => Ok(next@),
        Err(error) => Err(error),
    }
}

impl Discovery {
    /// Discovery before the device has said anything.
    pub fn new() -> (discovery: Discovery)
        ensures
            discovery@ == (DiscoveryView { min_sample: None, pins: Seq::empty() }),
    {
        Discovery { min_sample: None, pins: Vec::new() }
    }

    /// The byte that announces an event on the wire.
    fn announce(event: &Event) -> (byte: u8)
        ensures
            byte == lead_byte(*event),
    {
        match event {
            Event::BoardError(_) => ERROR,
            Event::DigitalPinStateChange(pin, level) => *pin | if *level {
                LEVEL_BIT
            } else {
                0u8
            },
            Event::AnalogPinStateChange(pin, _) => *pin,
            Event::SamplingBounds(_) => SAMPLING_BOUNDS,
            Event::PinDescription(_, _, _, _) => PIN_DESCRIPTION,
            Event::BoardDescription(_) => BOARD_DESCRIPTION,
        }
    }

    /// Takes the next event of the device's answer.
    pub fn accept(self, event: Event) -> (step: Result<Discovered, CircuitDojoError>)
        ensures
            discovered_view(step) == after_event(self@, event),
    {
        let Discovery { min_sample, mut pins } = self;
        match min_sample {
            None => match event {
                Event::SamplingBounds(interval) => Ok(
                    Discovered::More(Discovery { min_sample: Some(interval), pins }),
                ),
                other => Err(CircuitDojoError::SynchronizationError(Self::announce(&other))),
            },
            Some(interval) => match event {
                Event::PinDescription(id, analog, pullup, name) => {
                    let tp = if analog {
                        PinType::Analog
                    } else if pullup {
                        PinType::DigitalPullup
                    } else {
                        PinType::Digital
                    };
                    pins.push(
                        PinData {
                            tp,
                            mode: PinMode::Unset,
                            hw_id: id,
                            ident: name,
                            status: PinStatus::NoStatus,
                        },
                    );
                    Ok(Discovered::More(Discovery { min_sample, pins }))
                },
                Event::BoardDescription(name) => Ok(
                    Discovered::Done(
                        Capabilities { board_name: name, min_sample: interval, pins },
                    ),
                ),
                other => Err(CircuitDojoError::SynchronizationError(Self::announce(&other))),
            },
        }
    }
}

} // verus!
