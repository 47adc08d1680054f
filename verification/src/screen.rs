//! What the desktop front end decides, apart from drawing: which port is
//! picked, how a pin is shown, and what a click on a pin asks of the board.
use vstd::prelude::*;
use crate::board::{
    after_digital_write, after_set_mode, after_update, Board, BoardView, PinData, PinMode,
    PinStatus, QUEUE_SLOTS,
};
use crate::codec::Command;
use crate::error::CircuitDojoError;

verus! {

/// The interval at which the main screen asks the device to broadcast.
pub const SUBSCRIBE_INTERVAL: u16 = 100;

/// The screen on which the user picks a serial port.
#[derive(Debug)]
pub struct PortPickerScreen {
    /// The names of the ports that were found.
    pub ports_list: Vec<String>,
    /// The position of the port that is picked.
    pub selected: usize,
}

impl PortPickerScreen {
    /// The screen for the given ports, with the first one picked.
    pub fn new(ports_list: Vec<String>) -> (screen: PortPickerScreen)
        ensures
            screen.ports_list == ports_list,
            screen.selected == 0,
    {
        PortPickerScreen { ports_list, selected: 0 }
    }

    /// Picks the port at the given position. A position beyond the list
    /// changes nothing.
    pub fn select(&mut self, index: usize) -> (picked: bool)
        ensures
            picked == (index < old(self).ports_list@.len()),
            final(self).ports_list == old(self).ports_list,
            final(self).selected == if picked {
                index
            } else {
                old(self).selected
            },
    {
        if index < self.ports_list.len() {
            self.selected = index;
            true
        } else {
            false
        }
    }

    /// The name of the port that is picked, `None` where the list has no
    /// such position.
    pub fn selected_port(&self) -> (port: Option<&String>)
        ensures
            match port {
                Some(name) => self.selected < self.ports_list@.len() && *name
                    == self.ports_list@[self.selected as int],
                None => self.selected >= self.ports_list@.len(),
            },
    {
        if self.selected < self.ports_list.len() {
            Some(&self.ports_list[self.selected])
        } else {
            None
        }
    }
}

/// The colour of the tile that stands for a pin.
#[derive(Debug, Clone, Copy, PartialEq, Eq, Structural)]
pub enum TileColor {
    /// No intent was issued for the pin.
    Idle,
    /// The pin is high.
    High,
    /// The pin is low, or its level is not known.
    Low,
}

/// The colour of a pin's tile.
pub open spec fn tile_color_of(mode: PinMode, status: PinStatus) -> TileColor {
    match mode {
        PinMode::Unset => TileColor::Idle,
        _ => match status {
            PinStatus::DigitalOutputting(true) | PinStatus::DigitalInputting(true) => TileColor::High,
            _ => TileColor::Low,
        },
    }
}

/// The colour of a pin's tile.
pub fn tile_color(mode: PinMode, status: PinStatus) -> (color: TileColor)
    ensures
        color == tile_color_of(mode, status),
{
    match mode {
        PinMode::Unset => TileColor::Idle,
        _ => {
            let level = match status {
                PinStatus::DigitalOutputting(level) => level,
                PinStatus::DigitalInputting(level) => level,
                _ => false,
            };
            if level {
                TileColor::High
            } else {
                TileColor::Low
            }
        },
    }
}

/// The text that names a mode on a tile.
pub open spec fn mode_text(mode: PinMode) -> Seq<char> {
    match mode {
        PinMode::Input => "INPUT"@,
        PinMode::Output => "OUTPUT"@,
        PinMode::Unset => "OFF"@,
    }
}

/// The text that names a mode on a tile.
pub fn mode_label(mode: PinMode) -> (label: &'static str)
    ensures
        label@ == mode_text(mode),
{
    match mode {
        PinMode::Input => "INPUT",
        PinMode::Output => "OUTPUT",
        PinMode::Unset => "OFF",
    }
}

/// What a click on a tile asks of the board.
#[derive(Debug, Clone, Copy, PartialEq, Eq, Structural)]
pub enum Intent {
    /// Make the pin an output.
    SetOutput(u8),
    /// Make the pin an input.
    SetInput(u8),
    /// Drive the pin to this level.
    DigitalWrite(u8, bool),
}

/// What a click on a pin's tile asks for. A click on the mode label turns an
/// input into an output and anything else into an input. A click elsewhere
/// on the tile of an output toggles the level that the host drives, and
/// drives it high where the host drives nothing yet; on any other tile it
/// asks for nothing.
pub open spec fn click_intent_of(pin: PinData, on_mode_label: bool) -> Option<Intent> {
    if on_mode_label {
        match pin.mode {
            PinMode::Input => Some(Intent::SetOutput(pin.hw_id)),
            _ => Some(Intent::SetInput(pin.hw_id)),
        }
    } else {
        match pin.mode {
            PinMode::Output => match pin.status {
                PinStatus::DigitalOutputting(level) => Some(
                    Intent::DigitalWrite(pin.hw_id, !level),
                ),
                _ => Some(Intent::DigitalWrite(pin.hw_id, true)),
            },
            _ => None,
        }
    }
}

/// What a click on a pin's tile asks for.
pub fn click_intent(pin: &PinData, on_mode_label: bool) -> (intent: Option<Intent>)
    ensures
        intent == click_intent_of(*pin, on_mode_label),
{
    if on_mode_label {
        match pin.mode {
            PinMode::Input => Some(Intent::SetOutput(pin.hw_id)),
            _ => Some(Intent::SetInput(pin.hw_id)),
        }
    } else {
        match pin.mode {
            PinMode::Output => match pin.status {
                PinStatus::DigitalOutputting(level) => Some(Intent::DigitalWrite(pin.hw_id, !level)),
                _ => Some(Intent::DigitalWrite(pin.hw_id, true)),
            },
            _ => None,
        }
    }
}

/// The board after an intent, and what the caller is told.
pub open spec fn after_intent(board: BoardView, intent: Intent) -> (
    BoardView,
    Result<(), CircuitDojoError>,
) {
    match intent {
        Intent::SetOutput(id) => after_set_mode(
            board,
            id,
            PinMode::Output,
            Command::SetPinModeOutput(id),
        ),
        Intent::SetInput(id) => after_set_mode(board, id, PinMode::Input, Command::SetPinModeInput(id)),
        Intent::DigitalWrite(id, level) => after_digital_write(board, id, level),
    }
}

/// The screen that shows the pins of a board.
pub struct MainScreen {
    /// The board that is shown.
    pub board: Board,
}

impl MainScreen {
    /// The screen for a board. It asks the device to broadcast pin changes,
    /// and fails where the queue of the board has no room for that.
    pub fn new(board: Board) -> (made: Result<MainScreen, CircuitDojoError>)
        requires
            board.wf(),
        ensures
            match made {
                Ok(screen) => screen.board.wf() && board@.outbox.len() < QUEUE_SLOTS
                    && screen.board@ == (BoardView {
                    outbox: board@.outbox.push(Command::Subscribe(SUBSCRIBE_INTERVAL)),
                    ..board@
                }),
                Err(error) => error == CircuitDojoError::QueueFull && board@.outbox.len()
                    >= QUEUE_SLOTS,
            },
    {
        let mut board = board;
        match board.subscribe(SUBSCRIBE_INTERVAL) {
            Ok(()) => Ok(MainScreen { board }),
            Err(error) => Err(error),
        }
    }

    /// Brings the pins up to date before they are drawn.
    pub fn draw(&mut self) -> (updated: Result<(), CircuitDojoError>)
        requires
            old(self).board.wf(),
        ensures
            final(self).board.wf(),
            final(self).board@ == (BoardView {
                pins: after_update(old(self).board@.pins, old(self).board@.inbox).0,
                inbox: after_update(old(self).board@.pins, old(self).board@.inbox).1,
                ..old(self).board@
            }),
            updated == after_update(old(self).board@.pins, old(self).board@.inbox).2,
    {
        self.board.update()
    }

    /// Carries out what a click on the tile at the given position asks for.
    /// A position beyond the pins asks for nothing.
    pub fn click(&mut self, index: usize, on_mode_label: bool) -> (done: Result<
        (),
        CircuitDojoError,
    >)
        requires
            old(self).board.wf(),
        ensures
            final(self).board.wf(),
            index < old(self).board@.pins.len() ==> match click_intent_of(
                old(self).board@.pins[index as int],
                on_mode_label,
            ) {
                Some(intent) => final(self).board@ == after_intent(old(self).board@, intent).0
                    && done == after_intent(old(self).board@, intent).1,
                None => final(self).board@ == old(self).board@ && done is Ok,
            },
            index >= old(self).board@.pins.len() ==> final(self).board@ == old(self).board@
                && done is Ok,
    {
        let intent = if index < self.board.pins().len() {
            click_intent(&self.board.pins()[index], on_mode_label)
        } else {
            None
        };
        match intent {
            Some(Intent::SetOutput(id)) => self.board.set_output(id),
            Some(Intent::SetInput(id)) => self.board.set_input(id),
            Some(Intent::DigitalWrite(id, level)) => self.board.digital_write(id, level),
            None => Ok(()),
        }
    }
}

} // verus!
