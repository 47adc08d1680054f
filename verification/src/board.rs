//! The pin model: what the host knows of each pin, and the intents that
//! change it.
//!
//! A board holds two bounded queues. Intents put commands into the first;
//! one round of the worker takes them out to be sent, and puts what the
//! device reported into the second, from which `update` applies it to the
//! pins. Neither side waits for the other: a full queue is an error.
use std::collections::HashMap;
use vstd::prelude::*;
use crate::codec::{Command, Event, EventView};
use crate::connection::{after_read, Connection, ConnectionView};
use crate::error::{CircuitDojoError, ReadOutcome};
use crate::queue::{
    command_slots, event_slots, new_command_queue, new_event_queue, pop_command, pop_event,
    push_command, push_event, queued_commands, queued_events, CommandQueue, EventQueue,
};

verus! {

/// How many commands wait for the transport at most, and how many events for
/// the pin model.
pub const QUEUE_SLOTS: usize = 32;

/// What a pin can do, as the device described it.
#[derive(Debug, Clone, Copy, PartialEq, Eq, Structural)]
pub enum PinType {
    /// A digital pin with a pull-up resistor.
    DigitalPullup,
    /// A digital pin.
    Digital,
    /// An analog pin.
    Analog,
}

/// The configuration that the host intends for a pin. It changes the moment
/// an intent is issued, before the device has confirmed anything.
#[derive(Debug, Clone, Copy, PartialEq, Eq, Structural)]
pub enum PinMode {
    /// No intent was issued yet.
    Unset,
    /// The pin is meant to be read.
    Input,
    /// The pin is meant to be driven.
    Output,
}

/// The last known electrical state of a pin. It may lag behind the mode, or
/// reflect a mode that the pin has left.
#[derive(Debug, Clone, Copy, PartialEq, Eq, Structural)]
pub enum PinStatus {
    /// Nothing is known.
    NoStatus,
    /// The host drives the pin to this level.
    DigitalOutputting(bool),
    /// The device reported this level.
    DigitalInputting(bool),
    /// The device reported this level on a pulled-up input.
    DigitalPullupInputting(bool),
    /// The host drives the pin to this value.
    AnalogOutputting(u16),
    /// The device reported this value.
    AnalogInputting(u16),
}

/// One pin: what the device said it can do, and what the host knows of it.
#[derive(Debug, Clone, PartialEq, Eq)]
pub struct PinData {
    /// What the pin can do.
    pub tp: PinType,
    /// The intended configuration.
    pub mode: PinMode,
    /// The hardware id, 0 to 63.
    pub hw_id: u8,
    /// The name that the device gave the pin.
    pub ident: String,
    /// The last known state.
    pub status: PinStatus,
}

/// What the transport tells the pin model once the board is set up.
#[derive(Debug, Clone, Copy, PartialEq, Eq, Structural)]
pub enum BoardEvent {
    /// The pin with this hardware id has this status now.
    PinState(u8, PinStatus),
}

/// What discovery has learnt of a board.
#[derive(Debug, PartialEq, Eq)]
pub struct Capabilities {
    /// The name of the board.
    pub board_name: String,
    /// The minimum interval between two samples.
    pub min_sample: u16,
    /// The pins, in the order in which the device described them.
    pub pins: Vec<PinData>,
}

/// What a pin can do, from the two flags of its description.
pub open spec fn pin_type(analog: bool, pullup: bool) -> PinType {
    if analog {
        PinType::Analog
    } else if pullup {
        PinType::DigitalPullup
    } else {
        PinType::Digital
    }
}

/// The position of the pin with the given hardware id: that of the last
/// record that bears it, `None` where no record does.
pub open spec fn pin_index(pins: Seq<PinData>, id: u8) -> Option<int>
    decreases pins.len(),
{
    if pins.len() == 0 {
        None
    } else if pins.last().hw_id == id {
        Some(pins.len() - 1)
    } else {
        pin_index(pins.drop_last(), id)
    }
}

/// A position that `pin_index` gives lies within the records and bears the
/// id; where it gives none, no record bears the id.
pub proof fn lemma_pin_index(pins: Seq<PinData>, id: u8)
    ensures
        match pin_index(pins, id) {
            Some(i) => 0 <= i < pins.len() && pins[i].hw_id == id,
            None => forall|i: int| 0 <= i < pins.len() ==> pins[i].hw_id != id,
        },
    decreases pins.len(),
{
    if pins.len() > 0 && pins.last().hw_id != id {
        lemma_pin_index(pins.drop_last(), id);
        if pin_index(pins, id) is None {
            assert forall|i: int| 0 <= i < pins.len() implies pins[i].hw_id != id by {
                if i < pins.len() - 1 {
                    assert(pins.drop_last()[i] == pins[i]);
                }
            }
        }
    }
}

/// The position of a pin depends on the hardware ids alone.
pub proof fn lemma_pin_index_by_ids(before: Seq<PinData>, after: Seq<PinData>, id: u8)
    requires
        before.len() == after.len(),
        forall|i: int| 0 <= i < before.len() ==> before[i].hw_id == after[i].hw_id,
    ensures
        pin_index(before, id) == pin_index(after, id),
    decreases before.len(),
{
    if before.len() > 0 && before.last().hw_id != id {
        lemma_pin_index_by_ids(before.drop_last(), after.drop_last(), id);
    }
}

/// The state of a board, as the contracts speak of it.
#[verifier::ext_equal]
pub struct BoardView {
    /// The pins, in the order of discovery.
    pub pins: Seq<PinData>,
    /// The name of the board.
    pub name: Seq<char>,
    /// The minimum interval between two samples.
    pub min_sample: u16,
    /// The commands that wait for the transport, oldest first.
    pub outbox: Seq<Command>,
    /// The events that wait for the pin model, oldest first.
    pub inbox: Seq<BoardEvent>,
}

/// A pin with another intended configuration.
pub open spec fn with_mode(pin: PinData, mode: PinMode) -> PinData {
    PinData { mode, ..pin }
}

/// A pin with another last known state.
pub open spec fn with_status(pin: PinData, status: PinStatus) -> PinData {
    PinData { status, ..pin }
}

/// The queue of commands after an attempt to add one, and what the caller
/// is told: a queue that holds `QUEUE_SLOTS` commands takes no more.
pub open spec fn enqueued(outbox: Seq<Command>, command: Command) -> (
    Seq<Command>,
    Result<(), CircuitDojoError>,
) {
    if outbox.len() < QUEUE_SLOTS {
        (outbox.push(command), Ok(()))
    } else {
        (outbox, Err(CircuitDojoError::QueueFull))
    }
}

/// The board after the intent to put a pin into a mode, and what the caller
/// is told. The mode of a known pin changes at once, whether or not the
/// command finds room in the queue.
pub open spec fn after_set_mode(board: BoardView, id: u8, mode: PinMode, command: Command) -> (
    BoardView,
    Result<(), CircuitDojoError>,
) {
    match pin_index(board.pins, id) {
        None => (board, Err(CircuitDojoError::UnknownPin(id))),
        Some(i) => (
            BoardView {
                pins: board.pins.update(i, with_mode(board.pins[i], mode)),
                outbox: enqueued(board.outbox, command).0,
                ..board
            },
            enqueued(board.outbox, command).1,
        ),
    }
}

/// The board after the intent to drive a pin to a level, and what the caller
/// is told. Only a known pin in output mode can be driven; its state changes
/// when the command has found room in the queue.
pub open spec fn after_digital_write(board: BoardView, id: u8, value: bool) -> (
    BoardView,
    Result<(), CircuitDojoError>,
) {
    match pin_index(board.pins, id) {
        None => (board, Err(CircuitDojoError::UnknownPin(id))),
        Some(i) => if board.pins[i].mode != PinMode::Output {
            (board, Err(CircuitDojoError::InvalidModeForOperation(id)))
        } else if board.outbox.len() >= QUEUE_SLOTS {
            (board, Err(CircuitDojoError::QueueFull))
        } else {
            (
                BoardView {
                    pins: board.pins.update(
                        i,
                        with_status(board.pins[i], PinStatus::DigitalOutputting(value)),
                    ),
                    outbox: board.outbox.push(Command::SetDigitalPinValue(id, value)),
                    ..board
                },
                Ok(()),
            )
        },
    }
}

/// The pins and the waiting events after the events were applied in their
/// order, and what the caller is told. An event for a pin that was never
/// discovered ends it: that event is gone, those behind it still wait.
pub open spec fn after_update(pins: Seq<PinData>, inbox: Seq<BoardEvent>) -> (
    Seq<PinData>,
    Seq<BoardEvent>,
    Result<(), CircuitDojoError>,
)
    decreases inbox.len(),
{
    if inbox.len() == 0 {
        (pins, inbox, Ok(()))
    } else {
        match inbox[0] {
            BoardEvent::PinState(id, status) => match pin_index(pins, id) {
                None => (pins, inbox.skip(1), Err(CircuitDojoError::UnknownPin(id))),
                Some(i) => after_update(
                    pins.update(i, with_status(pins[i], status)),
                    inbox.skip(1),
                ),
            },
        }
    }
}

/// What the pin model is told of an event from the device: a change of a
/// digital pin, as the level that the pin reads. It is told of nothing else.
pub open spec fn narrowed(event: EventView) -> Option<BoardEvent> {
    match event {
        EventView::DigitalPinStateChange(pin, level) => Some(
            BoardEvent::PinState(pin, PinStatus::DigitalInputting(level)),
        ),
        _ => None,
    }
}

/// How far the events of the transport got on their way to the pin model.
pub struct Delivery {
    /// The events that stay with the transport, because the queue to the pin
    /// model is full.
    pub left: Seq<EventView>,
    /// The queue to the pin model.
    pub inbox: Seq<BoardEvent>,
    /// One `DeviceError` for each command that the device rejected, oldest
    /// first.
    pub refused: Seq<CircuitDojoError>,
}

/// The events of the transport are handed on in their order, as far as the
/// queue to the pin model has room. An event that the pin model is not told
/// of takes no room.
pub open spec fn delivered(events: Seq<EventView>, inbox: Seq<BoardEvent>) -> Delivery
    decreases events.len(),
{
    if events.len() == 0 {
        Delivery { left: events, inbox, refused: Seq::empty() }
    } else {
        match narrowed(events[0]) {
            Some(told) => if inbox.len() >= QUEUE_SLOTS {
                Delivery { left: events, inbox, refused: Seq::empty() }
            } else {
                delivered(events.skip(1), inbox.push(told))
            },
            None => {
                let rest = delivered(events.skip(1), inbox);
                match events[0] {
                    EventView::BoardError(command) => Delivery {
                        refused: seq![CircuitDojoError::DeviceError(command)] + rest.refused,
                        ..rest
                    },
                    _ => rest,
                }
            },
        }
    }
}

/// What one round of the worker hands to its caller.
#[derive(Debug, PartialEq, Eq)]
pub struct Pumped {
    /// The commands to write to the channel now, oldest first.
    pub to_send: Vec<Command>,
    /// One `DeviceError` for each command that the device rejected, oldest
    /// first.
    pub refused: Vec<CircuitDojoError>,
}

/// The board and the connection after one round of the worker, and what the
/// caller gets: the commands to send and the rejections of the device, or
/// the error that ended the round.
pub struct WorkerStep {
    pub board: BoardView,
    pub connection: ConnectionView,
    pub outcome: Result<(Seq<Command>, Seq<CircuitDojoError>), CircuitDojoError>,
}

/// One round of the worker. What was read goes to the connection; a timeout
/// is no error here, any other error ends the round. Then the events of the
/// connection are handed on to the pin model; where its queue is full the
/// round ends with `QueueFull` and the commands keep waiting. Then every
/// waiting command is taken out to be sent.
pub open spec fn after_worker(
    board: BoardView,
    connection: ConnectionView,
    outcome: ReadOutcome,
) -> WorkerStep {
    let heard = after_read(connection, outcome);
    if heard.1 is Err && heard.1 != Err::<(), CircuitDojoError>(
        CircuitDojoError::TransportTimedOut,
    ) {
        WorkerStep { board, connection: heard.0, outcome: Err(heard.1->Err_0) }
    } else {
        let round = delivered(heard.0.events, board.inbox);
        let connection = ConnectionView { events: round.left, ..heard.0 };
        if round.left.len() > 0 {
            WorkerStep {
                board: BoardView { inbox: round.inbox, ..board },
                connection,
                outcome: Err(CircuitDojoError::QueueFull),
            }
        } else {
            WorkerStep {
                board: BoardView { inbox: round.inbox, outbox: Seq::empty(), ..board },
                connection,
                outcome: Ok((board.outbox, round.refused)),
            }
        }
    }
}

/// What a round of the worker returned, with sequences for vectors.
pub open spec fn pumped_view(pumped: Result<Pumped, CircuitDojoError>) -> Result<
    (Seq<Command>, Seq<CircuitDojoError>),
    CircuitDojoError,
> {
    match pumped {
        Ok(given) => Ok((given.to_send@, given.refused@)),
        Err(error) => Err(error),
    }
}

/// The queue of commands after an attempt to add each of the given commands
/// in turn.
pub open spec fn enqueued_all(outbox: Seq<Command>, commands: Seq<Command>) -> Seq<Command>
    decreases commands.len(),
{
    if commands.len() == 0 {
        outbox
    } else {
        enqueued_all(enqueued(outbox, commands[0]).0, commands.skip(1))
    }
}

/// The first `QUEUE_SLOTS` of the given commands, or all of them where they
/// are fewer.
pub open spec fn within_slots(commands: Seq<Command>) -> Seq<Command> {
    if commands.len() <= QUEUE_SLOTS {
        commands
    } else {
        commands.take(QUEUE_SLOTS as int)
    }
}

/// A queue that is not drained keeps the commands that came while it had
/// room, in their order, and refuses every later one.
pub proof fn queue_keeps_the_first(outbox: Seq<Command>, commands: Seq<Command>)
    requires
        outbox.len() <= QUEUE_SLOTS,
    ensures
        enqueued_all(outbox, commands) == within_slots(outbox + commands),
        forall|command: Command|
            (outbox + commands).len() >= QUEUE_SLOTS ==> #[trigger] enqueued(
                enqueued_all(outbox, commands),
                command,
            ) == (enqueued_all(outbox, commands), Err::<(), CircuitDojoError>(CircuitDojoError::QueueFull)),
    decreases commands.len(),
{
    if commands.len() == 0 {
        assert(outbox + commands =~= outbox);
    } else {
        let next = enqueued(outbox, commands[0]).0;
        queue_keeps_the_first(next, commands.skip(1));
        if outbox.len() < QUEUE_SLOTS {
            assert(next + commands.skip(1) =~= outbox + commands);
        } else {
            assert(within_slots(outbox + commands.skip(1)) =~= outbox);
            assert(within_slots(outbox + commands) =~= outbox);
        }
    }
}

/// An event for a pin that was never discovered fails the update with
/// `UnknownPin` and leaves every pin as it was.
pub proof fn unknown_pin_changes_nothing(pins: Seq<PinData>, inbox: Seq<BoardEvent>, id: u8)
    requires
        inbox.len() > 0,
        inbox[0] matches BoardEvent::PinState(pin, _) && pin == id,
        pin_index(pins, id) is None,
    ensures
        after_update(pins, inbox).0 == pins,
        after_update(pins, inbox).2 == Err::<(), CircuitDojoError>(CircuitDojoError::UnknownPin(id)),
{
}

/// The intent to make a known pin an output shows at once: the pin is found
/// where it was and reports `PinMode::Output`, whatever waits in either
/// queue, and nothing that the device may have sent was looked at.
pub proof fn intended_mode_shows_at_once(board: BoardView, id: u8)
    requires
        pin_index(board.pins, id) is Some,
    ensures
        ({
            let after = after_set_mode(
                board,
                id,
                PinMode::Output,
                Command::SetPinModeOutput(id),
            ).0;
            let at = pin_index(board.pins, id)->Some_0;
            &&& pin_index(after.pins, id) == Some(at)
            &&& after.pins[at].mode == PinMode::Output
            &&& after.inbox == board.inbox
        }),
{
    let after = after_set_mode(board, id, PinMode::Output, Command::SetPinModeOutput(id)).0;
    lemma_pin_index(board.pins, id);
    lemma_pin_index_by_ids(board.pins, after.pins, id);
}

/// A board: its pins, and the two queues that tie it to the transport.
pub struct Board {
    pins: Vec<PinData>,
    board_name: String,
    min_sample: u16,
    mapped_pins_hwids: HashMap<u8, usize>,
    commands: CommandQueue,
    events: EventQueue,
}

impl View for Board {
    type V = BoardView;

    closed spec fn view(&self) -> BoardView {
        BoardView {
            pins: self.pins@,
            name: self.board_name@,
            min_sample: self.min_sample,
            outbox: queued_commands(self.commands),
            inbox: queued_events(self.events),
        }
    }
}

impl Board {
    /// What holds of every board that this module hands out: the map finds
    /// every pin that `pin_index` finds, at the same place, and both queues
    /// have `QUEUE_SLOTS` slots and hold no more.
    pub closed spec fn wf(&self) -> bool {
        &&& forall|id: u8|
            self.mapped_pins_hwids@.contains_key(id) <==> pin_index(self.pins@, id) is Some
        &&& forall|id: u8| #[trigger]
            self.mapped_pins_hwids@.contains_key(id) ==> pin_index(self.pins@, id) == Some(
                self.mapped_pins_hwids@[id] as int,
            )
        &&& command_slots(self.commands) == QUEUE_SLOTS
        &&& event_slots(self.events) == QUEUE_SLOTS
        &&& queued_commands(self.commands).len() <= QUEUE_SLOTS
        &&& queued_events(self.events).len() <= QUEUE_SLOTS
    }

    /// A board with the pins that discovery found. No intent was issued and
    /// nothing is known of any pin's state; both queues are empty.
    pub fn new(capabilities: Capabilities) -> (board: Board)
        ensures
            board.wf(),
            board@ == (BoardView {
                pins: capabilities.pins@,
                name: capabilities.board_name@,
                min_sample: capabilities.min_sample,
                outbox: Seq::empty(),
                inbox: Seq::empty(),
            }),
    {
        let Capabilities { board_name, min_sample, pins } = capabilities;
        let mut mapped_pins_hwids: HashMap<u8, usize> = HashMap::new();
        let mut i: usize = 0;
        while i < pins.len()
            invariant
                i <= pins.len(),
                forall|id: u8|
                    mapped_pins_hwids@.contains_key(id) <==> pin_index(pins@.take(i as int), id)
                        is Some,
                forall|id: u8| #[trigger]
                    mapped_pins_hwids@.contains_key(id) ==> pin_index(pins@.take(i as int), id)
                        == Some(mapped_pins_hwids@[id] as int),
            decreases pins.len() - i,
        {
            assert(pins@.take(i as int + 1).drop_last() == pins@.take(i as int));
            mapped_pins_hwids.insert(pins[i].hw_id, i);
            i += 1;
        }
        assert(pins@.take(i as int) == pins@);
        Board {
            pins,
            board_name,
            min_sample,
            mapped_pins_hwids,
            commands: new_command_queue(QUEUE_SLOTS),
            events: new_event_queue(QUEUE_SLOTS),
        }
    }

    /// The name of the board.
    pub fn get_name(&self) -> (name: &str)
        ensures
            name@ == self@.name,
    {
        self.board_name.as_str()
    }

    /// The minimum interval between two samples that the device asks for.
    pub fn min_sample(&self) -> (interval: u16)
        ensures
            interval == self@.min_sample,
    {
        self.min_sample
    }

    /// The pins, in the order of discovery.
    pub fn pins(&self) -> (pins: &Vec<PinData>)
        ensures
            pins@ == self@.pins,
    {
        &self.pins
    }

    /// Looks a hardware id up in the map.
    fn find(&self, id: u8) -> (found: Option<usize>)
        requires
            self.wf(),
        ensures
            match found {
                Some(i) => pin_index(self@.pins, id) == Some(i as int) && i < self@.pins.len(),
                None => pin_index(self@.pins, id) is None,
            },
    {
        proof {
            lemma_pin_index(self@.pins, id);
        }
        match self.mapped_pins_hwids.get(&id) {
            Some(index) => Some(*index),
            None => None,
        }
    }

    /// Adds a command to the queue for the transport, if it has room.
    fn enqueue(&mut self, command: Command) -> (queued: Result<(), CircuitDojoError>)
        requires
            old(self).wf(),
        ensures
            final(self).wf(),
            final(self)@ == (BoardView {
                outbox: enqueued(old(self)@.outbox, command).0,
                ..old(self)@
            }),
            queued == enqueued(old(self)@.outbox, command).1,
    {
        match push_command(&mut self.commands, command) {
            Ok(()) => Ok(()),
            Err(_) => Err(CircuitDojoError::QueueFull),
        }
    }

    /// Records the intent to put a pin into a mode and queues the command
    /// that tells the device.
    fn set_mode(&mut self, id: u8, mode: PinMode, command: Command) -> (set: Result<
        (),
        CircuitDojoError,
    >)
        requires
            old(self).wf(),
        ensures
            final(self).wf(),
            final(self)@ == after_set_mode(old(self)@, id, mode, command).0,
            set == after_set_mode(old(self)@, id, mode, command).1,
    {
        match self.find(id) {
            None => Err(CircuitDojoError::UnknownPin(id)),
            Some(index) => {
                self.pins[index].mode = mode;
                proof {
                    assert forall|other: u8|
                        pin_index(self.pins@, other) == pin_index(old(self).pins@, other) by {
                        lemma_pin_index_by_ids(old(self).pins@, self.pins@, other);
                    }
                }
                self.enqueue(command)
            },
        }
    }

    /// Makes a pin an output. The pin reports `PinMode::Output` from now on,
    /// before the device has seen the command.
    pub fn set_output(&mut self, pin_num: u8) -> (set: Result<(), CircuitDojoError>)
        requires
            old(self).wf(),
        ensures
            final(self).wf(),
            final(self)@ == after_set_mode(
                old(self)@,
                pin_num,
                PinMode::Output,
                Command::SetPinModeOutput(pin_num),
            ).0,
            set == after_set_mode(
                old(self)@,
                pin_num,
                PinMode::Output,
                Command::SetPinModeOutput(pin_num),
            ).1,
    {
        self.set_mode(pin_num, PinMode::Output, Command::SetPinModeOutput(pin_num))
    }

    /// Makes a pin an input. The pin reports `PinMode::Input` from now on,
    /// before the device has seen the command.
    pub fn set_input(&mut self, pin_num: u8) -> (set: Result<(), CircuitDojoError>)
        requires
            old(self).wf(),
        ensures
            final(self).wf(),
            final(self)@ == after_set_mode(
                old(self)@,
                pin_num,
                PinMode::Input,
                Command::SetPinModeInput(pin_num),
            ).0,
            set == after_set_mode(
                old(self)@,
                pin_num,
                PinMode::Input,
                Command::SetPinModeInput(pin_num),
            ).1,
    {
        self.set_mode(pin_num, PinMode::Input, Command::SetPinModeInput(pin_num))
    }

    /// Drives an output pin high or low. The pin reports the level from now
    /// on, before the device has seen the command.
    pub fn digital_write(&mut self, pin_num: u8, value: bool) -> (written: Result<
        (),
        CircuitDojoError,
    >)
        requires
            old(self).wf(),
        ensures
            final(self).wf(),
            final(self)@ == after_digital_write(old(self)@, pin_num, value).0,
            written == after_digital_write(old(self)@, pin_num, value).1,
    {
        match self.find(pin_num) {
            None => Err(CircuitDojoError::UnknownPin(pin_num)),
            Some(index) => {
                match self.pins[index].mode {
                    PinMode::Output => {},
                    _ => {
                        return Err(CircuitDojoError::InvalidModeForOperation(pin_num));
                    },
                }
                match self.enqueue(Command::SetDigitalPinValue(pin_num, value)) {
                    Err(full) => Err(full),
                    Ok(()) => {
                        self.pins[index].status = PinStatus::DigitalOutputting(value);
                        proof {
                            assert forall|other: u8|
                                pin_index(self.pins@, other) == pin_index(
                                    old(self).pins@,
                                    other,
                                ) by {
                                lemma_pin_index_by_ids(old(self).pins@, self.pins@, other);
                            }
                        }
                        Ok(())
                    },
                }
            },
        }
    }

    /// Asks the device to broadcast pin changes at the given interval. The
    /// request is made once.
    pub fn subscribe(&mut self, wavelength: u16) -> (asked: Result<(), CircuitDojoError>)
        requires
            old(self).wf(),
        ensures
            final(self).wf(),
            final(self)@ == (BoardView {
                outbox: enqueued(old(self)@.outbox, Command::Subscribe(wavelength)).0,
                ..old(self)@
            }),
            asked == enqueued(old(self)@.outbox, Command::Subscribe(wavelength)).1,
    {
        self.enqueue(Command::Subscribe(wavelength))
    }

    /// Applies the events that wait, oldest first, to the pins.
    pub fn update(&mut self) -> (updated: Result<(), CircuitDojoError>)
        requires
            old(self).wf(),
        ensures
            final(self).wf(),
            final(self)@ == (BoardView {
                pins: after_update(old(self)@.pins, old(self)@.inbox).0,
                inbox: after_update(old(self)@.pins, old(self)@.inbox).1,
                ..old(self)@
            }),
            updated == after_update(old(self)@.pins, old(self)@.inbox).2,
    {
        loop
            invariant
                self.wf(),
                after_update(self@.pins, self@.inbox) == after_update(
                    old(self)@.pins,
                    old(self)@.inbox,
                ),
                self@ == (BoardView { pins: self@.pins, inbox: self@.inbox, ..old(self)@ }),
            decreases self@.inbox.len(),
        {
            let ghost pins = self.pins@;
            match pop_event(&mut self.events) {
                None => {
                    return Ok(());
                },
                Some(BoardEvent::PinState(id, status)) => match self.find(id) {
                    None => {
                        return Err(CircuitDojoError::UnknownPin(id));
                    },
                    Some(index) => {
                        self.pins[index].status = status;
                        proof {
                            assert forall|other: u8|
                                pin_index(self.pins@, other) == pin_index(pins, other) by {
                                lemma_pin_index_by_ids(pins, self.pins@, other);
                            }
                        }
                    },
                },
            }
        }
    }

    /// What the pin model is told of an event from the device.
    pub fn narrow(event: &Event) -> (told: Option<BoardEvent>)
        ensures
            told == narrowed(event@),
    {
        match event {
            Event::DigitalPinStateChange(pin, level) => Some(
                BoardEvent::PinState(*pin, PinStatus::DigitalInputting(*level)),
            ),
            _ => None,
        }
    }

    /// Hands the events of the connection on to the pin model, as far as its
    /// queue has room, and returns the rejections of the device.
    fn deliver(&mut self, connection: &mut Connection) -> (refused: Result<
        Vec<CircuitDojoError>,
        CircuitDojoError,
    >)
        requires
            old(self).wf(),
        ensures
            final(self).wf(),
            final(self)@ == (BoardView {
                inbox: delivered(old(connection)@.events, old(self)@.inbox).inbox,
                ..old(self)@
            }),
            final(connection)@ == (ConnectionView {
                events: delivered(old(connection)@.events, old(self)@.inbox).left,
                ..old(connection)@
            }),
            match refused {
                Ok(errors) => errors@ == delivered(
                    old(connection)@.events,
                    old(self)@.inbox,
                ).refused && final(connection)@.events.len() == 0,
                Err(error) => error == CircuitDojoError::QueueFull
                    && final(connection)@.events.len() > 0,
            },
    {
        let ghost goal = delivered(old(connection)@.events, old(self)@.inbox);
        let mut refused: Vec<CircuitDojoError> = Vec::new();
        loop
            invariant
                self.wf(),
                self@ == (BoardView { inbox: self@.inbox, ..old(self)@ }),
                connection@ == (ConnectionView { events: connection@.events, ..old(connection)@ }),
                goal == delivered(old(connection)@.events, old(self)@.inbox),
                delivered(connection@.events, self@.inbox).left == goal.left,
                delivered(connection@.events, self@.inbox).inbox == goal.inbox,
                refused@ + delivered(connection@.events, self@.inbox).refused == goal.refused,
            decreases connection@.events.len(),
        {
            let (told, rejected) = match connection.peek_event() {
                None => {
                    assert(refused@ + Seq::<CircuitDojoError>::empty() == refused@);
                    return Ok(refused);
                },
                Some(event) => (
                    Self::narrow(event),
                    match event {
                        Event::BoardError(command) => Some(*command),
                        _ => None,
                    },
                ),
            };
            let ghost before = refused@;
            let ghost rest = delivered(connection@.events.skip(1), self@.inbox);
            match told {
                Some(change) => {
                    if push_event(&mut self.events, change).is_err() {
                        return Err(CircuitDojoError::QueueFull);
                    }
                },
                None => match rejected {
                    Some(command) => {
                        let error = CircuitDojoError::DeviceError(command);
                        refused.push(error);
                        assert(refused@ + rest.refused == before + (seq![error] + rest.refused));
                    },
                    None => {},
                },
            }
            let _ = connection.next_event();
        }
    }

    /// Takes every waiting command out of the queue, oldest first.
    fn drain(&mut self) -> (taken: Vec<Command>)
        requires
            old(self).wf(),
        ensures
            final(self).wf(),
            taken@ == old(self)@.outbox,
            final(self)@ == (BoardView { outbox: Seq::empty(), ..old(self)@ }),
    {
        let mut taken: Vec<Command> = Vec::new();
        loop
            invariant
                self.wf(),
                self@ == (BoardView { outbox: self@.outbox, ..old(self)@ }),
                taken@ + self@.outbox == old(self)@.outbox,
            decreases self@.outbox.len(),
        {
            let ghost waiting = self@.outbox;
            match pop_command(&mut self.commands) {
                None => {
                    assert(taken@ + Seq::<Command>::empty() == taken@);
                    assert(self@.outbox == Seq::<Command>::empty());
                    return taken;
                },
                Some(command) => {
                    taken.push(command);
                    assert(taken@ + waiting.skip(1) == (taken@.drop_last() + waiting));
                },
            }
        }
    }

    /// One round of the worker: takes what came of one read of the channel,
    /// hands the events of the connection on to the pin model, and returns
    /// the commands that are to be written to the channel now.
    pub fn worker(&mut self, connection: &mut Connection, outcome: ReadOutcome) -> (pumped: Result<
        Pumped,
        CircuitDojoError,
    >)
        requires
            old(self).wf(),
        ensures
            final(self).wf(),
            final(self)@ == after_worker(old(self)@, old(connection)@, outcome).board,
            final(connection)@ == after_worker(old(self)@, old(connection)@, outcome).connection,
            pumped_view(pumped) == after_worker(old(self)@, old(connection)@, outcome).outcome,
    {
        match connection.wait_incoming(outcome) {
            Ok(()) | Err(CircuitDojoError::TransportTimedOut) => {},
            Err(error) => {
                return Err(error);
            },
        }
        match self.deliver(connection) {
            Err(error) => Err(error),
            Ok(refused) => {
                let to_send = self.drain();
                Ok(Pumped { to_send, refused })
            },
        }
    }
}

} // verus!
