//! The transport: the state of one connection to a device.
//!
//! A connection never touches the channel. Its caller reads from the channel
//! and writes to it, and tells the connection what came of each read and each
//! write; the connection keeps the commands that wait for an answer and the
//! events that the device has sent, and decides how the handshake goes on.
use std::collections::VecDeque;
use vstd::prelude::*;
use crate::codec::{event_views, Command, Event, EventView};
use crate::decoder::{
    classify, find_high_byte, parse_name, utf8_text, Decoder, Frame, FrameView, Parsed,
};
use crate::error::{CircuitDojoError, ReadOutcome};
use crate::opcodes::{ACK, ERROR};

verus! {

/// How many times the handshake sends its request before it gives up.
pub const ESTABLISH_ATTEMPTS: u8 = 5;

/// The read timeout, in milliseconds, while the device may still be booting.
pub const BOOT_TIMEOUT_MILLIS: u64 = 1000;

/// The read timeout, in milliseconds, once the device has answered: short,
/// so that polling for events never holds up what is waiting to be sent.
pub const POLL_TIMEOUT_MILLIS: u64 = 10;

/// How the handshake stands after a read.
#[derive(Debug, Clone, Copy, PartialEq, Eq, Structural)]
pub enum Handshake {
    /// The device has acknowledged: the connection is ready.
    Established,
    /// The device is in the middle of a frame: read on.
    Pending,
    /// This attempt came to nothing: send the request again, then read.
    Retry,
}

/// The state of a connection, as the contracts speak of it.
#[verifier::ext_equal]
pub struct ConnectionView {
    /// The bytes received since the last complete frame.
    pub partial: Seq<u8>,
    /// The commands sent and not yet answered, oldest first.
    pub waiting: Seq<Command>,
    /// The events received and not yet taken, oldest first.
    pub events: Seq<EventView>,
    /// Whether the device has acknowledged the handshake.
    pub established: bool,
    /// How many attempts of the handshake came to nothing.
    pub attempts: nat,
}

/// The state of a connection on which nothing has happened yet.
pub open spec fn fresh() -> ConnectionView {
    ConnectionView {
        partial: Seq::empty(),
        waiting: Seq::empty(),
        events: Seq::empty(),
        established: false,
        attempts: 0,
    }
}

/// The commands without the requests to establish, in their order.
pub open spec fn without_establish(commands: Seq<Command>) -> Seq<Command>
    decreases commands.len(),
{
    if commands.len() == 0 {
        commands
    } else if commands[0] == Command::PleaseEstablish {
        without_establish(commands.skip(1))
    } else {
        seq![commands[0]] + without_establish(commands.skip(1))
    }
}

/// Whether the oldest waiting command is a request to establish.
pub open spec fn awaits_establish(waiting: Seq<Command>) -> bool {
    waiting.len() > 0 && waiting[0] == Command::PleaseEstablish
}

/// The waiting commands after an acknowledgement. It answers the oldest one.
/// Where that is a request to establish, every other such request goes with
/// it: they were sent while the device was booting and will get no answer.
pub open spec fn acknowledged(waiting: Seq<Command>) -> Seq<Command> {
    if waiting.len() == 0 {
        waiting
    } else if waiting[0] == Command::PleaseEstablish {
        without_establish(waiting.skip(1))
    } else {
        waiting.skip(1)
    }
}

/// The state after a complete frame, and what the caller is told.
pub open spec fn after_frame(state: ConnectionView, frame: FrameView) -> (
    ConnectionView,
    Result<(), CircuitDojoError>,
) {
    match frame {
        FrameView::Report(event) => (
            ConnectionView { partial: Seq::empty(), events: state.events.push(event), ..state },
            Ok(()),
        ),
        FrameView::Ack => (
            ConnectionView {
                partial: Seq::empty(),
                waiting: acknowledged(state.waiting),
                established: state.established || awaits_establish(state.waiting),
                ..state
            },
            Ok(()),
        ),
        FrameView::Error => if state.waiting.len() == 0 {
            (
                ConnectionView { partial: Seq::empty(), ..state },
                Err(CircuitDojoError::SynchronizationError(ERROR)),
            )
        } else {
            (
                ConnectionView {
                    partial: Seq::empty(),
                    waiting: state.waiting.skip(1),
                    events: state.events.push(EventView::BoardError(state.waiting[0])),
                    ..state
                },
                Ok(()),
            )
        },
    }
}

/// The state after a read, and what the caller is told.
pub open spec fn after_read(state: ConnectionView, outcome: ReadOutcome) -> (
    ConnectionView,
    Result<(), CircuitDojoError>,
) {
    match outcome {
        ReadOutcome::TimedOut => (state, Err(CircuitDojoError::TransportTimedOut)),
        ReadOutcome::Failed => (state, Err(CircuitDojoError::TransportIoError)),
        ReadOutcome::Byte(byte) => match classify(state.partial.push(byte)) {
            Parsed::Incomplete => (
                ConnectionView { partial: state.partial.push(byte), ..state },
                Ok(()),
            ),
            Parsed::Invalid(bad) => (
                ConnectionView { partial: Seq::empty(), ..state },
                Err(CircuitDojoError::SynchronizationError(bad)),
            ),
            Parsed::Complete(frame) => after_frame(state, frame),
        },
    }
}

/// The state with one more attempt of the handshake spent, and what the
/// caller is told: to try again, or that the device never answered.
pub open spec fn attempt_spent(state: ConnectionView) -> (
    ConnectionView,
    Result<Handshake, CircuitDojoError>,
) {
    if state.attempts + 1 >= ESTABLISH_ATTEMPTS {
        (
            ConnectionView { attempts: ESTABLISH_ATTEMPTS as nat, ..state },
            Err(CircuitDojoError::TransportTimedOut),
        )
    } else {
        (ConnectionView { attempts: state.attempts + 1, ..state }, Ok(Handshake::Retry))
    }
}

/// The state after a read during the handshake, and what the caller is told.
///
/// A failure of the channel and a byte that the protocol does not allow end
/// the handshake. Otherwise the handshake is over once the device has
/// acknowledged. Until then a byte that leaves a frame open asks for another
/// read, and anything else, a timeout or a frame that acknowledges nothing,
/// spends an attempt.
pub open spec fn after_reply(state: ConnectionView, outcome: ReadOutcome) -> (
    ConnectionView,
    Result<Handshake, CircuitDojoError>,
) {
    let (next, heard) = after_read(state, outcome);
    if outcome is Failed {
        (state, Err(CircuitDojoError::TransportIoError))
    } else if heard matches Err(CircuitDojoError::SynchronizationError(_)) {
        (next, Err(heard->Err_0))
    } else if next.established {
        (next, Ok(Handshake::Established))
    } else if outcome is Byte && next.partial.len() > 0 {
        (next, Ok(Handshake::Pending))
    } else {
        attempt_spent(next)
    }
}

/// Removes every request to establish from the waiting commands.
fn drop_establish(waiting: &mut VecDeque<Command>)
    ensures
        final(waiting)@ == without_establish(old(waiting)@),
{
    let mut kept: VecDeque<Command> = VecDeque::new();
    while waiting.len() > 0
        invariant
            kept@ + without_establish(waiting@) == without_establish(old(waiting)@),
        decreases waiting.len(),
    {
        let ghost before = waiting@;
        let oldest = waiting.pop_front();
        assert(waiting@ == before.skip(1));
        match oldest {
            Some(Command::PleaseEstablish) | None => {},
            Some(command) => {
                kept.push_back(command);
                assert(kept@ + without_establish(waiting@) =~= kept@.drop_last() + without_establish(
                    before,
                ));
            },
        }
    }
    *waiting = kept;
}

/// Where the request to establish is the oldest waiting command and no
/// frame is open, an acknowledgement ends the handshake at once: the
/// connection is established, and no request to establish waits any longer.
pub proof fn handshake_ack_at_once(state: ConnectionView)
    requires
        state.partial.len() == 0,
        awaits_establish(state.waiting),
    ensures
        after_reply(state, ReadOutcome::Byte(ACK)).1 == Ok::<Handshake, CircuitDojoError>(
            Handshake::Established,
        ),
        after_reply(state, ReadOutcome::Byte(ACK)).0 == (ConnectionView {
            waiting: without_establish(state.waiting.skip(1)),
            established: true,
            ..state
        }),
{
    assert(state.partial.push(ACK) =~= seq![ACK]);
    assert(classify(seq![ACK]) == Parsed::Complete(FrameView::Ack));
    assert(state.partial =~= Seq::<u8>::empty());
}

/// A timeout before the device has acknowledged spends an attempt, and
/// changes nothing else.
pub proof fn handshake_timeout_spends_attempt(state: ConnectionView)
    requires
        !state.established,
    ensures
        after_reply(state, ReadOutcome::TimedOut) == attempt_spent(state),
{
}

/// Where the device never answers, the handshake asks four times to try
/// again and gives up at the fifth timeout.
pub proof fn handshake_gives_up_after_five(state: ConnectionView)
    requires
        !state.established,
        state.attempts == 0,
    ensures
        ({
            let first = after_reply(state, ReadOutcome::TimedOut);
            let second = after_reply(first.0, ReadOutcome::TimedOut);
            let third = after_reply(second.0, ReadOutcome::TimedOut);
            let fourth = after_reply(third.0, ReadOutcome::TimedOut);
            let fifth = after_reply(fourth.0, ReadOutcome::TimedOut);
            &&& first.1 == Ok::<Handshake, CircuitDojoError>(Handshake::Retry)
            &&& second.1 == Ok::<Handshake, CircuitDojoError>(Handshake::Retry)
            &&& third.1 == Ok::<Handshake, CircuitDojoError>(Handshake::Retry)
            &&& fourth.1 == Ok::<Handshake, CircuitDojoError>(Handshake::Retry)
            &&& fifth.1 == Err::<Handshake, CircuitDojoError>(CircuitDojoError::TransportTimedOut)
        }),
{
}

/// Whether the event at the given position is the first one that the
/// selector picks.
pub open spec fn selects<F: Fn(&Event) -> bool>(selector: F, events: Seq<Event>, index: int) -> bool {
    &&& 0 <= index < events.len()
    &&& call_ensures(selector, (&events[index],), true)
    &&& forall|earlier: int|
        0 <= earlier < index ==> call_ensures(selector, (&#[trigger] events[earlier],), false)
}

/// The events without the one at the given position: the last one takes its
/// place.
pub open spec fn swap_removed(events: Seq<Event>, index: int) -> Seq<Event> {
    events.update(index, events.last()).drop_last()
}

/// Whether taking the first event that the selector picks out of `before`
/// gives `yoinked` and leaves `after`.
pub open spec fn yoinks<F: Fn(&Event) -> bool>(
    selector: F,
    before: Seq<Event>,
    yoinked: Option<Event>,
    after: Seq<Event>,
) -> bool {
    match yoinked {
        Some(event) => exists|index: int|
            selects(selector, before, index) && event == #[trigger] before[index] && after
                == swap_removed(before, index),
        None => after == before && forall|index: int|
            0 <= index < before.len() ==> call_ensures(
                selector,
                (&#[trigger] before[index],),
                false,
            ),
    }
}

/// One connection to a device.
#[derive(Debug)]
pub struct Connection {
    decoder: Decoder,
    waiting_commands: VecDeque<Command>,
    events: VecDeque<Event>,
    established: bool,
    attempts: u8,
}

impl View for Connection {
    type V = ConnectionView;

    closed spec fn view(&self) -> ConnectionView {
        ConnectionView {
            partial: self.decoder@,
            waiting: self.waiting_commands@,
            events: event_views(self.events@),
            established: self.established,
            attempts: self.attempts as nat,
        }
    }
}

impl Connection {
    /// The events received and not yet taken, oldest first, as they are.
    pub closed spec fn queued(&self) -> Seq<Event> {
        self.events@
    }

    /// The events of the view are the views of the events.
    pub proof fn lemma_queued(&self)
        ensures
            self@.events == event_views(self.queued()),
    {
    }

    /// A connection on which nothing has happened yet.
    pub fn new() -> (connection: Connection)
        ensures
            connection@ == fresh(),
    {
        let connection = Connection {
            decoder: Decoder::new(),
            waiting_commands: VecDeque::new(),
            events: VecDeque::new(),
            established: false,
            attempts: 0,
        };
        assert(event_views(connection.events@) =~= Seq::<EventView>::empty());
        connection
    }

    /// What a read of one byte amounts to: the byte, or the error that stands
    /// for a timeout or for a failure of the channel.
    pub fn block_read_byte(outcome: ReadOutcome) -> (read: Result<u8, CircuitDojoError>)
        ensures
            read == match outcome {
                ReadOutcome::Byte(byte) => Ok::<u8, CircuitDojoError>(byte),
                ReadOutcome::TimedOut => Err(CircuitDojoError::TransportTimedOut),
                ReadOutcome::Failed => Err(CircuitDojoError::TransportIoError),
            },
    {
        match outcome {
            ReadOutcome::Byte(byte) => Ok(byte),
            ReadOutcome::TimedOut => Err(CircuitDojoError::TransportTimedOut),
            ReadOutcome::Failed => Err(CircuitDojoError::TransportIoError),
        }
    }

    /// Reads the bytes that came before a terminating NUL as a name. They are
    /// UTF-8; where they are not, the first of them with its top bit set is
    /// reported as the byte that the protocol does not allow.
    pub fn block_read_nullt_string(raw: &Vec<u8>) -> (name: Result<String, CircuitDojoError>)
        ensures
            match parse_name(raw@) {
                Ok(chars) => name matches Ok(text) && text@ == chars,
                Err(byte) => name == Err::<String, CircuitDojoError>(
                    CircuitDojoError::SynchronizationError(byte),
                ),
            },
    {
        match utf8_text(raw.as_slice()) {
            Ok(text) => Ok(text.to_owned()),
            Err(_) => Err(CircuitDojoError::SynchronizationError(find_high_byte(raw))),
        }
    }

    /// The read timeout that the channel should have now, in milliseconds:
    /// generous until the device has answered, short from then on.
    pub fn read_timeout_millis(&self) -> (millis: u64)
        ensures
            millis == if self@.established {
                POLL_TIMEOUT_MILLIS
            } else {
                BOOT_TIMEOUT_MILLIS
            },
    {
        if self.established {
            POLL_TIMEOUT_MILLIS
        } else {
            BOOT_TIMEOUT_MILLIS
        }
    }

    /// What a write amounts to: nothing to report where it went through, the
    /// error that stands for a failure of the channel where it did not.
    pub fn write_byte(written: bool) -> (wrote: Result<(), CircuitDojoError>)
        ensures
            wrote == if written {
                Ok::<(), CircuitDojoError>(())
            } else {
                Err(CircuitDojoError::TransportIoError)
            },
    {
        if written {
            Ok(())
        } else {
            Err(CircuitDojoError::TransportIoError)
        }
    }

    /// Records what came of writing a command to the channel. A command that
    /// was written waits for its answer from now on; one that was not is
    /// forgotten, and the failure of the channel is reported.
    pub fn write_command(&mut self, command: Command, written: bool) -> (recorded: Result<
        (),
        CircuitDojoError,
    >)
        ensures
            written ==> recorded == Ok::<(), CircuitDojoError>(()) && final(self)@ == (ConnectionView {
                waiting: old(self)@.waiting.push(command),
                ..old(self)@
            }),
            !written ==> recorded == Err::<(), CircuitDojoError>(CircuitDojoError::TransportIoError)
                && final(self)@ == old(self)@,
    {
        match Self::write_byte(written) {
            Ok(()) => {
                self.waiting_commands.push_back(command);
                Ok(())
            },
            Err(error) => Err(error),
        }
    }

    /// Takes a complete frame: an acknowledgement or a rejection answers the
    /// oldest waiting command, anything else is an event for the caller.
    fn accept(&mut self, frame: Frame) -> (taken: Result<(), CircuitDojoError>)
        requires
            old(self)@.partial.len() == 0,
        ensures
            final(self)@ == after_frame(old(self)@, frame@).0,
            taken == after_frame(old(self)@, frame@).1,
    {
        match frame {
            Frame::Report(event) => {
                self.events.push_back(event);
                assert(event_views(self.events@) =~= event_views(old(self).events@).push(event@));
                assert(self@ =~= after_frame(old(self)@, frame@).0);
                Ok(())
            },
            Frame::Ack => {
                let answered = self.waiting_commands.pop_front();
                match answered {
                    Some(Command::PleaseEstablish) => {
                        self.established = true;
                        drop_establish(&mut self.waiting_commands);
                    },
                    _ => {},
                }
                assert(self@ =~= after_frame(old(self)@, frame@).0);
                Ok(())
            },
            Frame::Error => {
                match self.waiting_commands.pop_front() {
                    Some(command) => {
                        self.events.push_back(Event::BoardError(command));
                        assert(event_views(self.events@) =~= event_views(old(self).events@).push(
                            EventView::BoardError(command),
                        ));
                        assert(self@ =~= after_frame(old(self)@, frame@).0);
                        Ok(())
                    },
                    None => {
                        assert(self@ =~= after_frame(old(self)@, frame@).0);
                        Err(CircuitDojoError::SynchronizationError(ERROR))
                    },
                }
            },
        }
    }

    /// Takes what came of one read of the channel. A byte goes to the
    /// decoder; where it completes a frame, the frame is acted on, which adds
    /// at most one event. A timeout changes nothing, so that a frame may
    /// arrive in pieces.
    pub fn wait_incoming(&mut self, outcome: ReadOutcome) -> (heard: Result<(), CircuitDojoError>)
        ensures
            final(self)@ == after_read(old(self)@, outcome).0,
            heard == after_read(old(self)@, outcome).1,
    {
        match Self::block_read_byte(outcome) {
            Err(error) => Err(error),
            Ok(byte) => match self.decoder.feed(byte) {
                Err(error) => {
                    assert(self@ =~= after_read(old(self)@, outcome).0);
                    Err(error)
                },
                Ok(None) => {
                    assert(self@ =~= after_read(old(self)@, outcome).0);
                    Ok(())
                },
                Ok(Some(frame)) => {
                    let ghost mid = self@;
                    let taken = self.accept(frame);
                    assert(after_frame(mid, frame@).0 =~= after_frame(old(self)@, frame@).0);
                    assert(after_frame(mid, frame@).1 == after_frame(old(self)@, frame@).1);
                    taken
                },
            },
        }
    }

    /// Takes what came of one read of the channel during the handshake, after
    /// the request to establish was sent, and says how the handshake goes on.
    pub fn begin(&mut self, outcome: ReadOutcome) -> (progress: Result<Handshake, CircuitDojoError>)
        ensures
            final(self)@ == after_reply(old(self)@, outcome).0,
            progress == after_reply(old(self)@, outcome).1,
    {
        let heard = match outcome {
            ReadOutcome::Failed => {
                return Err(CircuitDojoError::TransportIoError);
            },
            _ => self.wait_incoming(outcome),
        };
        match heard {
            Err(CircuitDojoError::SynchronizationError(bad)) => {
                return Err(CircuitDojoError::SynchronizationError(bad));
            },
            _ => {},
        }
        let open_frame = match outcome {
            ReadOutcome::Byte(_) => !self.decoder.is_idle(),
            _ => false,
        };
        if self.established {
            Ok(Handshake::Established)
        } else if open_frame {
            Ok(Handshake::Pending)
        } else if self.attempts >= ESTABLISH_ATTEMPTS - 1 {
            self.attempts = ESTABLISH_ATTEMPTS;
            assert(self@ =~= after_reply(old(self)@, outcome).0);
            Err(CircuitDojoError::TransportTimedOut)
        } else {
            self.attempts = self.attempts + 1;
            assert(self@ =~= after_reply(old(self)@, outcome).0);
            Ok(Handshake::Retry)
        }
    }

    /// Takes the events received so far, oldest first, and leaves none.
    pub fn events(&mut self) -> (taken: Vec<Event>)
        ensures
            event_views(taken@) == old(self)@.events,
            final(self)@ == (ConnectionView { events: Seq::empty(), ..old(self)@ }),
    {
        let mut taken: Vec<Event> = Vec::new();
        while self.events.len() > 0
            invariant
                event_views(taken@) + event_views(self.events@) == event_views(old(self).events@),
                self.decoder == old(self).decoder,
                self.waiting_commands == old(self).waiting_commands,
                self.established == old(self).established,
                self.attempts == old(self).attempts,
            decreases self.events.len(),
        {
            let ghost before = self.events@;
            let ghost got = taken@;
            match self.events.pop_front() {
                Some(event) => {
                    taken.push(event);
                    assert(event_views(taken@) + event_views(self.events@) =~= event_views(got)
                        + event_views(before));
                },
                None => {},
            }
        }
        assert(event_views(taken@) =~= event_views(taken@) + event_views(self.events@));
        assert(event_views(self.events@) =~= Seq::<EventView>::empty());
        taken
    }

    /// The oldest event that was not taken yet, if there is one. It stays.
    pub fn peek_event(&self) -> (oldest: Option<&Event>)
        ensures
            match oldest {
                Some(event) => self@.events.len() > 0 && event@ == self@.events[0],
                None => self@.events.len() == 0,
            },
    {
        if self.events.len() > 0 {
            Some(&self.events[0])
        } else {
            None
        }
    }

    /// Takes the oldest event, if there is one.
    pub fn next_event(&mut self) -> (oldest: Option<Event>)
        ensures
            match oldest {
                Some(event) => old(self)@.events.len() > 0 && event@ == old(self)@.events[0]
                    && final(self)@ == (ConnectionView {
                    events: old(self)@.events.skip(1),
                    ..old(self)@
                }),
                None => old(self)@.events.len() == 0 && final(self)@ == old(self)@,
            },
    {
        let oldest = self.events.pop_front();
        assert(event_views(self.events@) =~= if old(self).events@.len() > 0 {
            event_views(old(self).events@).skip(1)
        } else {
            event_views(old(self).events@)
        });
        oldest
    }

    /// Takes the first event that the selector picks out of the events that
    /// were received. The last event takes its place.
    pub fn yoink_event<F: Fn(&Event) -> bool>(&mut self, selector: F) -> (yoinked: Option<Event>)
        requires
            forall|event: &Event| call_requires(selector, (event,)),
        ensures
            yoinks(selector, old(self).queued(), yoinked, final(self).queued()),
            final(self)@ == (ConnectionView {
                events: event_views(final(self).queued()),
                ..old(self)@
            }),
    {
        let mut index: usize = 0;
        while index < self.events.len()
            invariant
                index <= self.events.len(),
                *self == *old(self),
                forall|event: &Event| call_requires(selector, (event,)),
                forall|earlier: int|
                    0 <= earlier < index ==> call_ensures(
                        selector,
                        (&#[trigger] self.events@[earlier],),
                        false,
                    ),
            decreases self.events.len() - index,
        {
            if selector(&self.events[index]) {
                let last = self.events.pop_back().unwrap();
                if index == self.events.len() {
                    assert(self.events@ =~= swap_removed(old(self).events@, index as int));
                    assert(selects(selector, old(self).queued(), index as int));
                    assert(last == old(self).queued()[index as int]);
                    return Some(last);
                }
                let picked = self.events.remove(index).unwrap();
                self.events.insert(index, last);
                assert(self.events@ =~= swap_removed(old(self).events@, index as int));
                assert(selects(selector, old(self).queued(), index as int));
                assert(picked == old(self).queued()[index as int]);
                return Some(picked);
            }
            index += 1;
        }
        None
    }

    /// Takes what came of one read of the channel, then takes the first event
    /// that the selector picks, if there is one by now.
    pub fn event_wait<F: Fn(&Event) -> bool>(&mut self, outcome: ReadOutcome, selector: F) -> (waited:
        Result<Option<Event>, CircuitDojoError>)
        requires
            forall|event: &Event| call_requires(selector, (event,)),
        ensures
            match after_read(old(self)@, outcome).1 {
                Err(error) => waited == Err::<Option<Event>, CircuitDojoError>(error) && final(self)@
                    == after_read(old(self)@, outcome).0,
                Ok(_) => waited matches Ok(yoinked) && exists|heard: Seq<Event>|
                    event_views(heard) == after_read(old(self)@, outcome).0.events && #[trigger] yoinks(
                        selector,
                        heard,
                        yoinked,
                        final(self).queued(),
                    ) && final(self)@ == (ConnectionView {
                        events: event_views(final(self).queued()),
                        ..after_read(old(self)@, outcome).0
                    }),
            },
    {
        match self.wait_incoming(outcome) {
            Err(error) => Err(error),
            Ok(()) => {
                let ghost heard = self.queued();
                let yoinked = self.yoink_event(selector);
                assert(yoinks(selector, heard, yoinked, self.queued()));
                Ok(yoinked)
            },
        }
    }
}

} // verus!
