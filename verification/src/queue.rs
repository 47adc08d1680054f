//! The two bounded queues between the pin model and the transport.
//!
//! Both are ring buffers of the `ringbuf` crate, held whole: nothing else has
//! access to them, so what they hold changes only through the functions here.
use vstd::prelude::*;
use ringbuf::traits::{Consumer, Producer};
use crate::board::BoardEvent;
use crate::codec::Command;

verus! {

/// A bounded first-in first-out queue of commands.
#[verifier::external_body]
pub struct CommandQueue {
    ring: ringbuf::HeapRb<Command>,
}

/// A bounded first-in first-out queue of board events.
#[verifier::external_body]
pub struct EventQueue {
    ring: ringbuf::HeapRb<BoardEvent>,
}

/// The commands that a command queue holds, oldest first.
pub uninterp spec fn queued_commands(queue: CommandQueue) -> Seq<Command>;

/// The number of commands that a command queue was made for.
pub uninterp spec fn command_slots(queue: CommandQueue) -> nat;

/// The events that an event queue holds, oldest first.
pub uninterp spec fn queued_events(queue: EventQueue) -> Seq<BoardEvent>;

/// The number of events that an event queue was made for.
pub uninterp spec fn event_slots(queue: EventQueue) -> nat;

/// The largest number of slots that a queue is made with. A ring buffer
/// allocates all of its slots when it is made.
pub const MAX_SLOTS: usize = 0xFFFF;

/// `ringbuf::HeapRb::new`: a ring buffer of the given capacity, which holds
/// nothing. The outside function panics on a capacity of zero.
#[verifier::external_body]
pub(crate) fn new_command_queue(slots: usize) -> (queue: CommandQueue)
    requires
        0 < slots <= MAX_SLOTS,
    ensures
        queued_commands(queue) == Seq::<Command>::empty(),
        command_slots(queue) == slots,
{
    CommandQueue { ring: ringbuf::HeapRb::new(slots) }
}

/// `ringbuf::traits::Producer::try_push`: appends the command unless the
/// buffer holds as many as it has slots; then it hands the command back and
/// changes nothing.
#[verifier::external_body]
pub(crate) fn push_command(queue: &mut CommandQueue, command: Command) -> (pushed: Result<(), Command>)
    ensures
        command_slots(*final(queue)) == command_slots(*old(queue)),
        queued_commands(*old(queue)).len() < command_slots(*old(queue)) ==> pushed is Ok
            && queued_commands(*final(queue)) == queued_commands(*old(queue)).push(command),
        queued_commands(*old(queue)).len() >= command_slots(*old(queue)) ==> pushed is Err
            && pushed->Err_0 == command
            && queued_commands(*final(queue)) == queued_commands(*old(queue)),
{
    queue.ring.try_push(command)
}

/// `ringbuf::traits::Consumer::try_pop`: removes the oldest command and
/// returns it, or returns `None` where the buffer holds nothing.
#[verifier::external_body]
pub(crate) fn pop_command(queue: &mut CommandQueue) -> (popped: Option<Command>)
    ensures
        command_slots(*final(queue)) == command_slots(*old(queue)),
        queued_commands(*old(queue)).len() == 0 ==> popped is None && queued_commands(
            *final(queue),
        ) == queued_commands(*old(queue)),
        queued_commands(*old(queue)).len() > 0 ==> popped == Some(queued_commands(*old(queue))[0])
            && queued_commands(*final(queue)) == queued_commands(*old(queue)).skip(1),
{
    queue.ring.try_pop()
}

/// `ringbuf::HeapRb::new`: a ring buffer of the given capacity, which holds
/// nothing. The outside function panics on a capacity of zero.
#[verifier::external_body]
pub(crate) fn new_event_queue(slots: usize) -> (queue: EventQueue)
    requires
        0 < slots <= MAX_SLOTS,
    ensures
        queued_events(queue) == Seq::<BoardEvent>::empty(),
        event_slots(queue) == slots,
{
    EventQueue { ring: ringbuf::HeapRb::new(slots) }
}

/// `ringbuf::traits::Producer::try_push`: appends the event unless the buffer
/// holds as many as it has slots; then it hands the event back and changes
/// nothing.
#[verifier::external_body]
pub(crate) fn push_event(queue: &mut EventQueue, event: BoardEvent) -> (pushed: Result<(), BoardEvent>)
    ensures
        event_slots(*final(queue)) == event_slots(*old(queue)),
        queued_events(*old(queue)).len() < event_slots(*old(queue)) ==> pushed is Ok
            && queued_events(*final(queue)) == queued_events(*old(queue)).push(event),
        queued_events(*old(queue)).len() >= event_slots(*old(queue)) ==> pushed is Err
            && pushed->Err_0 == event
            && queued_events(*final(queue)) == queued_events(*old(queue)),
{
    queue.ring.try_push(event)
}

/// `ringbuf::traits::Consumer::try_pop`: removes the oldest event and returns
/// it, or returns `None` where the buffer holds nothing.
#[verifier::external_body]
pub(crate) fn pop_event(queue: &mut EventQueue) -> (popped: Option<BoardEvent>)
    ensures
        event_slots(*final(queue)) == event_slots(*old(queue)),
        queued_events(*old(queue)).len() == 0 ==> popped is None && queued_events(
            *final(queue),
        ) == queued_events(*old(queue)),
        queued_events(*old(queue)).len() > 0 ==> popped == Some(queued_events(*old(queue))[0])
            && queued_events(*final(queue)) == queued_events(*old(queue)).skip(1),
{
    queue.ring.try_pop()
}

} // verus!
