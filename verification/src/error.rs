//! What can go wrong between the host and the device.
use vstd::prelude::*;
use crate::codec::Command;

verus! {

/// The errors of this driver.
#[derive(Debug, Clone, Copy, PartialEq, Eq, Structural)]
pub enum CircuitDojoError {
    /// The device rejected this command.
    DeviceError(Command),
    /// This byte arrived where the protocol does not allow it. The connection
    /// is out of step with the device and has to be established again.
    SynchronizationError(u8),
    /// A read ran into its timeout. While polling this means that nothing
    /// happened; at the end of the handshake it means that the device never
    /// answered.
    TransportTimedOut,
    /// The channel below failed.
    TransportIoError,
    /// No pin with this hardware id was discovered.
    UnknownPin(u8),
    /// The pin with this hardware id is not in the mode that the operation
    /// needs.
    InvalidModeForOperation(u8),
    /// The queue to the transport, or the one from it, holds as much as it
    /// can; nothing was added.
    QueueFull,
}

/// What one read of a byte from the channel gave.
#[derive(Debug, Clone, Copy, PartialEq, Eq, Structural)]
pub enum ReadOutcome {
    /// This byte arrived.
    Byte(u8),
    /// Nothing arrived within the timeout.
    TimedOut,
    /// The channel failed.
    Failed,
}

} // verus!
