//! What the link asks of the hardware and what the hardware reports back.
//!
//! The link never touches a register. It is handed the event flags that the
//! owner of the peripheral has read, and answers with the commands that the
//! owner is to carry out, in order.

use vstd::prelude::*;

use super::packet::Packet;

verus! {

/// One step for the owner of the peripherals to carry out.
#[derive(Clone, Copy, PartialEq, Eq, Debug)]
pub enum Command {
    /// Chain READY to START and END to DISABLE, so that one task runs a
    /// whole operation.
    EnableShortcuts,
    /// Point the radio at a buffer that holds this frame.
    LoadFrame(Packet),
    /// Point the radio at the buffer that takes what is received.
    PointAtReceiveBuffer,
    /// Trigger the task that ramps up and transmits.
    StartTx,
    /// Trigger the task that ramps up and listens.
    StartRx,
    /// Trigger the task that shuts the radio down.
    Disable,
    /// Spin until the radio reports that it is disabled.
    AwaitDisabled,
    /// Clear the flag that says an operation has ended.
    ClearDisabledEvent,
    /// Clear the flag that says the last checksum was good.
    ClearCrcOkEvent,
    /// Mask every interrupt source of the radio.
    MaskInterrupts,
    /// Let the end of an operation raise the radio interrupt.
    UnmaskDisabledInterrupt,
    /// Resume the task that waits on the radio.
    Wake,
    /// Let this many microseconds pass before the next command.
    Delay(u64),
    /// Start the window of this many microseconds in which the ack must
    /// arrive.
    OpenAckWindow(u64),
    /// Start the countdown timer.
    StartTimer,
    /// Stop the countdown timer.
    StopTimer,
    /// Reset the countdown timer to zero.
    ClearTimer,
    /// Clear the flag that says the countdown has expired.
    ClearCompareEvent,
}

/// The radio's event flags as read on a wake-up or in its interrupt.
#[derive(Clone, Copy, PartialEq, Eq, Structural, Debug)]
pub struct RadioEvents {
    /// The operation has ended and the radio is disabled.
    pub disabled: bool,
    /// The checksum of the last received frame was good.
    pub crc_ok: bool,
    /// The logical address on which the last frame was matched.
    pub rx_match: u8,
}

/// What a completed send reports.
#[derive(Clone, Copy, PartialEq, Eq, Structural, Debug)]
pub struct LogInfo {
    /// How often the frame had to be sent again.
    pub retransmissions: u32,
    /// Clock ticks between the start of the last attempt and its ack.
    pub time_elapsed: u64,
}

/// How far an operation has come.
#[derive(Clone, Copy, PartialEq, Eq, Debug)]
pub enum Outcome {
    /// Nothing to hand out yet.
    Pending,
    /// The frame was acknowledged.
    Sent(LogInfo),
    /// A new data frame arrived.
    Received(Packet),
}

/// The answer to one event: commands for the hardware and the outcome.
#[derive(Debug)]
pub struct Step {
    pub commands: Vec<Command>,
    pub outcome: Outcome,
}

} // verus!
