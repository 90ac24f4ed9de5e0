//! Talking to the PS/2 controller: a byte is sent once the controller is
//! ready to take it, and received once the controller has one, and
//! neither is waited for without end.

use vstd::prelude::*;

verus! {

/// The port through which bytes go to and come from the devices.
pub const PS2_DATA_PORT: u16 = 0x60;

/// The port that holds the controller's status and takes its commands.
pub const PS2_COMMAND_PORT: u16 = 0x64;

/// The bit of the status that says that the controller holds a byte to be
/// read.
pub const STATUS_OUTPUT_FULL: u8 = 0x01;

/// The bit of the status that says that the controller is not ready to
/// take a byte.
pub const STATUS_INPUT_FULL: u8 = 0x02;

/// How often the status is read before a transfer is given up.
pub const TRANSFER_POLLS: u32 = 10000;

/// What a transfer asks its caller to do next.
#[derive(Debug, Clone, Copy, PartialEq, Eq, Structural)]
pub enum Ps2Action {
    /// Read the status and hand it to the next step.
    ReadStatus,
    /// Read the data port and hand the byte to the next step.
    ReadData,
    /// Write the byte to the command port.
    WriteCommand(u8),
    /// Write the byte to the data port.
    WriteData(u8),
    /// Nothing more.
    Done,
}

/// What is to be transferred.
#[derive(Debug, Clone, Copy, PartialEq, Eq, Structural)]
pub enum Transfer {
    /// A command to the controller.
    Command(u8),
    /// A byte to a device.
    Data(u8),
    /// A byte from the controller or a device.
    Receive,
    /// Whatever bytes the controller holds, to be thrown away.
    Drain,
}

/// How a transfer ended.
#[derive(Debug, Clone, Copy, PartialEq, Eq, Structural)]
pub enum Outcome {
    /// The byte was written.
    Sent,
    /// The byte that was read.
    Received(u8),
    /// The controller holds no more bytes.
    Drained,
    /// The controller did not get ready in time.
    TimedOut,
}

/// How far a transfer has come: what was asked for last.
#[derive(Debug, Clone, Copy, PartialEq, Eq, Structural)]
pub enum TransferStage {
    /// The status.
    Status,
    /// The write or read that makes the transfer.
    Moved,
}

/// A transfer in progress.
#[derive(Debug, Clone, Copy, PartialEq, Eq, Structural)]
pub struct TransferState {
    pub transfer: Transfer,
    pub stage: TransferStage,
    /// How often the status may still be read.
    pub polls_left: u32,
}

/// What a step of a transfer comes to: the transfer goes on with
/// `Step::Next`, or has ended with `Step::Ended`.
#[derive(Debug, Clone, Copy, PartialEq, Eq, Structural)]
pub enum Step {
    Next(TransferState, Ps2Action),
    Ended(Outcome),
}

/// The transfer `transfer` at its start: the status is asked for first.
pub open spec fn begun(transfer: Transfer) -> TransferState {
    TransferState { transfer, stage: TransferStage::Status, polls_left: TRANSFER_POLLS }
}

/// The transfer after another look at the status that did not show what
/// it waits for: it looks again while looks are left, and times out
/// after the last.
pub open spec fn waiting_on(t: TransferState) -> Step {
    if t.polls_left > 1 {
        Step::Next(
            TransferState { polls_left: (t.polls_left - 1) as u32, ..t },
            Ps2Action::ReadStatus,
        )
    } else {
        Step::Ended(Outcome::TimedOut)
    }
}

/// One step of a transfer: what it does with the reply to what it asked
/// for last. A byte is written once the status shows the controller ready
/// to take it, and read once the status shows that the controller holds
/// one. Draining reads bytes while the status shows that there are any.
pub open spec fn transfer_step(t: TransferState, reply: u8) -> Step {
    match t.stage {
        TransferStage::Status => match t.transfer {
            Transfer::Command(v) => if reply & STATUS_INPUT_FULL == 0 {
                Step::Next(
                    TransferState { stage: TransferStage::Moved, ..t },
                    Ps2Action::WriteCommand(v),
                )
            } else {
                waiting_on(t)
            },
            Transfer::Data(v) => if reply & STATUS_INPUT_FULL == 0 {
                Step::Next(
                    TransferState { stage: TransferStage::Moved, ..t },
                    Ps2Action::WriteData(v),
                )
            } else {
                waiting_on(t)
            },
            Transfer::Receive => if reply & STATUS_OUTPUT_FULL != 0 {
                Step::Next(TransferState { stage: TransferStage::Moved, ..t }, Ps2Action::ReadData)
            } else {
                waiting_on(t)
            },
            Transfer::Drain => if reply & STATUS_OUTPUT_FULL != 0 {
                Step::Next(TransferState { stage: TransferStage::Moved, ..t }, Ps2Action::ReadData)
            } else {
                Step::Ended(Outcome::Drained)
            },
        },
        TransferStage::Moved => match t.transfer {
            Transfer::Command(_) => Step::Ended(Outcome::Sent),
            Transfer::Data(_) => Step::Ended(Outcome::Sent),
            Transfer::Receive => Step::Ended(Outcome::Received(reply)),
            Transfer::Drain => Step::Next(
                TransferState { stage: TransferStage::Status, ..t },
                Ps2Action::ReadStatus,
            ),
        },
    }
}

impl TransferState {
    /// Begins the transfer `transfer`: the caller reads the status and
    /// hands it to [`TransferState::step`].
    pub fn begin(transfer: Transfer) -> (t: TransferState)
        ensures
            t == begun(transfer),
    {
        TransferState { transfer, stage: TransferStage::Status, polls_left: TRANSFER_POLLS }
    }

    fn wait_on(self) -> (step: Step)
        ensures
            step == waiting_on(self),
    {
        if self.polls_left > 1 {
            Step::Next(
                TransferState {
                    transfer: self.transfer,
                    stage: self.stage,
                    polls_left: self.polls_left - 1,
                },
                Ps2Action::ReadStatus,
            )
        } else {
            Step::Ended(Outcome::TimedOut)
        }
    }

    /// One step of the transfer; `reply` is what the action of the step
    /// before brought back.
    pub fn step(self, reply: u8) -> (step: Step)
        ensures
            step == transfer_step(self, reply),
    {
        let moved = TransferState {
            transfer: self.transfer,
            stage: TransferStage::Moved,
            polls_left: self.polls_left,
        };
        match self.stage {
            TransferStage::Status => match self.transfer {
                Transfer::Command(v) => if reply & STATUS_INPUT_FULL == 0 {
                    Step::Next(moved, Ps2Action::WriteCommand(v))
                } else {
                    self.wait_on()
                },
                Transfer::Data(v) => if reply & STATUS_INPUT_FULL == 0 {
                    Step::Next(moved, Ps2Action::WriteData(v))
                } else {
                    self.wait_on()
                },
                Transfer::Receive => if reply & STATUS_OUTPUT_FULL != 0 {
                    Step::Next(moved, Ps2Action::ReadData)
                } else {
                    self.wait_on()
                },
                Transfer::Drain => if reply & STATUS_OUTPUT_FULL != 0 {
                    Step::Next(moved, Ps2Action::ReadData)
                } else {
                    Step::Ended(Outcome::Drained)
                },
            },
            TransferStage::Moved => match self.transfer {
                Transfer::Command(_) => Step::Ended(Outcome::Sent),
                Transfer::Data(_) => Step::Ended(Outcome::Sent),
                Transfer::Receive => Step::Ended(Outcome::Received(reply)),
                Transfer::Drain => Step::Next(
                    TransferState {
                        transfer: self.transfer,
                        stage: TransferStage::Status,
                        polls_left: self.polls_left,
                    },
                    Ps2Action::ReadStatus,
                ),
            },
        }
    }
}

/// A transfer other than draining ends: every step before the end leaves
/// fewer steps to take.
pub proof fn lemma_transfer_ends(t: TransferState, reply: u8)
    requires
        !(t.transfer is Drain),
        t.polls_left >= 1,
    ensures
        match transfer_step(t, reply) {
            Step::Next(next, _) => transfer_steps_left(next) < transfer_steps_left(t)
                && next.polls_left >= 1 && !(next.transfer is Drain),
            Step::Ended(_) => true,
        },
{
}

/// How many steps a transfer can still take at most.
pub open spec fn transfer_steps_left(t: TransferState) -> nat {
    match t.stage {
        TransferStage::Status => (t.polls_left + 1) as nat,
        TransferStage::Moved => 0,
    }
}

} // verus!
