//! Waiting for the controller to carry out a command.

use vstd::prelude::*;

use crate::usb::err::UsbError;
use crate::usb::init;
use crate::usb::init::USBSTS_HSE;
use crate::usb::trb::Trb;
use crate::usb::trb::COMPLETION_SUCCESS;
use crate::usb::trb::TRB_COMMAND_COMPLETION;

verus! {

/// How many rounds are waited.
pub const WAIT_ROUNDS: u32 = 250_000;

/// After how many rounds the controller's health is looked at, each time.
pub const HEALTH_ROUNDS: u32 = 100_000;

/// What the wait asks for.
#[derive(Clone, Copy, Debug, PartialEq, Eq, Structural)]
pub enum WaitRequest {
    /// Read an operational register.
    ReadOp { register: u64 },
    /// Take the next event, if there is one.
    Dequeue,
    /// Tell the controller how far events were taken.
    UpdateDequeue,
    Done,
}

/// What it is answered.
#[derive(Clone, Copy, Debug, PartialEq, Eq, Structural)]
pub enum WaitReply {
    Value(u32),
    Event(Option<Trb>),
    Acknowledged,
}

/// How far the wait has come.
#[derive(Clone, Copy, Debug, PartialEq, Eq, Structural)]
pub enum WaitPhase {
    Health,
    Dequeue,
    Update,
    TimeoutStatus,
    TimeoutRing,
    Done,
    Failed,
}

/// A wait for a command.
#[derive(Clone, Copy)]
pub struct WaitCommand {
    pub phase: WaitPhase,
    pub round: u32,
    pub event: Trb,
    pub error: Option<UsbError>,
}

impl WaitReply {
    pub open spec fn value_of(self) -> u32 {
        match self {
            WaitReply::Value(v) => v,
            _ => 0,
        }
    }

    pub open spec fn event_of(self) -> Option<Trb> {
        match self {
            WaitReply::Event(e) => e,
            _ => None,
        }
    }
}

impl WaitCommand {
    /// Into round `round`: a look at the controller's health now and then, and an end after
    /// too many.
    pub open spec fn in_round(self, round: int) -> WaitCommand {
        WaitCommand {
            round: round as u32,
            phase: if round % HEALTH_ROUNDS as int == 0 {
                WaitPhase::Health
            } else if round > WAIT_ROUNDS {
                WaitPhase::TimeoutStatus
            } else {
                WaitPhase::Dequeue
            },
            ..self
        }
    }

    pub open spec fn begin() -> WaitCommand {
        WaitCommand {
            phase: WaitPhase::Dequeue,
            round: 1,
            event: Trb { param: 0, status: 0, control: 0 },
            error: None,
        }
    }

    pub open spec fn fails(self, error: UsbError) -> WaitCommand {
        WaitCommand { phase: WaitPhase::Failed, error: Some(error), ..self }
    }

    pub open spec fn request(self) -> WaitRequest {
        match self.phase {
            WaitPhase::Health => WaitRequest::ReadOp { register: init::USBSTS },
            WaitPhase::Dequeue => WaitRequest::Dequeue,
            WaitPhase::Update => WaitRequest::UpdateDequeue,
            WaitPhase::TimeoutStatus => WaitRequest::ReadOp { register: init::USBSTS },
            WaitPhase::TimeoutRing => WaitRequest::ReadOp { register: init::CRCR },
            _ => WaitRequest::Done,
        }
    }

    pub open spec fn after(self, reply: WaitReply) -> WaitCommand {
        match self.phase {
            WaitPhase::Health => if reply.value_of() & USBSTS_HSE != 0 {
                self.fails(UsbError::XferFail((reply.value_of() % 256) as u8))
            } else if self.round > WAIT_ROUNDS {
                WaitCommand { phase: WaitPhase::TimeoutStatus, ..self }
            } else {
                WaitCommand { phase: WaitPhase::Dequeue, ..self }
            },
            WaitPhase::Dequeue => match reply.event_of() {
                Some(event) => WaitCommand { event, phase: WaitPhase::Update, ..self },
                None => self.in_round(self.round + 1),
            },
            WaitPhase::Update => if self.event.ty() == TRB_COMMAND_COMPLETION {
                if self.event.code() == COMPLETION_SUCCESS {
                    WaitCommand { phase: WaitPhase::Done, ..self }
                } else {
                    self.fails(UsbError::CmdFail(self.event.code() as u8))
                }
            } else {
                self.in_round(self.round + 1)
            },
            WaitPhase::TimeoutStatus => WaitCommand { phase: WaitPhase::TimeoutRing, ..self },
            WaitPhase::TimeoutRing => self.fails(
                UsbError::Timeout("wait_command waiting for xHC command completion"),
            ),
            _ => self,
        }
    }

    /// What holds in each phase.
    pub open spec fn wf(self) -> bool {
        &&& 1 <= self.round <= WAIT_ROUNDS + 1
        &&& self.phase == WaitPhase::Dequeue || self.phase == WaitPhase::Update ==> self.round
            <= WAIT_ROUNDS
        &&& self.phase == WaitPhase::Failed ==> self.error is Some
        &&& self.phase == WaitPhase::Done ==> self.event.ty() == TRB_COMMAND_COMPLETION
            && self.event.code() == COMPLETION_SUCCESS
    }

    /// Begins to wait.
    pub fn wait_command() -> (r: WaitCommand)
        ensures
            r == WaitCommand::begin(),
            r.wf(),
    {
        WaitCommand {
            phase: WaitPhase::Dequeue,
            round: 1,
            event: Trb { param: 0, status: 0, control: 0 },
            error: None,
        }
    }

    /// What is needed next.
    pub fn next_request(&self) -> (r: WaitRequest)
        ensures
            r == self.request(),
    {
        match self.phase {
            WaitPhase::Health => WaitRequest::ReadOp { register: init::USBSTS },
            WaitPhase::Dequeue => WaitRequest::Dequeue,
            WaitPhase::Update => WaitRequest::UpdateDequeue,
            WaitPhase::TimeoutStatus => WaitRequest::ReadOp { register: init::USBSTS },
            WaitPhase::TimeoutRing => WaitRequest::ReadOp { register: init::CRCR },
            _ => WaitRequest::Done,
        }
    }

    fn next_round(&mut self)
        requires
            old(self).wf(),
            old(self).round <= WAIT_ROUNDS,
        ensures
            *final(self) == old(self).in_round(old(self).round + 1),
            final(self).wf(),
    {
        self.round = self.round + 1;
        self.phase = if self.round % HEALTH_ROUNDS == 0 {
            WaitPhase::Health
        } else if self.round > WAIT_ROUNDS {
            WaitPhase::TimeoutStatus
        } else {
            WaitPhase::Dequeue
        };
    }

    /// Takes a reply.
    pub fn feed(&mut self, reply: WaitReply)
        requires
            old(self).wf(),
        ensures
            *final(self) == old(self).after(reply),
            final(self).wf(),
    {
        match self.phase {
            WaitPhase::Health => {
                let status: u32 = match reply {
                    WaitReply::Value(v) => v,
                    _ => 0,
                };
                if status & USBSTS_HSE != 0 {
                    self.error = Some(UsbError::XferFail((status % 256) as u8));
                    self.phase = WaitPhase::Failed;
                } else if self.round > WAIT_ROUNDS {
                    self.phase = WaitPhase::TimeoutStatus;
                } else {
                    self.phase = WaitPhase::Dequeue;
                }
            },
            WaitPhase::Dequeue => match reply {
                WaitReply::Event(Some(event)) => {
                    self.event = event;
                    self.phase = WaitPhase::Update;
                },
                _ => self.next_round(),
            },
            WaitPhase::Update => {
                if self.event.trb_type() as u32 == TRB_COMMAND_COMPLETION {
                    let code: u8 = self.event.completion_code();
                    if code == COMPLETION_SUCCESS {
                        self.phase = WaitPhase::Done;
                    } else {
                        self.error = Some(UsbError::CmdFail(code));
                        self.phase = WaitPhase::Failed;
                    }
                } else {
                    self.next_round();
                }
            },
            WaitPhase::TimeoutStatus => {
                self.phase = WaitPhase::TimeoutRing;
            },
            WaitPhase::TimeoutRing => {
                self.error = Some(
                    UsbError::Timeout("wait_command waiting for xHC command completion"),
                );
                self.phase = WaitPhase::Failed;
            },
            _ => {},
        }
    }

    /// The event that completed the command, or why it failed, once it is over.
    pub fn outcome(&self) -> (r: Option<Result<Trb, UsbError>>)
        requires
            self.wf(),
        ensures
            r == (match self.phase {
                WaitPhase::Done => Some(Ok(self.event)),
                WaitPhase::Failed => Some(Err(self.error->0)),
                _ => None::<Result<Trb, UsbError>>,
            }),
    {
        match self.phase {
            WaitPhase::Done => Some(Ok(self.event)),
            WaitPhase::Failed => match self.error {
                Some(e) => Some(Err(e)),
                None => None,
            },
            _ => None,
        }
    }
}

/// How many replies a wait can still take.
pub open spec fn wait_left(m: WaitCommand) -> int {
    match m.phase {
        WaitPhase::Health => 3 * (WAIT_ROUNDS + 1 - m.round) + 5,
        WaitPhase::Dequeue => 3 * (WAIT_ROUNDS + 1 - m.round) + 4,
        WaitPhase::Update => 3 * (WAIT_ROUNDS + 1 - m.round) + 3,
        WaitPhase::TimeoutStatus => 2,
        WaitPhase::TimeoutRing => 1,
        _ => 0,
    }
}

/// A wait ends whatever the controller answers.
pub proof fn law_wait_ends(m: WaitCommand, reply: WaitReply)
    requires
        m.wf(),
        wait_left(m) > 0,
    ensures
        0 <= wait_left(m.after(reply)) < wait_left(m),
{
}

/// Only the event that completes a command, successfully, ends a wait well: a change of a
/// port or the end of a transfer does not.
pub proof fn law_only_success_completes(m: WaitCommand, reply: WaitReply)
    requires
        m.wf(),
        m.phase != WaitPhase::Done,
        m.after(reply).phase == WaitPhase::Done,
    ensures
        m.after(reply).event == m.event,
        m.event.ty() == TRB_COMMAND_COMPLETION,
        m.event.code() == COMPLETION_SUCCESS,
{
}

} // verus!
