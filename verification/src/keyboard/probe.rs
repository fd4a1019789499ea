//! Switching the keyboard on.

use vstd::prelude::*;

use crate::keyboard::keyboard::POLL_LIMIT;
use crate::keyboard::keyboard::STATUS_INPUT_FULL;
use crate::keyboard::keyboard::STATUS_OUTPUT_FULL;

verus! {

/// How often the status is read in vain.
pub const WAIT_LIMIT: u32 = 100_000;

/// The keyboard's yes.
pub const ACK: u8 = 0xfa;

/// What is asked for.
#[derive(Clone, Copy, Debug, PartialEq, Eq, Structural)]
pub enum ProbeRequest {
    ReadStatus,
    ReadData,
    WriteCommand(u8),
    WriteData(u8),
    /// The first set is in use: no key is down.
    Restart,
    Done,
}

/// What is sent, in its order.
#[derive(Clone, Copy, Debug, PartialEq, Eq, Structural)]
pub enum ProbeStep {
    /// Read the controller's configuration.
    Config,
    /// Enable the first port.
    EnablePort,
    /// Choose a set of scan codes.
    ChooseSet,
    /// The first one.
    FirstSet,
    /// Begin to scan.
    Scan,
}

/// How far a step has come.
#[derive(Clone, Copy, Debug, PartialEq, Eq, Structural)]
pub enum ProbePhase {
    /// Throwing away what is there.
    FlushStatus,
    FlushData,
    WaitInput,
    Send,
    WaitOutput,
    Receive,
    Restart,
    Done,
}

/// Switching the keyboard on.
#[derive(Clone, Copy, Debug, PartialEq, Eq, Structural)]
pub struct Probe {
    pub phase: ProbePhase,
    pub step: ProbeStep,
    pub polls: u32,
    pub present: bool,
}

/// What a step sends.
pub open spec fn sends(step: ProbeStep) -> ProbeRequest {
    match step {
        ProbeStep::Config => ProbeRequest::WriteCommand(0x20),
        ProbeStep::EnablePort => ProbeRequest::WriteCommand(0xae),
        ProbeStep::ChooseSet => ProbeRequest::WriteData(0xf0),
        ProbeStep::FirstSet => ProbeRequest::WriteData(0x01),
        ProbeStep::Scan => ProbeRequest::WriteData(0xf4),
    }
}

impl Probe {
    pub open spec fn begin() -> Probe {
        Probe {
            phase: ProbePhase::FlushStatus,
            step: ProbeStep::Config,
            polls: 0,
            present: false,
        }
    }

    pub open spec fn enters(self, phase: ProbePhase) -> Probe {
        Probe { phase, polls: 0, ..self }
    }

    pub open spec fn starts(self, step: ProbeStep) -> Probe {
        Probe { phase: ProbePhase::WaitInput, polls: 0, step, ..self }
    }

    /// After a step: whether it was sent, and what came back.
    pub open spec fn stepped(self, sent: bool, response: Option<u8>) -> Probe {
        match self.step {
            ProbeStep::Config => self.starts(ProbeStep::EnablePort),
            ProbeStep::EnablePort => if sent {
                self.starts(ProbeStep::ChooseSet)
            } else {
                self.enters(ProbePhase::Done)
            },
            ProbeStep::ChooseSet => if response == Some(ACK) {
                self.starts(ProbeStep::FirstSet)
            } else {
                self.enters(ProbePhase::Restart)
            },
            ProbeStep::FirstSet => self.enters(ProbePhase::Restart),
            ProbeStep::Scan => Probe { present: response == Some(ACK), ..self }.enters(
                ProbePhase::Done,
            ),
        }
    }

    pub open spec fn request(self) -> ProbeRequest {
        match self.phase {
            ProbePhase::FlushStatus => ProbeRequest::ReadStatus,
            ProbePhase::FlushData => ProbeRequest::ReadData,
            ProbePhase::WaitInput => ProbeRequest::ReadStatus,
            ProbePhase::Send => sends(self.step),
            ProbePhase::WaitOutput => ProbeRequest::ReadStatus,
            ProbePhase::Receive => ProbeRequest::ReadData,
            ProbePhase::Restart => ProbeRequest::Restart,
            ProbePhase::Done => ProbeRequest::Done,
        }
    }

    pub open spec fn after(self, value: u8) -> Probe {
        match self.phase {
            ProbePhase::FlushStatus => if value & STATUS_OUTPUT_FULL == 0 {
                self.starts(ProbeStep::Config)
            } else {
                Probe { phase: ProbePhase::FlushData, ..self }
            },
            ProbePhase::FlushData => if self.polls + 1 < POLL_LIMIT {
                Probe {
                    phase: ProbePhase::FlushStatus,
                    polls: (self.polls + 1) as u32,
                    ..self
                }
            } else {
                self.starts(ProbeStep::Config)
            },
            ProbePhase::WaitInput => if value & STATUS_INPUT_FULL == 0 {
                self.enters(ProbePhase::Send)
            } else if self.polls + 1 < WAIT_LIMIT {
                Probe { polls: (self.polls + 1) as u32, ..self }
            } else {
                self.stepped(false, None)
            },
            ProbePhase::Send => if self.step == ProbeStep::EnablePort {
                self.stepped(true, None)
            } else {
                self.enters(ProbePhase::WaitOutput)
            },
            ProbePhase::WaitOutput => if value & STATUS_OUTPUT_FULL != 0 {
                self.enters(ProbePhase::Receive)
            } else if self.polls + 1 < WAIT_LIMIT {
                Probe { polls: (self.polls + 1) as u32, ..self }
            } else {
                self.stepped(true, None)
            },
            ProbePhase::Receive => self.stepped(true, Some(value)),
            ProbePhase::Restart => self.starts(ProbeStep::Scan),
            ProbePhase::Done => self,
        }
    }

    pub open spec fn wf(self) -> bool {
        &&& self.polls < WAIT_LIMIT
        &&& self.phase == ProbePhase::Restart ==> self.step == ProbeStep::ChooseSet || self.step
            == ProbeStep::FirstSet
    }

    /// Begins to switch the keyboard on.
    pub fn probe_and_enable() -> (r: Probe)
        ensures
            r == Probe::begin(),
            r.wf(),
    {
        Probe {
            phase: ProbePhase::FlushStatus,
            step: ProbeStep::Config,
            polls: 0,
            present: false,
        }
    }

    /// What is needed next.
    pub fn next_request(&self) -> (r: ProbeRequest)
        ensures
            r == self.request(),
    {
        match self.phase {
            ProbePhase::FlushStatus => ProbeRequest::ReadStatus,
            ProbePhase::FlushData => ProbeRequest::ReadData,
            ProbePhase::WaitInput => ProbeRequest::ReadStatus,
            ProbePhase::Send => match self.step {
                ProbeStep::Config => ProbeRequest::WriteCommand(0x20),
                ProbeStep::EnablePort => ProbeRequest::WriteCommand(0xae),
                ProbeStep::ChooseSet => ProbeRequest::WriteData(0xf0),
                ProbeStep::FirstSet => ProbeRequest::WriteData(0x01),
                ProbeStep::Scan => ProbeRequest::WriteData(0xf4),
            },
            ProbePhase::WaitOutput => ProbeRequest::ReadStatus,
            ProbePhase::Receive => ProbeRequest::ReadData,
            ProbePhase::Restart => ProbeRequest::Restart,
            ProbePhase::Done => ProbeRequest::Done,
        }
    }

    fn enter(&mut self, phase: ProbePhase)
        ensures
            *final(self) == old(self).enters(phase),
    {
        self.phase = phase;
        self.polls = 0;
    }

    fn start(&mut self, step: ProbeStep)
        ensures
            *final(self) == old(self).starts(step),
    {
        self.phase = ProbePhase::WaitInput;
        self.polls = 0;
        self.step = step;
    }

    fn finish_step(&mut self, sent: bool, response: Option<u8>)
        ensures
            *final(self) == old(self).stepped(sent, response),
    {
        let ack: bool = match response {
            Some(b) => b == ACK,
            None => false,
        };
        match self.step {
            ProbeStep::Config => self.start(ProbeStep::EnablePort),
            ProbeStep::EnablePort => {
                if sent {
                    self.start(ProbeStep::ChooseSet);
                } else {
                    self.enter(ProbePhase::Done);
                }
            },
            ProbeStep::ChooseSet => {
                if ack {
                    self.start(ProbeStep::FirstSet);
                } else {
                    self.enter(ProbePhase::Restart);
                }
            },
            ProbeStep::FirstSet => self.enter(ProbePhase::Restart),
            ProbeStep::Scan => {
                self.present = ack;
                self.enter(ProbePhase::Done);
            },
        }
    }

    /// Takes the value that was read; anything where nothing was.
    pub fn feed(&mut self, value: u8)
        requires
            old(self).wf(),
        ensures
            *final(self) == old(self).after(value),
            final(self).wf(),
    {
        match self.phase {
            ProbePhase::FlushStatus => {
                if value & STATUS_OUTPUT_FULL == 0 {
                    self.start(ProbeStep::Config);
                } else {
                    self.phase = ProbePhase::FlushData;
                }
            },
            ProbePhase::FlushData => {
                if self.polls + 1 < POLL_LIMIT {
                    self.phase = ProbePhase::FlushStatus;
                    self.polls = self.polls + 1;
                } else {
                    self.start(ProbeStep::Config);
                }
            },
            ProbePhase::WaitInput => {
                if value & STATUS_INPUT_FULL == 0 {
                    self.enter(ProbePhase::Send);
                } else if self.polls + 1 < WAIT_LIMIT {
                    self.polls = self.polls + 1;
                } else {
                    self.finish_step(false, None);
                }
            },
            ProbePhase::Send => match self.step {
                ProbeStep::EnablePort => self.finish_step(true, None),
                _ => self.enter(ProbePhase::WaitOutput),
            },
            ProbePhase::WaitOutput => {
                if value & STATUS_OUTPUT_FULL != 0 {
                    self.enter(ProbePhase::Receive);
                } else if self.polls + 1 < WAIT_LIMIT {
                    self.polls = self.polls + 1;
                } else {
                    self.finish_step(true, None);
                }
            },
            ProbePhase::Receive => self.finish_step(true, Some(value)),
            ProbePhase::Restart => self.start(ProbeStep::Scan),
            ProbePhase::Done => {},
        }
    }

    /// Whether there is a keyboard, once it is over.
    pub fn outcome(&self) -> (r: Option<bool>)
        ensures
            r == (if self.phase == ProbePhase::Done {
                Some(self.present)
            } else {
                None
            }),
    {
        match self.phase {
            ProbePhase::Done => Some(self.present),
            _ => None,
        }
    }
}

/// A keyboard is taken to be there only when it said yes to scanning.
pub proof fn law_present_means_acknowledged(m: Probe, value: u8)
    requires
        !m.present,
        m.after(value).present,
    ensures
        m.phase == ProbePhase::Receive,
        m.step == ProbeStep::Scan,
        value == ACK,
{
}

/// How many port accesses it takes at most to look for a keyboard.
pub open spec fn probe_left(m: Probe) -> int {
    let step = 2 * (WAIT_LIMIT + 4);
    let steps = match m.step {
        ProbeStep::Config => 4 * step,
        ProbeStep::EnablePort => 3 * step,
        ProbeStep::ChooseSet => 2 * step,
        ProbeStep::FirstSet => step,
        ProbeStep::Scan => 0,
    };
    match m.phase {
        ProbePhase::FlushStatus => 5 * step + 2 * (WAIT_LIMIT - m.polls) + 20,
        ProbePhase::FlushData => 5 * step + 2 * (WAIT_LIMIT - m.polls) + 19,
        ProbePhase::WaitInput => steps + WAIT_LIMIT + 6 + (WAIT_LIMIT - m.polls),
        ProbePhase::Send => steps + WAIT_LIMIT + 5,
        ProbePhase::WaitOutput => steps + 3 + (WAIT_LIMIT - m.polls),
        ProbePhase::Receive => steps + 2,
        ProbePhase::Restart => step + 1,
        ProbePhase::Done => 0,
    }
}

/// Whatever the ports answer, looking for a keyboard comes to an end.
pub proof fn law_probe_ends(m: Probe, value: u8)
    requires
        m.wf(),
        m.phase != ProbePhase::Done,
    ensures
        0 <= probe_left(m.after(value)) < probe_left(m),
        m.after(value).wf(),
{
}

} // verus!
