//! The ports of the host controller: power, reset and what is on them.

use vstd::prelude::*;

use crate::usb::err::UsbError;
use crate::usb::walk::POLL_LIMIT;

verus! {

pub const PORTSC_CCS: u32 = 1;

pub const PORTSC_PED: u32 = 2;

pub const PORTSC_PR: u32 = 0x10;

pub const PORTSC_PP: u32 = 0x200;

pub const PORTSC_PRC: u32 = 0x20_0000;

/// All bits that tell of a change.
pub const PORTSC_CHANGES: u32 = 0xfe_0000;

pub const SPEED_FULL: u8 = 1;

pub const SPEED_LOW: u8 = 2;

pub const SPEED_HIGH: u8 = 3;

pub const SPEED_SUPER: u8 = 4;

/// Where the register of a port is.
pub open spec fn register_of(cap_length: u8, port: u8) -> int {
    cap_length + 0x400 + port * 0x10
}

/// Where the register of a port is.
pub fn port_reg_base(cap_length: u8, port: u8) -> (r: u64)
    ensures
        r == register_of(cap_length, port),
{
    cap_length as u64 + 0x400 + port as u64 * 0x10
}

/// The speed that a port's register tells.
pub open spec fn speed_of(portsc: u32) -> u8 {
    (portsc / 0x400 % 16) as u8
}

/// The speed that a port's register tells.
pub fn port_speed(portsc: u32) -> (r: u8)
    ensures
        r == speed_of(portsc),
{
    (portsc / 0x400 % 16) as u8
}

/// Whether there is a device on a port.
pub fn port_connected(portsc: u32) -> (r: bool)
    ensures
        r == (portsc & PORTSC_CCS != 0),
        r == (portsc % 2 == 1),
{
    assert((portsc & 1 != 0) == (portsc % 2 == 1)) by (bit_vector);
    portsc & PORTSC_CCS != 0
}

/// What acknowledges the changes that a port's register tells of, if there are any.
pub open spec fn acknowledged(portsc: u32) -> Option<u32> {
    if portsc & PORTSC_CHANGES != 0 {
        Some((portsc & PORTSC_PP) | (portsc & PORTSC_CHANGES))
    } else {
        None
    }
}

/// What to write to acknowledge the changes of a port.
pub fn clear_port_change_bits(portsc: u32) -> (r: Option<u32>)
    ensures
        r == acknowledged(portsc),
{
    let change_bits: u32 = portsc & PORTSC_CHANGES;
    if change_bits != 0 {
        Some((portsc & PORTSC_PP) | change_bits)
    } else {
        None
    }
}

/// What powers a port, if it has no power.
pub open spec fn powered(portsc: u32) -> Option<u32> {
    if portsc & PORTSC_PP != 0 {
        None
    } else {
        Some(PORTSC_PP | (portsc & PORTSC_CHANGES))
    }
}

/// What to write to power a port.
pub fn power_on_port(portsc: u32) -> (r: Option<u32>)
    ensures
        r == powered(portsc),
{
    if portsc & PORTSC_PP != 0 {
        None
    } else {
        Some(PORTSC_PP | (portsc & PORTSC_CHANGES))
    }
}

/// What is done to the register of a port.
#[derive(Clone, Copy, Debug, PartialEq, Eq, Structural)]
pub enum PortRequest {
    Read,
    Write { value: u32 },
    Done,
}

/// How far a reset has come.
#[derive(Clone, Copy, Debug, PartialEq, Eq, Structural)]
pub enum ResetPhase {
    CheckPower,
    ReadForPower,
    Power,
    ReadForReset,
    Reset,
    WaitReset,
    Acknowledge,
    WaitEnabled,
    Done,
    TimedOut,
}

/// A reset of a port.
#[derive(Clone, Copy, Debug, PartialEq, Eq, Structural)]
pub struct ResetPort {
    pub phase: ResetPhase,
    pub portsc: u32,
    pub polls: u32,
}

impl ResetPort {
    pub open spec fn begin() -> ResetPort {
        ResetPort { phase: ResetPhase::CheckPower, portsc: 0, polls: 0 }
    }

    pub open spec fn enters(self, phase: ResetPhase, portsc: u32) -> ResetPort {
        ResetPort { phase, portsc, polls: 0 }
    }

    pub open spec fn request(self) -> PortRequest {
        match self.phase {
            ResetPhase::CheckPower => PortRequest::Read,
            ResetPhase::ReadForPower => PortRequest::Read,
            ResetPhase::Power => PortRequest::Write {
                value: PORTSC_PP | (self.portsc & PORTSC_CHANGES),
            },
            ResetPhase::ReadForReset => PortRequest::Read,
            ResetPhase::Reset => PortRequest::Write {
                value: (self.portsc & PORTSC_PP) | PORTSC_PR,
            },
            ResetPhase::WaitReset => PortRequest::Read,
            ResetPhase::Acknowledge => PortRequest::Write {
                value: (self.portsc & PORTSC_PP) | PORTSC_PRC,
            },
            ResetPhase::WaitEnabled => PortRequest::Read,
            _ => PortRequest::Done,
        }
    }

    pub open spec fn after(self, value: u32) -> ResetPort {
        match self.phase {
            ResetPhase::CheckPower => self.enters(
                if value & PORTSC_PP == 0 {
                    ResetPhase::ReadForPower
                } else {
                    ResetPhase::ReadForReset
                },
                value,
            ),
            ResetPhase::ReadForPower => self.enters(
                if powered(value) is Some {
                    ResetPhase::Power
                } else {
                    ResetPhase::ReadForReset
                },
                value,
            ),
            ResetPhase::Power => self.enters(ResetPhase::ReadForReset, self.portsc),
            ResetPhase::ReadForReset => self.enters(ResetPhase::Reset, value),
            ResetPhase::Reset => self.enters(ResetPhase::WaitReset, self.portsc),
            ResetPhase::WaitReset => if value & PORTSC_PRC != 0 {
                self.enters(ResetPhase::Acknowledge, value)
            } else if self.polls + 1 < POLL_LIMIT {
                ResetPort { polls: (self.polls + 1) as u32, ..self }
            } else {
                self.enters(ResetPhase::TimedOut, value)
            },
            ResetPhase::Acknowledge => self.enters(ResetPhase::WaitEnabled, self.portsc),
            ResetPhase::WaitEnabled => if value & PORTSC_CCS == 0 || value & PORTSC_PED != 0
                || self.polls >= POLL_LIMIT {
                self.enters(ResetPhase::Done, value)
            } else {
                ResetPort { polls: (self.polls + 1) as u32, ..self }
            },
            _ => self,
        }
    }

    pub open spec fn wf(self) -> bool {
        self.polls <= POLL_LIMIT
    }

    /// Begins to reset a port.
    pub fn reset_port() -> (r: ResetPort)
        ensures
            r == ResetPort::begin(),
            r.wf(),
    {
        ResetPort { phase: ResetPhase::CheckPower, portsc: 0, polls: 0 }
    }

    /// What is needed next.
    pub fn next_request(&self) -> (r: PortRequest)
        ensures
            r == self.request(),
    {
        match self.phase {
            ResetPhase::CheckPower => PortRequest::Read,
            ResetPhase::ReadForPower => PortRequest::Read,
            ResetPhase::Power => PortRequest::Write {
                value: PORTSC_PP | (self.portsc & PORTSC_CHANGES),
            },
            ResetPhase::ReadForReset => PortRequest::Read,
            ResetPhase::Reset => PortRequest::Write {
                value: (self.portsc & PORTSC_PP) | PORTSC_PR,
            },
            ResetPhase::WaitReset => PortRequest::Read,
            ResetPhase::Acknowledge => PortRequest::Write {
                value: (self.portsc & PORTSC_PP) | PORTSC_PRC,
            },
            ResetPhase::WaitEnabled => PortRequest::Read,
            _ => PortRequest::Done,
        }
    }

    fn enter(&mut self, phase: ResetPhase, portsc: u32)
        ensures
            *final(self) == old(self).enters(phase, portsc),
            final(self).wf(),
    {
        self.phase = phase;
        self.portsc = portsc;
        self.polls = 0;
    }

    /// Takes the value that was read; anything where nothing was.
    pub fn feed(&mut self, value: u32)
        requires
            old(self).wf(),
        ensures
            *final(self) == old(self).after(value),
            final(self).wf(),
    {
        match self.phase {
            ResetPhase::CheckPower => self.enter(
                if value & PORTSC_PP == 0 {
                    ResetPhase::ReadForPower
                } else {
                    ResetPhase::ReadForReset
                },
                value,
            ),
            ResetPhase::ReadForPower => self.enter(
                if power_on_port(value).is_some() {
                    ResetPhase::Power
                } else {
                    ResetPhase::ReadForReset
                },
                value,
            ),
            ResetPhase::Power => self.enter(ResetPhase::ReadForReset, self.portsc),
            ResetPhase::ReadForReset => self.enter(ResetPhase::Reset, value),
            ResetPhase::Reset => self.enter(ResetPhase::WaitReset, self.portsc),
            ResetPhase::WaitReset => {
                if value & PORTSC_PRC != 0 {
                    self.enter(ResetPhase::Acknowledge, value);
                } else if self.polls + 1 < POLL_LIMIT {
                    self.polls = self.polls + 1;
                } else {
                    self.enter(ResetPhase::TimedOut, value);
                }
            },
            ResetPhase::Acknowledge => self.enter(ResetPhase::WaitEnabled, self.portsc),
            ResetPhase::WaitEnabled => {
                if value & PORTSC_CCS == 0 || value & PORTSC_PED != 0 || self.polls >= POLL_LIMIT {
                    self.enter(ResetPhase::Done, value);
                } else {
                    self.polls = self.polls + 1;
                }
            },
            _ => {},
        }
    }

    /// Whether it worked, once it is over.
    pub fn outcome(&self) -> (r: Option<Result<(), UsbError>>)
        ensures
            r == (match self.phase {
                ResetPhase::Done => Some(Ok(())),
                ResetPhase::TimedOut => Some(
                    Err(UsbError::Timeout("reset_port waiting for xHC PORTSC_PRC")),
                ),
                _ => None::<Result<(), UsbError>>,
            }),
    {
        match self.phase {
            ResetPhase::Done => Some(Ok(())),
            ResetPhase::TimedOut => Some(
                Err(UsbError::Timeout("reset_port waiting for xHC PORTSC_PRC")),
            ),
            _ => None,
        }
    }
}

/// A port's register is never written with the bit that would disable it, nor with a change
/// bit that was not read as set, other than that of the reset that was waited for.
pub proof fn law_port_writes_are_safe(m: ResetPort)
    ensures
        m.request() matches PortRequest::Write { value } ==> {
            &&& value & PORTSC_PED == 0
            &&& value & PORTSC_CHANGES & !(m.portsc | PORTSC_PRC) == 0
        },
{
    let p = m.portsc;
    assert((0x200u32 | (p & 0xfe_0000)) & 2 == 0 && (0x200u32 | (p & 0xfe_0000)) & 0xfe_0000 & !(p
        | 0x20_0000) == 0) by (bit_vector);
    assert(((p & 0x200) | 0x10) & 2 == 0 && ((p & 0x200) | 0x10) & 0xfe_0000 & !(p | 0x20_0000)
        == 0) by (bit_vector);
    assert(((p & 0x200) | 0x20_0000) & 2 == 0 && ((p & 0x200) | 0x20_0000) & 0xfe_0000 & !(p
        | 0x20_0000) == 0) by (bit_vector);
}

/// How many register accesses it takes at most to reset a port.
pub open spec fn reset_left(m: ResetPort) -> int {
    let wait = POLL_LIMIT + 2;
    let polls = POLL_LIMIT - m.polls;
    match m.phase {
        ResetPhase::CheckPower => 2 * wait + 10,
        ResetPhase::ReadForPower => 2 * wait + 9,
        ResetPhase::Power => 2 * wait + 8,
        ResetPhase::ReadForReset => 2 * wait + 7,
        ResetPhase::Reset => 2 * wait + 6,
        ResetPhase::WaitReset => wait + 5 + polls,
        ResetPhase::Acknowledge => wait + 4,
        ResetPhase::WaitEnabled => 1 + polls,
        _ => 0,
    }
}

/// Whatever its status holds, resetting a port comes to an end.
pub proof fn law_reset_ends(m: ResetPort, value: u32)
    requires
        m.wf(),
        m.phase != ResetPhase::Done && m.phase != ResetPhase::TimedOut,
    ensures
        0 <= reset_left(m.after(value)) < reset_left(m),
{
}

} // verus!
