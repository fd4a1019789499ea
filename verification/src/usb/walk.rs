//! The host controller's extended capabilities: taking it over from the firmware, and which
//! ports speak which protocol.

use vstd::prelude::*;

verus! {

/// How many bytes of registers are mapped to look at the capabilities.
pub const MMIO_INIT_SIZE: u64 = 0x1000;

/// How many capabilities are looked at.
pub const MAX_ECAP_STEPS: u32 = 64;

pub const ECAP_USB_LEGACY: u32 = 1;

pub const ECAP_SUPPORTED_PROTOCOL: u32 = 2;

/// The system owns the controller.
pub const OS_OWNED: u32 = 0x100_0000;

/// The firmware owns the controller.
pub const BIOS_OWNED: u32 = 0x1_0000;

/// No system management interrupts.
pub const SMI_CLEAR: u32 = 0xe000_0000;

/// How often a register is read in vain before it is given up.
pub const POLL_LIMIT: u32 = 250_000;

/// A range of ports and the slot type of the devices on it.
#[derive(Clone, Copy, Debug, PartialEq, Eq, Structural)]
pub struct SupportedProtocol {
    pub compatible_port_offset: u8,
    pub compatible_port_count: u8,
    pub slot_type: u8,
}

/// What is done to registers.
#[derive(Clone, Copy, Debug, PartialEq, Eq, Structural)]
pub enum RegisterRequest {
    Read { offset: u64 },
    Write { offset: u64, value: u32 },
    /// A register of eight bytes.
    WriteWide { offset: u64, address: u64 },
    Done,
}

/// How far the walk has come.
#[derive(Clone, Copy, Debug, PartialEq, Eq, Structural)]
pub enum WalkPhase {
    Capability,
    Claim,
    Release,
    ClearSmi,
    ProtocolName,
    ProtocolPorts,
    ProtocolSlot,
    Done,
}

/// A walk through the capabilities.
pub struct CapabilityWalk {
    pub phase: WalkPhase,
    pub offset: u64,
    pub steps: u32,
    pub cap: u32,
    pub polls: u32,
    pub ports: u32,
    pub protocols: Vec<SupportedProtocol>,
}

/// A walk through the capabilities, over sequences.
pub struct Walk {
    pub phase: WalkPhase,
    pub offset: int,
    pub steps: int,
    pub cap: u32,
    pub polls: int,
    pub ports: u32,
    pub protocols: Seq<SupportedProtocol>,
}

impl View for CapabilityWalk {
    type V = Walk;

    open spec fn view(&self) -> Walk {
        Walk {
            phase: self.phase,
            offset: self.offset as int,
            steps: self.steps as int,
            cap: self.cap,
            polls: self.polls as int,
            ports: self.ports,
            protocols: self.protocols@,
        }
    }
}

/// The protocol that two words of a capability describe.
pub open spec fn protocol_of(ports: u32, slot: u32) -> SupportedProtocol {
    SupportedProtocol {
        compatible_port_offset: (ports % 256) as u8,
        compatible_port_count: (ports / 256 % 256) as u8,
        slot_type: (slot % 32) as u8,
    }
}

impl Walk {
    /// On to the capability at `offset`, if there is one and there were not too many.
    pub open spec fn at(self, offset: int) -> Walk {
        if 0x40 <= offset && offset + 4 <= MMIO_INIT_SIZE && self.steps < MAX_ECAP_STEPS {
            Walk { phase: WalkPhase::Capability, offset, steps: self.steps + 1, ..self }
        } else {
            Walk { phase: WalkPhase::Done, ..self }
        }
    }

    /// On to the next capability.
    pub open spec fn onward(self) -> Walk {
        let next = self.cap as int / 256 % 256 * 4;
        if next == 0 {
            Walk { phase: WalkPhase::Done, ..self }
        } else {
            self.at(self.offset + next)
        }
    }

    pub open spec fn begin(xecp: int) -> Walk {
        Walk {
            phase: WalkPhase::Done,
            offset: 0,
            steps: 0,
            cap: 0,
            polls: 0,
            ports: 0,
            protocols: Seq::empty(),
        }.at(xecp)
    }

    pub open spec fn request(self) -> RegisterRequest {
        match self.phase {
            WalkPhase::Capability => RegisterRequest::Read { offset: self.offset as u64 },
            WalkPhase::Claim => RegisterRequest::Write {
                offset: self.offset as u64,
                value: self.cap | OS_OWNED,
            },
            WalkPhase::Release => RegisterRequest::Read { offset: self.offset as u64 },
            WalkPhase::ClearSmi => RegisterRequest::Write {
                offset: (self.offset + 4) as u64,
                value: SMI_CLEAR,
            },
            WalkPhase::ProtocolName => RegisterRequest::Read { offset: (self.offset + 4) as u64 },
            WalkPhase::ProtocolPorts => RegisterRequest::Read { offset: (self.offset + 8) as u64 },
            WalkPhase::ProtocolSlot => RegisterRequest::Read { offset: (self.offset + 12) as u64 },
            WalkPhase::Done => RegisterRequest::Done,
        }
    }

    pub open spec fn after(self, value: u32) -> Walk {
        match self.phase {
            WalkPhase::Capability => {
                let m = Walk { cap: value, polls: 0, ..self };
                if value % 256 == ECAP_USB_LEGACY {
                    Walk { phase: WalkPhase::Claim, ..m }
                } else if value % 256 == ECAP_SUPPORTED_PROTOCOL {
                    Walk { phase: WalkPhase::ProtocolName, ..m }
                } else {
                    m.onward()
                }
            },
            WalkPhase::Claim => Walk { phase: WalkPhase::Release, ..self },
            WalkPhase::Release => if value & BIOS_OWNED != 0 && self.polls < POLL_LIMIT {
                Walk { polls: self.polls + 1, ..self }
            } else {
                Walk { phase: WalkPhase::ClearSmi, ..self }
            },
            WalkPhase::ClearSmi => self.onward(),
            WalkPhase::ProtocolName => Walk { phase: WalkPhase::ProtocolPorts, ..self },
            WalkPhase::ProtocolPorts => Walk {
                ports: value,
                phase: WalkPhase::ProtocolSlot,
                ..self
            },
            WalkPhase::ProtocolSlot => {
                let p = protocol_of(self.ports, value);
                if p.compatible_port_offset != 0 && p.compatible_port_count != 0 {
                    Walk { protocols: self.protocols.push(p), ..self }.onward()
                } else {
                    self.onward()
                }
            },
            WalkPhase::Done => self,
        }
    }

    /// What holds in each phase.
    pub open spec fn wf(self) -> bool {
        &&& 0 <= self.steps <= MAX_ECAP_STEPS
        &&& 0 <= self.polls <= POLL_LIMIT
        &&& self.phase != WalkPhase::Done ==> 0x40 <= self.offset && self.offset + 4
            <= MMIO_INIT_SIZE
        &&& forall|i: int|
            0 <= i < self.protocols.len() ==> (
            #[trigger] self.protocols[i]).compatible_port_offset != 0
                && self.protocols[i].compatible_port_count != 0
    }
}

impl CapabilityWalk {
    fn go(&mut self, offset: u64)
        requires
            old(self)@.steps <= MAX_ECAP_STEPS,
            offset <= 0x10_0000,
        ensures
            final(self)@ == old(self)@.at(offset as int),
    {
        if 0x40 <= offset && offset + 4 <= MMIO_INIT_SIZE && self.steps < MAX_ECAP_STEPS {
            self.phase = WalkPhase::Capability;
            self.offset = offset;
            self.steps = self.steps + 1;
        } else {
            self.phase = WalkPhase::Done;
        }
    }

    fn go_on(&mut self)
        requires
            old(self)@.wf(),
            old(self)@.phase != WalkPhase::Done,
        ensures
            final(self)@ == old(self)@.onward(),
    {
        let next: u64 = (self.cap / 256 % 256 * 4) as u64;
        if next == 0 {
            self.phase = WalkPhase::Done;
        } else {
            self.go(self.offset + next);
        }
    }

    /// Begins a walk; `xecp` is where the first capability is, or zero.
    pub fn new(xecp: u64) -> (r: CapabilityWalk)
        requires
            xecp <= 0x4_0000,
        ensures
            r@ == Walk::begin(xecp as int),
            r@.wf(),
    {
        let mut r = CapabilityWalk {
            phase: WalkPhase::Done,
            offset: 0,
            steps: 0,
            cap: 0,
            polls: 0,
            ports: 0,
            protocols: Vec::new(),
        };
        r.go(xecp);
        r
    }

    /// What is needed next.
    pub fn next_request(&self) -> (r: RegisterRequest)
        requires
            self@.wf(),
        ensures
            r == self@.request(),
    {
        match self.phase {
            WalkPhase::Capability => RegisterRequest::Read { offset: self.offset },
            WalkPhase::Claim => RegisterRequest::Write {
                offset: self.offset,
                value: self.cap | OS_OWNED,
            },
            WalkPhase::Release => RegisterRequest::Read { offset: self.offset },
            WalkPhase::ClearSmi => RegisterRequest::Write {
                offset: self.offset + 4,
                value: SMI_CLEAR,
            },
            WalkPhase::ProtocolName => RegisterRequest::Read { offset: self.offset + 4 },
            WalkPhase::ProtocolPorts => RegisterRequest::Read { offset: self.offset + 8 },
            WalkPhase::ProtocolSlot => RegisterRequest::Read { offset: self.offset + 12 },
            WalkPhase::Done => RegisterRequest::Done,
        }
    }

    /// Takes the value that was read; anything where nothing was.
    pub fn feed(&mut self, value: u32)
        requires
            old(self)@.wf(),
        ensures
            final(self)@ == old(self)@.after(value),
            final(self)@.wf(),
    {
        match self.phase {
            WalkPhase::Capability => {
                self.cap = value;
                self.polls = 0;
                if value % 256 == ECAP_USB_LEGACY {
                    self.phase = WalkPhase::Claim;
                } else if value % 256 == ECAP_SUPPORTED_PROTOCOL {
                    self.phase = WalkPhase::ProtocolName;
                } else {
                    self.go_on();
                }
            },
            WalkPhase::Claim => {
                self.phase = WalkPhase::Release;
            },
            WalkPhase::Release => {
                if value & BIOS_OWNED != 0 && self.polls < POLL_LIMIT {
                    self.polls = self.polls + 1;
                } else {
                    self.phase = WalkPhase::ClearSmi;
                }
            },
            WalkPhase::ClearSmi => {
                self.go_on();
            },
            WalkPhase::ProtocolName => {
                self.phase = WalkPhase::ProtocolPorts;
            },
            WalkPhase::ProtocolPorts => {
                self.ports = value;
                self.phase = WalkPhase::ProtocolSlot;
            },
            WalkPhase::ProtocolSlot => {
                let p = SupportedProtocol {
                    compatible_port_offset: (self.ports % 256) as u8,
                    compatible_port_count: (self.ports / 256 % 256) as u8,
                    slot_type: (value % 32) as u8,
                };
                if p.compatible_port_offset != 0 && p.compatible_port_count != 0 {
                    self.protocols.push(p);
                }
                self.go_on();
            },
            WalkPhase::Done => {},
        }
    }
}

/// How much of a walk is left: capabilities, then accesses to one of them.
pub open spec fn walk_left(w: Walk) -> (int, int) {
    (
        MAX_ECAP_STEPS - w.steps,
        match w.phase {
            WalkPhase::Capability => POLL_LIMIT + 5int,
            WalkPhase::Claim => POLL_LIMIT + 3int,
            WalkPhase::Release => POLL_LIMIT - w.polls + 2,
            WalkPhase::ClearSmi => 1,
            WalkPhase::ProtocolName => 3,
            WalkPhase::ProtocolPorts => 2,
            WalkPhase::ProtocolSlot => 1,
            WalkPhase::Done => 0,
        },
    )
}

/// A walk ends whatever the registers hold, even if the capabilities form a circle: every
/// access either moves on to one of the at most so many capabilities, or leaves fewer
/// accesses to the present one.
pub proof fn law_walk_ends(w: Walk, value: u32)
    requires
        w.wf(),
        w.phase != WalkPhase::Done,
    ensures
        ({
            let (caps, accesses) = walk_left(w);
            let (caps2, accesses2) = walk_left(w.after(value));
            &&& caps2 >= 0 && accesses2 >= 0
            &&& caps2 < caps || (caps2 == caps && accesses2 < accesses)
        }),
{
}

} // verus!
