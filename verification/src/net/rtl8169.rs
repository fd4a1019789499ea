//! The RTL8169 network device: bringing it up. It neither receives nor sends yet.

use vstd::prelude::*;

use crate::bytes;
use crate::pci::bar::Bar;
use crate::pci::describe::PciDevice;
use crate::pci::init;

verus! {

pub const CR_RST: u8 = 0x10;

/// Receiver and transmitter on.
pub const CR_ENABLE: u8 = 0x0c;

/// How often the reset is waited for.
pub const RTL8169_RESET_SPINS: u32 = 100_000;

/// Errors of the RTL8169 driver.
#[derive(Clone, Copy, Debug, PartialEq, Eq, Structural)]
pub enum RTL8169Error {
    InitFailed,
    ResetFailed,
    Unknown,
}

impl RTL8169Error {
    /// The error in words.
    pub fn message(&self) -> (r: &'static str)
        ensures
            r == (match *self {
                RTL8169Error::InitFailed => "initialization failed",
                RTL8169Error::ResetFailed => "reset failed",
                RTL8169Error::Unknown => "unknown RTL8169 error",
            }),
    {
        match *self {
            RTL8169Error::InitFailed => "initialization failed",
            RTL8169Error::ResetFailed => "reset failed",
            RTL8169Error::Unknown => "unknown RTL8169 error",
        }
    }
}

/// A frame that was received.
pub struct RTL8169RxToken;

impl RTL8169RxToken {
    /// Its bytes: none.
    pub fn frame(&self) -> (r: Vec<u8>)
        ensures
            r@.len() == 0,
    {
        Vec::new()
    }
}

/// A frame that is to be sent.
pub struct RTL8169TxToken;

impl RTL8169TxToken {
    /// Room for its bytes.
    pub fn buffer(&self, len: usize) -> (r: Vec<u8>)
        ensures
            r@ == bytes::zeros(len as int),
    {
        bytes::zeroed(len)
    }
}

/// A register of the device.
#[derive(Clone, Copy, Debug, PartialEq, Eq, Structural)]
pub enum Reg {
    /// A byte of the hardware address.
    Mac(u8),
    Command,
    InterruptMask,
    InterruptStatus,
}

/// What bringing up asks for.
#[derive(Clone, Copy, Debug, PartialEq, Eq, Structural)]
pub enum NicRequest {
    /// Map a base address register.
    MapBar { slot: u8 },
    /// Let the device use the bus and its memory.
    EnableBus,
    Read(Reg),
    Write(Reg, u16),
    Done,
}

/// How far bringing up has come.
#[derive(Clone, Copy, Debug, PartialEq, Eq, Structural)]
pub enum NicPhase {
    MapBar,
    EnableBus,
    ReadMac,
    Reset,
    WaitReset,
    Mask,
    Status,
    Enable,
    Done,
    Failed,
}

/// A device that is brought up.
#[derive(Clone, Copy)]
pub struct NicSetup {
    pub phase: NicPhase,
    pub slot: u8,
    pub irq: u8,
    pub mac: [u8; 6],
    pub index: u8,
    pub spins: u32,
    pub error: RTL8169Error,
}

/// A device that is brought up, over sequences.
pub struct Nic {
    pub phase: NicPhase,
    pub slot: u8,
    pub irq: u8,
    pub mac: Seq<u8>,
    pub index: int,
    pub spins: int,
    pub error: RTL8169Error,
}

impl View for NicSetup {
    type V = Nic;

    open spec fn view(&self) -> Nic {
        Nic {
            phase: self.phase,
            slot: self.slot,
            irq: self.irq,
            mac: self.mac@,
            index: self.index as int,
            spins: self.spins as int,
            error: self.error,
        }
    }
}

/// Whether a base address register is one of memory.
pub open spec fn is_memory(b: Option<Bar>) -> bool {
    b matches Some(x) && x !is Io
}

/// The first base address register of memory from `from` on, or the length.
pub open spec fn first_memory(bars: Seq<Option<Bar>>, from: int) -> int
    decreases bars.len() - from,
{
    if from >= bars.len() || is_memory(bars[from]) {
        from
    } else {
        first_memory(bars, from + 1)
    }
}

impl Nic {
    pub open spec fn begin(slot: u8, irq: u8) -> Nic {
        Nic {
            phase: NicPhase::MapBar,
            slot,
            irq,
            mac: seq![0u8, 0, 0, 0, 0, 0],
            index: 0,
            spins: RTL8169_RESET_SPINS as int,
            error: RTL8169Error::Unknown,
        }
    }

    pub open spec fn enters(self, phase: NicPhase) -> Nic {
        Nic { phase, ..self }
    }

    pub open spec fn request(self) -> NicRequest {
        match self.phase {
            NicPhase::MapBar => NicRequest::MapBar { slot: self.slot },
            NicPhase::EnableBus => NicRequest::EnableBus,
            NicPhase::ReadMac => NicRequest::Read(Reg::Mac(self.index as u8)),
            NicPhase::Reset => NicRequest::Write(Reg::Command, CR_RST as u16),
            NicPhase::WaitReset => NicRequest::Read(Reg::Command),
            NicPhase::Mask => NicRequest::Write(Reg::InterruptMask, 0),
            NicPhase::Status => NicRequest::Write(Reg::InterruptStatus, 0xffff),
            NicPhase::Enable => NicRequest::Write(Reg::Command, CR_ENABLE as u16),
            _ => NicRequest::Done,
        }
    }

    pub open spec fn after(self, value: u8) -> Nic {
        match self.phase {
            NicPhase::MapBar => self.enters(NicPhase::EnableBus),
            NicPhase::EnableBus => self.enters(NicPhase::ReadMac),
            NicPhase::ReadMac => {
                let m = Nic { mac: self.mac.update(self.index, value), ..self };
                if self.index < 5 {
                    Nic { index: self.index + 1, ..m }
                } else if m.mac == seq![0u8, 0, 0, 0, 0, 0] {
                    Nic { error: RTL8169Error::InitFailed, ..m }.enters(NicPhase::Failed)
                } else {
                    m.enters(NicPhase::Reset)
                }
            },
            NicPhase::Reset => self.enters(NicPhase::WaitReset),
            NicPhase::WaitReset => if self.spins == 0 {
                Nic { error: RTL8169Error::ResetFailed, ..self }.enters(NicPhase::Failed)
            } else if value & CR_RST != 0 {
                Nic { spins: self.spins - 1, ..self }
            } else {
                self.enters(NicPhase::Mask)
            },
            NicPhase::Mask => self.enters(NicPhase::Status),
            NicPhase::Status => self.enters(NicPhase::Enable),
            NicPhase::Enable => self.enters(NicPhase::Done),
            _ => self,
        }
    }

    pub open spec fn wf(self) -> bool {
        0 <= self.index <= 5 && self.mac.len() == 6 && self.spins >= 0
    }
}

/// A device that is up.
#[derive(Clone, Copy)]
pub struct RTL8169Driver {
    pub mtu: u16,
    pub irq: u8,
    pub mac: [u8; 6],
}

impl NicSetup {
    /// Begins to bring a device up; an error where it does not interrupt, or has no memory.
    pub fn init_device(device: &PciDevice) -> (r: Result<NicSetup, RTL8169Error>)
        requires
            device.wf(),
        ensures
            ({
                let irq = init::irq_line_of(*device);
                let slot = first_memory(device.bars@, 0);
                match r {
                    Ok(m) => irq is Some && slot < device.bars@.len() && m@ == Nic::begin(
                        slot as u8,
                        irq->0,
                    ) && m@.wf(),
                    Err(e) => (irq is None || slot >= device.bars@.len()) && e
                        == RTL8169Error::Unknown,
                }
            }),
    {
        let irq: u8 = match device.get_irq() {
            Some(irq) => irq,
            None => {
                return Err(RTL8169Error::Unknown);
            },
        };
        let mut slot: usize = 0;
        while slot < device.bars.len()
            invariant
                device.wf(),
                slot <= device.bars.len(),
                first_memory(device.bars@, 0) == first_memory(device.bars@, slot as int),
                Some(irq) == init::irq_line_of(*device),
            decreases device.bars.len() - slot,
        {
            let memory: bool = match device.bars[slot] {
                Some(Bar::Io { port: _ }) => false,
                Some(_) => true,
                None => false,
            };
            if memory {
                let m = NicSetup {
                    phase: NicPhase::MapBar,
                    slot: slot as u8,
                    irq,
                    mac: [0;6],
                    index: 0,
                    spins: RTL8169_RESET_SPINS,
                    error: RTL8169Error::Unknown,
                };
                assert(m.mac@ =~= seq![0u8, 0, 0, 0, 0, 0]);
                return Ok(m);
            }
            slot = slot + 1;
        }
        Err(RTL8169Error::Unknown)
    }

    /// What is needed next.
    pub fn next_request(&self) -> (r: NicRequest)
        ensures
            r == self@.request(),
    {
        match self.phase {
            NicPhase::MapBar => NicRequest::MapBar { slot: self.slot },
            NicPhase::EnableBus => NicRequest::EnableBus,
            NicPhase::ReadMac => NicRequest::Read(Reg::Mac(self.index)),
            NicPhase::Reset => NicRequest::Write(Reg::Command, CR_RST as u16),
            NicPhase::WaitReset => NicRequest::Read(Reg::Command),
            NicPhase::Mask => NicRequest::Write(Reg::InterruptMask, 0),
            NicPhase::Status => NicRequest::Write(Reg::InterruptStatus, 0xffff),
            NicPhase::Enable => NicRequest::Write(Reg::Command, CR_ENABLE as u16),
            _ => NicRequest::Done,
        }
    }

    /// Takes the value that was read; anything where nothing was.
    pub fn feed(&mut self, value: u8)
        requires
            old(self)@.wf(),
        ensures
            final(self)@ == old(self)@.after(value),
            final(self)@.wf(),
    {
        match self.phase {
            NicPhase::MapBar => {
                self.phase = NicPhase::EnableBus;
            },
            NicPhase::EnableBus => {
                self.phase = NicPhase::ReadMac;
            },
            NicPhase::ReadMac => {
                self.mac[self.index as usize] = value;
                if self.index < 5 {
                    self.index = self.index + 1;
                } else {
                    let m = self.mac;
                    let zero: bool = m[0] == 0 && m[1] == 0 && m[2] == 0 && m[3] == 0 && m[4] == 0
                        && m[5] == 0;
                    assert(zero == (self.mac@ =~= seq![0u8, 0, 0, 0, 0, 0]));
                    if zero {
                        self.error = RTL8169Error::InitFailed;
                        self.phase = NicPhase::Failed;
                    } else {
                        self.phase = NicPhase::Reset;
                    }
                }
            },
            NicPhase::Reset => {
                self.phase = NicPhase::WaitReset;
            },
            NicPhase::WaitReset => {
                if self.spins == 0 {
                    self.error = RTL8169Error::ResetFailed;
                    self.phase = NicPhase::Failed;
                } else if value & CR_RST != 0 {
                    self.spins = self.spins - 1;
                } else {
                    self.phase = NicPhase::Mask;
                }
            },
            NicPhase::Mask => {
                self.phase = NicPhase::Status;
            },
            NicPhase::Status => {
                self.phase = NicPhase::Enable;
            },
            NicPhase::Enable => {
                self.phase = NicPhase::Done;
            },
            _ => {},
        }
    }

    /// The device, or why there is none, once it is over.
    pub fn finish(&self, mtu: u16) -> (r: Option<Result<RTL8169Driver, RTL8169Error>>)
        ensures
            match self@.phase {
                NicPhase::Done => r matches Some(Ok(d)) && d.mtu == mtu && d.irq == self@.irq
                    && d.mac@ == self@.mac,
                NicPhase::Failed => r == Some(Err::<RTL8169Driver, RTL8169Error>(self@.error)),
                _ => r is None,
            },
    {
        match self.phase {
            NicPhase::Done => Some(Ok(RTL8169Driver { mtu, irq: self.irq, mac: self.mac })),
            NicPhase::Failed => Some(Err(self.error)),
            _ => None,
        }
    }
}

/// How many requests it takes at most to set a card up.
pub open spec fn nic_left(m: Nic) -> int {
    match m.phase {
        NicPhase::MapBar => m.spins + 20,
        NicPhase::EnableBus => m.spins + 19,
        NicPhase::ReadMac => m.spins + 18 - m.index,
        NicPhase::Reset => m.spins + 6,
        NicPhase::WaitReset => m.spins + 5,
        NicPhase::Mask => 3,
        NicPhase::Status => 2,
        NicPhase::Enable => 1,
        _ => 0,
    }
}

/// Whatever its registers hold, setting a card up comes to an end.
pub proof fn law_nic_setup_ends(m: Nic, value: u8)
    requires
        m.wf(),
        m.phase != NicPhase::Done && m.phase != NicPhase::Failed,
    ensures
        0 <= nic_left(m.after(value)) < nic_left(m),
{
}

} // verus!
