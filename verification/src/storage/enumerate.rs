//! Bringing up an AHCI controller and looking for devices on its ports.

use vstd::prelude::*;

use crate::storage::ahci;
use crate::storage::ahci::RegRequest;

verus! {

/// What a port's signature says of the device behind it.
#[derive(Clone, Copy, PartialEq, Eq, Structural)]
pub enum AhciDevice {
    Sata,
    Satapi,
    EnclosureBridge,
    PortMultiplier,
    Unknown,
}

/// What a signature stands for.
pub open spec fn device_type(sig: u32) -> AhciDevice {
    if sig == 0x0000_0101 || sig == 0x0101_0101 {
        AhciDevice::Sata
    } else if sig == 0xeb14_0101 {
        AhciDevice::Satapi
    } else if sig == 0xc33c_0101 {
        AhciDevice::EnclosureBridge
    } else if sig == 0x9669_0101 {
        AhciDevice::PortMultiplier
    } else {
        AhciDevice::Unknown
    }
}

/// Reads a port's signature.
pub fn ahci_device_type(sig: u32) -> (r: AhciDevice)
    ensures
        r == device_type(sig),
{
    match sig {
        0x0000_0101 | 0x0101_0101 => AhciDevice::Sata,
        0xeb14_0101 => AhciDevice::Satapi,
        0xc33c_0101 => AhciDevice::EnclosureBridge,
        0x9669_0101 => AhciDevice::PortMultiplier,
        _ => AhciDevice::Unknown,
    }
}

/// The port whose disk is used.
pub const MODEL_DISK_PORT: u32 = 2;

/// Global host control.
pub const GHC: u32 = 1;

/// AHCI enable.
pub const GHC_ENABLE: u32 = 0x8000_0000;

/// Reset.
pub const GHC_RESET: u32 = 1;

/// Spin up and power on.
pub const CMD_SPIN_UP: u32 = 6;

/// How far bringing up the controller has come.
#[derive(Clone, Copy, PartialEq, Eq, Structural)]
pub enum EnumPhase {
    EnableRead,
    EnableWrite,
    ResetRead,
    ResetWrite,
    ResetPoll,
    ResetWait,
    ReenableRead,
    ReenableWrite,
    ReadPorts,
    Present,
    SpinRead,
    SpinWrite,
    Detect,
    DetectWait,
    ReceiveRead,
    ReceiveWrite,
    StartWrite,
    Signature,
    SignatureWait,
    /// A device was found on this port.
    Found,
    Done,
}

/// Bringing up the controller.
#[derive(Clone, Copy, PartialEq, Eq, Structural)]
pub struct EnumOp {
    pub phase: EnumPhase,
    pub value: u32,
    pub left: u32,
    pub ports: u32,
    pub port: u32,
    pub kind: AhciDevice,
}

/// Register `reg` of a port, counted from the controller's first register.
pub open spec fn port_reg(port: u32, reg: u32) -> u32 {
    (64 + 32 * port + reg) as u32
}

/// The first implemented port from `port` on, or 32.
pub open spec fn next_port(ports: u32, port: int) -> int
    decreases 32 - port,
{
    if port >= 32 || ports & (1u32 << (port as u32)) != 0 {
        port
    } else {
        next_port(ports, port + 1)
    }
}

impl EnumOp {
    pub open spec fn begin() -> EnumOp {
        EnumOp {
            phase: EnumPhase::EnableRead,
            value: 0,
            left: 0,
            ports: 0,
            port: 0,
            kind: AhciDevice::Unknown,
        }
    }

    pub open spec fn with_phase(self, phase: EnumPhase) -> EnumOp {
        EnumOp { phase, ..self }
    }

    /// On to the next implemented port from `port` on.
    pub open spec fn at_port(self, port: int) -> EnumOp {
        let next = next_port(self.ports, port);
        EnumOp {
            port: next as u32,
            phase: if next < 32 {
                EnumPhase::Present
            } else {
                EnumPhase::Done
            },
            ..self
        }
    }

    pub open spec fn request(self) -> RegRequest {
        match self.phase {
            EnumPhase::EnableRead => RegRequest::Read { reg: GHC },
            EnumPhase::EnableWrite => RegRequest::Write {
                reg: GHC,
                value: self.value | GHC_ENABLE,
            },
            EnumPhase::ResetRead => RegRequest::Read { reg: GHC },
            EnumPhase::ResetWrite => RegRequest::Write {
                reg: GHC,
                value: self.value | GHC_RESET,
            },
            EnumPhase::ResetPoll => RegRequest::Read { reg: GHC },
            EnumPhase::ResetWait => RegRequest::Delay { us: 1000 },
            EnumPhase::ReenableRead => RegRequest::Read { reg: GHC },
            EnumPhase::ReenableWrite => RegRequest::Write {
                reg: GHC,
                value: self.value | GHC_ENABLE,
            },
            EnumPhase::ReadPorts => RegRequest::Read { reg: 3 },
            EnumPhase::Present => RegRequest::Read { reg: port_reg(self.port, ahci::PX_SSTS) },
            EnumPhase::SpinRead => RegRequest::Read { reg: port_reg(self.port, ahci::PX_CMD) },
            EnumPhase::SpinWrite => RegRequest::Write {
                reg: port_reg(self.port, ahci::PX_CMD),
                value: self.value | CMD_SPIN_UP,
            },
            EnumPhase::Detect => RegRequest::Read { reg: port_reg(self.port, ahci::PX_SSTS) },
            EnumPhase::DetectWait => RegRequest::Delay { us: 1000 },
            EnumPhase::ReceiveRead => RegRequest::Read { reg: port_reg(self.port, ahci::PX_CMD) },
            EnumPhase::ReceiveWrite => RegRequest::Write {
                reg: port_reg(self.port, ahci::PX_CMD),
                value: self.value | ahci::CMD_FIS_RECEIVE,
            },
            EnumPhase::StartWrite => RegRequest::Write {
                reg: port_reg(self.port, ahci::PX_CMD),
                value: (self.value | ahci::CMD_FIS_RECEIVE) | ahci::CMD_START,
            },
            EnumPhase::Signature => RegRequest::Read { reg: port_reg(self.port, ahci::PX_SIG) },
            EnumPhase::SignatureWait => RegRequest::Delay { us: 1000 },
            _ => RegRequest::Done,
        }
    }

    /// What the value that was read makes of it; where a device was found, or a register
    /// was written or waited for, what it does next.
    pub open spec fn after(self, value: u32) -> EnumOp {
        match self.phase {
            EnumPhase::EnableRead => EnumOp { value, phase: EnumPhase::EnableWrite, ..self },
            EnumPhase::EnableWrite => self.with_phase(EnumPhase::ResetRead),
            EnumPhase::ResetRead => EnumOp { value, phase: EnumPhase::ResetWrite, ..self },
            EnumPhase::ResetWrite => EnumOp { left: 1000, phase: EnumPhase::ResetPoll, ..self },
            EnumPhase::ResetPoll => if value & GHC_RESET == 0 {
                self.with_phase(EnumPhase::ReenableRead)
            } else {
                self.with_phase(EnumPhase::ResetWait)
            },
            EnumPhase::ResetWait => if self.left > 1 {
                EnumOp { left: (self.left - 1) as u32, phase: EnumPhase::ResetPoll, ..self }
            } else {
                self.with_phase(EnumPhase::ReenableRead)
            },
            EnumPhase::ReenableRead => EnumOp { value, phase: EnumPhase::ReenableWrite, ..self },
            EnumPhase::ReenableWrite => self.with_phase(EnumPhase::ReadPorts),
            EnumPhase::ReadPorts => EnumOp { ports: value, ..self }.at_port(0),
            EnumPhase::Present => if value % 16 == 0 {
                self.at_port(self.port + 1)
            } else {
                self.with_phase(EnumPhase::SpinRead)
            },
            EnumPhase::SpinRead => EnumOp { value, phase: EnumPhase::SpinWrite, ..self },
            EnumPhase::SpinWrite => EnumOp { left: 100, phase: EnumPhase::Detect, ..self },
            EnumPhase::Detect => if value % 16 == 3 {
                self.with_phase(EnumPhase::ReceiveRead)
            } else if self.left > 0 {
                EnumOp { left: (self.left - 1) as u32, phase: EnumPhase::DetectWait, ..self }
            } else {
                self.at_port(self.port + 1)
            },
            EnumPhase::DetectWait => self.with_phase(EnumPhase::Detect),
            EnumPhase::ReceiveRead => EnumOp { value, phase: EnumPhase::ReceiveWrite, ..self },
            EnumPhase::ReceiveWrite => self.with_phase(EnumPhase::StartWrite),
            EnumPhase::StartWrite => EnumOp { left: 500, phase: EnumPhase::Signature, ..self },
            EnumPhase::Signature => if device_type(value) != AhciDevice::Unknown || self.left == 0 {
                EnumOp { kind: device_type(value), phase: EnumPhase::Found, ..self }
            } else {
                EnumOp { left: (self.left - 1) as u32, phase: EnumPhase::SignatureWait, ..self }
            },
            EnumPhase::SignatureWait => self.with_phase(EnumPhase::Signature),
            EnumPhase::Found => self.at_port(self.port + 1),
            EnumPhase::Done => self,
        }
    }

    /// Ports are numbered below 32.
    pub open spec fn wf(self) -> bool {
        self.port <= 32 && (self.phase != EnumPhase::Done ==> self.port < 32)
    }
}

/// Begins to bring up a controller.
pub fn enumerate_controller() -> (r: EnumOp)
    ensures
        r == EnumOp::begin(),
        r.wf(),
{
    EnumOp {
        phase: EnumPhase::EnableRead,
        value: 0,
        left: 0,
        ports: 0,
        port: 0,
        kind: AhciDevice::Unknown,
    }
}

impl EnumOp {
    fn seek(&mut self, from: u32)
        requires
            from <= 32,
        ensures
            *final(self) == old(self).at_port(from as int),
            final(self).wf(),
    {
        let ports: u32 = self.ports;
        let mut i: u32 = from;
        while i < 32 && ports & (1u32 << i) == 0
            invariant
                i <= 32,
                next_port(ports, i as int) == next_port(ports, from as int),
            decreases 32 - i,
        {
            i += 1;
        }
        self.port = i;
        self.phase = if i < 32 {
            EnumPhase::Present
        } else {
            EnumPhase::Done
        };
    }

    /// What is needed next.
    pub fn next_request(&self) -> (r: RegRequest)
        requires
            self.wf(),
        ensures
            r == self.request(),
    {
        let base: u32 = 64 + 32 * self.port;
        match self.phase {
            EnumPhase::EnableRead => RegRequest::Read { reg: GHC },
            EnumPhase::EnableWrite => RegRequest::Write {
                reg: GHC,
                value: self.value | GHC_ENABLE,
            },
            EnumPhase::ResetRead => RegRequest::Read { reg: GHC },
            EnumPhase::ResetWrite => RegRequest::Write {
                reg: GHC,
                value: self.value | GHC_RESET,
            },
            EnumPhase::ResetPoll => RegRequest::Read { reg: GHC },
            EnumPhase::ResetWait => RegRequest::Delay { us: 1000 },
            EnumPhase::ReenableRead => RegRequest::Read { reg: GHC },
            EnumPhase::ReenableWrite => RegRequest::Write {
                reg: GHC,
                value: self.value | GHC_ENABLE,
            },
            EnumPhase::ReadPorts => RegRequest::Read { reg: 3 },
            EnumPhase::Present => RegRequest::Read { reg: base + ahci::PX_SSTS },
            EnumPhase::SpinRead => RegRequest::Read { reg: base + ahci::PX_CMD },
            EnumPhase::SpinWrite => RegRequest::Write {
                reg: base + ahci::PX_CMD,
                value: self.value | CMD_SPIN_UP,
            },
            EnumPhase::Detect => RegRequest::Read { reg: base + ahci::PX_SSTS },
            EnumPhase::DetectWait => RegRequest::Delay { us: 1000 },
            EnumPhase::ReceiveRead => RegRequest::Read { reg: base + ahci::PX_CMD },
            EnumPhase::ReceiveWrite => RegRequest::Write {
                reg: base + ahci::PX_CMD,
                value: self.value | ahci::CMD_FIS_RECEIVE,
            },
            EnumPhase::StartWrite => RegRequest::Write {
                reg: base + ahci::PX_CMD,
                value: (self.value | ahci::CMD_FIS_RECEIVE) | ahci::CMD_START,
            },
            EnumPhase::Signature => RegRequest::Read { reg: base + ahci::PX_SIG },
            EnumPhase::SignatureWait => RegRequest::Delay { us: 1000 },
            _ => RegRequest::Done,
        }
    }

    /// Takes the value that was read; anything where nothing was.
    pub fn feed(&mut self, value: u32)
        requires
            old(self).wf(),
        ensures
            *final(self) == old(self).after(value),
            final(self).wf(),
    {
        match self.phase {
            EnumPhase::EnableRead => {
                self.value = value;
                self.phase = EnumPhase::EnableWrite;
            },
            EnumPhase::EnableWrite => {
                self.phase = EnumPhase::ResetRead;
            },
            EnumPhase::ResetRead => {
                self.value = value;
                self.phase = EnumPhase::ResetWrite;
            },
            EnumPhase::ResetWrite => {
                self.left = 1000;
                self.phase = EnumPhase::ResetPoll;
            },
            EnumPhase::ResetPoll => {
                self.phase = if value & GHC_RESET == 0 {
                    EnumPhase::ReenableRead
                } else {
                    EnumPhase::ResetWait
                };
            },
            EnumPhase::ResetWait => {
                if self.left > 1 {
                    self.left = self.left - 1;
                    self.phase = EnumPhase::ResetPoll;
                } else {
                    self.phase = EnumPhase::ReenableRead;
                }
            },
            EnumPhase::ReenableRead => {
                self.value = value;
                self.phase = EnumPhase::ReenableWrite;
            },
            EnumPhase::ReenableWrite => {
                self.phase = EnumPhase::ReadPorts;
            },
            EnumPhase::ReadPorts => {
                self.ports = value;
                self.seek(0);
            },
            EnumPhase::Present => {
                if value % 16 == 0 {
                    self.seek(self.port + 1);
                } else {
                    self.phase = EnumPhase::SpinRead;
                }
            },
            EnumPhase::SpinRead => {
                self.value = value;
                self.phase = EnumPhase::SpinWrite;
            },
            EnumPhase::SpinWrite => {
                self.left = 100;
                self.phase = EnumPhase::Detect;
            },
            EnumPhase::Detect => {
                if value % 16 == 3 {
                    self.phase = EnumPhase::ReceiveRead;
                } else if self.left > 0 {
                    self.left = self.left - 1;
                    self.phase = EnumPhase::DetectWait;
                } else {
                    self.seek(self.port + 1);
                }
            },
            EnumPhase::DetectWait => {
                self.phase = EnumPhase::Detect;
            },
            EnumPhase::ReceiveRead => {
                self.value = value;
                self.phase = EnumPhase::ReceiveWrite;
            },
            EnumPhase::ReceiveWrite => {
                self.phase = EnumPhase::StartWrite;
            },
            EnumPhase::StartWrite => {
                self.left = 500;
                self.phase = EnumPhase::Signature;
            },
            EnumPhase::Signature => {
                let kind = ahci_device_type(value);
                let known = match kind {
                    AhciDevice::Unknown => false,
                    _ => true,
                };
                if known || self.left == 0 {
                    self.kind = kind;
                    self.phase = EnumPhase::Found;
                } else {
                    self.left = self.left - 1;
                    self.phase = EnumPhase::SignatureWait;
                }
            },
            EnumPhase::SignatureWait => {
                self.phase = EnumPhase::Signature;
            },
            EnumPhase::Found => self.seek(self.port + 1),
            EnumPhase::Done => {},
        }
    }

    /// The port and the device on it, where one was just found.
    pub fn found(&self) -> (r: Option<(u32, AhciDevice)>)
        ensures
            r == (if self.phase == EnumPhase::Found {
                Some((self.port, self.kind))
            } else {
                None::<(u32, AhciDevice)>
            }),
    {
        match self.phase {
            EnumPhase::Found => Some((self.port, self.kind)),
            _ => None,
        }
    }

    /// Whether the disk that was just found is the one that is used.
    pub fn is_model_disk(&self) -> (r: bool)
        ensures
            r == (self.phase == EnumPhase::Found && self.kind == AhciDevice::Sata && self.port
                == MODEL_DISK_PORT),
            r ==> self.port == 2,
            !r && self.phase == EnumPhase::Found && self.kind == AhciDevice::Sata ==> self.port
                != 2,
    {
        match (self.phase, self.kind) {
            (EnumPhase::Found, AhciDevice::Sata) => self.port == MODEL_DISK_PORT,
            _ => false,
        }
    }
}

/// Ports are looked at in order: whatever a port answers, the search never goes back to a
/// lower one.
pub proof fn law_ports_in_order(m: EnumOp, value: u32)
    requires
        m.wf(),
        m.phase != EnumPhase::ReadPorts,
    ensures
        m.after(value).port >= m.port,
        m.after(value).phase == EnumPhase::Present ==> m.after(value).port > m.port && m.ports & (
        1u32 << m.after(value).port) != 0,
{
    if m.port < 32 {
        lemma_next_port(m.ports, m.port + 1);
    }
}

proof fn lemma_next_port(ports: u32, port: int)
    requires
        0 <= port <= 32,
    ensures
        port <= next_port(ports, port) <= 32,
        next_port(ports, port) < 32 ==> ports & (1u32 << (next_port(ports, port) as u32)) != 0,
    decreases 32 - port,
{
    if port < 32 && ports & (1u32 << (port as u32)) == 0 {
        lemma_next_port(ports, port + 1);
    }
}

/// How many requests it takes at most to look at all ports.
pub open spec fn enumeration_left(m: EnumOp) -> int {
    let ports = (32 - m.port) * 3000;
    match m.phase {
        EnumPhase::EnableRead => 110_003,
        EnumPhase::EnableWrite => 110_002,
        EnumPhase::ResetRead => 110_001,
        EnumPhase::ResetWrite => 110_000,
        EnumPhase::ResetPoll => 100_010 + 2 * m.left + 1,
        EnumPhase::ResetWait => 100_010 + 2 * m.left,
        EnumPhase::ReenableRead => 100_003,
        EnumPhase::ReenableWrite => 100_002,
        EnumPhase::ReadPorts => 100_001,
        EnumPhase::Present => ports + 2400,
        EnumPhase::SpinRead => ports + 2399,
        EnumPhase::SpinWrite => ports + 2398,
        EnumPhase::Detect => ports + 2000 + 2 * m.left + 1,
        EnumPhase::DetectWait => ports + 2000 + 2 * m.left + 2,
        EnumPhase::ReceiveRead => ports + 1900,
        EnumPhase::ReceiveWrite => ports + 1899,
        EnumPhase::StartWrite => ports + 1898,
        EnumPhase::Signature => ports + 2 * m.left + 3,
        EnumPhase::SignatureWait => ports + 2 * m.left + 4,
        EnumPhase::Found => ports + 1,
        EnumPhase::Done => 0,
    }
}

/// Whatever the registers hold, looking at the ports comes to an end.
pub proof fn law_enumeration_ends(m: EnumOp, value: u32)
    requires
        m.wf(),
        m.phase != EnumPhase::Done,
    ensures
        0 <= enumeration_left(m.after(value)) < enumeration_left(m),
{
    if m.phase == EnumPhase::ReadPorts {
        lemma_next_port(value, 0);
    } else {
        lemma_next_port(m.ports, m.port + 1);
    }
}

} // verus!
