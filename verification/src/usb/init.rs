//! Resetting and starting the host controller.

use vstd::prelude::*;

use crate::usb::err::UsbError;
use crate::usb::walk::RegisterRequest;
use crate::usb::walk::POLL_LIMIT;

verus! {

/// Operational registers, from the end of the capability registers on.
pub const USBCMD: u64 = 0x00;

pub const USBSTS: u64 = 0x04;

pub const CRCR: u64 = 0x18;

pub const DCBAAP: u64 = 0x30;

pub const CONFIG: u64 = 0x38;

/// Registers of an interrupter.
pub const ERSTSZ: u64 = 0x08;

pub const ERSTBA: u64 = 0x10;

pub const ERDP: u64 = 0x18;

pub const USBCMD_RUN: u32 = 1;

pub const USBCMD_NOT_RUN: u32 = 0xffff_fffe;

pub const USBCMD_HCRST: u32 = 2;

/// Run, with interrupts.
pub const USBCMD_RUN_INTE: u32 = 5;

pub const USBSTS_HCH: u32 = 1;

pub const USBSTS_HSE: u32 = 4;

pub const USBSTS_CNR: u32 = 0x800;

/// How far the start has come.
#[derive(Clone, Copy, Debug, PartialEq, Eq, Structural)]
pub enum InitPhase {
    ReadCommand,
    Stop,
    WaitHalted,
    Reset,
    WaitReset,
    WaitReady,
    Slots,
    ContextArray,
    CommandRing,
    TableSize,
    TableBase,
    DequeuePointer,
    Run,
    WaitRunning,
    Done,
    Failed,
}

/// What the start needs to know.
#[derive(Clone, Copy, Debug, PartialEq, Eq, Structural)]
pub struct InitParams {
    /// Where the operational registers begin.
    pub op_offset: u64,
    /// Where the registers of the first interrupter begin.
    pub int_offset: u64,
    pub max_slots: u8,
    pub dcbaa: u64,
    pub command_ring: u64,
    pub event_table: u64,
    pub event_ring: u64,
}

/// A start of the controller.
#[derive(Clone, Copy)]
pub struct InitHost {
    pub params: InitParams,
    pub phase: InitPhase,
    pub command: u32,
    pub polls: u32,
    pub error: Option<UsbError>,
}

impl InitParams {
    /// Offsets stay far from overflow.
    pub open spec fn wf(self) -> bool {
        self.op_offset <= 0x2_0000_0000 && self.int_offset <= 0x2_0000_0000
    }
}

impl InitHost {
    pub open spec fn begin(params: InitParams) -> InitHost {
        InitHost { params, phase: InitPhase::ReadCommand, command: 0, polls: 0, error: None }
    }

    pub open spec fn enters(self, phase: InitPhase) -> InitHost {
        InitHost { phase, polls: 0, ..self }
    }

    /// A register that was read: on to `phase` once it shows what is waited for.
    pub open spec fn polled(
        self,
        ready: bool,
        phase: InitPhase,
        message: &'static str,
    ) -> InitHost {
        if ready {
            self.enters(phase)
        } else if self.polls < POLL_LIMIT {
            InitHost { polls: (self.polls + 1) as u32, ..self }
        } else {
            InitHost {
                phase: InitPhase::Failed,
                error: Some(UsbError::Timeout(message)),
                ..self
            }
        }
    }

    pub open spec fn request(self) -> RegisterRequest {
        let op = self.params.op_offset;
        let at = self.params.int_offset;
        match self.phase {
            InitPhase::ReadCommand => RegisterRequest::Read { offset: (op + USBCMD) as u64 },
            InitPhase::Stop => RegisterRequest::Write {
                offset: (op + USBCMD) as u64,
                value: self.command & USBCMD_NOT_RUN,
            },
            InitPhase::WaitHalted => RegisterRequest::Read { offset: (op + USBSTS) as u64 },
            InitPhase::Reset => RegisterRequest::Write {
                offset: (op + USBCMD) as u64,
                value: USBCMD_HCRST,
            },
            InitPhase::WaitReset => RegisterRequest::Read { offset: (op + USBCMD) as u64 },
            InitPhase::WaitReady => RegisterRequest::Read { offset: (op + USBSTS) as u64 },
            InitPhase::Slots => RegisterRequest::Write {
                offset: (op + CONFIG) as u64,
                value: self.params.max_slots as u32,
            },
            InitPhase::ContextArray => RegisterRequest::WriteWide {
                offset: (op + DCBAAP) as u64,
                address: self.params.dcbaa,
            },
            InitPhase::CommandRing => RegisterRequest::WriteWide {
                offset: (op + CRCR) as u64,
                address: self.params.command_ring | 1,
            },
            InitPhase::TableSize => RegisterRequest::Write {
                offset: (at + ERSTSZ) as u64,
                value: 1,
            },
            InitPhase::TableBase => RegisterRequest::WriteWide {
                offset: (at + ERSTBA) as u64,
                address: self.params.event_table,
            },
            InitPhase::DequeuePointer => RegisterRequest::WriteWide {
                offset: (at + ERDP) as u64,
                address: self.params.event_ring,
            },
            InitPhase::Run => RegisterRequest::Write {
                offset: (op + USBCMD) as u64,
                value: USBCMD_RUN_INTE,
            },
            InitPhase::WaitRunning => RegisterRequest::Read { offset: (op + USBSTS) as u64 },
            _ => RegisterRequest::Done,
        }
    }

    pub open spec fn after(self, value: u32) -> InitHost {
        match self.phase {
            InitPhase::ReadCommand => {
                let m = InitHost { command: value, ..self };
                if value & USBCMD_RUN != 0 {
                    m.enters(InitPhase::Stop)
                } else {
                    m.enters(InitPhase::Reset)
                }
            },
            InitPhase::Stop => self.enters(InitPhase::WaitHalted),
            InitPhase::WaitHalted => self.polled(
                value & USBSTS_HCH != 0,
                InitPhase::Reset,
                "init_host wait for HCH == 0",
            ),
            InitPhase::Reset => self.enters(InitPhase::WaitReset),
            InitPhase::WaitReset => self.polled(
                value & USBCMD_HCRST == 0,
                InitPhase::WaitReady,
                "init_host wait for HCRST to clear",
            ),
            InitPhase::WaitReady => self.polled(
                value & USBSTS_CNR == 0,
                InitPhase::Slots,
                "init_host wait for CNR == 0",
            ),
            InitPhase::Slots => self.enters(InitPhase::ContextArray),
            InitPhase::ContextArray => self.enters(InitPhase::CommandRing),
            InitPhase::CommandRing => self.enters(InitPhase::TableSize),
            InitPhase::TableSize => self.enters(InitPhase::TableBase),
            InitPhase::TableBase => self.enters(InitPhase::DequeuePointer),
            InitPhase::DequeuePointer => self.enters(InitPhase::Run),
            InitPhase::Run => self.enters(InitPhase::WaitRunning),
            InitPhase::WaitRunning => self.polled(
                value & USBSTS_HCH == 0,
                InitPhase::Done,
                "init_host wait for final RUN HCH == 0",
            ),
            _ => self,
        }
    }

    pub open spec fn wf(self) -> bool {
        self.params.wf() && self.polls <= POLL_LIMIT && (self.phase == InitPhase::Failed
            ==> self.error is Some)
    }

    /// Begins to start the controller.
    pub fn new(params: InitParams) -> (r: InitHost)
        requires
            params.wf(),
        ensures
            r == InitHost::begin(params),
            r.wf(),
    {
        InitHost { params, phase: InitPhase::ReadCommand, command: 0, polls: 0, error: None }
    }

    /// What is needed next.
    pub fn next_request(&self) -> (r: RegisterRequest)
        requires
            self.wf(),
        ensures
            r == self.request(),
    {
        let op: u64 = self.params.op_offset;
        let int_offset: u64 = self.params.int_offset;
        match self.phase {
            InitPhase::ReadCommand => RegisterRequest::Read { offset: op + USBCMD },
            InitPhase::Stop => RegisterRequest::Write {
                offset: op + USBCMD,
                value: self.command & USBCMD_NOT_RUN,
            },
            InitPhase::WaitHalted => RegisterRequest::Read { offset: op + USBSTS },
            InitPhase::Reset => RegisterRequest::Write {
                offset: op + USBCMD,
                value: USBCMD_HCRST,
            },
            InitPhase::WaitReset => RegisterRequest::Read { offset: op + USBCMD },
            InitPhase::WaitReady => RegisterRequest::Read { offset: op + USBSTS },
            InitPhase::Slots => RegisterRequest::Write {
                offset: op + CONFIG,
                value: self.params.max_slots as u32,
            },
            InitPhase::ContextArray => RegisterRequest::WriteWide {
                offset: op + DCBAAP,
                address: self.params.dcbaa,
            },
            InitPhase::CommandRing => RegisterRequest::WriteWide {
                offset: op + CRCR,
                address: self.params.command_ring | 1,
            },
            InitPhase::TableSize => RegisterRequest::Write {
                offset: int_offset + ERSTSZ,
                value: 1,
            },
            InitPhase::TableBase => RegisterRequest::WriteWide {
                offset: int_offset + ERSTBA,
                address: self.params.event_table,
            },
            InitPhase::DequeuePointer => RegisterRequest::WriteWide {
                offset: int_offset + ERDP,
                address: self.params.event_ring,
            },
            InitPhase::Run => RegisterRequest::Write {
                offset: op + USBCMD,
                value: USBCMD_RUN_INTE,
            },
            InitPhase::WaitRunning => RegisterRequest::Read { offset: op + USBSTS },
            _ => RegisterRequest::Done,
        }
    }

    fn enter(&mut self, phase: InitPhase)
        requires
            old(self).wf(),
            phase != InitPhase::Failed,
        ensures
            *final(self) == old(self).enters(phase),
            final(self).wf(),
    {
        self.phase = phase;
        self.polls = 0;
    }

    fn poll(&mut self, ready: bool, phase: InitPhase, message: &'static str)
        requires
            old(self).wf(),
            phase != InitPhase::Failed,
        ensures
            *final(self) == old(self).polled(ready, phase, message),
            final(self).wf(),
    {
        if ready {
            self.enter(phase);
        } else if self.polls < POLL_LIMIT {
            self.polls = self.polls + 1;
        } else {
            self.error = Some(UsbError::Timeout(message));
            self.phase = InitPhase::Failed;
        }
    }

    /// Takes the value that was read; anything where nothing was.
    pub fn feed(&mut self, value: u32)
        requires
            old(self).wf(),
        ensures
            *final(self) == old(self).after(value),
            final(self).wf(),
    {
        match self.phase {
            InitPhase::ReadCommand => {
                self.command = value;
                if value & USBCMD_RUN != 0 {
                    self.enter(InitPhase::Stop);
                } else {
                    self.enter(InitPhase::Reset);
                }
            },
            InitPhase::Stop => self.enter(InitPhase::WaitHalted),
            InitPhase::WaitHalted => self.poll(
                value & USBSTS_HCH != 0,
                InitPhase::Reset,
                "init_host wait for HCH == 0",
            ),
            InitPhase::Reset => self.enter(InitPhase::WaitReset),
            InitPhase::WaitReset => self.poll(
                value & USBCMD_HCRST == 0,
                InitPhase::WaitReady,
                "init_host wait for HCRST to clear",
            ),
            InitPhase::WaitReady => self.poll(
                value & USBSTS_CNR == 0,
                InitPhase::Slots,
                "init_host wait for CNR == 0",
            ),
            InitPhase::Slots => self.enter(InitPhase::ContextArray),
            InitPhase::ContextArray => self.enter(InitPhase::CommandRing),
            InitPhase::CommandRing => self.enter(InitPhase::TableSize),
            InitPhase::TableSize => self.enter(InitPhase::TableBase),
            InitPhase::TableBase => self.enter(InitPhase::DequeuePointer),
            InitPhase::DequeuePointer => self.enter(InitPhase::Run),
            InitPhase::Run => self.enter(InitPhase::WaitRunning),
            InitPhase::WaitRunning => self.poll(
                value & USBSTS_HCH == 0,
                InitPhase::Done,
                "init_host wait for final RUN HCH == 0",
            ),
            _ => {},
        }
    }

    /// Whether it worked, once it is over.
    pub fn outcome(&self) -> (r: Option<Result<(), UsbError>>)
        requires
            self.wf(),
        ensures
            r == (match self.phase {
                InitPhase::Done => Some(Ok(())),
                InitPhase::Failed => Some(Err(self.error->0)),
                _ => None::<Result<(), UsbError>>,
            }),
    {
        match self.phase {
            InitPhase::Done => Some(Ok(())),
            InitPhase::Failed => match self.error {
                Some(e) => Some(Err(e)),
                None => None,
            },
            _ => None,
        }
    }
}

/// How many register accesses it takes at most to start the controller.
pub open spec fn init_left(m: InitHost) -> int {
    let wait = POLL_LIMIT + 2;
    let polls = POLL_LIMIT - m.polls;
    match m.phase {
        InitPhase::ReadCommand => 4 * wait + 20,
        InitPhase::Stop => 4 * wait + 19,
        InitPhase::WaitHalted => 3 * wait + 18 + polls,
        InitPhase::Reset => 3 * wait + 17,
        InitPhase::WaitReset => 2 * wait + 16 + polls,
        InitPhase::WaitReady => wait + 15 + polls,
        InitPhase::Slots => wait + 14,
        InitPhase::ContextArray => wait + 13,
        InitPhase::CommandRing => wait + 12,
        InitPhase::TableSize => wait + 11,
        InitPhase::TableBase => wait + 10,
        InitPhase::DequeuePointer => wait + 9,
        InitPhase::Run => wait + 8,
        InitPhase::WaitRunning => 1 + polls,
        _ => 0,
    }
}

/// Whatever the registers hold, starting the controller comes to an end.
pub proof fn law_init_ends(m: InitHost, value: u32)
    requires
        m.wf(),
        m.phase != InitPhase::Done && m.phase != InitPhase::Failed,
    ensures
        0 <= init_left(m.after(value)) < init_left(m),
{
}

} // verus!
