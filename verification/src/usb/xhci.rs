//! The host controller: how it is brought up, and what is known of it.

use vstd::prelude::*;

use crate::usb::err::UsbError;
use crate::usb::init;
use crate::usb::init::InitHost;
use crate::usb::init::InitParams;
use crate::usb::init::InitPhase;
use crate::usb::trb::PendingEvents;
use crate::usb::walk;
use crate::usb::walk::CapabilityWalk;
use crate::usb::walk::RegisterRequest;
use crate::usb::walk::SupportedProtocol;
use crate::usb::walk::Walk;
use crate::usb::walk::WalkPhase;
use crate::usb::walk::MMIO_INIT_SIZE;

verus! {

pub const CMD_RING_SIZE: u64 = 256;

pub const EVENT_RING_SIZE: u64 = 256;

/// Capability registers.
pub const HCSPARAMS1: u64 = 0x04;

pub const HCSPARAMS2: u64 = 0x08;

pub const HCCPARAMS1: u64 = 0x10;

pub const DBOFF: u64 = 0x14;

pub const RTSOFF: u64 = 0x18;

/// The alignment of the tables that the controller reads.
pub const TABLE_ALIGN: u64 = 64;

/// Where the registers of the first interrupter are, from the runtime registers on.
pub const FIRST_INTERRUPTER: u32 = 0x20;

/// An initialized host controller.
pub struct XhciCtrl {
    pub mmio_size: u64,
    pub cap_length: u8,
    pub rts_offset: u32,
    pub db_offset: u32,
    pub max_slots: u8,
    pub max_ports: u8,
    pub supported_protocols: Vec<SupportedProtocol>,
    pub pending_events: PendingEvents,
}

/// Whether a protocol covers a port, counted from one.
pub open spec fn covers(p: SupportedProtocol, root_port: int) -> bool {
    p.compatible_port_offset <= root_port && root_port < p.compatible_port_offset
        + p.compatible_port_count && root_port < 255
}

/// The slot type of a port: that of the first protocol from `from` on that covers it.
pub open spec fn slot_type_of(protocols: Seq<SupportedProtocol>, root_port: int, from: int) -> u8
    decreases protocols.len() - from,
{
    if from >= protocols.len() {
        0
    } else if covers(protocols[from], root_port) {
        protocols[from].slot_type
    } else {
        slot_type_of(protocols, root_port, from + 1)
    }
}

impl XhciCtrl {
    /// The slot type for a port, counted from zero.
    pub fn slot_type_for_port(&self, port: u8) -> (r: u8)
        requires
            port < 255,
        ensures
            r == slot_type_of(self.supported_protocols@, port + 1, 0),
    {
        let root_port: u8 = port + 1;
        let mut i: usize = 0;
        while i < self.supported_protocols.len()
            invariant
                i <= self.supported_protocols.len(),
                root_port == port + 1,
                slot_type_of(self.supported_protocols@, port + 1, 0) == slot_type_of(
                    self.supported_protocols@,
                    port + 1,
                    i as int,
                ),
            decreases self.supported_protocols.len() - i,
        {
            let p = self.supported_protocols[i];
            let first: u8 = p.compatible_port_offset;
            let last: u8 = if p.compatible_port_count > 255 - first {
                255
            } else {
                first + p.compatible_port_count
            };
            if root_port >= first && root_port < last {
                return p.slot_type;
            }
            i = i + 1;
        }
        0
    }

    /// Where an operational register is.
    pub fn op_register(&self, register: u64) -> (r: u64)
        requires
            register <= 0x1000,
        ensures
            r == self.cap_length + register,
    {
        self.cap_length as u64 + register
    }

    /// Where the doorbell of a slot is; that of commands is the first.
    pub fn doorbell(&self, slot: u8) -> (r: u64)
        ensures
            r == self.db_offset + slot * 4,
    {
        self.db_offset as u64 + slot as u64 * 4
    }

    /// Where the dequeue pointer of the event ring is set, and to what.
    pub fn update_erdp(&self, dequeue: u64) -> (r: (u64, u64))
        ensures
            r.0 == self.rts_offset + FIRST_INTERRUPTER + init::ERDP,
            r.1 == dequeue | 8,
    {
        (self.rts_offset as u64 + FIRST_INTERRUPTER as u64 + init::ERDP, dequeue | 8)
    }

    /// How many slots there are.
    pub fn max_slots(&self) -> (r: u8)
        ensures
            r == self.max_slots,
    {
        self.max_slots
    }

    /// How many ports there are.
    pub fn max_ports(&self) -> (r: u8)
        ensures
            r == self.max_ports,
    {
        self.max_ports
    }
}

/// The most scratchpad buffers that a controller can ask for.
pub const MAX_SCRATCHPAD: u64 = 1023;

/// A table in memory that the controller reads.
#[derive(Clone, Copy, Debug, PartialEq, Eq, Structural)]
pub enum HostTable {
    /// The device contexts.
    Contexts,
    /// The scratchpad buffers.
    Scratchpad,
}

/// What bringing the controller up asks for.
#[derive(Clone, Copy, Debug, PartialEq, Eq, Structural)]
pub enum HostRequest {
    MapMmio { size: u64 },
    UnmapMmio { size: u64 },
    /// A register of one byte.
    ReadByte { offset: u64 },
    Registers(RegisterRequest),
    Allocate { size: u64, align: u64 },
    SetEntry { table: HostTable, index: u64, value: u64 },
    CommandRing { entries: u64 },
    EventRing { entries: u64 },
    Done,
}

/// What it is answered.
#[derive(Clone, Copy)]
pub enum HostReply {
    /// Whether registers could be mapped.
    Mapped(bool),
    /// What a register holds.
    Value(u32),
    /// Where memory, or the command ring, is.
    Memory(Result<u64, UsbError>),
    /// Where the table of the event ring and the ring are.
    EventRing(Result<(u64, u64), UsbError>),
    /// It was done.
    Acknowledged,
}

impl HostReply {
    pub open spec fn mapped_of(self) -> bool {
        match self {
            HostReply::Mapped(m) => m,
            _ => false,
        }
    }

    pub open spec fn value_of(self) -> u32 {
        match self {
            HostReply::Value(v) => v,
            _ => 0,
        }
    }

    pub open spec fn memory_of(self) -> Result<u64, UsbError> {
        match self {
            HostReply::Memory(m) => m,
            _ => Err(UsbError::OoRam),
        }
    }

    pub open spec fn ring_of(self) -> Result<(u64, u64), UsbError> {
        match self {
            HostReply::EventRing(m) => m,
            _ => Err(UsbError::OoRam),
        }
    }

    fn mapped(&self) -> (r: bool)
        ensures
            r == self.mapped_of(),
    {
        match self {
            HostReply::Mapped(m) => *m,
            _ => false,
        }
    }

    fn value(&self) -> (r: u32)
        ensures
            r == self.value_of(),
    {
        match self {
            HostReply::Value(v) => *v,
            _ => 0,
        }
    }

    fn memory(&self) -> (r: Result<u64, UsbError>)
        ensures
            r == self.memory_of(),
    {
        match self {
            HostReply::Memory(m) => *m,
            _ => Err(UsbError::OoRam),
        }
    }

    fn ring(&self) -> (r: Result<(u64, u64), UsbError>)
        ensures
            r == self.ring_of(),
    {
        match self {
            HostReply::EventRing(m) => *m,
            _ => Err(UsbError::OoRam),
        }
    }
}

/// How far bringing the controller up has come.
#[derive(Clone, Copy, Debug, PartialEq, Eq, Structural)]
pub enum HostPhase {
    MapFirst,
    CapLength,
    Structural1,
    Structural2,
    Doorbells,
    Runtime,
    Capability1,
    Walk,
    Unmap,
    MapFull,
    Contexts,
    PadArray,
    PadBuffers,
    PadEntry,
    PadPointer,
    CommandRing,
    EventRing,
    Init,
    Done,
    Failed,
}

/// What is known of the controller while it is brought up.
#[derive(Clone, Copy, Debug, PartialEq, Eq, Structural)]
pub struct HostParams {
    pub page_size: u64,
    pub cap_length: u8,
    pub hcs1: u32,
    pub hcs2: u32,
    pub db_offset: u32,
    pub rts_offset: u32,
    pub dcbaa: u64,
    pub pad_array: u64,
    pub pad_buffers: u64,
    pub command_ring: u64,
}

impl HostParams {
    pub open spec fn slots(self) -> int {
        self.hcs1 as int % 256
    }

    pub open spec fn ports(self) -> int {
        self.hcs1 as int / 0x100_0000
    }

    /// How many scratchpad buffers the controller wants.
    pub open spec fn pads(self) -> int {
        self.hcs2 as int / 0x800_0000 + self.hcs2 as int / 0x20_0000 % 32 * 32
    }

    /// How many bytes of registers there are.
    pub open spec fn register_bytes(self) -> int {
        let a = self.rts_offset + 0x40;
        let b = self.db_offset + (self.slots() + 1) * 4;
        let m = if a < b {
            b
        } else {
            a
        };
        if m < 0x10000 {
            0x10000
        } else {
            m
        }
    }

    /// What the start of the controller needs to know, with its event ring.
    pub open spec fn init_params(self, event_table: u64, event_ring: u64) -> InitParams {
        InitParams {
            op_offset: self.cap_length as u64,
            int_offset: (self.rts_offset + FIRST_INTERRUPTER) as u64,
            max_slots: self.slots() as u8,
            dcbaa: self.dcbaa,
            command_ring: self.command_ring,
            event_table,
            event_ring,
        }
    }

    fn max_slots(&self) -> (r: u64)
        ensures
            r == self.slots(),
            r <= 255,
    {
        (self.hcs1 % 256) as u64
    }

    fn max_scratchpad(&self) -> (r: u64)
        ensures
            r == self.pads(),
            r <= 1023,
    {
        (self.hcs2 / 0x800_0000) as u64 + (self.hcs2 / 0x20_0000 % 32) as u64 * 32
    }

    fn mmio_size(&self) -> (r: u64)
        ensures
            r == self.register_bytes(),
    {
        let a: u64 = self.rts_offset as u64 + 0x40;
        let b: u64 = self.db_offset as u64 + (self.max_slots() + 1) * 4;
        let m: u64 = if a < b {
            b
        } else {
            a
        };
        if m < 0x10000 {
            0x10000
        } else {
            m
        }
    }
}

/// A controller that is brought up.
pub struct NewController {
    pub params: HostParams,
    pub phase: HostPhase,
    pub walk: CapabilityWalk,
    pub pad: u64,
    pub init: InitHost,
    pub error: Option<UsbError>,
}

/// A controller that is brought up, over sequences.
pub struct HostSetup {
    pub params: HostParams,
    pub phase: HostPhase,
    pub walk: Walk,
    pub pad: int,
    pub init: InitHost,
    pub error: Option<UsbError>,
}

impl View for NewController {
    type V = HostSetup;

    open spec fn view(&self) -> HostSetup {
        HostSetup {
            params: self.params,
            phase: self.phase,
            walk: self.walk@,
            pad: self.pad as int,
            init: self.init,
            error: self.error,
        }
    }
}

impl HostSetup {
    /// About to map the first registers; nothing is known yet.
    pub open spec fn begin(page_size: u64) -> HostSetup {
        HostSetup {
            params: HostParams {
                page_size,
                cap_length: 0,
                hcs1: 0,
                hcs2: 0,
                db_offset: 0,
                rts_offset: 0,
                dcbaa: 0,
                pad_array: 0,
                pad_buffers: 0,
                command_ring: 0,
            },
            phase: HostPhase::MapFirst,
            walk: Walk::begin(0),
            pad: 0,
            init: InitHost::begin(
                InitParams {
                    op_offset: 0,
                    int_offset: 0,
                    max_slots: 0,
                    dcbaa: 0,
                    command_ring: 0,
                    event_table: 0,
                    event_ring: 0,
                },
            ),
            error: None,
        }
    }

    pub open spec fn enters(self, phase: HostPhase) -> HostSetup {
        HostSetup { phase, ..self }
    }

    pub open spec fn fails(self, error: UsbError) -> HostSetup {
        HostSetup { phase: HostPhase::Failed, error: Some(error), ..self }
    }

    pub open spec fn with_params(self, params: HostParams) -> HostSetup {
        HostSetup { params, ..self }
    }

    /// Looking at the capabilities, or done with it.
    pub open spec fn with_walk(self, walk: Walk) -> HostSetup {
        HostSetup {
            walk,
            phase: if walk.phase == WalkPhase::Done {
                HostPhase::Unmap
            } else {
                HostPhase::Walk
            },
            ..self
        }
    }

    /// Starting the controller, or what came of it.
    pub open spec fn with_init(self, i: InitHost) -> HostSetup {
        HostSetup {
            init: i,
            phase: match i.phase {
                InitPhase::Done => HostPhase::Done,
                InitPhase::Failed => HostPhase::Failed,
                _ => HostPhase::Init,
            },
            error: if i.phase == InitPhase::Failed {
                i.error
            } else {
                self.error
            },
            ..self
        }
    }

    pub open spec fn request(self) -> HostRequest {
        let p = self.params;
        match self.phase {
            HostPhase::MapFirst => HostRequest::MapMmio { size: MMIO_INIT_SIZE },
            HostPhase::CapLength => HostRequest::ReadByte { offset: 0 },
            HostPhase::Structural1 => HostRequest::Registers(
                RegisterRequest::Read { offset: HCSPARAMS1 },
            ),
            HostPhase::Structural2 => HostRequest::Registers(
                RegisterRequest::Read { offset: HCSPARAMS2 },
            ),
            HostPhase::Doorbells => HostRequest::Registers(RegisterRequest::Read { offset: DBOFF }),
            HostPhase::Runtime => HostRequest::Registers(RegisterRequest::Read { offset: RTSOFF }),
            HostPhase::Capability1 => HostRequest::Registers(
                RegisterRequest::Read { offset: HCCPARAMS1 },
            ),
            HostPhase::Walk => HostRequest::Registers(self.walk.request()),
            HostPhase::Unmap => HostRequest::UnmapMmio { size: MMIO_INIT_SIZE },
            HostPhase::MapFull => HostRequest::MapMmio { size: p.register_bytes() as u64 },
            HostPhase::Contexts => HostRequest::Allocate {
                size: ((p.slots() + 1) * 8) as u64,
                align: TABLE_ALIGN,
            },
            HostPhase::PadArray => HostRequest::Allocate {
                size: (p.pads() * 8) as u64,
                align: TABLE_ALIGN,
            },
            HostPhase::PadBuffers => HostRequest::Allocate {
                size: (p.pads() * p.page_size) as u64,
                align: p.page_size,
            },
            HostPhase::PadEntry => HostRequest::SetEntry {
                table: HostTable::Scratchpad,
                index: self.pad as u64,
                value: (p.pad_buffers + self.pad * p.page_size) as u64,
            },
            HostPhase::PadPointer => HostRequest::SetEntry {
                table: HostTable::Contexts,
                index: 0,
                value: p.pad_array,
            },
            HostPhase::CommandRing => HostRequest::CommandRing { entries: CMD_RING_SIZE },
            HostPhase::EventRing => HostRequest::EventRing { entries: EVENT_RING_SIZE },
            HostPhase::Init => HostRequest::Registers(self.init.request()),
            _ => HostRequest::Done,
        }
    }

    pub open spec fn after(self, reply: HostReply) -> HostSetup {
        let p = self.params;
        match self.phase {
            HostPhase::MapFirst => if reply.mapped_of() {
                self.enters(HostPhase::CapLength)
            } else {
                self.fails(UsbError::MapFail)
            },
            HostPhase::CapLength => self.with_params(
                HostParams { cap_length: (reply.value_of() % 256) as u8, ..p },
            ).enters(HostPhase::Structural1),
            HostPhase::Structural1 => self.with_params(
                HostParams { hcs1: reply.value_of(), ..p },
            ).enters(HostPhase::Structural2),
            HostPhase::Structural2 => self.with_params(
                HostParams { hcs2: reply.value_of(), ..p },
            ).enters(HostPhase::Doorbells),
            HostPhase::Doorbells => self.with_params(
                HostParams { db_offset: reply.value_of(), ..p },
            ).enters(HostPhase::Runtime),
            HostPhase::Runtime => self.with_params(
                HostParams { rts_offset: reply.value_of(), ..p },
            ).enters(HostPhase::Capability1),
            HostPhase::Capability1 => self.with_walk(
                Walk::begin(reply.value_of() as int / 0x1_0000 * 4),
            ),
            HostPhase::Walk => self.with_walk(self.walk.after(reply.value_of())),
            HostPhase::Unmap => self.enters(HostPhase::MapFull),
            HostPhase::MapFull => if reply.mapped_of() {
                self.enters(HostPhase::Contexts)
            } else {
                self.fails(UsbError::MapFail)
            },
            HostPhase::Contexts => match reply.memory_of() {
                Ok(dcbaa) => self.with_params(HostParams { dcbaa, ..p }).enters(
                    if p.pads() > 0 {
                        HostPhase::PadArray
                    } else {
                        HostPhase::CommandRing
                    },
                ),
                Err(e) => self.fails(e),
            },
            HostPhase::PadArray => match reply.memory_of() {
                Ok(pad_array) => self.with_params(HostParams { pad_array, ..p }).enters(
                    HostPhase::PadBuffers,
                ),
                Err(e) => self.fails(e),
            },
            HostPhase::PadBuffers => match reply.memory_of() {
                Ok(pad_buffers) => HostSetup {
                    pad: 0,
                    ..self.with_params(HostParams { pad_buffers, ..p })
                }.enters(HostPhase::PadEntry),
                Err(e) => self.fails(e),
            },
            HostPhase::PadEntry => if self.pad + 1 < p.pads() {
                HostSetup { pad: self.pad + 1, ..self }
            } else {
                self.enters(HostPhase::PadPointer)
            },
            HostPhase::PadPointer => self.enters(HostPhase::CommandRing),
            HostPhase::CommandRing => match reply.memory_of() {
                Ok(command_ring) => self.with_params(HostParams { command_ring, ..p }).enters(
                    HostPhase::EventRing,
                ),
                Err(e) => self.fails(e),
            },
            HostPhase::EventRing => match reply.ring_of() {
                Ok(ring) => self.with_init(InitHost::begin(p.init_params(ring.0, ring.1))),
                Err(e) => self.fails(e),
            },
            HostPhase::Init => self.with_init(self.init.after(reply.value_of())),
            _ => self,
        }
    }

    /// What holds in each phase.
    pub open spec fn wf(self) -> bool {
        &&& MAX_SCRATCHPAD * self.params.page_size <= u64::MAX
        &&& self.phase == HostPhase::Walk ==> self.walk.wf() && self.walk.phase != WalkPhase::Done
        &&& self.phase == HostPhase::Init ==> self.init.wf() && self.init.phase != InitPhase::Done
            && self.init.phase != InitPhase::Failed
        &&& self.phase == HostPhase::PadArray || self.phase == HostPhase::PadBuffers
            ==> self.params.pads() > 0
        &&& self.phase == HostPhase::PadEntry ==> 0 <= self.pad < self.params.pads()
            && self.params.pad_buffers + self.params.pads() * self.params.page_size <= u64::MAX
        &&& self.phase == HostPhase::Failed ==> self.error is Some
    }
}

/// Memory that fits below the end of addresses.
pub open spec fn host_fits(m: HostSetup, reply: HostReply) -> bool {
    m.phase == HostPhase::PadBuffers ==> {
        reply.memory_of() matches Ok(a) ==> a + m.params.pads() * m.params.page_size <= u64::MAX
    }
}

proof fn lemma_pads(p: HostParams)
    requires
        MAX_SCRATCHPAD * p.page_size <= u64::MAX,
    ensures
        0 <= p.pads() * p.page_size <= u64::MAX,
        0 <= p.pads() <= MAX_SCRATCHPAD,
{
    let n = p.pads();
    let s = p.page_size as int;
    assert(0 <= n <= 1023);
    assert(0 <= n * s <= 1023 * s) by (nonlinear_arith)
        requires
            0 <= n <= 1023,
            0 <= s,
    ;
}

impl NewController {
    /// Begins to bring a controller up.
    pub fn new(page_size: u64) -> (r: NewController)
        requires
            MAX_SCRATCHPAD * page_size <= u64::MAX,
        ensures
            r@ == HostSetup::begin(page_size),
            r@.wf(),
    {
        let none = InitParams {
            op_offset: 0,
            int_offset: 0,
            max_slots: 0,
            dcbaa: 0,
            command_ring: 0,
            event_table: 0,
            event_ring: 0,
        };
        NewController {
            params: HostParams {
                page_size,
                cap_length: 0,
                hcs1: 0,
                hcs2: 0,
                db_offset: 0,
                rts_offset: 0,
                dcbaa: 0,
                pad_array: 0,
                pad_buffers: 0,
                command_ring: 0,
            },
            phase: HostPhase::MapFirst,
            walk: CapabilityWalk::new(0),
            pad: 0,
            init: InitHost::new(none),
            error: None,
        }
    }

    /// What is needed next.
    pub fn next_request(&self) -> (r: HostRequest)
        requires
            self@.wf(),
        ensures
            r == self@.request(),
    {
        proof {
            lemma_pads(self.params);
        }
        let p = &self.params;
        match self.phase {
            HostPhase::MapFirst => HostRequest::MapMmio { size: MMIO_INIT_SIZE },
            HostPhase::CapLength => HostRequest::ReadByte { offset: 0 },
            HostPhase::Structural1 => HostRequest::Registers(
                RegisterRequest::Read { offset: HCSPARAMS1 },
            ),
            HostPhase::Structural2 => HostRequest::Registers(
                RegisterRequest::Read { offset: HCSPARAMS2 },
            ),
            HostPhase::Doorbells => HostRequest::Registers(RegisterRequest::Read { offset: DBOFF }),
            HostPhase::Runtime => HostRequest::Registers(RegisterRequest::Read { offset: RTSOFF }),
            HostPhase::Capability1 => HostRequest::Registers(
                RegisterRequest::Read { offset: HCCPARAMS1 },
            ),
            HostPhase::Walk => HostRequest::Registers(self.walk.next_request()),
            HostPhase::Unmap => HostRequest::UnmapMmio { size: MMIO_INIT_SIZE },
            HostPhase::MapFull => HostRequest::MapMmio { size: p.mmio_size() },
            HostPhase::Contexts => HostRequest::Allocate {
                size: (p.max_slots() + 1) * 8,
                align: TABLE_ALIGN,
            },
            HostPhase::PadArray => HostRequest::Allocate {
                size: p.max_scratchpad() * 8,
                align: TABLE_ALIGN,
            },
            HostPhase::PadBuffers => HostRequest::Allocate {
                size: p.max_scratchpad() * p.page_size,
                align: p.page_size,
            },
            HostPhase::PadEntry => {
                assert(0 <= self.pad * p.page_size <= p.pads() * p.page_size) by (nonlinear_arith)
                    requires
                        0 <= self.pad < p.pads(),
                ;
                HostRequest::SetEntry {
                    table: HostTable::Scratchpad,
                    index: self.pad,
                    value: p.pad_buffers + self.pad * p.page_size,
                }
            },
            HostPhase::PadPointer => HostRequest::SetEntry {
                table: HostTable::Contexts,
                index: 0,
                value: p.pad_array,
            },
            HostPhase::CommandRing => HostRequest::CommandRing { entries: CMD_RING_SIZE },
            HostPhase::EventRing => HostRequest::EventRing { entries: EVENT_RING_SIZE },
            HostPhase::Init => HostRequest::Registers(self.init.next_request()),
            _ => HostRequest::Done,
        }
    }

    fn fail(&mut self, error: UsbError)
        requires
            old(self)@.wf(),
        ensures
            final(self)@ == old(self)@.fails(error),
            final(self)@.wf(),
    {
        self.error = Some(error);
        self.phase = HostPhase::Failed;
    }

    fn settle_walk(&mut self)
        requires
            MAX_SCRATCHPAD * old(self)@.params.page_size <= u64::MAX,
            old(self)@.walk.wf(),
        ensures
            final(self)@ == old(self)@.with_walk(old(self)@.walk),
            final(self)@.wf(),
    {
        self.phase = match self.walk.phase {
            WalkPhase::Done => HostPhase::Unmap,
            _ => HostPhase::Walk,
        };
    }

    fn settle_init(&mut self)
        requires
            MAX_SCRATCHPAD * old(self)@.params.page_size <= u64::MAX,
            old(self)@.init.wf(),
        ensures
            final(self)@ == old(self)@.with_init(old(self)@.init),
            final(self)@.wf(),
    {
        match self.init.phase {
            InitPhase::Done => {
                self.phase = HostPhase::Done;
            },
            InitPhase::Failed => {
                self.error = self.init.error;
                self.phase = HostPhase::Failed;
            },
            _ => {
                self.phase = HostPhase::Init;
            },
        }
    }

    /// Takes a reply.
    pub fn feed(&mut self, reply: HostReply)
        requires
            old(self)@.wf(),
            host_fits(old(self)@, reply),
        ensures
            final(self)@ == old(self)@.after(reply),
            final(self)@.wf(),
    {
        match self.phase {
            HostPhase::MapFirst => {
                if reply.mapped() {
                    self.phase = HostPhase::CapLength;
                } else {
                    self.fail(UsbError::MapFail);
                }
            },
            HostPhase::CapLength => {
                self.params.cap_length = (reply.value() % 256) as u8;
                self.phase = HostPhase::Structural1;
            },
            HostPhase::Structural1 => {
                self.params.hcs1 = reply.value();
                self.phase = HostPhase::Structural2;
            },
            HostPhase::Structural2 => {
                self.params.hcs2 = reply.value();
                self.phase = HostPhase::Doorbells;
            },
            HostPhase::Doorbells => {
                self.params.db_offset = reply.value();
                self.phase = HostPhase::Runtime;
            },
            HostPhase::Runtime => {
                self.params.rts_offset = reply.value();
                self.phase = HostPhase::Capability1;
            },
            HostPhase::Capability1 => {
                self.walk = CapabilityWalk::new((reply.value() / 0x1_0000) as u64 * 4);
                self.settle_walk();
            },
            HostPhase::Walk => {
                self.walk.feed(reply.value());
                self.settle_walk();
            },
            HostPhase::Unmap => {
                self.phase = HostPhase::MapFull;
            },
            HostPhase::MapFull => {
                if reply.mapped() {
                    self.phase = HostPhase::Contexts;
                } else {
                    self.fail(UsbError::MapFail);
                }
            },
            HostPhase::Contexts => match reply.memory() {
                Ok(dcbaa) => {
                    self.params.dcbaa = dcbaa;
                    self.phase = if self.params.max_scratchpad() > 0 {
                        HostPhase::PadArray
                    } else {
                        HostPhase::CommandRing
                    };
                },
                Err(e) => self.fail(e),
            },
            HostPhase::PadArray => match reply.memory() {
                Ok(pad_array) => {
                    self.params.pad_array = pad_array;
                    self.phase = HostPhase::PadBuffers;
                },
                Err(e) => self.fail(e),
            },
            HostPhase::PadBuffers => match reply.memory() {
                Ok(pad_buffers) => {
                    self.params.pad_buffers = pad_buffers;
                    self.pad = 0;
                    self.phase = HostPhase::PadEntry;
                },
                Err(e) => self.fail(e),
            },
            HostPhase::PadEntry => {
                if self.pad + 1 < self.params.max_scratchpad() {
                    self.pad = self.pad + 1;
                } else {
                    self.phase = HostPhase::PadPointer;
                }
            },
            HostPhase::PadPointer => {
                self.phase = HostPhase::CommandRing;
            },
            HostPhase::CommandRing => match reply.memory() {
                Ok(command_ring) => {
                    self.params.command_ring = command_ring;
                    self.phase = HostPhase::EventRing;
                },
                Err(e) => self.fail(e),
            },
            HostPhase::EventRing => match reply.ring() {
                Ok(ring) => {
                    let p = &self.params;
                    self.init = InitHost::new(
                        InitParams {
                            op_offset: p.cap_length as u64,
                            int_offset: p.rts_offset as u64 + FIRST_INTERRUPTER as u64,
                            max_slots: p.max_slots() as u8,
                            dcbaa: p.dcbaa,
                            command_ring: p.command_ring,
                            event_table: ring.0,
                            event_ring: ring.1,
                        },
                    );
                    self.settle_init();
                },
                Err(e) => self.fail(e),
            },
            HostPhase::Init => {
                self.init.feed(reply.value());
                self.settle_init();
            },
            _ => {},
        }
    }

    /// The controller, or why there is none, once it is over.
    pub fn finish(self) -> (r: Option<Result<XhciCtrl, UsbError>>)
        requires
            self@.wf(),
        ensures
            match self@.phase {
                HostPhase::Done => r matches Some(Ok(c)) && {
                    &&& c.mmio_size == self@.params.register_bytes()
                    &&& c.cap_length == self@.params.cap_length
                    &&& c.rts_offset == self@.params.rts_offset
                    &&& c.db_offset == self@.params.db_offset
                    &&& c.max_slots == self@.params.slots()
                    &&& c.max_ports == self@.params.ports()
                    &&& c.supported_protocols@ == self@.walk.protocols
                    &&& c.pending_events@.len() == 0
                },
                HostPhase::Failed => r == Some(Err::<XhciCtrl, UsbError>(self@.error->0)),
                _ => r is None,
            },
    {
        match self.phase {
            HostPhase::Done => Some(
                Ok(
                    XhciCtrl {
                        mmio_size: self.params.mmio_size(),
                        cap_length: self.params.cap_length,
                        rts_offset: self.params.rts_offset,
                        db_offset: self.params.db_offset,
                        max_slots: (self.params.hcs1 % 256) as u8,
                        max_ports: (self.params.hcs1 / 0x100_0000) as u8,
                        supported_protocols: self.walk.protocols,
                        pending_events: PendingEvents::new(),
                    },
                ),
            ),
            HostPhase::Failed => match self.error {
                Some(e) => Some(Err(e)),
                None => None,
            },
            _ => None,
        }
    }
}

/// The registers that are mapped hold all that are used: those of the first interrupter, the
/// doorbell of every slot, and the register of every port.
pub proof fn law_registers_are_mapped(p: HostParams, slot: int, port: int)
    requires
        0 <= slot <= p.slots(),
        0 <= port < p.ports(),
    ensures
        p.rts_offset + FIRST_INTERRUPTER + init::ERDP + 8 <= p.register_bytes(),
        p.db_offset + slot * 4 + 4 <= p.register_bytes(),
        p.cap_length + 0x400 + port * 0x10 + 4 <= p.register_bytes(),
        p.cap_length + init::CONFIG + 4 <= p.register_bytes(),
{
}

/// How many requests it takes at most to set a controller up.
pub open spec fn setup_left(m: HostSetup) -> int {
    let init = init::init_left(InitHost::begin(m.params.init_params(0, 0)));
    let unmap = init + 1037;
    let whole = unmap + 65 * (walk::POLL_LIMIT + 6);
    match m.phase {
        HostPhase::MapFirst => whole + 7,
        HostPhase::CapLength => whole + 6,
        HostPhase::Structural1 => whole + 5,
        HostPhase::Structural2 => whole + 4,
        HostPhase::Doorbells => whole + 3,
        HostPhase::Runtime => whole + 2,
        HostPhase::Capability1 => whole + 1,
        HostPhase::Walk => unmap + walk::walk_left(m.walk).0 * (walk::POLL_LIMIT + 6)
            + walk::walk_left(m.walk).1,
        HostPhase::Unmap => unmap,
        HostPhase::MapFull => init + 1036,
        HostPhase::Contexts => init + 1035,
        HostPhase::PadArray => init + 1034,
        HostPhase::PadBuffers => init + 1033,
        HostPhase::PadEntry => init + 3 + m.params.pads() - m.pad,
        HostPhase::PadPointer => init + 3,
        HostPhase::CommandRing => init + 2,
        HostPhase::EventRing => init + 1,
        HostPhase::Init => init::init_left(m.init),
        _ => 0,
    }
}

/// Whatever is answered, setting a controller up comes to an end.
pub proof fn law_setup_ends(m: HostSetup, reply: HostReply)
    requires
        m.wf(),
        m.phase != HostPhase::Done && m.phase != HostPhase::Failed,
    ensures
        0 <= setup_left(m.after(reply)) < setup_left(m),
{
    if m.phase == HostPhase::Walk {
        walk::law_walk_ends(m.walk, reply.value_of());
    }
    if m.phase == HostPhase::Init {
        init::law_init_ends(m.init, reply.value_of());
    }
}

/// The tables that a controller reads are aligned to 64 bytes, its scratchpad buffers to pages.
pub proof fn law_tables_are_aligned(m: HostSetup)
    ensures
        m.request() matches HostRequest::Allocate { size, align } ==> if m.phase
            == HostPhase::PadBuffers {
            align == m.params.page_size
        } else {
            align == 64
        },
{
}

} // verus!
