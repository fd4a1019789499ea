//! Driving a port of an AHCI controller: starting and stopping it, transferring sectors
//! and identifying the disk behind it.

use vstd::prelude::*;

use crate::bytes;

verus! {

/// What is done to a port's registers, numbered in 32-bit words.
#[derive(Clone, Copy, PartialEq, Eq, Structural)]
pub enum RegRequest {
    Read { reg: u32 },
    Write { reg: u32, value: u32 },
    /// Wait as many microseconds.
    Delay { us: u64 },
    /// Put the command into the first slot of the command list.
    Issue,
    Done,
}

pub const PX_IS: u32 = 4;

pub const PX_CMD: u32 = 6;

pub const PX_TFD: u32 = 8;

pub const PX_SIG: u32 = 9;

pub const PX_SSTS: u32 = 10;

pub const PX_SERR: u32 = 12;

pub const PX_CI: u32 = 14;

/// Command list or FIS receive running.
pub const CMD_RUNNING: u32 = 0xc000;

/// Command list running.
pub const CMD_LIST_RUNNING: u32 = 0x8000;

/// All but the start bit.
pub const CMD_NOT_START: u32 = 0xffff_fffe;

/// All but the FIS receive bit.
pub const CMD_NOT_FIS_RECEIVE: u32 = 0xffff_ffef;

pub const CMD_START: u32 = 1;

pub const CMD_FIS_RECEIVE: u32 = 0x10;

/// Busy or data request.
pub const TFD_BUSY: u32 = 0x88;

/// Task file error.
pub const IS_TASK_FILE_ERROR: u32 = 0x4000_0000;

/// What a poll of a register makes of its value.
#[derive(Clone, Copy, PartialEq, Eq, Structural)]
pub enum PollStep {
    Ready,
    /// Try again, with as many tries left.
    Again(u32),
    TimedOut,
}

/// Polls until the bits in `mask` are clear; being clear counts only while tries are left.
pub open spec fn poll_step(value: u32, mask: u32, left: u32) -> PollStep {
    if left == 0 {
        PollStep::TimedOut
    } else if value & mask == 0 {
        PollStep::Ready
    } else {
        PollStep::Again((left - 1) as u32)
    }
}

/// Looks at a polled value.
pub fn poll(value: u32, mask: u32, left: u32) -> (r: PollStep)
    ensures
        r == poll_step(value, mask, left),
{
    if left == 0 {
        PollStep::TimedOut
    } else if value & mask == 0 {
        PollStep::Ready
    } else {
        PollStep::Again(left - 1)
    }
}

/// How far stopping or starting a port has come.
#[derive(Clone, Copy, PartialEq, Eq, Structural)]
pub enum PortPhase {
    ReadCommand,
    ClearCommand,
    Poll,
    Wait,
    SetFisReceive,
    SetStart,
    Done,
}

/// Stopping a port: its command list and FIS receive engines are switched off, and it is
/// given a while to notice.
#[derive(Clone, Copy, PartialEq, Eq, Structural)]
pub struct StopPort {
    pub phase: PortPhase,
    pub cmd: u32,
    pub left: u32,
    pub timed_out: bool,
}

impl StopPort {
    pub open spec fn begin() -> StopPort {
        StopPort { phase: PortPhase::ReadCommand, cmd: 0, left: 1000, timed_out: false }
    }

    pub open spec fn request(self) -> RegRequest {
        match self.phase {
            PortPhase::ReadCommand => RegRequest::Read { reg: PX_CMD },
            PortPhase::ClearCommand => RegRequest::Write {
                reg: PX_CMD,
                value: (self.cmd & CMD_NOT_START) & CMD_NOT_FIS_RECEIVE,
            },
            PortPhase::Poll => RegRequest::Read { reg: PX_CMD },
            PortPhase::Wait => RegRequest::Delay { us: 100 },
            _ => RegRequest::Done,
        }
    }

    pub open spec fn after(self, value: u32) -> StopPort {
        match self.phase {
            PortPhase::ReadCommand => StopPort {
                cmd: value,
                phase: PortPhase::ClearCommand,
                ..self
            },
            PortPhase::ClearCommand => StopPort { phase: PortPhase::Poll, ..self },
            PortPhase::Poll => match poll_step(value, CMD_RUNNING, self.left) {
                PollStep::Ready => StopPort { phase: PortPhase::Done, ..self },
                PollStep::Again(left) => StopPort { phase: PortPhase::Wait, left, ..self },
                PollStep::TimedOut => StopPort {
                    phase: PortPhase::Done,
                    timed_out: true,
                    ..self
                },
            },
            PortPhase::Wait => StopPort { phase: PortPhase::Poll, ..self },
            _ => self,
        }
    }

    /// Begins to stop a port.
    pub fn stop_port() -> (r: StopPort)
        ensures
            r == StopPort::begin(),
    {
        StopPort { phase: PortPhase::ReadCommand, cmd: 0, left: 1000, timed_out: false }
    }

    /// What is needed next.
    pub fn next_request(&self) -> (r: RegRequest)
        ensures
            r == self.request(),
    {
        match self.phase {
            PortPhase::ReadCommand => RegRequest::Read { reg: PX_CMD },
            PortPhase::ClearCommand => RegRequest::Write {
                reg: PX_CMD,
                value: (self.cmd & CMD_NOT_START) & CMD_NOT_FIS_RECEIVE,
            },
            PortPhase::Poll => RegRequest::Read { reg: PX_CMD },
            PortPhase::Wait => RegRequest::Delay { us: 100 },
            _ => RegRequest::Done,
        }
    }

    /// Takes the value that was read; anything where nothing was.
    pub fn feed(&mut self, value: u32)
        ensures
            *final(self) == old(self).after(value),
    {
        match self.phase {
            PortPhase::ReadCommand => {
                self.cmd = value;
                self.phase = PortPhase::ClearCommand;
            },
            PortPhase::ClearCommand => {
                self.phase = PortPhase::Poll;
            },
            PortPhase::Poll => match poll(value, CMD_RUNNING, self.left) {
                PollStep::Ready => {
                    self.phase = PortPhase::Done;
                },
                PollStep::Again(left) => {
                    self.left = left;
                    self.phase = PortPhase::Wait;
                },
                PollStep::TimedOut => {
                    self.timed_out = true;
                    self.phase = PortPhase::Done;
                },
            },
            PortPhase::Wait => {
                self.phase = PortPhase::Poll;
            },
            _ => {},
        }
    }
}

/// Starting a port: once its command list engine is idle, or after a while, FIS receive
/// and then the command list are switched on.
#[derive(Clone, Copy, PartialEq, Eq, Structural)]
pub struct StartPort {
    pub phase: PortPhase,
    pub cmd: u32,
    pub left: u32,
    pub timed_out: bool,
}

impl StartPort {
    pub open spec fn begin() -> StartPort {
        StartPort { phase: PortPhase::Poll, cmd: 0, left: 1000, timed_out: false }
    }

    pub open spec fn request(self) -> RegRequest {
        match self.phase {
            PortPhase::Poll => RegRequest::Read { reg: PX_CMD },
            PortPhase::Wait => RegRequest::Delay { us: 100 },
            PortPhase::ReadCommand => RegRequest::Read { reg: PX_CMD },
            PortPhase::SetFisReceive => RegRequest::Write {
                reg: PX_CMD,
                value: self.cmd | CMD_FIS_RECEIVE,
            },
            PortPhase::SetStart => RegRequest::Write {
                reg: PX_CMD,
                value: (self.cmd | CMD_FIS_RECEIVE) | CMD_START,
            },
            _ => RegRequest::Done,
        }
    }

    pub open spec fn after(self, value: u32) -> StartPort {
        match self.phase {
            PortPhase::Poll => match poll_step(value, CMD_LIST_RUNNING, self.left) {
                PollStep::Ready => StartPort { phase: PortPhase::ReadCommand, ..self },
                PollStep::Again(left) => StartPort { phase: PortPhase::Wait, left, ..self },
                PollStep::TimedOut => StartPort {
                    phase: PortPhase::ReadCommand,
                    timed_out: true,
                    ..self
                },
            },
            PortPhase::Wait => StartPort { phase: PortPhase::Poll, ..self },
            PortPhase::ReadCommand => StartPort {
                cmd: value,
                phase: PortPhase::SetFisReceive,
                ..self
            },
            PortPhase::SetFisReceive => StartPort { phase: PortPhase::SetStart, ..self },
            PortPhase::SetStart => StartPort { phase: PortPhase::Done, ..self },
            _ => self,
        }
    }

    /// Begins to start a port.
    pub fn start_port() -> (r: StartPort)
        ensures
            r == StartPort::begin(),
    {
        StartPort { phase: PortPhase::Poll, cmd: 0, left: 1000, timed_out: false }
    }

    /// What is needed next.
    pub fn next_request(&self) -> (r: RegRequest)
        ensures
            r == self.request(),
    {
        match self.phase {
            PortPhase::Poll => RegRequest::Read { reg: PX_CMD },
            PortPhase::Wait => RegRequest::Delay { us: 100 },
            PortPhase::ReadCommand => RegRequest::Read { reg: PX_CMD },
            PortPhase::SetFisReceive => RegRequest::Write {
                reg: PX_CMD,
                value: self.cmd | CMD_FIS_RECEIVE,
            },
            PortPhase::SetStart => RegRequest::Write {
                reg: PX_CMD,
                value: (self.cmd | CMD_FIS_RECEIVE) | CMD_START,
            },
            _ => RegRequest::Done,
        }
    }

    /// Takes the value that was read; anything where nothing was.
    pub fn feed(&mut self, value: u32)
        ensures
            *final(self) == old(self).after(value),
    {
        match self.phase {
            PortPhase::Poll => match poll(value, CMD_LIST_RUNNING, self.left) {
                PollStep::Ready => {
                    self.phase = PortPhase::ReadCommand;
                },
                PollStep::Again(left) => {
                    self.left = left;
                    self.phase = PortPhase::Wait;
                },
                PollStep::TimedOut => {
                    self.timed_out = true;
                    self.phase = PortPhase::ReadCommand;
                },
            },
            PortPhase::Wait => {
                self.phase = PortPhase::Poll;
            },
            PortPhase::ReadCommand => {
                self.cmd = value;
                self.phase = PortPhase::SetFisReceive;
            },
            PortPhase::SetFisReceive => {
                self.phase = PortPhase::SetStart;
            },
            PortPhase::SetStart => {
                self.phase = PortPhase::Done;
            },
            _ => {},
        }
    }
}

/// The header of a command in the command list.
#[derive(Clone, Copy, PartialEq, Eq, Structural)]
pub struct CommandHeader {
    pub cfl_flags: u16,
    pub prdtl: u16,
    pub prdbc: u32,
    pub ctba: u32,
    pub ctbau: u32,
}

/// The one region of memory that a command moves data to or from.
#[derive(Clone, Copy, PartialEq, Eq, Structural)]
pub struct PRDTEntry {
    pub dba: u32,
    pub dbau: u32,
    pub reserved: u32,
    pub dbc_flags: u32,
}

/// A command: its header, the first bytes of its table and its region of memory.
pub struct Command {
    pub header: CommandHeader,
    pub cfis: Vec<u8>,
    pub prdt: PRDTEntry,
}

/// The lower half of an address.
pub open spec fn low32(v: u64) -> u32 {
    (v % 0x1_0000_0000) as u32
}

/// The upper half of an address.
pub open spec fn high32(v: u64) -> u32 {
    (v / 0x1_0000_0000) as u32
}

/// The register FIS of a sector transfer.
pub open spec fn transfer_fis(lba: u64, count: u16, is_write: bool) -> Seq<u8> {
    bytes::zeros(64).update(0, 0x27).update(1, 0x80).update(
        2,
        if is_write {
            0x35
        } else {
            0x25
        },
    ).update(4, (lba % 0x100) as u8).update(5, (lba / 0x100 % 0x100) as u8).update(
        6,
        (lba / 0x1_0000 % 0x100) as u8,
    ).update(7, 0x40).update(8, (lba / 0x100_0000 % 0x100) as u8).update(
        9,
        (lba / 0x1_0000_0000 % 0x100) as u8,
    ).update(10, (lba / 0x100_0000_0000 % 0x100) as u8).update(12, (count % 0x100) as u8).update(
        13,
        (count / 0x100) as u8,
    )
}

/// The header of a command whose table stands at `ct_phys`.
pub open spec fn header_of(is_write: bool, ct_phys: u64) -> CommandHeader {
    CommandHeader {
        cfl_flags: if is_write {
            0x45
        } else {
            5
        },
        prdtl: 1,
        prdbc: 0,
        ctba: low32(ct_phys),
        ctbau: high32(ct_phys),
    }
}

/// The region of `count` sectors at `data_phys`.
pub open spec fn region_of(count: u16, data_phys: u64) -> PRDTEntry {
    PRDTEntry {
        dba: low32(data_phys),
        dbau: high32(data_phys),
        reserved: 0,
        dbc_flags: ((count * 512 - 1) % 0x40_0000) as u32,
    }
}

/// Builds the command of a sector transfer. The table stands at `ct_phys`, the data at
/// `data_phys`.
pub fn transfer_command(
    lba: u64,
    count: u16,
    is_write: bool,
    ct_phys: u64,
    data_phys: u64,
) -> (r: Command)
    requires
        count > 0,
    ensures
        r.header == header_of(is_write, ct_phys),
        r.prdt == region_of(count, data_phys),
        r.cfis@ == transfer_fis(lba, count, is_write),
{
    let mut cfis = bytes::zeroed(64);
    cfis[0] = 0x27;
    cfis[1] = 0x80;
    cfis[2] = if is_write {
        0x35
    } else {
        0x25
    };
    cfis[4] = (lba % 0x100) as u8;
    cfis[5] = (lba / 0x100 % 0x100) as u8;
    cfis[6] = (lba / 0x1_0000 % 0x100) as u8;
    cfis[7] = 0x40;
    cfis[8] = (lba / 0x100_0000 % 0x100) as u8;
    cfis[9] = (lba / 0x1_0000_0000 % 0x100) as u8;
    cfis[10] = (lba / 0x100_0000_0000 % 0x100) as u8;
    cfis[12] = (count % 0x100) as u8;
    cfis[13] = (count / 0x100) as u8;
    Command {
        header: CommandHeader {
            cfl_flags: if is_write {
                0x45
            } else {
                5
            },
            prdtl: 1,
            prdbc: 0,
            ctba: (ct_phys % 0x1_0000_0000) as u32,
            ctbau: (ct_phys / 0x1_0000_0000) as u32,
        },
        cfis,
        prdt: PRDTEntry {
            dba: (data_phys % 0x1_0000_0000) as u32,
            dbau: (data_phys / 0x1_0000_0000) as u32,
            reserved: 0,
            dbc_flags: (count as u32 * 512 - 1) % 0x40_0000,
        },
    }
}

/// A transfer names the sector and the count that it was made for, as far as they fit into
/// the command: 48 bits of sector number, and byte counts up to 4 MiB.
pub proof fn law_transfer_names_sectors(lba: u64, count: u16, is_write: bool)
    requires
        lba < 0x1_0000_0000_0000,
        0 < count <= 8192,
    ensures
        ({
            let f = transfer_fis(lba, count, is_write);
            &&& f[4] + 0x100 * f[5] + 0x1_0000 * f[6] + 0x100_0000 * f[8] + 0x1_0000_0000 * f[9]
                + 0x100_0000_0000 * f[10] == lba
            &&& f[12] + 0x100 * f[13] == count
            &&& (count * 512 - 1) % 0x40_0000 + 1 == count * 512
        }),
{
    let f = transfer_fis(lba, count, is_write);
    let l = lba as int;
    lemma_six_bytes(l);
    assert(f[4] == l % 0x100);
    assert(f[5] == l / 0x100 % 0x100);
    assert(f[6] == l / 0x1_0000 % 0x100);
    assert(f[8] == l / 0x100_0000 % 0x100);
    assert(f[9] == l / 0x1_0000_0000 % 0x100);
    assert(f[10] == l / 0x100_0000_0000 % 0x100);
}

proof fn lemma_six_bytes(l: int)
    requires
        0 <= l < 0x1_0000_0000_0000,
    ensures
        l % 0x100 + 0x100 * (l / 0x100 % 0x100) + 0x1_0000 * (l / 0x1_0000 % 0x100) + 0x100_0000
            * (l / 0x100_0000 % 0x100) + 0x1_0000_0000 * (l / 0x1_0000_0000 % 0x100)
            + 0x100_0000_0000 * (l / 0x100_0000_0000 % 0x100) == l,
{
    let a = l / 0x100;
    let b = l / 0x1_0000;
    let c = l / 0x100_0000;
    let d = l / 0x1_0000_0000;
    let e = l / 0x100_0000_0000;
    assert(b == a / 0x100);
    assert(c == b / 0x100);
    assert(d == c / 0x100);
    assert(e == d / 0x100);
}

/// How far a transfer has come.
#[derive(Clone, Copy, PartialEq, Eq, Structural)]
pub enum TransferPhase {
    Busy,
    BusyWait,
    ClearInterrupts,
    ClearErrors,
    Issue,
    Start,
    Poll,
    PollErrors,
    PollWait,
    Done,
    Failed,
}

/// A transfer of sectors.
#[derive(Clone, Copy, PartialEq, Eq, Structural)]
pub struct SectorTransfer {
    pub lba: u64,
    pub count: u16,
    pub is_write: bool,
    pub phase: TransferPhase,
    pub left: u32,
}

impl SectorTransfer {
    pub open spec fn begin(lba: u64, count: u16, is_write: bool) -> SectorTransfer {
        SectorTransfer { lba, count, is_write, phase: TransferPhase::Busy, left: 10000 }
    }

    pub open spec fn with_phase(self, phase: TransferPhase) -> SectorTransfer {
        SectorTransfer { phase, ..self }
    }

    pub open spec fn request(self) -> RegRequest {
        match self.phase {
            TransferPhase::Busy => RegRequest::Read { reg: PX_TFD },
            TransferPhase::BusyWait => RegRequest::Delay { us: 10 },
            TransferPhase::ClearInterrupts => RegRequest::Write {
                reg: PX_IS,
                value: 0xffff_ffff,
            },
            TransferPhase::ClearErrors => RegRequest::Write { reg: PX_SERR, value: 0xffff_ffff },
            TransferPhase::Issue => RegRequest::Issue,
            TransferPhase::Start => RegRequest::Write { reg: PX_CI, value: 1 },
            TransferPhase::Poll => RegRequest::Read { reg: PX_CI },
            TransferPhase::PollErrors => RegRequest::Read { reg: PX_IS },
            TransferPhase::PollWait => RegRequest::Delay { us: 100 },
            _ => RegRequest::Done,
        }
    }

    pub open spec fn after(self, value: u32) -> SectorTransfer {
        match self.phase {
            TransferPhase::Busy => match poll_step(value, TFD_BUSY, self.left) {
                PollStep::Ready => self.with_phase(TransferPhase::ClearInterrupts),
                PollStep::Again(left) => SectorTransfer {
                    left,
                    phase: TransferPhase::BusyWait,
                    ..self
                },
                PollStep::TimedOut => self.with_phase(TransferPhase::Failed),
            },
            TransferPhase::BusyWait => self.with_phase(TransferPhase::Busy),
            TransferPhase::ClearInterrupts => self.with_phase(TransferPhase::ClearErrors),
            TransferPhase::ClearErrors => self.with_phase(TransferPhase::Issue),
            TransferPhase::Issue => self.with_phase(TransferPhase::Start),
            TransferPhase::Start => SectorTransfer {
                left: if self.is_write {
                    50_000
                } else {
                    1_000
                },
                phase: TransferPhase::Poll,
                ..self
            },
            TransferPhase::Poll => match poll_step(value, 1, self.left) {
                PollStep::Ready => self.with_phase(TransferPhase::Done),
                PollStep::Again(left) => SectorTransfer {
                    left,
                    phase: TransferPhase::PollErrors,
                    ..self
                },
                PollStep::TimedOut => self.with_phase(TransferPhase::Failed),
            },
            TransferPhase::PollErrors => if value & IS_TASK_FILE_ERROR != 0 {
                self.with_phase(TransferPhase::Failed)
            } else {
                self.with_phase(TransferPhase::PollWait)
            },
            TransferPhase::PollWait => self.with_phase(TransferPhase::Poll),
            _ => self,
        }
    }

    /// What is needed next.
    pub fn next_request(&self) -> (r: RegRequest)
        ensures
            r == self.request(),
    {
        match self.phase {
            TransferPhase::Busy => RegRequest::Read { reg: PX_TFD },
            TransferPhase::BusyWait => RegRequest::Delay { us: 10 },
            TransferPhase::ClearInterrupts => RegRequest::Write {
                reg: PX_IS,
                value: 0xffff_ffff,
            },
            TransferPhase::ClearErrors => RegRequest::Write { reg: PX_SERR, value: 0xffff_ffff },
            TransferPhase::Issue => RegRequest::Issue,
            TransferPhase::Start => RegRequest::Write { reg: PX_CI, value: 1 },
            TransferPhase::Poll => RegRequest::Read { reg: PX_CI },
            TransferPhase::PollErrors => RegRequest::Read { reg: PX_IS },
            TransferPhase::PollWait => RegRequest::Delay { us: 100 },
            _ => RegRequest::Done,
        }
    }

    /// Takes the value that was read; anything where nothing was.
    pub fn feed(&mut self, value: u32)
        ensures
            *final(self) == old(self).after(value),
    {
        match self.phase {
            TransferPhase::Busy => match poll(value, TFD_BUSY, self.left) {
                PollStep::Ready => {
                    self.phase = TransferPhase::ClearInterrupts;
                },
                PollStep::Again(left) => {
                    self.left = left;
                    self.phase = TransferPhase::BusyWait;
                },
                PollStep::TimedOut => {
                    self.phase = TransferPhase::Failed;
                },
            },
            TransferPhase::BusyWait => {
                self.phase = TransferPhase::Busy;
            },
            TransferPhase::ClearInterrupts => {
                self.phase = TransferPhase::ClearErrors;
            },
            TransferPhase::ClearErrors => {
                self.phase = TransferPhase::Issue;
            },
            TransferPhase::Issue => {
                self.phase = TransferPhase::Start;
            },
            TransferPhase::Start => {
                self.left = if self.is_write {
                    50_000
                } else {
                    1_000
                };
                self.phase = TransferPhase::Poll;
            },
            TransferPhase::Poll => match poll(value, 1, self.left) {
                PollStep::Ready => {
                    self.phase = TransferPhase::Done;
                },
                PollStep::Again(left) => {
                    self.left = left;
                    self.phase = TransferPhase::PollErrors;
                },
                PollStep::TimedOut => {
                    self.phase = TransferPhase::Failed;
                },
            },
            TransferPhase::PollErrors => {
                self.phase = if value & IS_TASK_FILE_ERROR != 0 {
                    TransferPhase::Failed
                } else {
                    TransferPhase::PollWait
                };
            },
            TransferPhase::PollWait => {
                self.phase = TransferPhase::Poll;
            },
            _ => {},
        }
    }

    /// Whether the transfer succeeded, once it is over.
    pub fn outcome(&self) -> (r: Option<Result<(), ()>>)
        ensures
            match r {
                Some(Ok(_)) => self.phase == TransferPhase::Done,
                Some(Err(_)) => self.phase == TransferPhase::Failed,
                None => self.phase != TransferPhase::Done && self.phase != TransferPhase::Failed,
            },
    {
        match self.phase {
            TransferPhase::Done => Some(Ok(())),
            TransferPhase::Failed => Some(Err(())),
            _ => None,
        }
    }
}

/// Begins to read sectors, where a port was found.
pub fn read_sectors(port: Option<usize>, lba: u64, count: u16) -> (r: Result<SectorTransfer, ()>)
    requires
        count > 0,
    ensures
        match r {
            Ok(t) => port is Some && t == SectorTransfer::begin(lba, count, false),
            Err(_) => port is None,
        },
{
    match port {
        Some(_) => Ok(
            SectorTransfer {
                lba,
                count,
                is_write: false,
                phase: TransferPhase::Busy,
                left: 10000,
            },
        ),
        None => Err(()),
    }
}

/// Begins to write sectors, where a port was found.
pub fn write_sectors(port: Option<usize>, lba: u64, count: u16) -> (r: Result<SectorTransfer, ()>)
    requires
        count > 0,
    ensures
        match r {
            Ok(t) => port is Some && t == SectorTransfer::begin(lba, count, true),
            Err(_) => port is None,
        },
{
    match port {
        Some(_) => Ok(
            SectorTransfer {
                lba,
                count,
                is_write: true,
                phase: TransferPhase::Busy,
                left: 10000,
            },
        ),
        None => Err(()),
    }
}

/// A port that is not busy and completes the command at once makes a transfer succeed; one
/// that raises a task file error makes it fail.
pub proof fn law_transfer_follows_port(lba: u64, count: u16, is_write: bool, errors: u32)
    ensures
        ({
            let polled = SectorTransfer::begin(lba, count, is_write).after(0).after(0).after(0).after(
                0,
            ).after(0);
            &&& polled.phase == TransferPhase::Poll
            &&& polled.after(0).phase == TransferPhase::Done
            &&& polled.after(1).phase == TransferPhase::PollErrors
            &&& polled.after(1).after(errors).phase == if errors & IS_TASK_FILE_ERROR != 0 {
                TransferPhase::Failed
            } else {
                TransferPhase::PollWait
            }
        }),
{
    assert(0u32 & 0x88u32 == 0) by (bit_vector);
    assert(0u32 & 1u32 == 0) by (bit_vector);
    assert(1u32 & 1u32 != 0) by (bit_vector);
}

/// The register FIS of the command that identifies a disk.
pub open spec fn identify_fis() -> Seq<u8> {
    bytes::zeros(64).update(0, 0x27).update(1, 0x80).update(2, 0xec)
}

/// The command that identifies a disk.
pub fn identify_command(ct_phys: u64, data_phys: u64) -> (r: Command)
    ensures
        r.header == header_of(false, ct_phys),
        r.prdt == region_of(1, data_phys),
        r.cfis@ == identify_fis(),
{
    let mut cfis = bytes::zeroed(64);
    cfis[0] = 0x27;
    cfis[1] = 0x80;
    cfis[2] = 0xec;
    Command {
        header: CommandHeader {
            cfl_flags: 5,
            prdtl: 1,
            prdbc: 0,
            ctba: (ct_phys % 0x1_0000_0000) as u32,
            ctbau: (ct_phys / 0x1_0000_0000) as u32,
        },
        cfis,
        prdt: PRDTEntry {
            dba: (data_phys % 0x1_0000_0000) as u32,
            dbau: (data_phys / 0x1_0000_0000) as u32,
            reserved: 0,
            dbc_flags: 511,
        },
    }
}

/// How far identifying a disk has come.
#[derive(Clone, Copy, PartialEq, Eq, Structural)]
pub enum IdentifyPhase {
    StartPort,
    Issue,
    Start,
    Poll,
    PollErrors,
    PollWait,
    /// The disk's answer is to be read.
    Answered,
    TimedOut,
}

/// Identifying the disk behind a port.
#[derive(Clone, Copy, PartialEq, Eq, Structural)]
pub struct IdentifyDevice {
    pub phase: IdentifyPhase,
    pub port: StartPort,
    pub left: u32,
}

impl IdentifyDevice {
    pub open spec fn begin() -> IdentifyDevice {
        IdentifyDevice { phase: IdentifyPhase::StartPort, port: StartPort::begin(), left: 500 }
    }

    pub open spec fn with_phase(self, phase: IdentifyPhase) -> IdentifyDevice {
        IdentifyDevice { phase, ..self }
    }

    pub open spec fn request(self) -> RegRequest {
        match self.phase {
            IdentifyPhase::StartPort => self.port.request(),
            IdentifyPhase::Issue => RegRequest::Issue,
            IdentifyPhase::Start => RegRequest::Write { reg: PX_CI, value: 1 },
            IdentifyPhase::Poll => RegRequest::Read { reg: PX_CI },
            IdentifyPhase::PollErrors => RegRequest::Read { reg: PX_IS },
            IdentifyPhase::PollWait => RegRequest::Delay { us: 1000 },
            _ => RegRequest::Done,
        }
    }

    pub open spec fn after(self, value: u32) -> IdentifyDevice {
        match self.phase {
            IdentifyPhase::StartPort => {
                let port = self.port.after(value);
                IdentifyDevice {
                    port,
                    phase: if port.phase == PortPhase::Done {
                        IdentifyPhase::Issue
                    } else {
                        IdentifyPhase::StartPort
                    },
                    ..self
                }
            },
            IdentifyPhase::Issue => self.with_phase(IdentifyPhase::Start),
            IdentifyPhase::Start => self.with_phase(IdentifyPhase::Poll),
            IdentifyPhase::Poll => match poll_step(value, 1, self.left) {
                PollStep::Ready => self.with_phase(IdentifyPhase::Answered),
                PollStep::Again(left) => self.with_phase(IdentifyPhase::PollErrors),
                PollStep::TimedOut => self.with_phase(IdentifyPhase::TimedOut),
            },
            // A task file error is waited for no longer, and what is there is read.
            IdentifyPhase::PollErrors => if value & IS_TASK_FILE_ERROR != 0 {
                self.with_phase(IdentifyPhase::Answered)
            } else {
                self.with_phase(IdentifyPhase::PollWait)
            },
            IdentifyPhase::PollWait => IdentifyDevice {
                left: if self.left > 0 {
                    (self.left - 1) as u32
                } else {
                    0
                },
                phase: IdentifyPhase::Poll,
                ..self
            },
            _ => self,
        }
    }

    /// Begins to identify the disk behind a port.
    pub fn identify_device() -> (r: IdentifyDevice)
        ensures
            r == IdentifyDevice::begin(),
    {
        IdentifyDevice { phase: IdentifyPhase::StartPort, port: StartPort::start_port(), left: 500 }
    }

    /// What is needed next.
    pub fn next_request(&self) -> (r: RegRequest)
        ensures
            r == self.request(),
    {
        match self.phase {
            IdentifyPhase::StartPort => self.port.next_request(),
            IdentifyPhase::Issue => RegRequest::Issue,
            IdentifyPhase::Start => RegRequest::Write { reg: PX_CI, value: 1 },
            IdentifyPhase::Poll => RegRequest::Read { reg: PX_CI },
            IdentifyPhase::PollErrors => RegRequest::Read { reg: PX_IS },
            IdentifyPhase::PollWait => RegRequest::Delay { us: 1000 },
            _ => RegRequest::Done,
        }
    }

    /// Takes the value that was read; anything where nothing was.
    pub fn feed(&mut self, value: u32)
        ensures
            *final(self) == old(self).after(value),
    {
        match self.phase {
            IdentifyPhase::StartPort => {
                self.port.feed(value);
                match self.port.phase {
                    PortPhase::Done => {
                        self.phase = IdentifyPhase::Issue;
                    },
                    _ => {},
                }
            },
            IdentifyPhase::Issue => {
                self.phase = IdentifyPhase::Start;
            },
            IdentifyPhase::Start => {
                self.phase = IdentifyPhase::Poll;
            },
            IdentifyPhase::Poll => match poll(value, 1, self.left) {
                PollStep::Ready => {
                    self.phase = IdentifyPhase::Answered;
                },
                PollStep::Again(_) => {
                    self.phase = IdentifyPhase::PollErrors;
                },
                PollStep::TimedOut => {
                    self.phase = IdentifyPhase::TimedOut;
                },
            },
            IdentifyPhase::PollErrors => {
                self.phase = if value & IS_TASK_FILE_ERROR != 0 {
                    IdentifyPhase::Answered
                } else {
                    IdentifyPhase::PollWait
                };
            },
            IdentifyPhase::PollWait => {
                self.left = self.left.saturating_sub(1);
                self.phase = IdentifyPhase::Poll;
            },
            _ => {},
        }
    }
}

/// How a byte of a disk's description is shown.
pub open spec fn identify_byte(b: u8) -> u8 {
    if 0x20 <= b <= 0x7e {
        b
    } else {
        0x2e
    }
}

/// The text that words of a disk's description hold, the upper byte of each first.
pub open spec fn identify_text(words: Seq<u16>) -> Seq<u8> {
    Seq::new(
        (words.len() * 2) as nat,
        |k: int|
            identify_byte(
                if k % 2 == 0 {
                    (words[k / 2] / 0x100) as u8
                } else {
                    (words[k / 2] % 0x100) as u8
                },
            ),
    )
}

/// Reads the text in words of a disk's description.
pub fn read_identify_text(words: &[u16]) -> (r: Vec<u8>)
    ensures
        r@ == identify_text(words@),
{
    let mut out: Vec<u8> = Vec::new();
    let mut i: usize = 0;
    while i < words.len()
        invariant
            i <= words.len(),
            out@ == identify_text(words@.take(i as int)),
        decreases words.len() - i,
    {
        let hi: u8 = (words[i] / 0x100) as u8;
        let lo: u8 = (words[i] % 0x100) as u8;
        out.push(
            if 0x20 <= hi && hi <= 0x7e {
                hi
            } else {
                0x2e
            },
        );
        out.push(
            if 0x20 <= lo && lo <= 0x7e {
                lo
            } else {
                0x2e
            },
        );
        i += 1;
        assert(out@ =~= identify_text(words@.take(i as int)));
    }
    assert(words@.take(i as int) =~= words@);
    out
}

/// The disk's size in sectors, as its description says: with 48-bit addressing where it is
/// supported.
pub open spec fn identify_capacity(words: Seq<u16>) -> int {
    if words[83] & 0x400 != 0 {
        words[100] + 0x1_0000 * words[101] + 0x1_0000_0000 * words[102] + 0x1_0000_0000_0000
            * words[103]
    } else {
        words[60] + 0x1_0000 * words[61]
    }
}

/// Reads the disk's size in sectors.
pub fn read_identify_capacity(words: &[u16]) -> (r: u64)
    requires
        words.len() == 256,
    ensures
        r == identify_capacity(words@),
{
    if words[83] & 0x400 != 0 {
        words[100] as u64 + 0x1_0000 * words[101] as u64 + 0x1_0000_0000 * words[102] as u64
            + 0x1_0000_0000_0000 * words[103] as u64
    } else {
        words[60] as u64 + 0x1_0000 * words[61] as u64
    }
}

/// What a disk's description says of it.
pub struct DiskDescription {
    pub serial: Vec<u8>,
    pub firmware: Vec<u8>,
    pub model: Vec<u8>,
    pub capacity_sectors: u64,
}

/// Reads a disk's description.
pub fn describe_disk(words: &[u16]) -> (r: DiskDescription)
    requires
        words.len() == 256,
    ensures
        r.serial@ == identify_text(words@.subrange(10, 20)),
        r.firmware@ == identify_text(words@.subrange(23, 27)),
        r.model@ == identify_text(words@.subrange(27, 47)),
        r.capacity_sectors == identify_capacity(words@),
{
    DiskDescription {
        serial: read_identify_text(&words[10..20]),
        firmware: read_identify_text(&words[23..27]),
        model: read_identify_text(&words[27..47]),
        capacity_sectors: read_identify_capacity(words),
    }
}

/// How many requests a port takes at most to stop.
pub open spec fn stop_left(m: StopPort) -> int {
    match m.phase {
        PortPhase::ReadCommand => 2 * m.left + 4,
        PortPhase::ClearCommand => 2 * m.left + 3,
        PortPhase::Poll => 2 * m.left + 1,
        PortPhase::Wait => 2 * m.left + 2,
        _ => 0,
    }
}

/// How many requests a port takes at most to start.
pub open spec fn start_left(m: StartPort) -> int {
    match m.phase {
        PortPhase::Poll => 2 * m.left + 5,
        PortPhase::Wait => 2 * m.left + 6,
        PortPhase::ReadCommand => 4,
        PortPhase::SetFisReceive => 3,
        PortPhase::SetStart => 2,
        _ => 0,
    }
}

/// How many requests a transfer takes at most.
pub open spec fn transfer_left(m: SectorTransfer) -> int {
    match m.phase {
        TransferPhase::Busy => 150_020 + 2 * m.left + 1,
        TransferPhase::BusyWait => 150_020 + 2 * m.left + 2,
        TransferPhase::ClearInterrupts => 150_013,
        TransferPhase::ClearErrors => 150_012,
        TransferPhase::Issue => 150_011,
        TransferPhase::Start => 150_010,
        TransferPhase::Poll => 3 * m.left + 3,
        TransferPhase::PollErrors => 3 * m.left + 5,
        TransferPhase::PollWait => 3 * m.left + 4,
        _ => 0,
    }
}

/// How many requests it takes at most to identify a disk.
pub open spec fn identify_left(m: IdentifyDevice) -> int {
    match m.phase {
        IdentifyPhase::StartPort => 3 * m.left + 10 + start_left(m.port),
        IdentifyPhase::Issue => 3 * m.left + 9,
        IdentifyPhase::Start => 3 * m.left + 8,
        IdentifyPhase::Poll => 3 * m.left + 3,
        IdentifyPhase::PollErrors => if m.left == 0 {
            5
        } else {
            3 * m.left + 2
        },
        IdentifyPhase::PollWait => if m.left == 0 {
            4
        } else {
            3 * m.left + 1
        },
        _ => 0,
    }
}

/// Whatever the registers of a port hold, stopping it, starting it and moving sectors all come
/// to an end: each answered request brings it nearer.
pub proof fn law_port_work_ends(
    stop: StopPort,
    start: StartPort,
    transfer: SectorTransfer,
    value: u32,
)
    ensures
        stop.request() != RegRequest::Done ==> 0 <= stop_left(stop.after(value)) < stop_left(stop),
        start.request() != RegRequest::Done ==> 0 <= start_left(start.after(value)) < start_left(
            start,
        ),
        transfer.request() != RegRequest::Done ==> 0 <= transfer_left(transfer.after(value))
            < transfer_left(transfer),
{
}

/// Whatever the registers of a port hold, identifying its disk comes to an end.
pub proof fn law_identify_ends(m: IdentifyDevice, value: u32)
    requires
        m.phase == IdentifyPhase::StartPort ==> m.port.request() != RegRequest::Done,
        m.request() != RegRequest::Done,
    ensures
        0 <= identify_left(m.after(value)) < identify_left(m),
        m.after(value).phase == IdentifyPhase::StartPort ==> m.after(value).port.request()
            != RegRequest::Done,
{
    if m.phase == IdentifyPhase::StartPort {
        let stop = StopPort::begin();
        let transfer = SectorTransfer {
            lba: 0,
            count: 1,
            is_write: false,
            phase: TransferPhase::Done,
            left: 0,
        };
        law_port_work_ends(stop, m.port, transfer, value);
    }
}

} // verus!
