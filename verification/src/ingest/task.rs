//! From a mass storage device to a model in memory: which partition to look at, what to
//! look for, and what to read.

use vstd::prelude::*;

use crate::align;
use crate::bytes;
use crate::ingest::chain;
use crate::ingest::chain::ChainIngest;
use crate::ingest::chain::ChainPhase;
use crate::ingest::fat32;
use crate::ingest::fat32::Fat32File;
use crate::ingest::fat32::Fat32Volume;
use crate::ingest::raw;
use crate::ingest::raw::RawIngest;
use crate::ingest::raw::RawPhase;
use crate::ingest::search;
use crate::ingest::search::BlockRead;
use crate::ingest::search::FatSearch;
use crate::ingest::search::Search;
use crate::ingest::search::SearchPhase;
use crate::ingest::search_law;
use crate::storage::disk;

verus! {

/// The block size of a device that does not tell.
pub const USB_DEFAULT_DEVICE_BLOCK_SIZE: u32 = 512;

/// The size that a raw model is taken to have.
pub const RAW_GGUF_FALLBACK_SIZE: u64 = 1_187_801_280;

/// Where a partition is looked for if the boot record names none.
pub const DEFAULT_PARTITION_LBA: u32 = 2048;

/// What a round of looking for devices does.
#[derive(Clone, Copy, PartialEq, Eq, Structural)]
pub enum ScanRound {
    /// Nothing: there was a device already.
    Idle,
    /// A model has come from elsewhere: look no further.
    ModelPresent,
    /// Look at the ports.
    LookAtPorts,
}

/// Decides on a round. `device_found` says whether a device was taken before, `model` where
/// a model is in memory.
pub fn scan_round(device_found: bool, model: Option<u64>) -> (r: ScanRound)
    ensures
        r == (if device_found {
            ScanRound::Idle
        } else if model matches Some(address) && address != 0 {
            ScanRound::ModelPresent
        } else {
            ScanRound::LookAtPorts
        }),
{
    if device_found {
        return ScanRound::Idle;
    }
    match model {
        Some(address) => if address != 0 {
            ScanRound::ModelPresent
        } else {
            ScanRound::LookAtPorts
        },
        None => ScanRound::LookAtPorts,
    }
}

/// What looking at the ports asks for. All but taking the model in and giving a device up is
/// answered with whether it is so, or worked.
#[derive(Clone, Copy, Debug, PartialEq, Eq, Structural)]
pub enum ScanRequest {
    /// Whether something is connected to a port.
    IsConnected(u8),
    /// Set up the device on a port.
    MakeDevice(u8),
    /// Make mass storage of the device.
    MakeStorage(u8),
    /// Take the model in from the storage.
    TakeIn(u8),
    /// Give the device up, be it storage or not.
    GiveUp(u8),
    Done,
}

/// How far looking at the ports has come.
#[derive(Clone, Copy, Debug, PartialEq, Eq, Structural)]
pub enum ScanPhase {
    Connection,
    Device,
    Storage,
    TakeIn,
    GiveUp { found: bool },
    Done { found: bool },
}

/// Looking at the ports of a controller for mass storage.
#[derive(Clone, Copy, Debug, PartialEq, Eq, Structural)]
pub struct PortScan {
    pub ports: u8,
    pub port: u8,
    pub phase: ScanPhase,
}

impl PortScan {
    /// On to a port, if there is one.
    pub open spec fn at_port(self, port: int) -> PortScan {
        if port < self.ports {
            PortScan { port: port as u8, phase: ScanPhase::Connection, ..self }
        } else {
            PortScan { phase: ScanPhase::Done { found: false }, ..self }
        }
    }

    /// About to look at the first port.
    pub open spec fn begin(ports: u8) -> PortScan {
        PortScan { ports, port: 0, phase: ScanPhase::Done { found: false } }.at_port(0)
    }

    pub open spec fn with_phase(self, phase: ScanPhase) -> PortScan {
        PortScan { phase, ..self }
    }

    pub open spec fn request(self) -> ScanRequest {
        match self.phase {
            ScanPhase::Connection => ScanRequest::IsConnected(self.port),
            ScanPhase::Device => ScanRequest::MakeDevice(self.port),
            ScanPhase::Storage => ScanRequest::MakeStorage(self.port),
            ScanPhase::TakeIn => ScanRequest::TakeIn(self.port),
            ScanPhase::GiveUp { found } => ScanRequest::GiveUp(self.port),
            ScanPhase::Done { found } => ScanRequest::Done,
        }
    }

    /// What an answer makes of it.
    pub open spec fn after(self, ok: bool) -> PortScan {
        match self.phase {
            ScanPhase::Connection => if ok {
                self.with_phase(ScanPhase::Device)
            } else {
                self.at_port(self.port + 1)
            },
            ScanPhase::Device => if ok {
                self.with_phase(ScanPhase::Storage)
            } else {
                self.at_port(self.port + 1)
            },
            ScanPhase::Storage => if ok {
                self.with_phase(ScanPhase::TakeIn)
            } else {
                self.with_phase(ScanPhase::GiveUp { found: false })
            },
            ScanPhase::TakeIn => self.with_phase(ScanPhase::GiveUp { found: true }),
            ScanPhase::GiveUp { found } => if found {
                self.with_phase(ScanPhase::Done { found: true })
            } else {
                self.at_port(self.port + 1)
            },
            ScanPhase::Done { found } => self,
        }
    }

    /// The port is one of the controller's.
    pub open spec fn wf(self) -> bool {
        self.phase is Done || self.port < self.ports
    }

    /// Begins to look at the ports of a controller with as many.
    pub fn new(ports: u8) -> (r: PortScan)
        ensures
            r == PortScan::begin(ports),
            r.wf(),
    {
        PortScan {
            ports,
            port: 0,
            phase: if ports > 0 {
                ScanPhase::Connection
            } else {
                ScanPhase::Done { found: false }
            },
        }
    }

    fn next_port(&mut self)
        requires
            old(self).port < old(self).ports,
        ensures
            *final(self) == old(self).at_port(old(self).port + 1),
            final(self).wf(),
    {
        if self.port + 1 < self.ports {
            self.port = self.port + 1;
            self.phase = ScanPhase::Connection;
        } else {
            self.phase = ScanPhase::Done { found: false };
        }
    }

    /// What is needed next.
    pub fn next_request(&self) -> (r: ScanRequest)
        ensures
            r == self.request(),
    {
        match self.phase {
            ScanPhase::Connection => ScanRequest::IsConnected(self.port),
            ScanPhase::Device => ScanRequest::MakeDevice(self.port),
            ScanPhase::Storage => ScanRequest::MakeStorage(self.port),
            ScanPhase::TakeIn => ScanRequest::TakeIn(self.port),
            ScanPhase::GiveUp { found: _ } => ScanRequest::GiveUp(self.port),
            ScanPhase::Done { found: _ } => ScanRequest::Done,
        }
    }

    /// Takes an answer.
    pub fn feed(&mut self, ok: bool)
        requires
            old(self).wf(),
        ensures
            *final(self) == old(self).after(ok),
            final(self).wf(),
    {
        match self.phase {
            ScanPhase::Connection => {
                if ok {
                    self.phase = ScanPhase::Device;
                } else {
                    self.next_port();
                }
            },
            ScanPhase::Device => {
                if ok {
                    self.phase = ScanPhase::Storage;
                } else {
                    self.next_port();
                }
            },
            ScanPhase::Storage => {
                self.phase = if ok {
                    ScanPhase::TakeIn
                } else {
                    ScanPhase::GiveUp { found: false }
                };
            },
            ScanPhase::TakeIn => {
                self.phase = ScanPhase::GiveUp { found: true };
            },
            ScanPhase::GiveUp { found } => {
                if found {
                    self.phase = ScanPhase::Done { found: true };
                } else {
                    self.next_port();
                }
            },
            ScanPhase::Done { found: _ } => {},
        }
    }

    /// Whether there was mass storage, once all ports were looked at or one had it.
    pub fn outcome(&self) -> (r: Option<bool>)
        ensures
            r == (match self.phase {
                ScanPhase::Done { found } => Some(found),
                _ => None::<bool>,
            }),
    {
        match self.phase {
            ScanPhase::Done { found } => Some(found),
            _ => None,
        }
    }
}

/// What is on the ports of a controller.
pub struct Ports {
    pub connected: spec_fn(int) -> bool,
    pub device: spec_fn(int) -> bool,
    pub storage: spec_fn(int) -> bool,
}

impl Ports {
    /// Whether mass storage is on a port.
    pub open spec fn has_storage(self, port: int) -> bool {
        (self.connected)(port) && (self.device)(port) && (self.storage)(port)
    }

    /// Whether an answer to what `m` asks for is true.
    pub open spec fn answers(self, m: PortScan, ok: bool) -> bool {
        match m.phase {
            ScanPhase::Connection => ok == (self.connected)(m.port as int),
            ScanPhase::Device => ok == (self.device)(m.port as int),
            ScanPhase::Storage => ok == (self.storage)(m.port as int),
            _ => true,
        }
    }

    /// Whether mass storage is on one of the ports from `from` on.
    pub open spec fn any_from(self, from: int, ports: int) -> bool {
        exists|p: int| from <= p < ports && #[trigger] self.has_storage(p)
    }
}

/// `m` came to its port in order: no port before it has mass storage, and what was found out of
/// the port is so.
pub open spec fn in_order(m: PortScan, all: Ports) -> bool {
    let p = m.port as int;
    &&& m.wf()
    &&& match m.phase {
        ScanPhase::Done { found } => if found {
            p < m.ports && all.has_storage(p) && !all.any_from(0, p)
        } else {
            !all.any_from(0, m.ports as int)
        },
        ScanPhase::Connection => !all.any_from(0, p),
        ScanPhase::Device => !all.any_from(0, p) && (all.connected)(p),
        ScanPhase::Storage => !all.any_from(0, p) && (all.connected)(p) && (all.device)(p),
        ScanPhase::TakeIn => !all.any_from(0, p) && all.has_storage(p),
        ScanPhase::GiveUp { found } => !all.any_from(0, p) && found == all.has_storage(p),
    }
}

/// How many answers looking at the ports takes at most.
pub open spec fn scan_left(m: PortScan) -> int {
    5 * (m.ports - m.port) + match m.phase {
        ScanPhase::Connection => 0,
        ScanPhase::Device => -1,
        ScanPhase::Storage => -2,
        ScanPhase::TakeIn => -3,
        ScanPhase::GiveUp { found } => -4,
        ScanPhase::Done { found } => -5 * (m.ports - m.port),
    }
}

/// Looking at the ports begins with the first, takes the model in from the first port that has
/// mass storage and from no other, and is over when it was or when no port has any.
pub proof fn law_first_storage_is_taken(m: PortScan, all: Ports, ok: bool)
    requires
        in_order(m, all),
        all.answers(m, ok),
    ensures
        in_order(PortScan::begin(m.ports), all),
        in_order(m.after(ok), all),
        m.phase == ScanPhase::TakeIn ==> all.has_storage(m.port as int) && !all.any_from(
            0,
            m.port as int,
        ),
        !(m.phase is Done) ==> 0 <= scan_left(m.after(ok)) < scan_left(m),
        m.phase matches ScanPhase::Done { found } ==> found == all.any_from(0, m.ports as int),
{
    let p = m.port as int;
    if !all.any_from(0, p) && !all.has_storage(p) {
        assert forall|q: int| 0 <= q < p + 1 implies !#[trigger] all.has_storage(q) by {
            if q < p {
                assert(!all.any_from(0, p));
            }
        }
    }
}

/// Whether a partition type is one of FAT32.
pub open spec fn is_fat32_type(t: u8) -> bool {
    t == 0x0b || t == 0x0c
}

/// How many bytes of the boot record hold the place of the first partition.
pub const FIRST_PARTITION_END: usize = 458;

/// Where to look for the model, given the boot record if it could be read. One that ends
/// before the place of the first partition names none.
pub open spec fn candidates(mbr: Option<Seq<u8>>) -> Seq<u32> {
    match mbr {
        Some(s) => if s.len() >= FIRST_PARTITION_END && is_fat32_type(s[450]) && bytes::le32(s, 454)
            > 0 {
            seq![bytes::le32(s, 454) as u32, DEFAULT_PARTITION_LBA]
        } else {
            seq![DEFAULT_PARTITION_LBA]
        },
        None => seq![DEFAULT_PARTITION_LBA],
    }
}

/// Finds where to look for the model.
pub fn partition_candidates(mbr: Option<&[u8]>) -> (r: Vec<u32>)
    ensures
        r@ == candidates(disk::reply_of(mbr)),
        0 < r@.len() <= 2,
{
    let mut r: Vec<u32> = Vec::new();
    match mbr {
        Some(s) => {
            if s.len() >= FIRST_PARTITION_END {
                let t = s[450];
                let start: u32 = bytes::le_u32(s, 454);
                if (t == 0x0b || t == 0x0c) && start > 0 {
                    r.push(start);
                }
            }
        },
        None => {},
    }
    r.push(DEFAULT_PARTITION_LBA);
    assert(r@ =~= candidates(disk::reply_of(mbr)));
    r
}

/// What a partition's first block shows.
#[derive(Clone, Copy, PartialEq, Eq, Structural)]
pub enum Probe {
    /// A raw model.
    Raw,
    Volume(Fat32Volume),
    Nothing,
}

/// What the first block of the partition at `base_lba` shows, given the buffer that it was
/// read into.
pub open spec fn probed(base_lba: u32, block_size: u32, reply: Option<Seq<u8>>) -> Probe {
    match reply {
        Some(s) => {
            let block = s.take(block_size as int);
            if fat32::has_gguf_magic(s) {
                Probe::Raw
            } else if fat32::is_fat32(block, block_size as int) {
                Probe::Volume(fat32::volume_of(base_lba, block_size, block))
            } else {
                Probe::Nothing
            }
        },
        None => Probe::Nothing,
    }
}

/// Looks at a partition's first block.
pub fn probe_partition(base_lba: u32, block_size: u32, reply: Option<&[u8]>) -> (r: Probe)
    requires
        reply matches Some(s) ==> s.len() >= block_size,
    ensures
        r == probed(base_lba, block_size, disk::reply_of(reply)),
        r matches Probe::Volume(v) ==> v.wf(),
{
    match reply {
        Some(s) => {
            if fat32::starts_as_gguf(s) {
                return Probe::Raw;
            }
            let block = vstd::slice::slice_subrange(s, 0, block_size as usize);
            assert(block@ =~= s@.take(block_size as int));
            match fat32::parse_fat32_volume(base_lba, block_size, block) {
                Some(v) => Probe::Volume(v),
                None => Probe::Nothing,
            }
        },
        None => Probe::Nothing,
    }
}

/// Where the model was found.
#[derive(Clone, Copy, PartialEq, Eq, Structural)]
pub enum ModelSource {
    File(Fat32Volume, Fat32File),
    Raw(u32),
    Nowhere,
}

/// The size of the model: that of the file, or what a raw model is taken to have.
pub open spec fn source_size(source: ModelSource) -> u64 {
    match source {
        ModelSource::File(_, f) => f.size as u64,
        _ => RAW_GGUF_FALLBACK_SIZE,
    }
}

/// The size of the model.
pub fn model_size(source: &ModelSource) -> (r: u64)
    ensures
        r == source_size(*source),
{
    match source {
        ModelSource::File(_, f) => f.size as u64,
        _ => RAW_GGUF_FALLBACK_SIZE,
    }
}

/// What the model's source is called.
pub fn source_name(source: &ModelSource) -> (r: &'static str)
    ensures
        r == (if *source is File {
            "usb-msc-fat32"
        } else {
            "usb-msc-raw"
        }),
{
    match source {
        ModelSource::File(_, _) => "usb-msc-fat32",
        _ => "usb-msc-raw",
    }
}

/// How far it has come.
#[derive(Clone, Copy, PartialEq, Eq, Structural)]
pub enum TaskPhase {
    BootRecord,
    Probe,
    Search,
    Allocate,
    Chain,
    Raw,
    Done,
    Failed,
}

/// What is asked for.
#[derive(Clone, Copy, PartialEq, Eq, Structural)]
pub enum TaskRequest {
    /// Read a directory's cluster.
    Read(BlockRead),
    /// Read a single block or sector into the buffer for such; the answer is the buffer.
    ReadSector(BlockRead),
    /// Read blocks to `offset` into the model's memory.
    ReadModel { read: BlockRead, offset: u64 },
    /// Memory for the model.
    Allocate { size: u64, align: u64 },
    /// Report progress, and let others run.
    Progress { done: u64, total: u64 },
    /// It is over.
    Done,
}

/// Taking the model from a device.
pub struct IngestTask {
    pub block_size: u32,
    pub phase: TaskPhase,
    pub bases: Vec<u32>,
    pub index: usize,
    pub search: FatSearch,
    pub source: ModelSource,
    pub chain: ChainIngest,
    pub raw: RawIngest,
}

/// Taking the model from a device, over sequences.
pub struct Task {
    pub block_size: u32,
    pub phase: TaskPhase,
    pub bases: Seq<u32>,
    pub index: int,
    pub search: Search,
    pub source: ModelSource,
    pub chain: ChainIngest,
    pub raw: RawIngest,
}

impl View for IngestTask {
    type V = Task;

    open spec fn view(&self) -> Task {
        Task {
            block_size: self.block_size,
            phase: self.phase,
            bases: self.bases@,
            index: self.index as int,
            search: self.search@,
            source: self.source,
            chain: self.chain,
            raw: self.raw,
        }
    }
}

impl Task {
    pub open spec fn with_phase(self, phase: TaskPhase) -> Task {
        Task { phase, ..self }
    }

    /// On to candidate `index`, or to memory if there is none.
    pub open spec fn at_candidate(self, index: int) -> Task {
        if index < self.bases.len() {
            Task { index, phase: TaskPhase::Probe, ..self }
        } else {
            Task { source: ModelSource::Nowhere, phase: TaskPhase::Allocate, ..self }
        }
    }

    /// Where the model is.
    pub open spec fn found(self, source: ModelSource) -> Task {
        Task { source, phase: TaskPhase::Allocate, ..self }
    }

    /// Searching the volume, or what came of it.
    pub open spec fn with_search(self, s: Search) -> Task {
        let m = Task { search: s, phase: TaskPhase::Search, ..self };
        if s.phase == SearchPhase::Done {
            match s.found {
                Some(f) => m.found(ModelSource::File(s.vol, f)),
                None => m.at_candidate(self.index + 1),
            }
        } else {
            m
        }
    }

    /// Reading the file, or what came of it.
    pub open spec fn with_chain(self, c: ChainIngest) -> Task {
        Task {
            chain: c,
            phase: match c.phase {
                ChainPhase::Fat => TaskPhase::Chain,
                ChainPhase::Data => TaskPhase::Chain,
                ChainPhase::Progress => TaskPhase::Chain,
                ChainPhase::Done => TaskPhase::Done,
                _ => TaskPhase::Failed,
            },
            ..self
        }
    }

    /// Reading the raw model, or what came of it.
    pub open spec fn with_raw(self, r: RawIngest) -> Task {
        Task {
            raw: r,
            phase: match r.phase {
                RawPhase::Read => TaskPhase::Raw,
                RawPhase::Progress => TaskPhase::Raw,
                RawPhase::Done => TaskPhase::Done,
                RawPhase::Failed => TaskPhase::Failed,
            },
            ..self
        }
    }

    pub open spec fn request(self) -> TaskRequest {
        match self.phase {
            TaskPhase::BootRecord => TaskRequest::ReadSector(
                BlockRead { lba: 0, blocks: 1, len: self.block_size },
            ),
            TaskPhase::Probe => TaskRequest::ReadSector(
                BlockRead { lba: self.bases[self.index], blocks: 1, len: self.block_size },
            ),
            TaskPhase::Search => match (self.search.phase, self.search.request()) {
                (SearchPhase::Cluster, Some(r)) => TaskRequest::Read(r),
                (_, Some(r)) => TaskRequest::ReadSector(r),
                (_, None) => TaskRequest::Done,
            },
            TaskPhase::Allocate => TaskRequest::Allocate {
                size: align::rounded_up(
                    source_size(self.source) as int,
                    chain::USB_MAX_READ_BYTES as int,
                ) as u64,
                align: 4096,
            },
            TaskPhase::Chain => match (self.chain.phase, self.chain.request()) {
                (ChainPhase::Data, Some(read)) => TaskRequest::ReadModel {
                    read,
                    offset: self.chain.copied,
                },
                (_, Some(read)) => TaskRequest::ReadSector(read),
                (_, None) => TaskRequest::Progress {
                    done: self.chain.copied,
                    total: self.chain.file.size as u64,
                },
            },
            TaskPhase::Raw => match self.raw.request() {
                Some(read) => TaskRequest::ReadModel {
                    read,
                    offset: (self.raw.done * self.raw.block_size) as u64,
                },
                None => TaskRequest::Progress {
                    done: if self.raw.done * self.raw.block_size < self.raw.size {
                        (self.raw.done * self.raw.block_size) as u64
                    } else {
                        self.raw.size
                    },
                    total: self.raw.size,
                },
            },
            _ => TaskRequest::Done,
        }
    }

    /// What a reply makes of it: nothing where what was asked for could not be had; else the
    /// bytes that were read, or anything where none were.
    pub open spec fn after(self, reply: Option<Seq<u8>>) -> Task {
        match self.phase {
            TaskPhase::BootRecord => Task { bases: candidates(reply), ..self }.at_candidate(0),
            TaskPhase::Probe => match probed(self.bases[self.index], self.block_size, reply) {
                Probe::Raw => self.found(ModelSource::Raw(self.bases[self.index])),
                Probe::Volume(v) => self.with_search(Search::begin(v)),
                Probe::Nothing => self.at_candidate(self.index + 1),
            },
            TaskPhase::Search => self.with_search(self.search.after(reply)),
            TaskPhase::Allocate => if reply is None {
                self.with_phase(TaskPhase::Failed)
            } else {
                match self.source {
                    ModelSource::File(v, f) => self.with_chain(ChainIngest::begin(v, f)),
                    ModelSource::Raw(lba) => self.with_raw(
                        RawIngest::begin(lba, self.block_size, RAW_GGUF_FALLBACK_SIZE),
                    ),
                    ModelSource::Nowhere => self.with_phase(TaskPhase::Failed),
                }
            },
            TaskPhase::Chain => self.with_chain(self.chain.after(reply)),
            TaskPhase::Raw => self.with_raw(self.raw.after(reply is Some)),
            _ => self,
        }
    }

    /// Whether what is read next fits the buffer that it is read into.
    pub open spec fn askable(self) -> bool {
        &&& self.phase == TaskPhase::Search ==> self.search.askable()
        &&& self.phase == TaskPhase::Chain ==> self.chain.askable()
    }

    /// What holds in each phase.
    pub open spec fn wf(self) -> bool {
        &&& 0 < self.block_size <= 4096
        &&& self.phase == TaskPhase::Probe || self.phase == TaskPhase::Search ==> 0 <= self.index
            < self.bases.len() <= 2
        &&& self.phase == TaskPhase::Search ==> self.search.wf() && self.search.phase
            != SearchPhase::Done
        &&& self.phase == TaskPhase::Chain ==> self.chain.wf() && (self.chain.phase
            == ChainPhase::Fat || self.chain.phase == ChainPhase::Data || self.chain.phase
            == ChainPhase::Progress)
        &&& self.phase == TaskPhase::Raw ==> self.raw.wf() && (self.raw.phase == RawPhase::Read
            || self.raw.phase == RawPhase::Progress)
        &&& self.source matches ModelSource::File(v, f) ==> v.wf()
    }
}

/// A reply that fits the request: of a single block or sector, the buffer that it was read
/// into.
pub open spec fn task_fits(m: Task, reply: Option<Seq<u8>>) -> bool {
    match (m.phase, reply) {
        (TaskPhase::BootRecord, Some(s)) => s.len() >= m.block_size,
        (TaskPhase::Probe, Some(s)) => s.len() >= m.block_size,
        (TaskPhase::Search, _) => m.search.fits(reply),
        (TaskPhase::Chain, _) => m.chain.fits(reply),
        (TaskPhase::Raw, Some(s)) => m.raw.request() matches Some(r) ==> s.len() == r.len,
        _ => true,
    }
}

impl IngestTask {
    /// Begins to take the model from a device with blocks of `block_size` bytes.
    pub fn new(block_size: u32) -> (r: IngestTask)
        requires
            0 < block_size <= 4096,
        ensures
            r@.phase == TaskPhase::BootRecord,
            r@.block_size == block_size,
            r@.source == ModelSource::Nowhere,
            r@.bases == Seq::<u32>::empty(),
            r@.index == 0,
            r@.wf(),
    {
        let idle = Fat32Volume {
            base_lba: 0,
            device_block_size: 512,
            bytes_per_sector: 512,
            device_blocks_per_fs_sector: 1,
            sectors_per_cluster: 1,
            reserved_sectors: 1,
            num_fats: 1,
            fat_size_sectors: 1,
            root_cluster: 2,
            data_start_lba: 2,
        };
        let no_file = Fat32File { first_cluster: 0, size: 0 };
        IngestTask {
            block_size,
            phase: TaskPhase::BootRecord,
            bases: Vec::new(),
            index: 0,
            search: FatSearch::find_gguf_file_in_fat32(idle),
            source: ModelSource::Nowhere,
            chain: ChainIngest::new(idle, no_file),
            raw: RawIngest::new(0, block_size, 0),
        }
    }

    /// Whether what is read next fits the buffer that it is read into.
    pub fn can_ask(&self) -> (r: bool)
        requires
            self@.wf(),
        ensures
            r == self@.askable(),
    {
        match self.phase {
            TaskPhase::Search => match self.search.phase {
                SearchPhase::Magic => self.search.vol.bytes_per_sector <= 4096,
                SearchPhase::Fat => {
                    let n: usize = self.search.frames.len();
                    assert(self.search@.frames.len() == n);
                    assert(self.search@.frames.last() == self.search.frames@[n - 1]@);
                    self.search.vol.can_read_entry(self.search.frames[n - 1].cluster)
                },
                _ => true,
            },
            TaskPhase::Chain => match self.chain.phase {
                ChainPhase::Fat => self.chain.vol.can_read_entry(self.chain.cluster),
                _ => true,
            },
            _ => true,
        }
    }

    /// What is needed next.
    pub fn next_request(&self) -> (r: TaskRequest)
        requires
            self@.wf(),
            self@.askable(),
        ensures
            r == self@.request(),
    {
        match self.phase {
            TaskPhase::BootRecord => TaskRequest::ReadSector(
                BlockRead { lba: 0, blocks: 1, len: self.block_size },
            ),
            TaskPhase::Probe => TaskRequest::ReadSector(
                BlockRead { lba: self.bases[self.index], blocks: 1, len: self.block_size },
            ),
            TaskPhase::Search => match (self.search.phase, self.search.next_request()) {
                (SearchPhase::Cluster, Some(r)) => TaskRequest::Read(r),
                (_, Some(r)) => TaskRequest::ReadSector(r),
                (_, None) => TaskRequest::Done,
            },
            TaskPhase::Allocate => {
                let size: u64 = model_size(&self.source);
                proof {
                    align::lemma_powers();
                    align::lemma_rounded_up(size as int, 0x40_0000);
                }
                TaskRequest::Allocate {
                    size: align::align_up(size, chain::USB_MAX_READ_BYTES),
                    align: 4096,
                }
            },
            TaskPhase::Chain => match (self.chain.phase, self.chain.next_request()) {
                (ChainPhase::Data, Some(read)) => TaskRequest::ReadModel {
                    read,
                    offset: self.chain.copied,
                },
                (_, Some(read)) => TaskRequest::ReadSector(read),
                (_, None) => TaskRequest::Progress {
                    done: self.chain.copied,
                    total: self.chain.file.size as u64,
                },
            },
            TaskPhase::Raw => {
                proof {
                    crate::ingest::raw::lemma_total(self.raw);
                    assert(0 <= self.raw.done * self.raw.block_size <= self.raw.total()
                        * self.raw.block_size) by (nonlinear_arith)
                        requires
                            0 <= self.raw.done <= self.raw.total(),
                    ;
                }
                let bytes: u64 = self.raw.done * self.raw.block_size as u64;
                match self.raw.next_request() {
                    Some(read) => TaskRequest::ReadModel { read, offset: bytes },
                    None => TaskRequest::Progress {
                        done: if bytes < self.raw.size {
                            bytes
                        } else {
                            self.raw.size
                        },
                        total: self.raw.size,
                    },
                }
            },
            _ => TaskRequest::Done,
        }
    }

    fn try_candidate(&mut self, index: usize)
        requires
            0 < old(self)@.block_size <= 4096,
            old(self)@.bases.len() <= 2,
            old(self)@.source matches ModelSource::File(v, f) ==> v.wf(),
        ensures
            final(self)@ == old(self)@.at_candidate(index as int),
            final(self)@.wf(),
    {
        if index < self.bases.len() {
            self.index = index;
            self.phase = TaskPhase::Probe;
        } else {
            self.source = ModelSource::Nowhere;
            self.phase = TaskPhase::Allocate;
        }
    }

    fn settle_search(&mut self)
        requires
            0 < old(self)@.block_size <= 4096,
            0 <= old(self)@.index < old(self)@.bases.len() <= 2,
            old(self)@.search.wf(),
            old(self)@.source matches ModelSource::File(v, f) ==> v.wf(),
        ensures
            final(self)@ == old(self)@.with_search(old(self)@.search),
            final(self)@.wf(),
    {
        self.phase = TaskPhase::Search;
        match self.search.outcome() {
            Some(found) => match found {
                Some(f) => {
                    self.source = ModelSource::File(self.search.vol, f);
                    self.phase = TaskPhase::Allocate;
                },
                None => {
                    self.try_candidate(self.index + 1);
                },
            },
            None => {},
        }
    }

    fn settle_chain(&mut self)
        requires
            0 < old(self)@.block_size <= 4096,
            old(self)@.chain.wf(),
            old(self)@.source matches ModelSource::File(v, f) ==> v.wf(),
        ensures
            final(self)@ == old(self)@.with_chain(old(self)@.chain),
            final(self)@.wf(),
    {
        self.phase = match self.chain.phase {
            ChainPhase::Fat => TaskPhase::Chain,
            ChainPhase::Data => TaskPhase::Chain,
            ChainPhase::Progress => TaskPhase::Chain,
            ChainPhase::Done => TaskPhase::Done,
            _ => TaskPhase::Failed,
        };
    }

    fn settle_raw(&mut self)
        requires
            0 < old(self)@.block_size <= 4096,
            old(self)@.raw.wf(),
            old(self)@.source matches ModelSource::File(v, f) ==> v.wf(),
        ensures
            final(self)@ == old(self)@.with_raw(old(self)@.raw),
            final(self)@.wf(),
    {
        self.phase = match self.raw.phase {
            RawPhase::Read => TaskPhase::Raw,
            RawPhase::Progress => TaskPhase::Raw,
            RawPhase::Done => TaskPhase::Done,
            RawPhase::Failed => TaskPhase::Failed,
        };
    }

    /// Takes a reply.
    pub fn feed(&mut self, reply: Option<&[u8]>)
        requires
            old(self)@.wf(),
            task_fits(old(self)@, disk::reply_of(reply)),
        ensures
            final(self)@ == old(self)@.after(disk::reply_of(reply)),
            final(self)@.wf(),
    {
        match self.phase {
            TaskPhase::BootRecord => {
                self.bases = partition_candidates(reply);
                self.try_candidate(0);
            },
            TaskPhase::Probe => match probe_partition(
                self.bases[self.index],
                self.block_size,
                reply,
            ) {
                Probe::Raw => {
                    self.source = ModelSource::Raw(self.bases[self.index]);
                    self.phase = TaskPhase::Allocate;
                },
                Probe::Volume(v) => {
                    self.search = FatSearch::find_gguf_file_in_fat32(v);
                    self.settle_search();
                },
                Probe::Nothing => {
                    self.try_candidate(self.index + 1);
                },
            },
            TaskPhase::Search => {
                self.search.feed(reply);
                self.settle_search();
            },
            TaskPhase::Allocate => {
                if reply.is_none() {
                    self.phase = TaskPhase::Failed;
                    return;
                }
                match self.source {
                    ModelSource::File(v, f) => {
                        self.chain = ChainIngest::new(v, f);
                        self.settle_chain();
                    },
                    ModelSource::Raw(lba) => {
                        self.raw = RawIngest::new(lba, self.block_size, RAW_GGUF_FALLBACK_SIZE);
                        self.settle_raw();
                    },
                    ModelSource::Nowhere => {
                        self.phase = TaskPhase::Failed;
                    },
                }
            },
            TaskPhase::Chain => {
                self.chain.feed(reply);
                self.settle_chain();
            },
            TaskPhase::Raw => {
                self.raw.feed(reply.is_some());
                self.settle_raw();
            },
            _ => {},
        }
    }

    /// Whether the model is in memory, once it is over.
    pub fn outcome(&self) -> (r: Option<bool>)
        ensures
            match r {
                Some(true) => self@.phase == TaskPhase::Done,
                Some(false) => self@.phase == TaskPhase::Failed,
                None => self@.phase != TaskPhase::Done && self@.phase != TaskPhase::Failed,
            },
    {
        match self.phase {
            TaskPhase::Done => Some(true),
            TaskPhase::Failed => Some(false),
            _ => None,
        }
    }
}

/// A model that is nowhere to be found is never reported as loaded: with both reads of a
/// partition's first block failing, memory is asked for and given up again.
pub proof fn law_nothing_found_fails(m: Task)
    requires
        m.wf(),
        m.phase == TaskPhase::BootRecord,
    ensures
        m.after(None).phase == TaskPhase::Probe,
        m.after(None).after(None).phase == TaskPhase::Allocate,
        m.after(None).after(None).source == ModelSource::Nowhere,
        forall|reply: Option<Seq<u8>>| (#[trigger] m.after(None).after(None).after(reply)).phase
            == TaskPhase::Failed,
{
}

/// More requests than reading a model takes once it was found.
pub open spec fn reading_bound() -> int {
    0x8_0000_0000
}

/// More requests than looking at one partition takes.
pub open spec fn partition_bound() -> int {
    search_law::dir_bound(0) + 2
}

/// How many requests it takes at most to take a model in.
pub open spec fn task_left(m: Task) -> int {
    match m.phase {
        TaskPhase::BootRecord => reading_bound() + 2 + 3 * partition_bound(),
        TaskPhase::Probe => reading_bound() + 1 + (m.bases.len() - m.index) * partition_bound(),
        TaskPhase::Search => reading_bound() + 1 + (m.bases.len() - m.index - 1)
            * partition_bound() + search_law::search_left(m.search),
        TaskPhase::Allocate => reading_bound(),
        TaskPhase::Chain => chain::chain_left(m.chain),
        TaskPhase::Raw => raw::raw_left(m.raw),
        _ => 0,
    }
}

/// Whatever the device answers, taking a model in comes to an end.
pub proof fn law_ingest_ends(m: Task, reply: Option<Seq<u8>>)
    requires
        m.wf(),
        task_fits(m, reply),
        m.phase != TaskPhase::Done && m.phase != TaskPhase::Failed,
    ensures
        0 <= task_left(m.after(reply)) < task_left(m),
{
    let bound = partition_bound();
    let n = m.bases.len() - m.index;
    assert((n - 1) * bound == n * bound - bound) by (nonlinear_arith);
    match m.phase {
        TaskPhase::BootRecord => {
            let count = candidates(reply).len() as int;
            assert(count == 1 || count == 2);
            search_law::lemma_dir_bound(0);
            assert(0 <= count * bound <= 2 * bound) by (nonlinear_arith)
                requires
                    count == 1 || count == 2,
                    bound >= 0,
            ;
        },
        TaskPhase::Probe => {
            search_law::lemma_dir_bound(0);
            assert((n - 1) * bound >= 0) by (nonlinear_arith)
                requires
                    n >= 1,
                    bound >= 0,
            ;
            if let Probe::Volume(v) = probed(m.bases[m.index], m.block_size, reply) {
                fat32::lemma_volume_wf(
                    m.bases[m.index],
                    m.block_size,
                    reply->0.take(m.block_size as int),
                );
                search_law::lemma_begin(v);
            }
        },
        TaskPhase::Search => {
            search_law::lemma_dir_bound(0);
            assert((n - 1) * bound >= 0) by (nonlinear_arith)
                requires
                    n >= 1,
                    bound >= 0,
            ;
            search_law::law_search_ends(m.search, reply);
        },
        TaskPhase::Chain => {
            chain::law_chain_ends(m.chain, reply);
        },
        TaskPhase::Raw => {
            raw::law_raw_ingest_ends(m.raw, reply is Some);
        },
        _ => {},
    }
}

} // verus!
