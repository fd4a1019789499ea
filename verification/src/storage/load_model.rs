//! Loading the raw copy of the model from the disk.

use vstd::prelude::*;

use crate::align;
use crate::bytes;
use crate::storage::disk;
use crate::storage::disk::DiskOp;
use crate::storage::disk::DiskRequest;
use crate::storage::disk::Io;
use crate::storage::ensure;
use crate::storage::ensure::EnsureOp;
use crate::storage::ensure::EnsurePhase;
use crate::storage::model_cache;
use crate::storage::model_cache::CacheCheck;
use crate::storage::model_cache::ModelIo;
use crate::storage::model_cache::ModelRequest;
use crate::storage::write_model;

verus! {

/// How far loading has come.
#[derive(Clone, Copy, PartialEq, Eq, Structural)]
pub enum LoadPhase {
    /// Reading the header.
    Header,
    /// Reading the model's last sector.
    LastSector,
    /// Reading the sector behind the model.
    Probe,
    /// Making sure of the memory database.
    Ensure,
    /// Waiting for memory.
    Allocate,
    /// Reading the model.
    Chunk,
    Done,
    Failed,
}

/// Loading the model behind the header at `cache_lba`.
#[derive(Clone, Copy, PartialEq, Eq, Structural)]
pub struct LoadModelOp {
    pub cache_lba: u64,
    pub capacity: Option<u64>,
    pub registered: Option<u64>,
    pub phase: LoadPhase,
    pub model_size: u64,
    pub offset: u64,
    pub ensure: EnsureOp,
}

/// The alignment of the memory that a model is loaded to.
pub const MODEL_ALIGN: u64 = 4096;

impl LoadModelOp {
    pub open spec fn begin(
        cache_lba: u64,
        capacity: Option<u64>,
        registered: Option<u64>,
    ) -> LoadModelOp {
        LoadModelOp {
            cache_lba,
            capacity,
            registered,
            phase: LoadPhase::Header,
            model_size: 0,
            offset: 0,
            ensure: EnsureOp::begin(0, 0, 0, 0, None).with_phase(EnsurePhase::Failed),
        }
    }

    pub open spec fn with_phase(self, phase: LoadPhase) -> LoadModelOp {
        LoadModelOp { phase, ..self }
    }

    /// Where the model itself starts.
    pub open spec fn data_lba(self) -> int {
        self.cache_lba + model_cache::MODEL_HEADER_SECTORS
    }

    /// The sector behind the model.
    pub open spec fn next_free(self) -> int {
        self.data_lba() + disk::sectors(self.model_size as int)
    }

    /// While the database is made sure of, and when that is over.
    pub open spec fn with_ensure(self, e: EnsureOp) -> LoadModelOp {
        if ensure::is_over(e) {
            LoadModelOp {
                ensure: e,
                registered: e.registered,
                phase: LoadPhase::Allocate,
                ..self
            }
        } else {
            LoadModelOp { ensure: e, phase: LoadPhase::Ensure, ..self }
        }
    }

    /// About to make sure of the database behind the model.
    pub open spec fn ensuring(self) -> LoadModelOp {
        self.with_ensure(
            write_model::database_behind(
                self.data_lba(),
                disk::sectors(self.model_size as int),
                self.capacity,
                self.registered,
            ),
        )
    }

    /// What is asked for.
    pub open spec fn request(self) -> ModelIo {
        match self.phase {
            LoadPhase::Header => ModelIo::Disk(Io::Read { lba: self.cache_lba as int }),
            LoadPhase::LastSector => ModelIo::Disk(Io::Read { lba: self.next_free() - 1 }),
            LoadPhase::Probe => ModelIo::Disk(Io::Read { lba: self.next_free() }),
            LoadPhase::Ensure => ModelIo::Disk(self.ensure.request()),
            LoadPhase::Allocate => ModelIo::Allocate {
                size: align::rounded_up(
                    self.model_size as int,
                    model_cache::MODEL_CHUNK_BYTES as int,
                ),
                align: MODEL_ALIGN as int,
            },
            LoadPhase::Chunk => ModelIo::Disk(
                Io::ReadMany {
                    lba: self.data_lba() + self.offset as int / 512,
                    count: model_cache::chunk_sectors(self.model_size as int, self.offset as int),
                },
            ),
            _ => ModelIo::Done,
        }
    }

    /// What a reply makes of it.
    pub open spec fn after(self, reply: Option<Seq<u8>>) -> LoadModelOp {
        match (self.phase, reply) {
            (LoadPhase::Header, Some(s)) => match model_cache::cache_check(s, self.cache_lba) {
                CacheCheck::Ready(size) => LoadModelOp {
                    model_size: size,
                    phase: if model_cache::range_fits(
                        self.capacity,
                        self.data_lba(),
                        size as int,
                    ) {
                        LoadPhase::LastSector
                    } else {
                        LoadPhase::Failed
                    },
                    ..self
                },
                _ => self.with_phase(LoadPhase::Failed),
            },
            (LoadPhase::LastSector, Some(_)) => match self.capacity {
                Some(c) => if self.next_free() < c {
                    self.with_phase(LoadPhase::Probe)
                } else {
                    self.ensuring()
                },
                None => self.ensuring(),
            },
            (LoadPhase::Probe, _) => self.ensuring(),
            (LoadPhase::Ensure, _) => self.with_ensure(self.ensure.after(reply)),
            (LoadPhase::Allocate, Some(_)) => LoadModelOp {
                offset: 0,
                phase: LoadPhase::Chunk,
                ..self
            },
            (LoadPhase::Chunk, Some(s)) => if self.offset == 0 && s.subrange(0, 4)
                != model_cache::GGUF_MAGIC@ {
                self.with_phase(LoadPhase::Failed)
            } else {
                let next = self.offset + model_cache::chunk_sectors(
                    self.model_size as int,
                    self.offset as int,
                ) * 512;
                LoadModelOp {
                    offset: next as u64,
                    phase: if next < self.model_size {
                        LoadPhase::Chunk
                    } else {
                        LoadPhase::Done
                    },
                    ..self
                }
            },
            (LoadPhase::Done, _) => self,
            _ => self.with_phase(LoadPhase::Failed),
        }
    }

    /// What holds in each phase.
    pub open spec fn wf(self) -> bool {
        &&& self.cache_lba + 0x200_0000 <= u64::MAX
        &&& self.model_size <= model_cache::MAX_RAW_MODEL_SIZE
        &&& self.phase == LoadPhase::LastSector || self.phase == LoadPhase::Probe || self.phase
            == LoadPhase::Ensure || self.phase == LoadPhase::Allocate || self.phase
            == LoadPhase::Chunk ==> self.model_size >= model_cache::MIN_RAW_MODEL_SIZE
        &&& self.phase == LoadPhase::Chunk ==> self.offset < self.model_size && self.offset % 512
            == 0
        &&& self.phase == LoadPhase::Ensure ==> self.ensure.wf() && !ensure::is_over(
            self.ensure,
        )
    }
}

/// Begins to load the model from the cache; where a model is there already, nothing is
/// left to do.
pub fn try_load_raw_model(
    loaded: bool,
    cache_lba: u64,
    capacity: Option<u64>,
    registered: Option<u64>,
) -> (r: LoadModelOp)
    requires
        cache_lba + 0x200_0000 <= u64::MAX,
    ensures
        r == (if loaded {
            LoadModelOp::begin(cache_lba, capacity, registered).with_phase(LoadPhase::Done)
        } else {
            LoadModelOp::begin(cache_lba, capacity, registered)
        }),
        r.wf(),
{
    LoadModelOp {
        cache_lba,
        capacity,
        registered,
        phase: if loaded {
            LoadPhase::Done
        } else {
            LoadPhase::Header
        },
        model_size: 0,
        offset: 0,
        ensure: write_model::idle_ensure(),
    }
}

impl LoadModelOp {
    /// What is needed next.
    pub fn next_request(&self) -> (r: ModelRequest)
        requires
            self.wf(),
        ensures
            r@ == self.request(),
    {
        let data_lba: u64 = self.cache_lba + model_cache::MODEL_HEADER_SECTORS;
        match self.phase {
            LoadPhase::Header => ModelRequest::Disk(DiskRequest::Read { lba: self.cache_lba }),
            LoadPhase::LastSector => ModelRequest::Disk(
                DiskRequest::Read { lba: data_lba + disk::sectors_for_u64(self.model_size) - 1 },
            ),
            LoadPhase::Probe => ModelRequest::Disk(
                DiskRequest::Read { lba: data_lba + disk::sectors_for_u64(self.model_size) },
            ),
            LoadPhase::Ensure => ModelRequest::Disk(self.ensure.next_request()),
            LoadPhase::Allocate => {
                proof {
                    align::lemma_powers();
                    align::lemma_rounded_up(self.model_size as int, 0x40_0000);
                }
                let size: u64 = align::align_up(self.model_size, model_cache::MODEL_CHUNK_BYTES);
                ModelRequest::Allocate { size, align: MODEL_ALIGN }
            },
            LoadPhase::Chunk => ModelRequest::Disk(
                DiskRequest::ReadMany {
                    lba: data_lba + self.offset / 512,
                    count: model_cache::model_chunk(self.model_size, self.offset),
                },
            ),
            _ => ModelRequest::Done,
        }
    }

    fn settle_ensure(&mut self, e: EnsureOp)
        requires
            old(self).wf(),
            old(self).model_size >= model_cache::MIN_RAW_MODEL_SIZE,
            e.wf(),
        ensures
            *final(self) == old(self).with_ensure(e),
            final(self).wf(),
    {
        self.ensure = e;
        match e.phase {
            EnsurePhase::Done | EnsurePhase::Failed => {
                self.registered = e.registered;
                self.phase = LoadPhase::Allocate;
            },
            _ => {
                self.phase = LoadPhase::Ensure;
            },
        }
    }

    fn begin_ensure(&mut self)
        requires
            old(self).wf(),
            old(self).model_size >= model_cache::MIN_RAW_MODEL_SIZE,
        ensures
            *final(self) == old(self).ensuring(),
            final(self).wf(),
    {
        let e = write_model::ensure_behind(
            self.cache_lba + model_cache::MODEL_HEADER_SECTORS,
            disk::sectors_for_u64(self.model_size),
            self.capacity,
            self.registered,
        );
        self.settle_ensure(e);
    }

    /// Takes a reply.
    pub fn feed(&mut self, reply: Option<&[u8]>)
        requires
            old(self).wf(),
            model_cache::model_fits(old(self).request(), disk::reply_of(reply)),
        ensures
            *final(self) == old(self).after(disk::reply_of(reply)),
            final(self).wf(),
    {
        match self.phase {
            LoadPhase::Header => match reply {
                Some(s) => match model_cache::check_model_header(s, self.cache_lba) {
                    CacheCheck::Ready(size) => {
                        self.model_size = size;
                        self.phase = if model_cache::raw_model_range_fits(
                            self.capacity,
                            self.cache_lba + model_cache::MODEL_HEADER_SECTORS,
                            size,
                        ) {
                            LoadPhase::LastSector
                        } else {
                            LoadPhase::Failed
                        };
                    },
                    _ => {
                        self.phase = LoadPhase::Failed;
                    },
                },
                None => {
                    self.phase = LoadPhase::Failed;
                },
            },
            LoadPhase::LastSector => {
                if reply.is_none() {
                    self.phase = LoadPhase::Failed;
                } else {
                    let next_free: u64 = self.cache_lba + model_cache::MODEL_HEADER_SECTORS
                        + disk::sectors_for_u64(self.model_size);
                    match self.capacity {
                        Some(c) => {
                            if next_free < c {
                                self.phase = LoadPhase::Probe;
                            } else {
                                self.begin_ensure();
                            }
                        },
                        None => self.begin_ensure(),
                    }
                }
            },
            LoadPhase::Probe => self.begin_ensure(),
            LoadPhase::Ensure => {
                let mut e = self.ensure;
                e.feed(reply);
                self.settle_ensure(e);
            },
            LoadPhase::Allocate => {
                if reply.is_none() {
                    self.phase = LoadPhase::Failed;
                } else {
                    self.offset = 0;
                    self.phase = LoadPhase::Chunk;
                }
            },
            LoadPhase::Chunk => match reply {
                Some(s) => {
                    let n: u16 = model_cache::model_chunk(self.model_size, self.offset);
                    if self.offset == 0 && !bytes::same_bytes(
                        &s[0..4],
                        model_cache::GGUF_MAGIC.as_slice(),
                    ) {
                        self.phase = LoadPhase::Failed;
                    } else {
                        self.offset = self.offset + n as u64 * 512;
                        if self.offset >= self.model_size {
                            self.phase = LoadPhase::Done;
                        }
                    }
                },
                None => {
                    self.phase = LoadPhase::Failed;
                },
            },
            _ => {},
        }
    }

    /// Whether there is a model in memory, once loading is over.
    pub fn outcome(&self) -> (r: Option<bool>)
        ensures
            match r {
                Some(true) => self.phase == LoadPhase::Done,
                Some(false) => self.phase == LoadPhase::Failed,
                None => self.phase != LoadPhase::Done && self.phase != LoadPhase::Failed,
            },
    {
        match self.phase {
            LoadPhase::Done => Some(true),
            LoadPhase::Failed => Some(false),
            _ => None,
        }
    }
}

} // verus!
