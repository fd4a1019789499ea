//! Writing the raw copy of the model to the disk.

use vstd::prelude::*;

use crate::storage::disk;
use crate::storage::disk::DiskOp;
use crate::storage::disk::DiskRequest;
use crate::storage::disk::Io;
use crate::storage::ensure;
use crate::storage::ensure::EnsureOp;
use crate::storage::ensure::EnsurePhase;
use crate::storage::model_cache;
use crate::storage::model_cache::ModelIo;
use crate::storage::model_cache::ModelRequest;

verus! {

/// How far writing has come.
#[derive(Clone, Copy, PartialEq, Eq, Structural)]
pub enum WritePhase {
    SmokeWrite,
    SmokeRead,
    WritingHeader,
    Chunk,
    ReadyHeader,
    Ensure,
    Done,
    Failed,
}

/// Writing a model of `model_size` bytes behind the header at `cache_lba`.
#[derive(Clone, Copy, PartialEq, Eq, Structural)]
pub struct WriteModelOp {
    pub cache_lba: u64,
    pub model_size: u64,
    pub capacity: Option<u64>,
    pub registered: Option<u64>,
    pub phase: WritePhase,
    pub offset: u64,
    pub ensure: EnsureOp,
}

/// Making sure of a database behind the model that takes up `sectors` from `data_lba` on.
pub open spec fn database_behind(
    data_lba: int,
    sectors: int,
    capacity: Option<u64>,
    registered: Option<u64>,
) -> EnsureOp {
    let db = (data_lba + sectors) as u64;
    let last = (data_lba + if sectors > 0 {
        sectors - 1
    } else {
        0
    }) as u64;
    EnsureOp::started(db, data_lba as u64, last, capacity, registered)
}

/// Begins to make sure of a database behind a model.
pub fn ensure_behind(
    data_lba: u64,
    sectors: u64,
    capacity: Option<u64>,
    registered: Option<u64>,
) -> (r: EnsureOp)
    requires
        data_lba + sectors <= u64::MAX,
    ensures
        r == database_behind(data_lba as int, sectors as int, capacity, registered),
        r.wf(),
{
    let last: u64 = if sectors > 0 {
        data_lba + (sectors - 1)
    } else {
        data_lba
    };
    ensure::ensure_memory_db(data_lba + sectors, data_lba, last, capacity, registered)
}

impl WriteModelOp {
    pub open spec fn begin(
        cache_lba: u64,
        model_size: u64,
        capacity: Option<u64>,
        registered: Option<u64>,
    ) -> WriteModelOp {
        WriteModelOp {
            cache_lba,
            model_size,
            capacity,
            registered,
            phase: if model_cache::range_fits(
                capacity,
                cache_lba + model_cache::MODEL_HEADER_SECTORS,
                model_size as int,
            ) {
                WritePhase::SmokeWrite
            } else {
                WritePhase::Failed
            },
            offset: 0,
            ensure: EnsureOp::begin(0, 0, 0, 0, None).with_phase(EnsurePhase::Failed),
        }
    }

    pub open spec fn with_phase(self, phase: WritePhase) -> WriteModelOp {
        WriteModelOp { phase, ..self }
    }

    /// Where the model itself starts.
    pub open spec fn data_lba(self) -> int {
        self.cache_lba + model_cache::MODEL_HEADER_SECTORS
    }

    /// While the database is made sure of, and when that is over.
    pub open spec fn with_ensure(self, e: EnsureOp) -> WriteModelOp {
        if ensure::is_over(e) {
            WriteModelOp {
                ensure: e,
                registered: e.registered,
                phase: WritePhase::Done,
                ..self
            }
        } else {
            WriteModelOp { ensure: e, phase: WritePhase::Ensure, ..self }
        }
    }

    /// What is asked for.
    pub open spec fn request(self) -> ModelIo {
        match self.phase {
            WritePhase::SmokeWrite => ModelIo::Disk(
                Io::Write {
                    lba: self.cache_lba + 1,
                    data: model_cache::smoke_sector((self.cache_lba + 1) as u64),
                },
            ),
            WritePhase::SmokeRead => ModelIo::Disk(Io::Read { lba: self.cache_lba + 1 }),
            WritePhase::WritingHeader => ModelIo::Disk(
                Io::Write {
                    lba: self.cache_lba as int,
                    data: model_cache::model_header_sector(
                        model_cache::MODEL_MAGIC_WRITING@,
                        self.model_size,
                        self.data_lba() as u64,
                    ),
                },
            ),
            WritePhase::Chunk => ModelIo::WriteModel {
                lba: self.data_lba() + self.offset as int / 512,
                offset: self.offset as int,
                count: model_cache::chunk_sectors(self.model_size as int, self.offset as int),
            },
            WritePhase::ReadyHeader => ModelIo::Disk(
                Io::Write {
                    lba: self.cache_lba as int,
                    data: model_cache::model_header_sector(
                        model_cache::MODEL_MAGIC_READY@,
                        self.model_size,
                        self.data_lba() as u64,
                    ),
                },
            ),
            WritePhase::Ensure => ModelIo::Disk(self.ensure.request()),
            _ => ModelIo::Done,
        }
    }

    /// What a reply makes of it.
    pub open spec fn after(self, reply: Option<Seq<u8>>) -> WriteModelOp {
        match (self.phase, reply) {
            (WritePhase::SmokeWrite, Some(_)) => self.with_phase(WritePhase::SmokeRead),
            (WritePhase::SmokeRead, Some(s)) => if model_cache::smoke_ok(
                s,
                (self.cache_lba + 1) as u64,
            ) {
                self.with_phase(WritePhase::WritingHeader)
            } else {
                self.with_phase(WritePhase::Failed)
            },
            (WritePhase::WritingHeader, Some(_)) => WriteModelOp {
                offset: 0,
                phase: if self.model_size > 0 {
                    WritePhase::Chunk
                } else {
                    WritePhase::ReadyHeader
                },
                ..self
            },
            (WritePhase::Chunk, Some(_)) => {
                let next = self.offset + model_cache::chunk_sectors(
                    self.model_size as int,
                    self.offset as int,
                ) * 512;
                WriteModelOp {
                    offset: next as u64,
                    phase: if next < self.model_size {
                        WritePhase::Chunk
                    } else {
                        WritePhase::ReadyHeader
                    },
                    ..self
                }
            },
            (WritePhase::ReadyHeader, Some(_)) => self.with_ensure(
                database_behind(
                    self.data_lba(),
                    disk::sectors(self.model_size as int),
                    self.capacity,
                    self.registered,
                ),
            ),
            (WritePhase::Ensure, _) => self.with_ensure(self.ensure.after(reply)),
            (WritePhase::Done, _) => self,
            _ => self.with_phase(WritePhase::Failed),
        }
    }

    /// What holds in each phase.
    pub open spec fn wf(self) -> bool {
        &&& self.cache_lba + model_cache::MODEL_HEADER_SECTORS + disk::sectors(
            self.model_size as int,
        ) <= u64::MAX
        &&& self.model_size + 512 <= u64::MAX
        &&& self.phase == WritePhase::Chunk ==> self.offset < self.model_size && self.offset % 512
            == 0
        &&& self.phase == WritePhase::Ensure ==> self.ensure.wf() && !ensure::is_over(self.ensure)
    }
}

/// Begins to write a model of `model_size` bytes to the cache. It fails at once where the
/// model does not fit on the disk.
pub fn write_raw_model_cache(
    cache_lba: u64,
    model_size: u64,
    capacity: Option<u64>,
    registered: Option<u64>,
) -> (r: WriteModelOp)
    requires
        cache_lba + model_cache::MODEL_HEADER_SECTORS + disk::sectors(model_size as int)
            <= u64::MAX,
        model_size + 512 <= u64::MAX,
    ensures
        r == WriteModelOp::begin(cache_lba, model_size, capacity, registered),
        r.wf(),
{
    let data_lba: u64 = cache_lba + model_cache::MODEL_HEADER_SECTORS;
    let phase = if model_cache::raw_model_range_fits(capacity, data_lba, model_size) {
        WritePhase::SmokeWrite
    } else {
        WritePhase::Failed
    };
    WriteModelOp {
        cache_lba,
        model_size,
        capacity,
        registered,
        phase,
        offset: 0,
        ensure: idle_ensure(),
    }
}

/// A placeholder until the database is made sure of.
pub fn idle_ensure() -> (r: EnsureOp)
    ensures
        r == EnsureOp::begin(0, 0, 0, 0, None).with_phase(EnsurePhase::Failed),
{
    ensure::ensure_memory_db(0, 0, 0, None, None)
}

impl WriteModelOp {
    /// What is needed next.
    pub fn next_request(&self) -> (r: ModelRequest)
        requires
            self.wf(),
        ensures
            r@ == self.request(),
    {
        let data_lba: u64 = self.cache_lba + model_cache::MODEL_HEADER_SECTORS;
        match self.phase {
            WritePhase::SmokeWrite => ModelRequest::Disk(
                DiskRequest::Write {
                    lba: self.cache_lba + 1,
                    data: model_cache::build_smoke_sector(self.cache_lba + 1),
                },
            ),
            WritePhase::SmokeRead => ModelRequest::Disk(
                DiskRequest::Read { lba: self.cache_lba + 1 },
            ),
            WritePhase::WritingHeader => ModelRequest::Disk(
                DiskRequest::Write {
                    lba: self.cache_lba,
                    data: model_cache::write_model_header(
                        &model_cache::MODEL_MAGIC_WRITING,
                        self.model_size,
                        data_lba,
                    ),
                },
            ),
            WritePhase::Chunk => ModelRequest::WriteModel {
                lba: data_lba + self.offset / 512,
                offset: self.offset,
                count: model_cache::model_chunk(self.model_size, self.offset),
            },
            WritePhase::ReadyHeader => ModelRequest::Disk(
                DiskRequest::Write {
                    lba: self.cache_lba,
                    data: model_cache::write_model_header(
                        &model_cache::MODEL_MAGIC_READY,
                        self.model_size,
                        data_lba,
                    ),
                },
            ),
            WritePhase::Ensure => ModelRequest::Disk(self.ensure.next_request()),
            _ => ModelRequest::Done,
        }
    }

    fn settle_ensure(&mut self, e: EnsureOp)
        requires
            old(self).wf(),
            e.wf(),
        ensures
            *final(self) == old(self).with_ensure(e),
            final(self).wf(),
    {
        self.ensure = e;
        match e.phase {
            EnsurePhase::Done | EnsurePhase::Failed => {
                self.registered = e.registered;
                self.phase = WritePhase::Done;
            },
            _ => {
                self.phase = WritePhase::Ensure;
            },
        }
    }

    /// Takes a reply.
    pub fn feed(&mut self, reply: Option<&[u8]>)
        requires
            old(self).wf(),
            model_cache::model_fits(old(self).request(), disk::reply_of(reply)),
        ensures
            *final(self) == old(self).after(disk::reply_of(reply)),
            final(self).wf(),
    {
        match self.phase {
            WritePhase::SmokeWrite => {
                self.phase = if reply.is_none() {
                    WritePhase::Failed
                } else {
                    WritePhase::SmokeRead
                };
            },
            WritePhase::SmokeRead => match reply {
                Some(s) => {
                    self.phase = if model_cache::smoke_test_passed(s, self.cache_lba + 1) {
                        WritePhase::WritingHeader
                    } else {
                        WritePhase::Failed
                    };
                },
                None => {
                    self.phase = WritePhase::Failed;
                },
            },
            WritePhase::WritingHeader => {
                if reply.is_none() {
                    self.phase = WritePhase::Failed;
                } else {
                    self.offset = 0;
                    self.phase = if self.model_size > 0 {
                        WritePhase::Chunk
                    } else {
                        WritePhase::ReadyHeader
                    };
                }
            },
            WritePhase::Chunk => {
                if reply.is_none() {
                    self.phase = WritePhase::Failed;
                } else {
                    let n: u16 = model_cache::model_chunk(self.model_size, self.offset);
                    self.offset = self.offset + n as u64 * 512;
                    if self.offset >= self.model_size {
                        self.phase = WritePhase::ReadyHeader;
                    }
                }
            },
            WritePhase::ReadyHeader => {
                if reply.is_none() {
                    self.phase = WritePhase::Failed;
                } else {
                    let e = ensure_behind(
                        self.cache_lba + model_cache::MODEL_HEADER_SECTORS,
                        disk::sectors_for_u64(self.model_size),
                        self.capacity,
                        self.registered,
                    );
                    self.settle_ensure(e);
                }
            },
            WritePhase::Ensure => {
                let mut e = self.ensure;
                e.feed(reply);
                self.settle_ensure(e);
            },
            _ => {},
        }
    }

    /// Whether the model was written, once that is over.
    pub fn outcome(&self) -> (r: Option<Result<(), ()>>)
        ensures
            match r {
                Some(Ok(_)) => self.phase == WritePhase::Done,
                Some(Err(_)) => self.phase == WritePhase::Failed,
                None => self.phase != WritePhase::Done && self.phase != WritePhase::Failed,
            },
    {
        match self.phase {
            WritePhase::Done => Some(Ok(())),
            WritePhase::Failed => Some(Err(())),
            _ => None,
        }
    }
}

} // verus!
