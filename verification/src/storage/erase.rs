//! Erasing the memory database.

use vstd::prelude::*;

use crate::bytes;
use crate::storage::disk;
use crate::storage::disk::DiskOp;
use crate::storage::disk::DiskRequest;
use crate::storage::disk::Io;
use crate::storage::disk::SECTOR_SIZE;
use crate::storage::layout;
use crate::storage::layout::MemoryDbHeader;
use crate::storage::opening;

verus! {

/// How far erasing has come.
#[derive(Clone, Copy, PartialEq, Eq, Structural)]
pub enum ErasePhase {
    Header,
    Zero,
    MapHeader,
    HeaderWrite,
    Done,
    Failed,
}

/// Erasing the database whose header is at `db`.
#[derive(Clone, Copy, PartialEq, Eq, Structural)]
pub struct EraseOp {
    pub db: u64,
    pub capacity: Option<u64>,
    pub phase: ErasePhase,
    pub state: MemoryDbHeader,
    pub lba: u64,
}

/// Whether a header is that of a database that may be erased on a disk of `capacity`
/// sectors.
pub open spec fn erasable(db: u64, capacity: Option<u64>, h: MemoryDbHeader) -> bool {
    &&& h.header_lba == db
    &&& opening::map_in_place(db, h)
    &&& h.total_sectors == layout::MEMORY_DB_TOTAL_SECTORS
    &&& capacity matches Some(c) && db + layout::MEMORY_DB_TOTAL_SECTORS <= c
}

impl EraseOp {
    pub open spec fn begin(db: u64, capacity: Option<u64>) -> EraseOp {
        EraseOp {
            db,
            capacity,
            phase: ErasePhase::Header,
            state: opening::blank_header(),
            lba: db,
        }
    }

    pub open spec fn with_phase(self, phase: ErasePhase) -> EraseOp {
        EraseOp { phase, ..self }
    }

    /// The sector behind the database.
    pub open spec fn end(self) -> int {
        self.db + layout::MEMORY_DB_TOTAL_SECTORS
    }

    /// How many sectors are zeroed next.
    pub open spec fn count(self) -> int {
        if self.end() - self.lba <= layout::MEMORY_DB_ERASE_CHUNK_SECTORS {
            self.end() - self.lba
        } else {
            layout::MEMORY_DB_ERASE_CHUNK_SECTORS as int
        }
    }

    /// The header of the emptied database.
    pub open spec fn fresh(self) -> MemoryDbHeader {
        MemoryDbHeader {
            version: layout::MEMORY_DB_VERSION,
            sector_size: SECTOR_SIZE as u32,
            header_lba: self.db,
            data_lba: self.state.data_lba,
            total_sectors: layout::MEMORY_DB_TOTAL_SECTORS,
            next_append_lba: self.state.data_lba,
            last_ssd_lba: match self.capacity {
                Some(c) => if c > 0 {
                    (c - 1) as u64
                } else {
                    0
                },
                None => 0,
            },
            model_start_lba: self.state.model_start_lba,
            model_last_lba: self.state.model_last_lba,
            map_lba: self.state.map_lba,
            map_entries_used: 0,
            map_sectors: layout::MEMORY_DB_MAP_SECTORS,
        }
    }

    /// What holds in each phase.
    pub open spec fn wf(self) -> bool {
        self.phase == ErasePhase::Zero ==> self.db <= self.lba < self.end() <= u64::MAX
    }
}

impl DiskOp for EraseOp {
    open spec fn request(self) -> Io {
        match self.phase {
            ErasePhase::Header => Io::Read { lba: self.db as int },
            ErasePhase::Zero => Io::Write {
                lba: self.lba as int,
                data: bytes::zeros(self.count() * 512),
            },
            ErasePhase::MapHeader => Io::Write {
                lba: self.state.map_lba as int,
                data: layout::map_header_sector(0),
            },
            ErasePhase::HeaderWrite => Io::Write {
                lba: self.db as int,
                data: layout::header_sector(self.fresh()),
            },
            _ => Io::Done,
        }
    }

    open spec fn after(self, reply: Option<Seq<u8>>) -> EraseOp {
        match (self.phase, reply) {
            (ErasePhase::Header, Some(s)) => match layout::header_of(s) {
                Some(h) => if erasable(self.db, self.capacity, h) {
                    EraseOp { state: h, lba: self.db, phase: ErasePhase::Zero, ..self }
                } else {
                    self.with_phase(ErasePhase::Failed)
                },
                None => self.with_phase(ErasePhase::Failed),
            },
            (ErasePhase::Zero, Some(_)) => EraseOp {
                lba: (self.lba + self.count()) as u64,
                phase: if self.lba + self.count() < self.end() {
                    ErasePhase::Zero
                } else {
                    ErasePhase::MapHeader
                },
                ..self
            },
            (ErasePhase::MapHeader, Some(_)) => self.with_phase(ErasePhase::HeaderWrite),
            (ErasePhase::HeaderWrite, Some(_)) => self.with_phase(ErasePhase::Done),
            (ErasePhase::Done, _) => self,
            _ => self.with_phase(ErasePhase::Failed),
        }
    }
}

/// Begins to erase the database. `registered` is where its header was found, `capacity`
/// the disk's size in sectors, as far as they are known.
pub fn erase_memory_db(registered: Option<u64>, capacity: Option<u64>) -> (r: EraseOp)
    ensures
        r.wf(),
        match registered {
            None => r.phase == ErasePhase::Failed,
            Some(db) => r == EraseOp::begin(db, capacity),
        },
{
    let (db, phase) = match registered {
        None => (0u64, ErasePhase::Failed),
        Some(db) => (db, ErasePhase::Header),
    };
    EraseOp { db, capacity, phase, state: opening::empty_header(), lba: db }
}

impl EraseOp {
    fn chunk_sectors(&self) -> (r: u64)
        requires
            self.wf(),
            self.phase == ErasePhase::Zero,
        ensures
            r == self.count(),
            0 < r <= 8,
    {
        let left: u64 = self.db + layout::MEMORY_DB_TOTAL_SECTORS - self.lba;
        if left <= layout::MEMORY_DB_ERASE_CHUNK_SECTORS {
            left
        } else {
            layout::MEMORY_DB_ERASE_CHUNK_SECTORS
        }
    }

    /// What is needed next.
    pub fn next_request(&self) -> (r: DiskRequest)
        requires
            self.wf(),
        ensures
            r@ == self.request(),
    {
        match self.phase {
            ErasePhase::Header => DiskRequest::Read { lba: self.db },
            ErasePhase::Zero => {
                let n: u64 = self.chunk_sectors();
                DiskRequest::Write {
                    lba: self.lba,
                    data: bytes::zeroed(n as usize * SECTOR_SIZE),
                }
            },
            ErasePhase::MapHeader => DiskRequest::Write {
                lba: self.state.map_lba,
                data: layout::memory_db_write_map_header(0),
            },
            ErasePhase::HeaderWrite => {
                let last: u64 = match self.capacity {
                    Some(c) => c.saturating_sub(1),
                    None => 0,
                };
                let fresh = MemoryDbHeader {
                    version: layout::MEMORY_DB_VERSION,
                    sector_size: SECTOR_SIZE as u32,
                    header_lba: self.db,
                    data_lba: self.state.data_lba,
                    total_sectors: layout::MEMORY_DB_TOTAL_SECTORS,
                    next_append_lba: self.state.data_lba,
                    last_ssd_lba: last,
                    model_start_lba: self.state.model_start_lba,
                    model_last_lba: self.state.model_last_lba,
                    map_lba: self.state.map_lba,
                    map_entries_used: 0,
                    map_sectors: layout::MEMORY_DB_MAP_SECTORS,
                };
                DiskRequest::Write { lba: self.db, data: layout::memory_db_write_header(&fresh) }
            },
            _ => DiskRequest::Done,
        }
    }

    /// Takes a reply.
    pub fn feed(&mut self, reply: Option<&[u8]>)
        requires
            old(self).wf(),
            disk::fits(old(self).request(), disk::reply_of(reply)),
        ensures
            *final(self) == old(self).after(disk::reply_of(reply)),
            final(self).wf(),
    {
        match self.phase {
            ErasePhase::Header => match reply {
                Some(s) => match layout::memory_db_read_header(s) {
                    Some(h) => {
                        let fits = match self.capacity {
                            Some(c) => match self.db.checked_add(layout::MEMORY_DB_TOTAL_SECTORS) {
                                Some(end) => end <= c,
                                None => false,
                            },
                            None => false,
                        };
                        if fits && h.header_lba == self.db && h.map_lba == self.db.saturating_add(1)
                            && h.map_sectors == layout::MEMORY_DB_MAP_SECTORS && h.total_sectors
                            == layout::MEMORY_DB_TOTAL_SECTORS {
                            self.state = h;
                            self.lba = self.db;
                            self.phase = ErasePhase::Zero;
                        } else {
                            self.phase = ErasePhase::Failed;
                        }
                    },
                    None => {
                        self.phase = ErasePhase::Failed;
                    },
                },
                None => {
                    self.phase = ErasePhase::Failed;
                },
            },
            ErasePhase::Zero => {
                if reply.is_none() {
                    self.phase = ErasePhase::Failed;
                } else {
                    let n: u64 = self.chunk_sectors();
                    self.lba = self.lba + n;
                    if self.lba >= self.db + layout::MEMORY_DB_TOTAL_SECTORS {
                        self.phase = ErasePhase::MapHeader;
                    }
                }
            },
            ErasePhase::MapHeader => {
                self.phase = if reply.is_none() {
                    ErasePhase::Failed
                } else {
                    ErasePhase::HeaderWrite
                };
            },
            ErasePhase::HeaderWrite => {
                self.phase = if reply.is_none() {
                    ErasePhase::Failed
                } else {
                    ErasePhase::Done
                };
            },
            _ => {},
        }
    }

    /// Whether erasing succeeded, once it is over.
    pub fn outcome(&self) -> (r: Option<Result<(), ()>>)
        ensures
            match r {
                Some(Ok(_)) => self.phase == ErasePhase::Done,
                Some(Err(_)) => self.phase == ErasePhase::Failed,
                None => self.phase != ErasePhase::Done && self.phase != ErasePhase::Failed,
            },
    {
        match self.phase {
            ErasePhase::Done => Some(Ok(())),
            ErasePhase::Failed => Some(Err(())),
            _ => None,
        }
    }
}

} // verus!
