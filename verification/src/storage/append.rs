//! Appending a payload to the memory database.

use vstd::prelude::*;

use crate::bytes;
use crate::storage::disk;
use crate::storage::disk::DiskOp;
use crate::storage::disk::DiskRequest;
use crate::storage::disk::Io;
use crate::storage::disk::SECTOR_SIZE;
use crate::storage::layout;
use crate::storage::layout::MemoryDbHeader;
use crate::storage::layout::MemoryDbMapEntry;
use crate::storage::opening;
use crate::storage::opening::OpenPhase;
use crate::storage::opening::Opening;

verus! {

/// The largest transfer, in sectors.
pub const MODEL_IO_SECTORS: usize = 8192;

/// How far appending has come.
#[derive(Clone, Copy, PartialEq, Eq, Structural)]
pub enum AppendPhase {
    Open,
    Data,
    EntrySector,
    EntryWrite,
    MapHeaderWrite,
    HeaderWrite,
    Done,
    Failed,
}

/// Appending a payload.
pub struct AppendOp {
    pub capacity: Option<u64>,
    pub data: Vec<u8>,
    pub phase: AppendPhase,
    pub opening: Opening,
    pub state: MemoryDbHeader,
    pub end: u64,
    pub done: usize,
    pub lba: u64,
    pub sector: Vec<u8>,
}

/// Appending a payload, over byte strings.
pub struct Append {
    pub capacity: Option<u64>,
    pub data: Seq<u8>,
    pub phase: AppendPhase,
    pub opening: Opening,
    pub state: MemoryDbHeader,
    pub end: int,
    pub done: int,
    pub lba: int,
    pub sector: Seq<u8>,
}

impl View for AppendOp {
    type V = Append;

    open spec fn view(&self) -> Append {
        Append {
            capacity: self.capacity,
            data: self.data@,
            phase: self.phase,
            opening: self.opening,
            state: self.state,
            end: self.end as int,
            done: self.done as int,
            lba: self.lba as int,
            sector: self.sector@,
        }
    }
}

/// The sector behind the last one that may be written: behind the data of the database,
/// or behind the disk if that ends earlier.
pub open spec fn append_end(h: MemoryDbHeader, capacity: u64) -> int {
    if opening::data_end(h) <= opening::sat64(capacity + 1) {
        opening::data_end(h)
    } else {
        opening::sat64(capacity + 1)
    }
}

impl Append {
    /// About to append `data` to the database whose header is at `db`.
    pub open spec fn begin(db: u64, capacity: Option<u64>, data: Seq<u8>) -> Append {
        Append {
            capacity,
            data,
            phase: AppendPhase::Open,
            opening: Opening::begin(db),
            state: opening::blank_header(),
            end: 0,
            done: 0,
            lba: 0,
            sector: Seq::empty(),
        }
    }

    pub open spec fn with_phase(self, phase: AppendPhase) -> Append {
        Append { phase, ..self }
    }

    /// With the database open: whether there is room at all, and where writing starts.
    pub open spec fn planned(self, h: MemoryDbHeader) -> Append {
        match self.capacity {
            Some(capacity) => {
                let end = append_end(h, capacity);
                if h.map_entries_used >= layout::MEMORY_DB_MAP_MAX_ENTRIES || h.next_append_lba
                    < h.data_lba || h.next_append_lba >= end {
                    self.with_phase(AppendPhase::Failed)
                } else {
                    Append {
                        state: h,
                        end,
                        done: 0,
                        lba: h.next_append_lba as int,
                        phase: AppendPhase::Data,
                        ..self
                    }
                }
            },
            None => self.with_phase(AppendPhase::Failed),
        }
    }

    /// How many whole sectors of the payload are written next.
    pub open spec fn whole(self) -> int {
        let n = (self.data.len() - self.done) / 512;
        let m = if n <= self.end - self.lba {
            n
        } else {
            self.end - self.lba
        };
        if m <= MODEL_IO_SECTORS {
            m
        } else {
            MODEL_IO_SECTORS as int
        }
    }

    /// What is written next: whole sectors, or the rest filled up with zeros.
    pub open spec fn chunk(self) -> Seq<u8> {
        if self.whole() > 0 {
            self.data.subrange(self.done, self.done + self.whole() * 512)
        } else {
            disk::padded(self.data.subrange(self.done, self.data.len() as int))
        }
    }

    /// After `chunk` was written.
    pub open spec fn chunk_written(self) -> Append {
        let next = if self.whole() > 0 {
            Append {
                done: self.done + self.whole() * 512,
                lba: self.lba + self.whole(),
                ..self
            }
        } else {
            Append { done: self.data.len() as int, lba: self.lba + 1, ..self }
        };
        if next.done < self.data.len() {
            if next.lba >= self.end {
                next.with_phase(AppendPhase::Failed)
            } else {
                next
            }
        } else if self.data.len() > u32::MAX {
            next.with_phase(AppendPhase::Failed)
        } else {
            next.with_phase(AppendPhase::EntrySector)
        }
    }

    /// The entry that lists the payload.
    pub open spec fn entry(self) -> MemoryDbMapEntry {
        MemoryDbMapEntry {
            start_lba: self.state.next_append_lba,
            payload_bytes: self.data.len() as u32,
            flags: layout::MEMORY_DB_MAP_FLAG_ACTIVE,
        }
    }

    /// The header once the payload is listed.
    pub open spec fn listed(self) -> MemoryDbHeader {
        MemoryDbHeader {
            map_entries_used: (self.state.map_entries_used + 1) as u64,
            next_append_lba: self.lba as u64,
            ..self.state
        }
    }

    /// What holds in each phase.
    pub open spec fn wf(self) -> bool {
        &&& self.opening.wf()
        &&& self.phase == AppendPhase::Open ==> self.data.len() > 0 && self.opening.phase
            != OpenPhase::Opened && self.opening.phase != OpenPhase::Refused
        &&& self.phase == AppendPhase::Data ==> 0 <= self.done < self.data.len() && self.lba
            < self.end <= u64::MAX
        &&& self.phase == AppendPhase::Data || self.phase == AppendPhase::EntrySector || self.phase
            == AppendPhase::EntryWrite ==> self.state.map_entries_used
            < layout::MEMORY_DB_MAP_MAX_ENTRIES
        &&& self.phase == AppendPhase::EntrySector || self.phase == AppendPhase::EntryWrite
            ==> self.data.len() <= u32::MAX
    }
}

impl DiskOp for Append {
    open spec fn request(self) -> Io {
        match self.phase {
            AppendPhase::Open => self.opening.request(),
            AppendPhase::Data => Io::Write { lba: self.lba, data: self.chunk() },
            AppendPhase::EntrySector => Io::Read {
                lba: opening::entry_lba(self.state.map_lba, self.state.map_entries_used),
            },
            AppendPhase::EntryWrite => Io::Write {
                lba: opening::entry_lba(self.state.map_lba, self.state.map_entries_used),
                data: self.sector,
            },
            AppendPhase::MapHeaderWrite => Io::Write {
                lba: self.state.map_lba as int,
                data: layout::map_header_sector(self.state.map_entries_used),
            },
            AppendPhase::HeaderWrite => Io::Write {
                lba: self.opening.db as int,
                data: layout::header_sector(self.state),
            },
            _ => Io::Done,
        }
    }

    open spec fn after(self, reply: Option<Seq<u8>>) -> Append {
        match (self.phase, reply) {
            (AppendPhase::Open, _) => {
                let o = self.opening.after(reply);
                let next = Append { opening: o, ..self };
                match o.phase {
                    OpenPhase::Opened => next.planned(o.state),
                    OpenPhase::Refused => next.with_phase(AppendPhase::Failed),
                    _ => next,
                }
            },
            (AppendPhase::Data, Some(_)) => self.chunk_written(),
            (AppendPhase::EntrySector, Some(s)) => Append {
                sector: layout::with_map_entry(
                    s,
                    opening::entry_offset(self.state.map_entries_used),
                    self.entry(),
                ),
                phase: AppendPhase::EntryWrite,
                ..self
            },
            (AppendPhase::EntryWrite, Some(_)) => Append {
                state: self.listed(),
                phase: AppendPhase::MapHeaderWrite,
                ..self
            },
            (AppendPhase::MapHeaderWrite, Some(_)) => if self.state.header_lba == self.opening.db {
                self.with_phase(AppendPhase::HeaderWrite)
            } else {
                self.with_phase(AppendPhase::Failed)
            },
            (AppendPhase::HeaderWrite, Some(_)) => self.with_phase(AppendPhase::Done),
            (AppendPhase::Done, _) => self,
            _ => self.with_phase(AppendPhase::Failed),
        }
    }
}

/// What came of an operation that is over: how many bytes it moved, or that it failed.
pub open spec fn append_outcome(a: Append) -> Option<Result<int, ()>> {
    match a.phase {
        AppendPhase::Done => Some(Ok(a.data.len() as int)),
        AppendPhase::Failed => Some(Err(())),
        _ => None,
    }
}

/// Begins to append a payload. `registered` is where the database's header was found,
/// `capacity` the disk's size in sectors, as far as they are known. Nothing is appended,
/// at once and successfully, where the payload is empty.
pub fn append_memory_db(registered: Option<u64>, capacity: Option<u64>, data: &[u8]) -> (r: AppendOp)
    ensures
        r@.wf(),
        match registered {
            None => r@.phase == AppendPhase::Failed,
            Some(db) => if data@.len() == 0 {
                r@ == Append::begin(db, capacity, data@).with_phase(AppendPhase::Done)
            } else {
                r@ == Append::begin(db, capacity, data@)
            },
        },
{
    let (db, phase) = match registered {
        None => (0u64, AppendPhase::Failed),
        Some(db) => (
            db,
            if data.len() == 0 {
                AppendPhase::Done
            } else {
                AppendPhase::Open
            },
        ),
    };
    let r = AppendOp {
        capacity,
        data: bytes::to_vec(data),
        phase,
        opening: Opening::new(db),
        state: opening::empty_header(),
        end: 0,
        done: 0,
        lba: 0,
        sector: Vec::new(),
    };
    assert(r@.sector =~= Seq::empty());
    r
}

impl AppendOp {
    fn whole(&self) -> (r: usize)
        requires
            self@.wf(),
            self@.phase == AppendPhase::Data,
        ensures
            r == self@.whole(),
            self.done + r * 512 <= self.data.len(),
            self.lba + r <= self.end,
    {
        let n: usize = (self.data.len() - self.done) / SECTOR_SIZE;
        let room: u64 = self.end - self.lba;
        let m: usize = if n as u64 <= room {
            n
        } else {
            room as usize
        };
        if m <= MODEL_IO_SECTORS {
            m
        } else {
            MODEL_IO_SECTORS
        }
    }

    /// What is needed next.
    pub fn next_request(&self) -> (r: DiskRequest)
        requires
            self@.wf(),
        ensures
            r@ == self@.request(),
    {
        match self.phase {
            AppendPhase::Open => self.opening.next_request(),
            AppendPhase::Data => {
                let n: usize = self.whole();
                let data = if n > 0 {
                    bytes::to_vec(&self.data.as_slice()[self.done..self.done + n * SECTOR_SIZE])
                } else {
                    let ghost rest = self.data@.subrange(self.done as int, self.data@.len() as int);
                    let mut tail = bytes::to_vec(&self.data.as_slice()[self.done..self.data.len()]);
                    assert(0 < rest.len() < 512);
                    tail.resize(SECTOR_SIZE, 0);
                    assert(tail@ =~= disk::padded(rest));
                    tail
                };
                DiskRequest::Write { lba: self.lba, data }
            },
            AppendPhase::EntrySector => {
                let (lba, _): (u64, usize) = opening::locate_entry(
                    self.state.map_lba,
                    self.state.map_entries_used,
                );
                DiskRequest::Read { lba }
            },
            AppendPhase::EntryWrite => {
                let (lba, _): (u64, usize) = opening::locate_entry(
                    self.state.map_lba,
                    self.state.map_entries_used,
                );
                DiskRequest::Write { lba, data: bytes::to_vec(self.sector.as_slice()) }
            },
            AppendPhase::MapHeaderWrite => DiskRequest::Write {
                lba: self.state.map_lba,
                data: layout::memory_db_write_map_header(self.state.map_entries_used),
            },
            AppendPhase::HeaderWrite => DiskRequest::Write {
                lba: self.opening.db,
                data: layout::memory_db_write_header(&self.state),
            },
            _ => DiskRequest::Done,
        }
    }

    fn plan(&mut self)
        requires
            old(self)@.opening.wf(),
            old(self)@.data.len() > 0,
            old(self)@.phase == AppendPhase::Open,
        ensures
            final(self)@ == old(self)@.planned(old(self)@.opening.state),
            final(self)@.wf(),
    {
        let h = self.opening.state;
        match self.capacity {
            Some(capacity) => {
                let data_end: u64 = opening::memory_db_data_end(&h);
                let disk_end: u64 = capacity.saturating_add(1);
                let end: u64 = if data_end <= disk_end {
                    data_end
                } else {
                    disk_end
                };
                if h.map_entries_used >= layout::MEMORY_DB_MAP_MAX_ENTRIES || h.next_append_lba
                    < h.data_lba || h.next_append_lba >= end {
                    self.phase = AppendPhase::Failed;
                } else {
                    self.state = h;
                    self.end = end;
                    self.done = 0;
                    self.lba = h.next_append_lba;
                    self.phase = AppendPhase::Data;
                }
            },
            None => {
                self.phase = AppendPhase::Failed;
            },
        }
    }

    /// Takes a reply.
    pub fn feed(&mut self, reply: Option<&[u8]>)
        requires
            old(self)@.wf(),
            disk::fits(old(self)@.request(), disk::reply_of(reply)),
        ensures
            final(self)@ == old(self)@.after(disk::reply_of(reply)),
            final(self)@.wf(),
    {
        match self.phase {
            AppendPhase::Open => {
                self.opening.feed(reply);
                match self.opening.phase {
                    OpenPhase::Opened => self.plan(),
                    OpenPhase::Refused => {
                        self.phase = AppendPhase::Failed;
                    },
                    _ => {},
                }
            },
            AppendPhase::Data => {
                if reply.is_none() {
                    self.phase = AppendPhase::Failed;
                    return;
                }
                let n: usize = self.whole();
                if n > 0 {
                    self.done = self.done + n * SECTOR_SIZE;
                    self.lba = self.lba + n as u64;
                } else {
                    self.done = self.data.len();
                    self.lba = self.lba + 1;
                }
                if self.done < self.data.len() {
                    if self.lba >= self.end {
                        self.phase = AppendPhase::Failed;
                    }
                } else if self.data.len() as u64 > 0xffff_ffff {
                    self.phase = AppendPhase::Failed;
                } else {
                    self.phase = AppendPhase::EntrySector;
                }
            },
            AppendPhase::EntrySector => match reply {
                None => {
                    self.phase = AppendPhase::Failed;
                },
                Some(s) => {
                    let (_, off): (u64, usize) = opening::locate_entry(
                        self.state.map_lba,
                        self.state.map_entries_used,
                    );
                    let mut sector = bytes::to_vec(s);
                    let e = MemoryDbMapEntry {
                        start_lba: self.state.next_append_lba,
                        payload_bytes: self.data.len() as u32,
                        flags: layout::MEMORY_DB_MAP_FLAG_ACTIVE,
                    };
                    layout::memory_db_write_map_entry(&mut sector, off, e);
                    self.sector = sector;
                    self.phase = AppendPhase::EntryWrite;
                },
            },
            AppendPhase::EntryWrite => {
                if reply.is_none() {
                    self.phase = AppendPhase::Failed;
                } else {
                    self.state.map_entries_used = self.state.map_entries_used + 1;
                    self.state.next_append_lba = self.lba;
                    self.phase = AppendPhase::MapHeaderWrite;
                }
            },
            AppendPhase::MapHeaderWrite => {
                if reply.is_none() || self.state.header_lba != self.opening.db {
                    self.phase = AppendPhase::Failed;
                } else {
                    self.phase = AppendPhase::HeaderWrite;
                }
            },
            AppendPhase::HeaderWrite => {
                if reply.is_none() {
                    self.phase = AppendPhase::Failed;
                } else {
                    self.phase = AppendPhase::Done;
                }
            },
            _ => {},
        }
    }

    /// How many bytes were appended, once appending is over.
    pub fn outcome(&self) -> (r: Option<Result<usize, ()>>)
        ensures
            match r {
                Some(Ok(n)) => append_outcome(self@) == Some(Ok::<int, ()>(n as int)),
                Some(Err(e)) => append_outcome(self@) == Some(Err::<int, ()>(())),
                None => append_outcome(self@) is None,
            },
    {
        match self.phase {
            AppendPhase::Done => Some(Ok(self.data.len())),
            AppendPhase::Failed => Some(Err(())),
            _ => None,
        }
    }
}

} // verus!
