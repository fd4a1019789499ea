//! Reading back what was appended to the memory database.

use vstd::prelude::*;

use crate::storage::disk;
use crate::storage::disk::DiskOp;
use crate::storage::disk::DiskRequest;
use crate::storage::disk::Io;
use crate::storage::disk::SECTOR_SIZE;
use crate::storage::layout;
use crate::storage::layout::MemoryDbHeader;
use crate::storage::layout::MemoryDbMapEntry;
use crate::storage::opening;
use crate::storage::opening::OpenPhase;
use crate::storage::opening::Opening;

verus! {

/// How far reading has come.
#[derive(Clone, Copy, PartialEq, Eq, Structural)]
pub enum ReadPhase {
    Open,
    Entry,
    Data,
    Done,
    Failed,
}

/// Reading the payloads, one after the other, until a buffer is full.
pub struct ReadOp {
    pub capacity: Option<u64>,
    pub room: usize,
    pub out: Vec<u8>,
    pub phase: ReadPhase,
    pub opening: Opening,
    pub state: MemoryDbHeader,
    pub tail: u64,
    pub left: u64,
    pub entry: MemoryDbMapEntry,
    pub taken: usize,
}

/// Reading the payloads, over byte strings.
pub struct Reading {
    pub capacity: Option<u64>,
    pub room: int,
    pub out: Seq<u8>,
    pub phase: ReadPhase,
    pub opening: Opening,
    pub state: MemoryDbHeader,
    pub tail: int,
    pub left: int,
    pub entry: MemoryDbMapEntry,
    pub taken: int,
}

impl View for ReadOp {
    type V = Reading;

    open spec fn view(&self) -> Reading {
        Reading {
            capacity: self.capacity,
            room: self.room as int,
            out: self.out@,
            phase: self.phase,
            opening: self.opening,
            state: self.state,
            tail: self.tail as int,
            left: self.left as int,
            entry: self.entry,
            taken: self.taken as int,
        }
    }
}

/// An entry with nothing in it.
pub open spec fn blank_entry() -> MemoryDbMapEntry {
    MemoryDbMapEntry { start_lba: 0, payload_bytes: 0, flags: 0 }
}

impl Reading {
    /// About to read up to `room` bytes from the database whose header is at `db`.
    pub open spec fn begin(db: u64, capacity: Option<u64>, room: int) -> Reading {
        Reading {
            capacity,
            room,
            out: Seq::empty(),
            phase: ReadPhase::Open,
            opening: Opening::begin(db),
            state: opening::blank_header(),
            tail: 0,
            left: 0,
            entry: blank_entry(),
            taken: 0,
        }
    }

    pub open spec fn with_phase(self, phase: ReadPhase) -> Reading {
        Reading { phase, ..self }
    }

    /// With the database open: whether its state makes sense, and how many entries there are.
    pub open spec fn planned(self, h: MemoryDbHeader) -> Reading {
        let end = opening::data_end(h);
        match self.capacity {
            Some(capacity) => if h.next_append_lba < h.data_lba || h.next_append_lba > end {
                self.with_phase(ReadPhase::Failed)
            } else {
                Reading {
                    state: h,
                    tail: if capacity > end {
                        capacity as int
                    } else {
                        end
                    },
                    left: if h.map_entries_used <= layout::MEMORY_DB_MAP_MAX_ENTRIES {
                        h.map_entries_used as int
                    } else {
                        layout::MEMORY_DB_MAP_MAX_ENTRIES as int
                    },
                    ..self
                }.next_entry()
            },
            None => self.with_phase(ReadPhase::Failed),
        }
    }

    /// The index of the entry that comes next.
    pub open spec fn index(self) -> int {
        self.state.map_entries_used - self.left
    }

    /// On to the next entry, if there is one and there is room.
    pub open spec fn next_entry(self) -> Reading {
        if self.left == 0 || self.out.len() >= self.room {
            self.with_phase(ReadPhase::Done)
        } else if self.index() >= layout::MEMORY_DB_MAP_MAX_ENTRIES {
            self.with_phase(ReadPhase::Failed)
        } else {
            self.with_phase(ReadPhase::Entry)
        }
    }

    /// The sector that the next bytes of the entry stand in.
    pub open spec fn data_lba(self) -> int {
        self.entry.start_lba + self.taken / 512
    }

    /// On with this entry while it has more and there is room, else to the next.
    pub open spec fn next_data(self) -> Reading {
        if self.taken < self.entry.payload_bytes && self.out.len() < self.room {
            if self.data_lba() > u64::MAX || self.data_lba() >= self.tail {
                self.with_phase(ReadPhase::Failed)
            } else {
                self.with_phase(ReadPhase::Data)
            }
        } else {
            Reading { left: self.left - 1, ..self }.next_entry()
        }
    }

    /// How many bytes of the sector at hand are taken.
    pub open spec fn take_len(self) -> int {
        let a = self.entry.payload_bytes - self.taken;
        let b = self.room - self.out.len();
        let c = if a <= b {
            a
        } else {
            b
        };
        if c <= 512 {
            c
        } else {
            512
        }
    }

    /// What holds in each phase.
    pub open spec fn wf(self) -> bool {
        &&& self.opening.wf()
        &&& self.out.len() <= self.room <= usize::MAX
        &&& self.phase == ReadPhase::Open ==> self.out.len() < self.room && self.opening.phase
            != OpenPhase::Opened && self.opening.phase != OpenPhase::Refused
        &&& self.phase == ReadPhase::Entry ==> 0 < self.left <= self.state.map_entries_used
            && self.index() < layout::MEMORY_DB_MAP_MAX_ENTRIES && self.out.len() < self.room
        &&& self.phase == ReadPhase::Data ==> 0 < self.left <= self.state.map_entries_used && 0
            <= self.taken < self.entry.payload_bytes && self.out.len() < self.room
            && self.data_lba() < self.tail <= u64::MAX && self.taken % 512 == 0
    }
}

impl DiskOp for Reading {
    open spec fn request(self) -> Io {
        match self.phase {
            ReadPhase::Open => self.opening.request(),
            ReadPhase::Entry => Io::Read {
                lba: opening::entry_lba(self.state.map_lba, self.index() as u64),
            },
            ReadPhase::Data => Io::Read { lba: self.data_lba() },
            _ => Io::Done,
        }
    }

    open spec fn after(self, reply: Option<Seq<u8>>) -> Reading {
        match (self.phase, reply) {
            (ReadPhase::Open, _) => {
                let o = self.opening.after(reply);
                let next = Reading { opening: o, ..self };
                match o.phase {
                    OpenPhase::Opened => next.planned(o.state),
                    OpenPhase::Refused => next.with_phase(ReadPhase::Failed),
                    _ => next,
                }
            },
            (ReadPhase::Entry, Some(s)) => {
                let e = layout::entry_of(s, opening::entry_offset(self.index() as u64));
                if layout::counts(e) {
                    Reading { entry: e, taken: 0, ..self }.next_data()
                } else {
                    self.with_phase(ReadPhase::Done)
                }
            },
            (ReadPhase::Data, Some(s)) => Reading {
                out: self.out + s.subrange(0, self.take_len()),
                taken: self.taken + self.take_len(),
                ..self
            }.next_data(),
            (ReadPhase::Done, _) => self,
            _ => self.with_phase(ReadPhase::Failed),
        }
    }
}

/// Begins to read up to `buf_len` bytes. `registered` is where the database's header was
/// found, `capacity` the disk's size in sectors, as far as they are known. Where there is
/// no room, nothing is read, at once and successfully.
pub fn read_memory_db(registered: Option<u64>, capacity: Option<u64>, buf_len: usize) -> (r: ReadOp)
    ensures
        r@.wf(),
        match registered {
            None => r@.phase == ReadPhase::Failed,
            Some(db) => if buf_len == 0 {
                r@ == Reading::begin(db, capacity, 0).with_phase(ReadPhase::Done)
            } else {
                r@ == Reading::begin(db, capacity, buf_len as int)
            },
        },
{
    let (db, phase) = match registered {
        None => (0u64, ReadPhase::Failed),
        Some(db) => (
            db,
            if buf_len == 0 {
                ReadPhase::Done
            } else {
                ReadPhase::Open
            },
        ),
    };
    let r = ReadOp {
        capacity,
        room: buf_len,
        out: Vec::new(),
        phase,
        opening: Opening::new(db),
        state: opening::empty_header(),
        tail: 0,
        left: 0,
        entry: MemoryDbMapEntry { start_lba: 0, payload_bytes: 0, flags: 0 },
        taken: 0,
    };
    assert(r@.out =~= Seq::empty());
    r
}

impl ReadOp {
    /// What is needed next.
    pub fn next_request(&self) -> (r: DiskRequest)
        requires
            self@.wf(),
        ensures
            r@ == self@.request(),
    {
        match self.phase {
            ReadPhase::Open => self.opening.next_request(),
            ReadPhase::Entry => {
                let (lba, _): (u64, usize) = opening::locate_entry(
                    self.state.map_lba,
                    self.state.map_entries_used - self.left,
                );
                DiskRequest::Read { lba }
            },
            ReadPhase::Data => DiskRequest::Read {
                lba: self.entry.start_lba + (self.taken / SECTOR_SIZE) as u64,
            },
            _ => DiskRequest::Done,
        }
    }

    fn next_entry(&mut self)
        requires
            old(self)@.opening.wf(),
            old(self)@.out.len() <= old(self)@.room,
            0 <= old(self)@.left <= old(self)@.state.map_entries_used,
        ensures
            final(self)@ == old(self)@.next_entry(),
            final(self)@.wf(),
    {
        if self.left == 0 || self.out.len() >= self.room {
            self.phase = ReadPhase::Done;
        } else if self.state.map_entries_used - self.left >= layout::MEMORY_DB_MAP_MAX_ENTRIES {
            self.phase = ReadPhase::Failed;
        } else {
            self.phase = ReadPhase::Entry;
        }
    }

    fn next_data(&mut self)
        requires
            old(self)@.opening.wf(),
            old(self)@.out.len() <= old(self)@.room,
            0 < old(self)@.left <= old(self)@.state.map_entries_used,
            old(self)@.taken % 512 == 0 || old(self)@.taken >= old(self)@.entry.payload_bytes
                || old(self)@.out.len() >= old(self)@.room,
        ensures
            final(self)@ == old(self)@.next_data(),
            final(self)@.wf(),
    {
        if (self.taken as u64) < self.entry.payload_bytes as u64 && self.out.len() < self.room {
            match self.entry.start_lba.checked_add((self.taken / SECTOR_SIZE) as u64) {
                Some(lba) => {
                    if lba >= self.tail {
                        self.phase = ReadPhase::Failed;
                    } else {
                        self.phase = ReadPhase::Data;
                    }
                },
                None => {
                    self.phase = ReadPhase::Failed;
                },
            }
        } else {
            self.left = self.left - 1;
            self.next_entry();
        }
    }

    fn plan(&mut self)
        requires
            old(self)@.opening.wf(),
            old(self)@.out.len() < old(self)@.room,
            old(self)@.phase == ReadPhase::Open,
        ensures
            final(self)@ == old(self)@.planned(old(self)@.opening.state),
            final(self)@.wf(),
    {
        let h = self.opening.state;
        let end: u64 = opening::memory_db_data_end(&h);
        match self.capacity {
            Some(capacity) => {
                if h.next_append_lba < h.data_lba || h.next_append_lba > end {
                    self.phase = ReadPhase::Failed;
                } else {
                    self.state = h;
                    self.tail = if capacity > end {
                        capacity
                    } else {
                        end
                    };
                    self.left = if h.map_entries_used <= layout::MEMORY_DB_MAP_MAX_ENTRIES {
                        h.map_entries_used
                    } else {
                        layout::MEMORY_DB_MAP_MAX_ENTRIES
                    };
                    self.next_entry();
                }
            },
            None => {
                self.phase = ReadPhase::Failed;
            },
        }
    }

    fn take_len(&self) -> (r: usize)
        requires
            self@.wf(),
            self@.phase == ReadPhase::Data,
        ensures
            r == self@.take_len(),
            0 < r <= 512,
    {
        let a: u64 = self.entry.payload_bytes as u64 - self.taken as u64;
        let b: usize = self.room - self.out.len();
        let c: usize = if a <= 512 {
            a as usize
        } else {
            512
        };
        if c <= b {
            c
        } else {
            b
        }
    }

    /// Takes a reply.
    pub fn feed(&mut self, reply: Option<&[u8]>)
        requires
            old(self)@.wf(),
            disk::fits(old(self)@.request(), disk::reply_of(reply)),
        ensures
            final(self)@ == old(self)@.after(disk::reply_of(reply)),
            final(self)@.wf(),
    {
        match self.phase {
            ReadPhase::Open => {
                self.opening.feed(reply);
                match self.opening.phase {
                    OpenPhase::Opened => self.plan(),
                    OpenPhase::Refused => {
                        self.phase = ReadPhase::Failed;
                    },
                    _ => {},
                }
            },
            ReadPhase::Entry => match reply {
                Some(s) => {
                    let (_, off): (u64, usize) = opening::locate_entry(
                        self.state.map_lba,
                        self.state.map_entries_used - self.left,
                    );
                    let e = layout::memory_db_read_map_entry(s, off);
                    if layout::entry_counts(&e) {
                        self.entry = e;
                        self.taken = 0;
                        self.next_data();
                    } else {
                        self.phase = ReadPhase::Done;
                    }
                },
                None => {
                    self.phase = ReadPhase::Failed;
                },
            },
            ReadPhase::Data => match reply {
                Some(s) => {
                    let n: usize = self.take_len();
                    let ghost before = self.out@;
                    self.out.extend_from_slice(&s[0..n]);
                    assert(self.out@ =~= before + s@.subrange(0, n as int));
                    self.taken = self.taken + n;
                    self.next_data();
                },
                None => {
                    self.phase = ReadPhase::Failed;
                },
            },
            _ => {},
        }
    }

    /// What was read, once reading is over; nothing where it failed.
    pub fn outcome(&self) -> (r: Option<Result<Vec<u8>, ()>>)
        ensures
            match r {
                Some(Ok(b)) => self@.phase == ReadPhase::Done && b@ == self@.out,
                Some(Err(e)) => self@.phase == ReadPhase::Failed,
                None => self@.phase != ReadPhase::Done && self@.phase != ReadPhase::Failed,
            },
    {
        match self.phase {
            ReadPhase::Done => Some(Ok(crate::bytes::to_vec(self.out.as_slice()))),
            ReadPhase::Failed => Some(Err(())),
            _ => None,
        }
    }
}

} // verus!
