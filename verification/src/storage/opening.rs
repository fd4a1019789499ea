//! Opening the memory database: reading its header and going through its map, so that
//! the next payload goes behind those that the map lists.

use vstd::prelude::*;

use crate::storage::disk;
use crate::storage::disk::DiskOp;
use crate::storage::disk::DiskRequest;
use crate::storage::disk::Io;
use crate::storage::layout;
use crate::storage::layout::MemoryDbHeader;
use crate::storage::layout::MemoryDbMapEntry;

verus! {

/// `v`, or the largest `u64` where `v` is beyond it.
pub open spec fn sat64(v: int) -> int {
    if v > u64::MAX {
        u64::MAX as int
    } else {
        v
    }
}

/// The first sector behind the data of the database.
pub open spec fn data_end(h: MemoryDbHeader) -> int {
    sat64(h.data_lba + h.total_sectors)
}

/// The first sector behind the data of the database.
pub fn memory_db_data_end(h: &MemoryDbHeader) -> (r: u64)
    ensures
        r == data_end(*h),
{
    h.data_lba.saturating_add(h.total_sectors)
}

/// How far going through a map has come.
#[derive(Clone, Copy, PartialEq, Eq, Structural)]
pub struct Recovery {
    /// How many entries the map says it has.
    pub mapped: u64,
    /// The sector behind the payloads of the entries gone through.
    pub cursor: u64,
    /// How many entries were gone through.
    pub recovered: u64,
}

/// What the next entry makes of going through a map.
#[derive(Clone, Copy, PartialEq, Eq, Structural)]
pub enum RecoveryStep {
    /// There are more entries.
    More(Recovery),
    /// The map ends here.
    Over(Recovery),
    /// The map is unusable.
    Broken,
}

/// What entry `e` makes of going through the map of `h`.
pub open spec fn recovery_step(h: MemoryDbHeader, r: Recovery, e: MemoryDbMapEntry) -> RecoveryStep {
    let next = r.cursor + disk::sectors(e.payload_bytes as int);
    if !layout::counts(e) {
        RecoveryStep::Over(r)
    } else if next > u64::MAX {
        RecoveryStep::Broken
    } else if e.start_lba != r.cursor || next > data_end(h) {
        RecoveryStep::Over(r)
    } else {
        let r2 = Recovery {
            mapped: r.mapped,
            cursor: next as u64,
            recovered: (r.recovered + 1) as u64,
        };
        if r.recovered + 1 < r.mapped {
            RecoveryStep::More(r2)
        } else {
            RecoveryStep::Over(r2)
        }
    }
}

/// Takes the next entry of a map.
pub fn recover_entry(h: &MemoryDbHeader, r: Recovery, e: &MemoryDbMapEntry) -> (s: RecoveryStep)
    requires
        r.recovered < r.mapped,
    ensures
        s == recovery_step(*h, r, *e),
{
    if !layout::entry_counts(e) {
        return RecoveryStep::Over(r);
    }
    let count: u64 = (e.payload_bytes as u64 + 511) / 512;
    match r.cursor.checked_add(count) {
        None => RecoveryStep::Broken,
        Some(next) => {
            if e.start_lba != r.cursor || next > memory_db_data_end(h) {
                return RecoveryStep::Over(r);
            }
            let r2 = Recovery { mapped: r.mapped, cursor: next, recovered: r.recovered + 1 };
            if r2.recovered < r.mapped {
                RecoveryStep::More(r2)
            } else {
                RecoveryStep::Over(r2)
            }
        },
    }
}

/// The header with what going through its map found.
pub open spec fn recovered_header(h: MemoryDbHeader, r: Recovery) -> MemoryDbHeader {
    MemoryDbHeader { next_append_lba: r.cursor, map_entries_used: r.recovered, ..h }
}

/// The header with what going through its map found.
pub fn with_recovered(h: &MemoryDbHeader, r: &Recovery) -> (h2: MemoryDbHeader)
    ensures
        h2 == recovered_header(*h, *r),
{
    let mut h2: MemoryDbHeader = *h;
    h2.next_append_lba = r.cursor;
    h2.map_entries_used = r.recovered;
    h2
}

/// Going through a map never leaves the data of the database, so what is appended next
/// goes inside it or right behind it.
pub proof fn law_recovered_cursor_in_range(h: MemoryDbHeader, r: Recovery, e: MemoryDbMapEntry)
    requires
        h.data_lba <= r.cursor <= data_end(h),
    ensures
        match recovery_step(h, r, e) {
            RecoveryStep::More(r2) => h.data_lba <= r2.cursor <= data_end(h),
            RecoveryStep::Over(r2) => h.data_lba <= r2.cursor <= data_end(h),
            RecoveryStep::Broken => true,
        },
{
}

/// The sector that entry `index` of a map stands in: the entries follow the head of the map.
pub open spec fn entry_lba(map_lba: u64, index: u64) -> int {
    match layout::entry_place(index as int) {
        Some((sector, off)) => sat64(map_lba + (sector + 1)),
        None => 0,
    }
}

/// The byte at which entry `index` of a map stands in its sector.
pub open spec fn entry_offset(index: u64) -> int {
    match layout::entry_place(index as int) {
        Some((sector, off)) => off,
        None => 0,
    }
}

/// Finds the sector of an entry, and the byte at which it stands there.
pub fn locate_entry(map_lba: u64, index: u64) -> (r: (u64, usize))
    ensures
        r.0 == entry_lba(map_lba, index),
        r.1 == entry_offset(index),
        r.1 + 16 <= 512,
{
    match layout::memory_db_map_entry_location(index) {
        Ok((sector, off)) => (map_lba.saturating_add(sector + 1), off),
        Err(_) => (0, 0),
    }
}

/// How far opening has come.
#[derive(Clone, Copy, PartialEq, Eq, Structural)]
pub enum OpenPhase {
    Header,
    MapHeader,
    Entry,
    Opened,
    Refused,
}

/// Opening the database whose header is at `db`.
#[derive(Clone, Copy, PartialEq, Eq, Structural)]
pub struct Opening {
    pub db: u64,
    pub phase: OpenPhase,
    pub state: MemoryDbHeader,
    pub rec: Recovery,
}

/// A header with nothing in it.
pub open spec fn blank_header() -> MemoryDbHeader {
    MemoryDbHeader {
        version: 0,
        sector_size: 0,
        header_lba: 0,
        data_lba: 0,
        total_sectors: 0,
        next_append_lba: 0,
        last_ssd_lba: 0,
        model_start_lba: 0,
        model_last_lba: 0,
        map_lba: 0,
        map_entries_used: 0,
        map_sectors: 0,
    }
}

/// A header with nothing in it.
pub fn empty_header() -> (h: MemoryDbHeader)
    ensures
        h == blank_header(),
{
    MemoryDbHeader {
        version: 0,
        sector_size: 0,
        header_lba: 0,
        data_lba: 0,
        total_sectors: 0,
        next_append_lba: 0,
        last_ssd_lba: 0,
        model_start_lba: 0,
        model_last_lba: 0,
        map_lba: 0,
        map_entries_used: 0,
        map_sectors: 0,
    }
}

/// Nothing gone through yet.
pub open spec fn no_recovery() -> Recovery {
    Recovery { mapped: 0, cursor: 0, recovered: 0 }
}

/// Whether a header's map stands where it belongs.
pub open spec fn map_in_place(db: u64, h: MemoryDbHeader) -> bool {
    h.map_lba == sat64(db + 1) && h.map_sectors == layout::MEMORY_DB_MAP_SECTORS
}

impl Opening {
    /// About to read the header.
    pub open spec fn begin(db: u64) -> Opening {
        Opening { db, phase: OpenPhase::Header, state: blank_header(), rec: no_recovery() }
    }

    pub open spec fn with_phase(self, phase: OpenPhase) -> Opening {
        Opening { phase, ..self }
    }

    /// An entry that is waited for is one of the map.
    pub open spec fn wf(self) -> bool {
        self.phase == OpenPhase::Entry ==> self.rec.recovered < self.rec.mapped
            <= layout::MEMORY_DB_MAP_MAX_ENTRIES
    }
}

impl DiskOp for Opening {
    open spec fn request(self) -> Io {
        match self.phase {
            OpenPhase::Header => Io::Read { lba: self.db as int },
            OpenPhase::MapHeader => Io::Read { lba: self.state.map_lba as int },
            OpenPhase::Entry => Io::Read {
                lba: entry_lba(self.state.map_lba, self.rec.recovered),
            },
            _ => Io::Done,
        }
    }

    open spec fn after(self, reply: Option<Seq<u8>>) -> Opening {
        match (self.phase, reply) {
            (OpenPhase::Header, Some(s)) => match layout::header_of(s) {
                Some(h) => if map_in_place(self.db, h) {
                    Opening { state: h, phase: OpenPhase::MapHeader, ..self }
                } else {
                    self.with_phase(OpenPhase::Refused)
                },
                None => self.with_phase(OpenPhase::Refused),
            },
            (OpenPhase::Header, None) => self.with_phase(OpenPhase::Refused),
            (OpenPhase::MapHeader, Some(s)) => match layout::map_used_of(s) {
                Some(used) => {
                    let rec = Recovery {
                        mapped: used,
                        cursor: self.state.data_lba,
                        recovered: 0,
                    };
                    if used == 0 {
                        Opening {
                            state: recovered_header(self.state, rec),
                            phase: OpenPhase::Opened,
                            rec,
                            ..self
                        }
                    } else {
                        Opening { phase: OpenPhase::Entry, rec, ..self }
                    }
                },
                None => self.with_phase(OpenPhase::Opened),
            },
            (OpenPhase::Entry, Some(s)) => match recovery_step(
                self.state,
                self.rec,
                layout::entry_of(s, entry_offset(self.rec.recovered)),
            ) {
                RecoveryStep::More(rec) => Opening { rec, ..self },
                RecoveryStep::Over(rec) => Opening {
                    state: recovered_header(self.state, rec),
                    phase: OpenPhase::Opened,
                    rec,
                    ..self
                },
                RecoveryStep::Broken => self.with_phase(OpenPhase::Opened),
            },
            (OpenPhase::MapHeader, None) => self.with_phase(OpenPhase::Opened),
            (OpenPhase::Entry, None) => self.with_phase(OpenPhase::Opened),
            _ => self,
        }
    }
}

impl Opening {
    /// Begins to open the database whose header is at `db`.
    pub fn new(db: u64) -> (r: Opening)
        ensures
            r == Opening::begin(db),
            r.wf(),
    {
        Opening {
            db,
            phase: OpenPhase::Header,
            state: empty_header(),
            rec: Recovery { mapped: 0, cursor: 0, recovered: 0 },
        }
    }

    /// What is needed next.
    pub fn next_request(&self) -> (r: DiskRequest)
        ensures
            r@ == self.request(),
    {
        match self.phase {
            OpenPhase::Header => DiskRequest::Read { lba: self.db },
            OpenPhase::MapHeader => DiskRequest::Read { lba: self.state.map_lba },
            OpenPhase::Entry => {
                let (lba, _): (u64, usize) = locate_entry(self.state.map_lba, self.rec.recovered);
                DiskRequest::Read { lba }
            },
            _ => DiskRequest::Done,
        }
    }

    /// Takes a reply.
    pub fn feed(&mut self, reply: Option<&[u8]>)
        requires
            old(self).wf(),
            disk::fits(old(self).request(), disk::reply_of(reply)),
        ensures
            *final(self) == old(self).after(disk::reply_of(reply)),
            final(self).wf(),
    {
        match self.phase {
            OpenPhase::Header => match reply {
                Some(s) => match layout::memory_db_read_header(s) {
                    Some(h) => {
                        if h.map_lba == self.db.saturating_add(1) && h.map_sectors
                            == layout::MEMORY_DB_MAP_SECTORS {
                            self.state = h;
                            self.phase = OpenPhase::MapHeader;
                        } else {
                            self.phase = OpenPhase::Refused;
                        }
                    },
                    None => {
                        self.phase = OpenPhase::Refused;
                    },
                },
                None => {
                    self.phase = OpenPhase::Refused;
                },
            },
            OpenPhase::MapHeader => match reply {
                Some(s) => match layout::memory_db_read_map_header(s) {
                    Ok((_, used)) => {
                        self.rec = Recovery {
                            mapped: used,
                            cursor: self.state.data_lba,
                            recovered: 0,
                        };
                        if used == 0 {
                            self.state = with_recovered(&self.state, &self.rec);
                            self.phase = OpenPhase::Opened;
                        } else {
                            self.phase = OpenPhase::Entry;
                        }
                    },
                    Err(()) => {
                        self.phase = OpenPhase::Opened;
                    },
                },
                None => {
                    self.phase = OpenPhase::Opened;
                },
            },
            OpenPhase::Entry => match reply {
                Some(s) => {
                    let (_, off): (u64, usize) = locate_entry(
                        self.state.map_lba,
                        self.rec.recovered,
                    );
                    let e = layout::memory_db_read_map_entry(s, off);
                    match recover_entry(&self.state, self.rec, &e) {
                        RecoveryStep::More(rec) => {
                            self.rec = rec;
                        },
                        RecoveryStep::Over(rec) => {
                            self.rec = rec;
                            self.state = with_recovered(&self.state, &rec);
                            self.phase = OpenPhase::Opened;
                        },
                        RecoveryStep::Broken => {
                            self.phase = OpenPhase::Opened;
                        },
                    }
                },
                None => {
                    self.phase = OpenPhase::Opened;
                },
            },
            _ => {},
        }
    }
}

} // verus!
