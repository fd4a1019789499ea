//! Making sure that there is a memory database: one that is there is kept, otherwise an
//! empty one is set up.

use vstd::prelude::*;

use crate::bytes;
use crate::storage::disk;
use crate::storage::disk::DiskOp;
use crate::storage::disk::DiskRequest;
use crate::storage::disk::Io;
use crate::storage::disk::SECTOR_SIZE;
use crate::storage::layout;
use crate::storage::layout::MemoryDbHeader;
use crate::storage::opening;
use crate::storage::opening::Recovery;
use crate::storage::opening::RecoveryStep;

verus! {

/// How far it has come.
#[derive(Clone, Copy, PartialEq, Eq, Structural)]
pub enum EnsurePhase {
    /// Reading what is there.
    Existing,
    /// Looking at the map that the header names.
    Probe,
    /// Going through the map.
    MapHeader,
    Entry,
    /// Keeping what is there.
    KeepMap,
    KeepHeader,
    /// Setting up an empty database.
    ZeroMap,
    FreshMap,
    FreshHeader,
    Verify,
    Done,
    Failed,
}

/// Making sure that there is a database whose header is at `db`.
#[derive(Clone, Copy, PartialEq, Eq, Structural)]
pub struct EnsureOp {
    pub db: u64,
    pub model_start: u64,
    pub model_last: u64,
    pub capacity: u64,
    /// Where a database's header was found before.
    pub registered: Option<u64>,
    pub phase: EnsurePhase,
    pub usable: bool,
    pub state: MemoryDbHeader,
    pub rec: Recovery,
    pub zeroed: u64,
}

/// The first sector of the data of the database whose header is at `db`.
pub open spec fn data_lba_of(db: int) -> int {
    db + 1 + layout::MEMORY_DB_MAP_SECTORS
}

/// Whether what the sector at `db` holds is the header of a database of this layout.
pub open spec fn keeps_layout(db: int, s: Seq<u8>) -> bool {
    let h = layout::header_fields(s);
    &&& layout::has_db_magic(s)
    &&& h.version == layout::MEMORY_DB_VERSION
    &&& h.sector_size == SECTOR_SIZE
    &&& h.header_lba == db
    &&& h.data_lba == data_lba_of(db)
    &&& h.map_lba == db + 1
    &&& h.map_sectors == layout::MEMORY_DB_MAP_SECTORS
    &&& h.total_sectors == layout::MEMORY_DB_TOTAL_SECTORS
    &&& data_lba_of(db) <= h.next_append_lba <= db + layout::MEMORY_DB_TOTAL_SECTORS
    &&& h.map_entries_used <= layout::MEMORY_DB_MAP_MAX_ENTRIES
}

impl EnsureOp {
    pub open spec fn begin(
        db: u64,
        model_start: u64,
        model_last: u64,
        capacity: u64,
        registered: Option<u64>,
    ) -> EnsureOp {
        EnsureOp {
            db,
            model_start,
            model_last,
            capacity,
            registered,
            phase: EnsurePhase::Existing,
            usable: false,
            state: opening::blank_header(),
            rec: opening::no_recovery(),
            zeroed: 0,
        }
    }

    /// About to make sure of a database, if it fits on a disk of known size; else failed.
    pub open spec fn started(
        db: u64,
        model_start: u64,
        model_last: u64,
        capacity: Option<u64>,
        registered: Option<u64>,
    ) -> EnsureOp {
        match capacity {
            Some(c) => if db + layout::MEMORY_DB_TOTAL_SECTORS <= c {
                EnsureOp::begin(db, model_start, model_last, c, registered)
            } else {
                EnsureOp::begin(db, model_start, model_last, c, registered).with_phase(
                    EnsurePhase::Failed,
                )
            },
            None => EnsureOp::begin(db, model_start, model_last, 0, registered).with_phase(
                EnsurePhase::Failed,
            ),
        }
    }

    pub open spec fn with_phase(self, phase: EnsurePhase) -> EnsureOp {
        EnsureOp { phase, ..self }
    }

    /// About to set up an empty database.
    pub open spec fn refreshing(self) -> EnsureOp {
        EnsureOp { phase: EnsurePhase::ZeroMap, zeroed: 0, ..self }
    }

    /// The header of the empty database.
    pub open spec fn fresh(self) -> MemoryDbHeader {
        MemoryDbHeader {
            version: layout::MEMORY_DB_VERSION,
            sector_size: SECTOR_SIZE as u32,
            header_lba: self.db,
            data_lba: data_lba_of(self.db as int) as u64,
            total_sectors: layout::MEMORY_DB_TOTAL_SECTORS,
            next_append_lba: data_lba_of(self.db as int) as u64,
            last_ssd_lba: (self.capacity - 1) as u64,
            model_start_lba: self.model_start,
            model_last_lba: self.model_last,
            map_lba: (self.db + 1) as u64,
            map_entries_used: 0,
            map_sectors: layout::MEMORY_DB_MAP_SECTORS,
        }
    }

    /// The header of the database that is kept, before its map was gone through.
    pub open spec fn kept(self, h: MemoryDbHeader) -> MemoryDbHeader {
        MemoryDbHeader {
            model_start_lba: self.model_start,
            model_last_lba: self.model_last,
            ..h
        }
    }

    /// With this database registered, unless another was before.
    pub open spec fn registering(self) -> EnsureOp {
        EnsureOp {
            registered: match self.registered {
                Some(r) => Some(r),
                None => Some(self.db),
            },
            ..self
        }
    }

    /// Going through the map is over: the database is kept.
    pub open spec fn recovered(self, rec: Recovery) -> EnsureOp {
        EnsureOp {
            state: opening::recovered_header(self.state, rec),
            rec,
            phase: EnsurePhase::KeepMap,
            ..self
        }
    }

    /// What holds in each phase.
    pub open spec fn wf(self) -> bool {
        &&& self.phase != EnsurePhase::Failed ==> self.db + layout::MEMORY_DB_TOTAL_SECTORS
            <= self.capacity
        &&& self.phase == EnsurePhase::Entry ==> self.rec.recovered < self.rec.mapped
            <= layout::MEMORY_DB_MAP_MAX_ENTRIES
        &&& self.phase == EnsurePhase::ZeroMap ==> self.zeroed < layout::MEMORY_DB_MAP_SECTORS
        &&& self.phase == EnsurePhase::KeepHeader ==> self.state.header_lba == self.db
            && self.registered == Some(self.db)
        &&& self.phase == EnsurePhase::MapHeader || self.phase == EnsurePhase::Entry || self.phase
            == EnsurePhase::KeepMap ==> self.state.header_lba == self.db && self.state.map_lba
            == self.db + 1
        &&& self.phase == EnsurePhase::Probe && self.usable ==> self.state.header_lba == self.db
            && self.state.map_lba == self.db + 1
    }
}

impl EnsureOp {
    /// What is asked for.
    #[verifier::opaque]
    pub open spec fn asks(self) -> Io {
        match self.phase {
            EnsurePhase::Existing => Io::Read { lba: self.db as int },
            EnsurePhase::Probe => Io::Read { lba: self.state.map_lba as int },
            EnsurePhase::MapHeader => Io::Read { lba: self.state.map_lba as int },
            EnsurePhase::Entry => Io::Read {
                lba: opening::entry_lba(self.state.map_lba, self.rec.recovered),
            },
            EnsurePhase::KeepMap => Io::Write {
                lba: self.state.map_lba as int,
                data: layout::map_header_sector(self.state.map_entries_used),
            },
            EnsurePhase::KeepHeader => Io::Write {
                lba: self.db as int,
                data: layout::header_sector(self.state),
            },
            EnsurePhase::ZeroMap => Io::Write {
                lba: self.db + 1 + self.zeroed,
                data: bytes::zeros(512),
            },
            EnsurePhase::FreshMap => Io::Write {
                lba: self.db + 1,
                data: layout::map_header_sector(0),
            },
            EnsurePhase::FreshHeader => Io::Write {
                lba: self.db as int,
                data: layout::header_sector(self.fresh()),
            },
            EnsurePhase::Verify => Io::Read { lba: self.db as int },
            _ => Io::Done,
        }
    }

    /// What a reply makes of it.
    #[verifier::opaque]
    pub open spec fn answered(self, reply: Option<Seq<u8>>) -> EnsureOp {
        match (self.phase, reply) {
            (EnsurePhase::Existing, Some(s)) => EnsureOp {
                state: self.kept(layout::header_fields(s)),
                usable: keeps_layout(self.db as int, s),
                phase: EnsurePhase::Probe,
                ..self
            },
            (EnsurePhase::Existing, None) => self.refreshing(),
            (EnsurePhase::Probe, Some(s)) => if self.usable && layout::map_used_of(s) is Some {
                self.with_phase(EnsurePhase::MapHeader)
            } else {
                self.refreshing()
            },
            (EnsurePhase::Probe, None) => self.refreshing(),
            (EnsurePhase::MapHeader, Some(s)) => match layout::map_used_of(s) {
                Some(used) => {
                    let rec = Recovery {
                        mapped: used,
                        cursor: self.state.data_lba,
                        recovered: 0,
                    };
                    if used == 0 {
                        self.recovered(rec)
                    } else {
                        EnsureOp { rec, phase: EnsurePhase::Entry, ..self }
                    }
                },
                None => self.refreshing(),
            },
            (EnsurePhase::MapHeader, None) => self.refreshing(),
            (EnsurePhase::Entry, Some(s)) => match opening::recovery_step(
                self.state,
                self.rec,
                layout::entry_of(s, opening::entry_offset(self.rec.recovered)),
            ) {
                RecoveryStep::More(rec) => EnsureOp { rec, ..self },
                RecoveryStep::Over(rec) => self.recovered(rec),
                RecoveryStep::Broken => self.refreshing(),
            },
            (EnsurePhase::Entry, None) => self.refreshing(),
            (EnsurePhase::KeepMap, Some(_)) => {
                let next = self.registering();
                if next.registered == Some(self.db) {
                    next.with_phase(EnsurePhase::KeepHeader)
                } else {
                    next.with_phase(EnsurePhase::Failed)
                }
            },
            (EnsurePhase::KeepHeader, Some(_)) => self.with_phase(EnsurePhase::Done),
            (EnsurePhase::ZeroMap, Some(_)) => if self.zeroed + 1 < layout::MEMORY_DB_MAP_SECTORS {
                EnsureOp { zeroed: (self.zeroed + 1) as u64, ..self }
            } else {
                self.with_phase(EnsurePhase::FreshMap)
            },
            (EnsurePhase::FreshMap, Some(_)) => self.with_phase(EnsurePhase::FreshHeader),
            (EnsurePhase::FreshHeader, Some(_)) => self.with_phase(EnsurePhase::Verify),
            (EnsurePhase::Verify, Some(s)) => if layout::has_db_magic(s) {
                self.registering().with_phase(EnsurePhase::Done)
            } else {
                self.with_phase(EnsurePhase::Failed)
            },
            (EnsurePhase::Done, _) => self,
            _ => self.with_phase(EnsurePhase::Failed),
        }
    }
}

impl DiskOp for EnsureOp {
    open spec fn request(self) -> Io {
        self.asks()
    }

    open spec fn after(self, reply: Option<Seq<u8>>) -> EnsureOp {
        self.answered(reply)
    }
}

/// Whether it is over.
pub open spec fn is_over(e: EnsureOp) -> bool {
    e.phase == EnsurePhase::Done || e.phase == EnsurePhase::Failed
}

/// Nothing is asked for exactly when it is over.
pub proof fn lemma_over(e: EnsureOp)
    ensures
        is_over(e) <==> e.request() is Done,
{
    reveal(EnsureOp::asks);
}

/// Begins to make sure that there is a database whose header is at `db_lba`, behind a
/// model that takes up `model_start_lba` to `model_last_lba`. `capacity` is the disk's
/// size in sectors, if known, `registered` where a header was found before. It fails at
/// once where the size is unknown or the database would not fit.
pub fn ensure_memory_db(
    db_lba: u64,
    model_start_lba: u64,
    model_last_lba: u64,
    capacity: Option<u64>,
    registered: Option<u64>,
) -> (r: EnsureOp)
    ensures
        r.wf(),
        r == EnsureOp::started(db_lba, model_start_lba, model_last_lba, capacity, registered),
{
    let (c, phase) = match capacity {
        Some(c) => (
            c,
            match db_lba.checked_add(layout::MEMORY_DB_TOTAL_SECTORS) {
                Some(end) => if end <= c {
                    EnsurePhase::Existing
                } else {
                    EnsurePhase::Failed
                },
                None => EnsurePhase::Failed,
            },
        ),
        None => (0u64, EnsurePhase::Failed),
    };
    EnsureOp {
        db: db_lba,
        model_start: model_start_lba,
        model_last: model_last_lba,
        capacity: c,
        registered,
        phase,
        usable: false,
        state: opening::empty_header(),
        rec: Recovery { mapped: 0, cursor: 0, recovered: 0 },
        zeroed: 0,
    }
}

fn layout_kept(db: u64, s: &[u8]) -> (r: bool)
    requires
        s.len() == SECTOR_SIZE,
        db + layout::MEMORY_DB_TOTAL_SECTORS <= u64::MAX,
    ensures
        r == keeps_layout(db as int, s@),
{
    let h = layout::memory_db_header_fields(s);
    let data: u64 = db + 1 + layout::MEMORY_DB_MAP_SECTORS;
    layout::starts_with_db_magic(s) && h.version == layout::MEMORY_DB_VERSION && h.sector_size
        == SECTOR_SIZE as u32 && h.header_lba == db && h.data_lba == data && h.map_lba == db + 1
        && h.map_sectors == layout::MEMORY_DB_MAP_SECTORS && h.total_sectors
        == layout::MEMORY_DB_TOTAL_SECTORS && h.next_append_lba >= data && h.next_append_lba <= db
        + layout::MEMORY_DB_TOTAL_SECTORS && h.map_entries_used
        <= layout::MEMORY_DB_MAP_MAX_ENTRIES
}

impl EnsureOp {
    fn fresh_header(&self) -> (r: MemoryDbHeader)
        requires
            self.db + layout::MEMORY_DB_TOTAL_SECTORS <= self.capacity,
        ensures
            r == self.fresh(),
    {
        let data: u64 = self.db + 1 + layout::MEMORY_DB_MAP_SECTORS;
        MemoryDbHeader {
            version: layout::MEMORY_DB_VERSION,
            sector_size: SECTOR_SIZE as u32,
            header_lba: self.db,
            data_lba: data,
            total_sectors: layout::MEMORY_DB_TOTAL_SECTORS,
            next_append_lba: data,
            last_ssd_lba: self.capacity - 1,
            model_start_lba: self.model_start,
            model_last_lba: self.model_last,
            map_lba: self.db + 1,
            map_entries_used: 0,
            map_sectors: layout::MEMORY_DB_MAP_SECTORS,
        }
    }

    /// What is needed next.
    pub fn next_request(&self) -> (r: DiskRequest)
        requires
            self.wf(),
        ensures
            r@ == self.request(),
    {
        reveal(EnsureOp::asks);
        match self.phase {
            EnsurePhase::Existing => DiskRequest::Read { lba: self.db },
            EnsurePhase::Probe => DiskRequest::Read { lba: self.state.map_lba },
            EnsurePhase::MapHeader => DiskRequest::Read { lba: self.state.map_lba },
            EnsurePhase::Entry => {
                let (lba, _): (u64, usize) = opening::locate_entry(
                    self.state.map_lba,
                    self.rec.recovered,
                );
                DiskRequest::Read { lba }
            },
            EnsurePhase::KeepMap => DiskRequest::Write {
                lba: self.state.map_lba,
                data: layout::memory_db_write_map_header(self.state.map_entries_used),
            },
            EnsurePhase::KeepHeader => DiskRequest::Write {
                lba: self.db,
                data: layout::memory_db_write_header(&self.state),
            },
            EnsurePhase::ZeroMap => DiskRequest::Write {
                lba: self.db + 1 + self.zeroed,
                data: bytes::zeroed(SECTOR_SIZE),
            },
            EnsurePhase::FreshMap => DiskRequest::Write {
                lba: self.db + 1,
                data: layout::memory_db_write_map_header(0),
            },
            EnsurePhase::FreshHeader => {
                let h = self.fresh_header();
                DiskRequest::Write { lba: self.db, data: layout::memory_db_write_header(&h) }
            },
            EnsurePhase::Verify => DiskRequest::Read { lba: self.db },
            _ => DiskRequest::Done,
        }
    }

    fn refresh(&mut self)
        requires
            old(self).db + layout::MEMORY_DB_TOTAL_SECTORS <= old(self).capacity,
        ensures
            *final(self) == old(self).refreshing(),
            final(self).wf(),
    {
        self.phase = EnsurePhase::ZeroMap;
        self.zeroed = 0;
    }

    fn register(&mut self)
        ensures
            *final(self) == old(self).registering(),
    {
        if self.registered.is_none() {
            self.registered = Some(self.db);
        }
    }

    fn keep(&mut self, rec: Recovery)
        requires
            old(self).state.header_lba == old(self).db,
            old(self).state.map_lba == old(self).db + 1,
            old(self).db + layout::MEMORY_DB_TOTAL_SECTORS <= old(self).capacity,
        ensures
            *final(self) == old(self).recovered(rec),
            final(self).wf(),
    {
        self.state = opening::with_recovered(&self.state, &rec);
        self.rec = rec;
        self.phase = EnsurePhase::KeepMap;
    }

    /// Takes a reply.
    pub fn feed(&mut self, reply: Option<&[u8]>)
        requires
            old(self).wf(),
            disk::fits(old(self).request(), disk::reply_of(reply)),
        ensures
            *final(self) == old(self).after(disk::reply_of(reply)),
            final(self).wf(),
    {
        reveal(EnsureOp::asks);
        reveal(EnsureOp::answered);
        match self.phase {
            EnsurePhase::Existing => match reply {
                Some(s) => {
                    let mut h = layout::memory_db_header_fields(s);
                    h.model_start_lba = self.model_start;
                    h.model_last_lba = self.model_last;
                    self.usable = layout_kept(self.db, s);
                    self.state = h;
                    self.phase = EnsurePhase::Probe;
                },
                None => self.refresh(),
            },
            EnsurePhase::Probe => match reply {
                Some(s) => {
                    let found = layout::memory_db_read_map_header(s);
                    if self.usable && found.is_ok() {
                        self.phase = EnsurePhase::MapHeader;
                    } else {
                        self.refresh();
                    }
                },
                None => self.refresh(),
            },
            EnsurePhase::MapHeader => match reply {
                Some(s) => match layout::memory_db_read_map_header(s) {
                    Ok((_, used)) => {
                        let rec = Recovery {
                            mapped: used,
                            cursor: self.state.data_lba,
                            recovered: 0,
                        };
                        if used == 0 {
                            self.keep(rec);
                        } else {
                            self.rec = rec;
                            self.phase = EnsurePhase::Entry;
                        }
                    },
                    Err(()) => self.refresh(),
                },
                None => self.refresh(),
            },
            EnsurePhase::Entry => match reply {
                Some(s) => {
                    let (_, off): (u64, usize) = opening::locate_entry(
                        self.state.map_lba,
                        self.rec.recovered,
                    );
                    let e = layout::memory_db_read_map_entry(s, off);
                    match opening::recover_entry(&self.state, self.rec, &e) {
                        RecoveryStep::More(rec) => {
                            self.rec = rec;
                        },
                        RecoveryStep::Over(rec) => self.keep(rec),
                        RecoveryStep::Broken => self.refresh(),
                    }
                },
                None => self.refresh(),
            },
            EnsurePhase::KeepMap => {
                if reply.is_none() {
                    self.phase = EnsurePhase::Failed;
                } else {
                    self.register();
                    let same = match self.registered {
                        Some(r) => r == self.db,
                        None => false,
                    };
                    self.phase = if same {
                        EnsurePhase::KeepHeader
                    } else {
                        EnsurePhase::Failed
                    };
                }
            },
            EnsurePhase::KeepHeader => {
                self.phase = if reply.is_none() {
                    EnsurePhase::Failed
                } else {
                    EnsurePhase::Done
                };
            },
            EnsurePhase::ZeroMap => {
                if reply.is_none() {
                    self.phase = EnsurePhase::Failed;
                } else if self.zeroed + 1 < layout::MEMORY_DB_MAP_SECTORS {
                    self.zeroed = self.zeroed + 1;
                } else {
                    self.phase = EnsurePhase::FreshMap;
                }
            },
            EnsurePhase::FreshMap => {
                self.phase = if reply.is_none() {
                    EnsurePhase::Failed
                } else {
                    EnsurePhase::FreshHeader
                };
            },
            EnsurePhase::FreshHeader => {
                self.phase = if reply.is_none() {
                    EnsurePhase::Failed
                } else {
                    EnsurePhase::Verify
                };
            },
            EnsurePhase::Verify => match reply {
                Some(s) => {
                    if layout::starts_with_db_magic(s) {
                        self.register();
                        self.phase = EnsurePhase::Done;
                    } else {
                        self.phase = EnsurePhase::Failed;
                    }
                },
                None => {
                    self.phase = EnsurePhase::Failed;
                },
            },
            _ => {},
        }
    }

    /// Whether there is a database now, once it is over.
    pub fn outcome(&self) -> (r: Option<Result<(), ()>>)
        ensures
            match r {
                Some(Ok(_)) => self.phase == EnsurePhase::Done,
                Some(Err(_)) => self.phase == EnsurePhase::Failed,
                None => self.phase != EnsurePhase::Done && self.phase != EnsurePhase::Failed,
            },
    {
        match self.phase {
            EnsurePhase::Done => Some(Ok(())),
            EnsurePhase::Failed => Some(Err(())),
            _ => None,
        }
    }
}

} // verus!
