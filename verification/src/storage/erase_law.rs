//! Erasing leaves an empty database.

use vstd::prelude::*;

use crate::bytes;
use crate::storage::contents;
use crate::storage::disk;
use crate::storage::disk::DiskOp;
use crate::storage::ensure;
use crate::storage::erase;
use crate::storage::erase::EraseOp;
use crate::storage::erase::ErasePhase;
use crate::storage::layout;
use crate::storage::layout::MemoryDbHeader;
use crate::storage::opening::OpenPhase;
use crate::storage::read::ReadPhase;
use crate::storage::read::Reading;
use crate::storage::read_law;

verus! {

/// `disk` with zeros in the sectors from `from` up to `upto`.
pub open spec fn zeroed_range(disk: spec_fn(int) -> Seq<u8>, from: int, upto: int) -> spec_fn(
    int,
) -> Seq<u8> {
    |i: int|
        if from <= i < upto {
            bytes::zeros(512)
        } else {
            disk(i)
        }
}

proof fn lemma_erase_zeros(disk: spec_fn(int) -> Seq<u8>, m: EraseOp)
    requires
        m.phase == ErasePhase::Zero,
        m.db <= m.lba < m.end() <= u64::MAX,
    ensures
        disk::leads_to(
            m,
            zeroed_range(disk, m.db as int, m.lba as int),
            EraseOp { lba: m.end() as u64, phase: ErasePhase::MapHeader, ..m },
            zeroed_range(disk, m.db as int, m.end()),
        ),
    decreases m.end() - m.lba,
{
    let d = zeroed_range(disk, m.db as int, m.lba as int);
    let n = m.count();
    let (m1, d1) = disk::advanced(m, d);
    let to = m.lba + n;
    assert(d1 =~= zeroed_range(disk, m.db as int, to)) by {
        let z = bytes::zeros(n * 512);
        assert forall|i: int| #[trigger] d1(i) == zeroed_range(disk, m.db as int, to)(i) by {
            if m.lba <= i < to {
                assert(z.subrange((i - m.lba) * 512, (i - m.lba) * 512 + 512) =~= bytes::zeros(512));
            }
        }
    }
    let goal = EraseOp { lba: m.end() as u64, phase: ErasePhase::MapHeader, ..m };
    let d2 = zeroed_range(disk, m.db as int, m.end());
    if to < m.end() {
        lemma_erase_zeros(disk, m1);
    } else {
        assert(m1 == goal);
        disk::lemma_leads_to_self(goal, d2);
    }
    disk::lemma_leads_by_step(m, d, m1, d1, goal, d2);
}

proof fn lemma_erase_runs(
    disk: spec_fn(int) -> Seq<u8>,
    db: u64,
    capacity: u64,
    h: MemoryDbHeader,
) -> (r: (EraseOp, spec_fn(int) -> Seq<u8>))
    requires
        disk::is_disk(disk),
        layout::header_of(disk(db as int)) == Some(h),
        erase::erasable(db, Some(capacity), h),
    ensures
        disk::leads_to(EraseOp::begin(db, Some(capacity)), disk, r.0, r.1),
        r.0.phase == ErasePhase::Done,
        disk::is_disk(r.1),
        (r.1)(db as int) == layout::header_sector(emptied_header(h, capacity)),
        (r.1)(db + 1) == layout::map_header_sector(0),
        forall|i: int|
            db + 1 < i < db + layout::MEMORY_DB_TOTAL_SECTORS ==> #[trigger] (r.1)(i)
                == bytes::zeros(512),
        forall|i: int|
            i < db || i >= db + layout::MEMORY_DB_TOTAL_SECTORS ==> #[trigger] (r.1)(i) == disk(i),
{
    let m0 = EraseOp::begin(db, Some(capacity));
    let m1 = EraseOp { state: h, lba: db, phase: ErasePhase::Zero, ..m0 };
    assert(disk::advanced(m0, disk) == (m1, disk));
    assert(zeroed_range(disk, db as int, db as int) =~= disk);
    lemma_erase_zeros(disk, m1);
    let d2 = zeroed_range(disk, db as int, m1.end());
    let m2 = EraseOp { lba: m1.end() as u64, phase: ErasePhase::MapHeader, ..m1 };
    let d3 = disk::written(d2, db + 1, layout::map_header_sector(0));
    let m3 = m2.with_phase(ErasePhase::HeaderWrite);
    assert(disk::advanced(m2, d2) == (m3, d3));
    let fresh = m3.fresh();
    assert(fresh == emptied_header(h, capacity));
    let d4 = disk::written(d3, db as int, layout::header_sector(fresh));
    let m4 = m3.with_phase(ErasePhase::Done);
    assert(disk::advanced(m3, d3) == (m4, d4));
    disk::lemma_leads_to_self(m4, d4);
    disk::lemma_leads_by_step(m3, d3, m4, d4, m4, d4);
    disk::lemma_leads_by_step(m2, d2, m3, d3, m4, d4);
    disk::lemma_leads_to_transitive(m1, disk, m2, d2, m4, d4);
    disk::lemma_leads_by_step(m0, disk, m1, disk, m4, d4);
    layout::law_header_round_trip(fresh);
    layout::law_map_header_round_trip(0);
    contents::lemma_write_sector(d2, db + 1, layout::map_header_sector(0));
    contents::lemma_write_sector(d3, db as int, layout::header_sector(fresh));
    disk::lemma_written_is_disk(d2, db + 1, layout::map_header_sector(0));
    disk::lemma_written_is_disk(d3, db as int, layout::header_sector(fresh));
    (m4, d4)
}

/// The header of a database with header `h` that was emptied: the places of the database and
/// of the model are kept, and what is appended next goes first.
pub open spec fn emptied_header(h: MemoryDbHeader, capacity: u64) -> MemoryDbHeader {
    MemoryDbHeader {
        next_append_lba: h.data_lba,
        last_ssd_lba: (capacity - 1) as u64,
        map_entries_used: 0,
        ..h
    }
}

/// Erasing what the header at `db` stands for succeeds, on a disk on which no access fails,
/// and leaves `after`.
pub open spec fn erases(
    disk: spec_fn(int) -> Seq<u8>,
    db: u64,
    capacity: Option<u64>,
    after: spec_fn(int) -> Seq<u8>,
) -> bool {
    exists|end: EraseOp| #[trigger]
        disk::leads_to(EraseOp::begin(db, capacity), disk, end, after) && end.phase
            == ErasePhase::Done
}

/// Where erasing succeeds, nothing of the database is left but its header and the head of its
/// map; the header keeps where the data and the model are, and says that there are no
/// payloads; reading gives nothing; and nothing outside the database is touched. This holds of
/// any registered database, whatever its map and its data look like.
#[verifier::rlimit(30)]
pub proof fn law_erased_is_empty(
    disk: spec_fn(int) -> Seq<u8>,
    db: u64,
    capacity: Option<u64>,
    after: spec_fn(int) -> Seq<u8>,
    room: int,
)
    requires
        disk::is_disk(disk),
        erases(disk, db, capacity, after),
        0 < room <= usize::MAX,
    ensures
        capacity is Some,
        layout::header_of(disk(db as int)) is Some,
        ({
            let h = layout::header_of(disk(db as int))->0;
            layout::header_of(after(db as int)) matches Some(h2) && {
                &&& h2.data_lba == h.data_lba
                &&& h2.model_start_lba == h.model_start_lba
                &&& h2.model_last_lba == h.model_last_lba
                &&& h2.next_append_lba == h.data_lba
                &&& h2.map_entries_used == 0
                &&& h2 == emptied_header(h, capacity->0)
            }
        }),
        layout::map_used_of(after(db + 1)) == Some(0u64),
        forall|i: int|
            db + 1 < i < db + layout::MEMORY_DB_TOTAL_SECTORS ==> #[trigger] after(i)
                == bytes::zeros(512),
        forall|i: int|
            i < db || i >= db + layout::MEMORY_DB_TOTAL_SECTORS ==> #[trigger] after(i) == disk(i),
        read_law::reads_out(Reading::begin(db, capacity, room), after, Seq::empty()),
{
    let m0 = EraseOp::begin(db, capacity);
    let end = choose|end: EraseOp| #[trigger]
        disk::leads_to(m0, disk, end, after) && end.phase == ErasePhase::Done;
    let m1 = disk::advanced(m0, disk).0;
    assert(disk::advanced(m0, disk) == (m1, disk));
    if m1.phase == ErasePhase::Failed {
        disk::lemma_leads_to_self(m1, disk);
        disk::lemma_leads_by_step(m0, disk, m1, disk, m1, disk);
        disk::lemma_one_end(m0, disk, end, after, m1, disk);
    }
    let c = capacity->0;
    let h = layout::header_of(disk(db as int))->0;
    let r = lemma_erase_runs(disk, db, c, h);
    disk::lemma_one_end(m0, disk, end, after, r.0, r.1);
    let h2 = emptied_header(h, c);
    layout::law_header_round_trip(h2);
    layout::law_map_header_round_trip(0);
    let q0 = Reading::begin(db, capacity, room);
    let q1 = disk::advanced(q0, after).0;
    assert(q1.opening.phase == OpenPhase::MapHeader);
    let q2 = disk::advanced(q1, after).0;
    assert(q2.phase == ReadPhase::Done);
    assert(q2.out =~= Seq::empty());
    disk::lemma_leads_to_self(q2, after);
    disk::lemma_leads_by_step(q1, after, q2, after, q2, after);
    disk::lemma_leads_by_step(q0, after, q1, after, q2, after);
}

/// Erasing a database, on a disk on which no access fails, leaves an empty one: nothing
/// of the payloads is left in its sectors, and nothing outside them is touched.
pub proof fn law_erase_empties(
    disk: spec_fn(int) -> Seq<u8>,
    db: u64,
    capacity: u64,
    es: Seq<Seq<u8>>,
) -> (r: (EraseOp, spec_fn(int) -> Seq<u8>))
    requires
        contents::holds(disk, db, es),
        db + layout::MEMORY_DB_TOTAL_SECTORS <= capacity,
    ensures
        disk::leads_to(EraseOp::begin(db, Some(capacity)), disk, r.0, r.1),
        r.0.phase == ErasePhase::Done,
        contents::holds(r.1, db, Seq::empty()),
        ensure::keeps_layout(db as int, (r.1)(db as int)),
        forall|i: int|
            db + 1 < i < db + layout::MEMORY_DB_TOTAL_SECTORS ==> #[trigger] (r.1)(i)
                == bytes::zeros(512),
        forall|i: int|
            i < db || i >= db + layout::MEMORY_DB_TOTAL_SECTORS ==> #[trigger] (r.1)(i) == disk(i),
{
    let h = contents::head_of(disk, db);
    let r = lemma_erase_runs(disk, db, capacity, h);
    let fresh = emptied_header(h, capacity);
    layout::law_header_round_trip(fresh);
    contents::lemma_empty_holds(r.1, db, fresh);
    r
}

} // verus!
