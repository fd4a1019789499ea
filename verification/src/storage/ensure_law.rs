//! A memory database that is there is kept; otherwise there is an empty one afterwards.

use vstd::prelude::*;

use crate::bytes;
use crate::storage::contents;
use crate::storage::disk;
use crate::storage::disk::DiskOp;
use crate::storage::disk::Io;
use crate::storage::disk::SECTOR_SIZE;
use crate::storage::ensure;
use crate::storage::ensure::EnsureOp;
use crate::storage::ensure::EnsurePhase;
use crate::storage::erase_law;
use crate::storage::layout;
use crate::storage::layout::MemoryDbHeader;

verus! {

proof fn lemma_zero_sector(disk: spec_fn(int) -> Seq<u8>, from: int, k: int)
    requires
        0 <= k,
    ensures
        disk::written(
            erase_law::zeroed_range(disk, from, from + k),
            from + k,
            bytes::zeros(512),
        ) == erase_law::zeroed_range(disk, from, from + k + 1),
{
    let d = erase_law::zeroed_range(disk, from, from + k);
    let d1 = disk::written(d, from + k, bytes::zeros(512));
    contents::lemma_write_sector(d, from + k, bytes::zeros(512));
    assert forall|i: int| #[trigger] d1(i) == erase_law::zeroed_range(disk, from, from + k + 1)(i) by {}
    assert(d1 =~= erase_law::zeroed_range(disk, from, from + k + 1));
}

proof fn lemma_zero_map(disk: spec_fn(int) -> Seq<u8>, m: EnsureOp)
    requires
        m.phase == EnsurePhase::ZeroMap,
        m.zeroed < layout::MEMORY_DB_MAP_SECTORS,
    ensures
        disk::leads_to(
            m,
            erase_law::zeroed_range(disk, m.db + 1, m.db + 1 + m.zeroed),
            EnsureOp { zeroed: 31, phase: EnsurePhase::FreshMap, ..m },
            erase_law::zeroed_range(disk, m.db + 1, m.db + 33),
        ),
    decreases 32 - m.zeroed,
{
    reveal(EnsureOp::asks);
    reveal(EnsureOp::answered);
    let d = erase_law::zeroed_range(disk, m.db + 1, m.db + 1 + m.zeroed);
    let m1 = if m.zeroed + 1 < 32 {
        EnsureOp { zeroed: (m.zeroed + 1) as u64, ..m }
    } else {
        m.with_phase(EnsurePhase::FreshMap)
    };
    let d1 = erase_law::zeroed_range(disk, m.db + 1, m.db + 2 + m.zeroed);
    lemma_zero_sector(disk, m.db + 1, m.zeroed as int);
    assert(disk::advanced(m, d) == (m1, d1));
    let goal = EnsureOp { zeroed: 31, phase: EnsurePhase::FreshMap, ..m };
    let d2 = erase_law::zeroed_range(disk, m.db + 1, m.db + 33);
    if m.zeroed + 1 < 32 {
        lemma_zero_map(disk, m1);
    } else {
        assert(m1 == goal);
        disk::lemma_leads_to_self(goal, d2);
    }
    disk::lemma_leads_by_step(m, d, m1, d1, goal, d2);
}

#[verifier::rlimit(30)]
proof fn lemma_refresh(disk: spec_fn(int) -> Seq<u8>, m: EnsureOp) -> (r: (
    EnsureOp,
    spec_fn(int) -> Seq<u8>,
))
    requires
        disk::is_disk(disk),
        m.wf(),
        m.phase != EnsurePhase::Failed,
        m.db + layout::MEMORY_DB_TOTAL_SECTORS <= u64::MAX,
    ensures
        disk::leads_to(m.refreshing(), disk, r.0, r.1),
        r.0.phase == EnsurePhase::Done,
        r.0.registered == m.registering().registered,
        contents::holds(r.1, m.db, Seq::empty()),
        ensure::keeps_layout(m.db as int, (r.1)(m.db as int)),
        forall|i: int| i < m.db || i >= m.db + 33 ==> #[trigger] (r.1)(i) == disk(i),
{
    reveal(EnsureOp::asks);
    reveal(EnsureOp::answered);
    let db = m.db;
    let m0 = m.refreshing();
    assert(erase_law::zeroed_range(disk, db + 1, db + 1) =~= disk);
    lemma_zero_map(disk, m0);
    let d1 = erase_law::zeroed_range(disk, db + 1, db + 33);
    let m1 = EnsureOp { zeroed: 31, phase: EnsurePhase::FreshMap, ..m0 };
    let d2 = disk::written(d1, db + 1, layout::map_header_sector(0));
    let m2 = m1.with_phase(EnsurePhase::FreshHeader);
    assert(disk::advanced(m1, d1) == (m2, d2));
    let fresh = m2.fresh();
    let d3 = disk::written(d2, db as int, layout::header_sector(fresh));
    let m3 = m2.with_phase(EnsurePhase::Verify);
    assert(disk::advanced(m2, d2) == (m3, d3));
    layout::law_header_round_trip(fresh);
    layout::law_map_header_round_trip(0);
    contents::lemma_write_sector(d1, db + 1, layout::map_header_sector(0));
    contents::lemma_write_sector(d2, db as int, layout::header_sector(fresh));
    let m4 = m3.registering().with_phase(EnsurePhase::Done);
    assert(layout::has_db_magic(d3(db as int)));
    assert(disk::advanced(m3, d3) == (m4, d3));
    disk::lemma_leads_to_self(m4, d3);
    disk::lemma_leads_by_step(m3, d3, m4, d3, m4, d3);
    disk::lemma_leads_by_step(m2, d2, m3, d3, m4, d3);
    disk::lemma_leads_by_step(m1, d1, m2, d2, m4, d3);
    disk::lemma_leads_to_transitive(m0, disk, m1, d1, m4, d3);
    disk::lemma_written_is_disk(d1, db + 1, layout::map_header_sector(0));
    disk::lemma_written_is_disk(d2, db as int, layout::header_sector(fresh));
    contents::lemma_empty_holds(d3, db, fresh);
    (m4, d3)
}

/// Where there is no database of this layout, and no access fails, there is an empty one
/// afterwards; nothing but its header and its map is touched.
pub proof fn law_ensure_sets_up(
    disk: spec_fn(int) -> Seq<u8>,
    db: u64,
    model_start: u64,
    model_last: u64,
    capacity: u64,
    registered: Option<u64>,
) -> (r: (EnsureOp, spec_fn(int) -> Seq<u8>))
    requires
        disk::is_disk(disk),
        db + layout::MEMORY_DB_TOTAL_SECTORS <= capacity,
        !ensure::keeps_layout(db as int, disk(db as int)) || layout::map_used_of(disk(db + 1)) is None,
    ensures
        disk::leads_to(
            EnsureOp::begin(db, model_start, model_last, capacity, registered),
            disk,
            r.0,
            r.1,
        ),
        r.0.phase == EnsurePhase::Done,
        registered is None ==> r.0.registered == Some(db),
        registered is Some ==> r.0.registered == registered,
        contents::holds(r.1, db, Seq::empty()),
        ensure::keeps_layout(db as int, (r.1)(db as int)),
        forall|i: int| i < db || i >= db + 33 ==> #[trigger] (r.1)(i) == disk(i),
{
    reveal(EnsureOp::asks);
    reveal(EnsureOp::answered);
    let m0 = EnsureOp::begin(db, model_start, model_last, capacity, registered);
    let m1 = disk::advanced(m0, disk).0;
    assert(m1.phase == EnsurePhase::Probe);
    let m2 = disk::advanced(m1, disk).0;
    assert(m2 == m1.refreshing());
    let r = lemma_refresh(disk, m1);
    disk::lemma_leads_by_step(m1, disk, m2, disk, r.0, r.1);
    disk::lemma_leads_by_step(m0, disk, m1, disk, r.0, r.1);
    r
}

proof fn lemma_keep_entries(
    disk: spec_fn(int) -> Seq<u8>,
    m: EnsureOp,
    es: Seq<Seq<u8>>,
    k: int,
)
    requires
        contents::holds(disk, m.db, es),
        0 <= k < es.len(),
        m.phase == EnsurePhase::Entry,
        contents::heads(m.state, m.db as int),
        m.rec == contents::rec_at(m.db as int, es, k),
    ensures
        disk::leads_to(
            m,
            disk,
            m.recovered(contents::rec_at(m.db as int, es, es.len() as int)),
            disk,
        ),
    decreases es.len() - k,
{
    reveal(EnsureOp::asks);
    reveal(EnsureOp::answered);
    contents::lemma_entry_step(disk, m.db, es, m.state, k);
    let goal = m.recovered(contents::rec_at(m.db as int, es, es.len() as int));
    let (m1, d1) = disk::advanced(m, disk);
    if k + 1 < es.len() {
        assert(m1 == EnsureOp { rec: contents::rec_at(m.db as int, es, k + 1), ..m });
        lemma_keep_entries(disk, m1, es, k + 1);
    } else {
        assert(m1 == goal);
        disk::lemma_leads_to_self(goal, disk);
    }
    disk::lemma_leads_by_step(m, disk, m1, disk, goal, disk);
}

proof fn lemma_rewritten_holds(
    disk: spec_fn(int) -> Seq<u8>,
    db: u64,
    es: Seq<Seq<u8>>,
    h: MemoryDbHeader,
)
    requires
        contents::holds(disk, db, es),
        contents::heads(h, db as int),
    ensures
        contents::holds(
            disk::written(
                disk::written(disk, db + 1, layout::map_header_sector(es.len() as u64)),
                db as int,
                layout::header_sector(h),
            ),
            db,
            es,
        ),
        forall|i: int|
            i != db && i != db + 1 ==> #[trigger] disk::written(
                disk::written(disk, db + 1, layout::map_header_sector(es.len() as u64)),
                db as int,
                layout::header_sector(h),
            )(i) == disk(i),
{
    let n = es.len() as u64;
    layout::law_header_round_trip(h);
    layout::law_map_header_round_trip(n);
    let d1 = disk::written(disk, db + 1, layout::map_header_sector(n));
    let d2 = disk::written(d1, db as int, layout::header_sector(h));
    contents::lemma_write_sector(disk, db + 1, layout::map_header_sector(n));
    contents::lemma_write_sector(d1, db as int, layout::header_sector(h));
    disk::lemma_written_is_disk(disk, db + 1, layout::map_header_sector(n));
    disk::lemma_written_is_disk(d1, db as int, layout::header_sector(h));
    assert forall|i: int| 0 <= i < es.len() implies #[trigger] contents::lists(
        d2,
        db as int,
        es,
        i,
    ) by {
        assert(contents::lists(disk, db as int, es, i));
        contents::lemma_starts(db as int, es, 0, i);
        contents::lemma_stores_frame(disk, d2, contents::start_of(db as int, es, i), es[i]);
    }
}

/// Making sure of a database that is there goes through its map, and then keeps it.
#[verifier::rlimit(30)]
proof fn lemma_keep_opens(
    disk: spec_fn(int) -> Seq<u8>,
    m: EnsureOp,
    es: Seq<Seq<u8>>,
) -> (kept: EnsureOp)
    requires
        contents::holds(disk, m.db, es),
        ensure::keeps_layout(m.db as int, disk(m.db as int)),
        m == EnsureOp::begin(m.db, m.model_start, m.model_last, m.capacity, m.registered),
        m.db + layout::MEMORY_DB_TOTAL_SECTORS <= m.capacity,
    ensures
        disk::leads_to(m, disk, kept, disk),
        kept.phase == EnsurePhase::KeepMap,
        kept.db == m.db,
        kept.registered == m.registered,
        contents::heads(kept.state, m.db as int),
        kept.state.map_entries_used == es.len(),
        kept.state.next_append_lba == contents::start_of(m.db as int, es, es.len() as int),
{
    reveal(EnsureOp::asks);
    reveal(EnsureOp::answered);
    let db = m.db;
    let n = es.len() as int;
    let m1 = disk::advanced(m, disk).0;
    let m2 = disk::advanced(m1, disk).0;
    assert(m2 == m1.with_phase(EnsurePhase::MapHeader));
    assert(contents::heads(m2.state, db as int));
    let m3 = disk::advanced(m2, disk).0;
    let kept = m2.recovered(contents::rec_at(db as int, es, n));
    contents::lemma_starts(db as int, es, 0, n);
    if n == 0 {
        assert(m3 == kept);
        disk::lemma_leads_to_self(kept, disk);
    } else {
        assert(m3.rec == contents::rec_at(db as int, es, 0));
        lemma_keep_entries(disk, m3, es, 0);
        assert(m3.recovered(contents::rec_at(db as int, es, n)) == kept);
    }
    disk::lemma_leads_by_step(m2, disk, m3, disk, kept, disk);
    disk::lemma_leads_by_step(m1, disk, m2, disk, kept, disk);
    disk::lemma_leads_by_step(m, disk, m1, disk, kept, disk);
    kept
}

/// A database that is kept has the head of its map and its header written.
proof fn lemma_kept_is_written(
    disk: spec_fn(int) -> Seq<u8>,
    kept: EnsureOp,
    es: Seq<Seq<u8>>,
) -> (r: (EnsureOp, spec_fn(int) -> Seq<u8>))
    requires
        contents::holds(disk, kept.db, es),
        kept.phase == EnsurePhase::KeepMap,
        contents::heads(kept.state, kept.db as int),
        kept.state.map_entries_used == es.len(),
        kept.registered is None || kept.registered == Some(kept.db),
    ensures
        disk::leads_to(kept, disk, r.0, r.1),
        r.0.phase == EnsurePhase::Done,
        r.0.registered == Some(kept.db),
        r.1 == disk::written(
            disk::written(disk, kept.db + 1, layout::map_header_sector(es.len() as u64)),
            kept.db as int,
            layout::header_sector(kept.state),
        ),
{
    reveal(EnsureOp::asks);
    reveal(EnsureOp::answered);
    let db = kept.db;
    let d1 = disk::written(disk, db + 1, layout::map_header_sector(es.len() as u64));
    let m4 = kept.registering().with_phase(EnsurePhase::KeepHeader);
    assert(disk::advanced(kept, disk) == (m4, d1));
    let d2 = disk::written(d1, db as int, layout::header_sector(kept.state));
    let m5 = m4.with_phase(EnsurePhase::Done);
    assert(disk::advanced(m4, d1) == (m5, d2));
    disk::lemma_leads_to_self(m5, d2);
    disk::lemma_leads_by_step(m4, d1, m5, d2, m5, d2);
    disk::lemma_leads_by_step(kept, disk, m4, d1, m5, d2);
    (m5, d2)
}

/// A database of this layout, with its payloads, is kept, where no access fails and no
/// other database was found before; nothing but its header and the head of its map is
/// touched.
pub proof fn law_ensure_keeps_payloads(
    disk: spec_fn(int) -> Seq<u8>,
    db: u64,
    model_start: u64,
    model_last: u64,
    capacity: u64,
    registered: Option<u64>,
    es: Seq<Seq<u8>>,
) -> (r: (EnsureOp, spec_fn(int) -> Seq<u8>))
    requires
        contents::holds(disk, db, es),
        ensure::keeps_layout(db as int, disk(db as int)),
        db + layout::MEMORY_DB_TOTAL_SECTORS <= capacity,
        registered is None || registered == Some(db),
    ensures
        disk::leads_to(
            EnsureOp::begin(db, model_start, model_last, capacity, registered),
            disk,
            r.0,
            r.1,
        ),
        r.0.phase == EnsurePhase::Done,
        r.0.registered == Some(db),
        contents::holds(r.1, db, es),
        contents::start_of(db as int, es, es.len() as int) <= db
            + layout::MEMORY_DB_TOTAL_SECTORS ==> ensure::keeps_layout(
            db as int,
            (r.1)(db as int),
        ),
        forall|i: int| i != db && i != db + 1 ==> #[trigger] (r.1)(i) == disk(i),
{
    let m = EnsureOp::begin(db, model_start, model_last, capacity, registered);
    let kept = lemma_keep_opens(disk, m, es);
    let r = lemma_kept_is_written(disk, kept, es);
    disk::lemma_leads_to_transitive(m, disk, kept, disk, r.0, r.1);
    let h = kept.state;
    let d1 = disk::written(disk, db + 1, layout::map_header_sector(es.len() as u64));
    lemma_rewritten_holds(disk, db, es, h);
    contents::lemma_starts(db as int, es, 0, es.len() as int);
    layout::law_header_round_trip(h);
    contents::lemma_write_sector(d1, db as int, layout::header_sector(h));
    r
}

/// Whatever the disk answers, making sure of a database writes nowhere but to the database's
/// header and map, and stays in order.
pub proof fn law_ensure_writes_inside(m: EnsureOp, reply: Option<Seq<u8>>)
    requires
        m.wf(),
        disk::fits(m.request(), reply),
    ensures
        m.after(reply).wf(),
        m.after(reply).db == m.db,
        m.request() matches Io::Write { lba, data } ==> {
            &&& m.db <= lba < m.db + 1 + layout::MEMORY_DB_MAP_SECTORS
            &&& data.len() == SECTOR_SIZE
        },
{
    reveal(EnsureOp::asks);
    reveal(EnsureOp::answered);
    layout::lemma_map_header_len(m.state.map_entries_used);
    layout::lemma_map_header_len(0);
    layout::law_header_round_trip(m.state);
    layout::law_header_round_trip(m.fresh());
}

proof fn lemma_keeping_ends(disk: spec_fn(int) -> Seq<u8>, m: EnsureOp) -> (r: (
    EnsureOp,
    spec_fn(int) -> Seq<u8>,
))
    requires
        disk::is_disk(disk),
        m.phase == EnsurePhase::KeepMap,
        m.state.map_lba == m.db + 1,
    ensures
        disk::leads_to(m, disk, r.0, r.1),
        ensure::is_over(r.0),
        disk::is_disk(r.1),
        forall|i: int| i < m.db || i >= m.db + 33 ==> #[trigger] (r.1)(i) == disk(i),
{
    reveal(EnsureOp::asks);
    reveal(EnsureOp::answered);
    let used = m.state.map_entries_used;
    layout::lemma_map_header_len(used);
    layout::law_header_round_trip(m.state);
    let d1 = disk::written(disk, m.db + 1, layout::map_header_sector(used));
    contents::lemma_write_sector(disk, m.db + 1, layout::map_header_sector(used));
    disk::lemma_written_is_disk(disk, m.db + 1, layout::map_header_sector(used));
    let m1 = disk::advanced(m, disk).0;
    assert(disk::advanced(m, disk) == (m1, d1));
    if m1.phase == EnsurePhase::Failed {
        disk::lemma_leads_to_self(m1, d1);
        disk::lemma_leads_by_step(m, disk, m1, d1, m1, d1);
        (m1, d1)
    } else {
        let d2 = disk::written(d1, m.db as int, layout::header_sector(m.state));
        contents::lemma_write_sector(d1, m.db as int, layout::header_sector(m.state));
        disk::lemma_written_is_disk(d1, m.db as int, layout::header_sector(m.state));
        let m2 = m1.with_phase(EnsurePhase::Done);
        assert(disk::advanced(m1, d1) == (m2, d2));
        disk::lemma_leads_to_self(m2, d2);
        disk::lemma_leads_by_step(m1, d1, m2, d2, m2, d2);
        disk::lemma_leads_by_step(m, disk, m1, d1, m2, d2);
        (m2, d2)
    }
}

proof fn lemma_entries_end(disk: spec_fn(int) -> Seq<u8>, m: EnsureOp) -> (r: (
    EnsureOp,
    spec_fn(int) -> Seq<u8>,
))
    requires
        disk::is_disk(disk),
        m.wf(),
        m.phase == EnsurePhase::Entry,
        m.state.map_lba == m.db + 1,
        m.db + layout::MEMORY_DB_TOTAL_SECTORS <= u64::MAX,
    ensures
        disk::leads_to(m, disk, r.0, r.1),
        ensure::is_over(r.0),
        disk::is_disk(r.1),
        forall|i: int| i < m.db || i >= m.db + 33 ==> #[trigger] (r.1)(i) == disk(i),
    decreases m.rec.mapped - m.rec.recovered,
{
    reveal(EnsureOp::asks);
    reveal(EnsureOp::answered);
    let m1 = disk::advanced(m, disk).0;
    assert(disk::advanced(m, disk) == (m1, disk));
    let r = if m1.phase == EnsurePhase::Entry {
        lemma_entries_end(disk, m1)
    } else if m1.phase == EnsurePhase::KeepMap {
        lemma_keeping_ends(disk, m1)
    } else {
        assert(m1 == m.refreshing());
        lemma_refresh(disk, m)
    };
    disk::lemma_leads_by_step(m, disk, m1, disk, r.0, r.1);
    r
}

/// Whatever the disk holds, making sure of a database comes to an end where no access
/// fails, and touches nothing but the database's header and map.
pub proof fn law_ensure_ends(
    disk: spec_fn(int) -> Seq<u8>,
    db: u64,
    model_start: u64,
    model_last: u64,
    capacity: u64,
    registered: Option<u64>,
) -> (r: (EnsureOp, spec_fn(int) -> Seq<u8>))
    requires
        disk::is_disk(disk),
        db + layout::MEMORY_DB_TOTAL_SECTORS <= capacity,
    ensures
        disk::leads_to(
            EnsureOp::begin(db, model_start, model_last, capacity, registered),
            disk,
            r.0,
            r.1,
        ),
        ensure::is_over(r.0),
        disk::is_disk(r.1),
        forall|i: int| i < db || i >= db + 33 ==> #[trigger] (r.1)(i) == disk(i),
{
    reveal(EnsureOp::asks);
    reveal(EnsureOp::answered);
    if !ensure::keeps_layout(db as int, disk(db as int)) || layout::map_used_of(disk(db + 1)) is None {
        law_ensure_sets_up(disk, db, model_start, model_last, capacity, registered)
    } else {
        let m0 = EnsureOp::begin(db, model_start, model_last, capacity, registered);
        let m1 = disk::advanced(m0, disk).0;
        let m2 = disk::advanced(m1, disk).0;
        assert(m2 == m1.with_phase(EnsurePhase::MapHeader));
        let m3 = disk::advanced(m2, disk).0;
        let r = if m3.phase == EnsurePhase::Entry {
            lemma_entries_end(disk, m3)
        } else {
            lemma_keeping_ends(disk, m3)
        };
        disk::lemma_leads_by_step(m2, disk, m3, disk, r.0, r.1);
        disk::lemma_leads_by_step(m1, disk, m2, disk, r.0, r.1);
        disk::lemma_leads_by_step(m0, disk, m1, disk, r.0, r.1);
        r
    }
}

} // verus!
