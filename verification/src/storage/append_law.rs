//! Appending adds the payload to what the database holds.

use vstd::prelude::*;

use crate::storage::append;
use crate::storage::append::Append;
use crate::storage::append::AppendPhase;
use crate::storage::contents;
use crate::storage::disk;
use crate::storage::disk::DiskOp;
use crate::storage::ensure;
use crate::storage::layout;
use crate::storage::layout::MemoryDbHeader;
use crate::storage::opening;
use crate::storage::opening::OpenPhase;
use crate::storage::opening::Opening;

verus! {

proof fn lemma_append_entries(disk: spec_fn(int) -> Seq<u8>, a: Append, es: Seq<Seq<u8>>, k: int)
    requires
        contents::holds(disk, a.opening.db, es),
        0 <= k < es.len(),
        a.phase == AppendPhase::Open,
        a.opening == contents::opening_at(disk, a.opening.db, es, k),
    ensures
        disk::leads_to(
            a,
            disk,
            Append { opening: contents::opening_over(disk, a.opening.db, es), ..a }.planned(
                contents::opened_state(disk, a.opening.db, es),
            ),
            disk,
        ),
    decreases es.len() - k,
{
    let db = a.opening.db;
    let h = contents::head_of(disk, db);
    contents::lemma_entry_step(disk, db, es, h, k);
    let goal = Append { opening: contents::opening_over(disk, db, es), ..a }.planned(
        contents::opened_state(disk, db, es),
    );
    let (a1, d1) = disk::advanced(a, disk);
    assert(d1 == disk);
    if k + 1 < es.len() {
        assert(a1 == Append { opening: contents::opening_at(disk, db, es, k + 1), ..a });
        lemma_append_entries(disk, a1, es, k + 1);
    } else {
        assert(a1 == goal);
        disk::lemma_leads_to_self(goal, disk);
    }
    disk::lemma_leads_by_step(a, disk, a1, disk, goal, disk);
}

proof fn lemma_append_opens(disk: spec_fn(int) -> Seq<u8>, a: Append, es: Seq<Seq<u8>>)
    requires
        contents::holds(disk, a.opening.db, es),
        a.phase == AppendPhase::Open,
        a.opening == Opening::begin(a.opening.db),
    ensures
        disk::leads_to(
            a,
            disk,
            Append { opening: contents::opening_over(disk, a.opening.db, es), ..a }.planned(
                contents::opened_state(disk, a.opening.db, es),
            ),
            disk,
        ),
{
    let db = a.opening.db;
    let goal = Append { opening: contents::opening_over(disk, db, es), ..a }.planned(
        contents::opened_state(disk, db, es),
    );
    let (a1, d1) = disk::advanced(a, disk);
    let (a2, d2) = disk::advanced(a1, disk);
    assert(d1 == disk && d2 == disk);
    assert(a1.opening.phase == OpenPhase::MapHeader);
    if es.len() == 0 {
        assert(a2 == goal);
        disk::lemma_leads_to_self(goal, disk);
    } else {
        assert(a2 == Append { opening: contents::opening_at(disk, db, es, 0), ..a });
        lemma_append_entries(disk, a2, es, 0);
    }
    disk::lemma_leads_by_step(a1, disk, a2, disk, goal, disk);
    disk::lemma_leads_by_step(a, disk, a1, disk, goal, disk);
}

proof fn lemma_written_join(disk: spec_fn(int) -> Seq<u8>, lba: int, x: Seq<u8>, y: Seq<u8>, n: int)
    requires
        x.len() == n * 512,
        y.len() > 0,
    ensures
        disk::written(disk::written(disk, lba, x), lba + n, disk::padded(y)) == disk::written(
            disk,
            lba,
            disk::padded(x + y),
        ),
        disk::sectors((x + y).len() as int) == n + disk::sectors(y.len() as int),
{
    let all = disk::padded(x + y);
    assert(all =~= x + disk::padded(y));
    contents::lemma_written_concat(disk, lba, x, disk::padded(y), n);
}

proof fn lemma_append_data(disk: spec_fn(int) -> Seq<u8>, a: Append)
    requires
        a.phase == AppendPhase::Data,
        0 <= a.done < a.data.len() <= u32::MAX,
        a.lba + disk::sectors(a.data.len() - a.done) <= a.end,
    ensures
        disk::leads_to(
            a,
            disk,
            Append {
                done: a.data.len() as int,
                lba: a.lba + disk::sectors(a.data.len() - a.done),
                phase: AppendPhase::EntrySector,
                ..a
            },
            disk::written(
                disk,
                a.lba,
                disk::padded(a.data.subrange(a.done, a.data.len() as int)),
            ),
        ),
    decreases a.data.len() - a.done,
{
    let rest = a.data.subrange(a.done, a.data.len() as int);
    let n = a.whole();
    let (a1, d1) = disk::advanced(a, disk);
    let goal = Append {
        done: a.data.len() as int,
        lba: a.lba + disk::sectors(a.data.len() - a.done),
        phase: AppendPhase::EntrySector,
        ..a
    };
    let d2 = disk::written(disk, a.lba, disk::padded(rest));
    assert(d1 == disk::written(disk, a.lba, a.chunk()));
    if n > 0 && a.done + n * 512 < a.data.len() {
        let more = a.data.subrange(a.done + n * 512, a.data.len() as int);
        lemma_written_join(disk, a.lba, a.chunk(), more, n);
        assert(a.chunk() + more =~= rest);
        assert(a1 == Append { done: a.done + n * 512, lba: a.lba + n, ..a });
        lemma_append_data(d1, a1);
    } else {
        if n > 0 {
            assert(a.chunk() =~= disk::padded(rest));
        }
        assert(a1 == goal);
        assert(d1 == d2);
        disk::lemma_leads_to_self(goal, d2);
    }
    disk::lemma_leads_by_step(a, disk, a1, d1, goal, d2);
}

/// The disk after appending.
spec fn appended(disk: spec_fn(int) -> Seq<u8>, db: u64, es: Seq<Seq<u8>>, data: Seq<u8>) -> spec_fn(
    int,
) -> Seq<u8> {
    let n = es.len() as int;
    let at = contents::start_of(db as int, es, n);
    let m = contents::map_sector(db as int, n);
    let d1 = disk::written(disk, at, disk::padded(data));
    let d2 = disk::written(
        d1,
        m,
        layout::with_map_entry(disk(m), n % 32 * 16, listed_entry(at, data)),
    );
    let d3 = disk::written(d2, db + 1, layout::map_header_sector((n + 1) as u64));
    disk::written(d3, db as int, layout::header_sector(listed_header(disk, db, es, data)))
}

spec fn listed_entry(at: int, data: Seq<u8>) -> layout::MemoryDbMapEntry {
    layout::MemoryDbMapEntry {
        start_lba: at as u64,
        payload_bytes: data.len() as u32,
        flags: layout::MEMORY_DB_MAP_FLAG_ACTIVE,
    }
}

spec fn listed_header(
    disk: spec_fn(int) -> Seq<u8>,
    db: u64,
    es: Seq<Seq<u8>>,
    data: Seq<u8>,
) -> MemoryDbHeader {
    MemoryDbHeader {
        map_entries_used: (es.len() + 1) as u64,
        next_append_lba: (contents::start_of(db as int, es, es.len() as int) + disk::sectors(
            data.len() as int,
        )) as u64,
        ..contents::opened_state(disk, db, es)
    }
}

proof fn lemma_appended_frame(
    disk: spec_fn(int) -> Seq<u8>,
    db: u64,
    es: Seq<Seq<u8>>,
    data: Seq<u8>,
)
    requires
        contents::holds(disk, db, es),
        es.len() < layout::MEMORY_DB_MAP_MAX_ENTRIES,
        0 < data.len() <= u32::MAX,
    ensures
        ({
            let d = appended(disk, db, es, data);
            let n = es.len() as int;
            let at = contents::start_of(db as int, es, n);
            let m = contents::map_sector(db as int, n);
            &&& disk::is_disk(d)
            &&& d(db as int) == layout::header_sector(listed_header(disk, db, es, data))
            &&& d(db + 1) == layout::map_header_sector((n + 1) as u64)
            &&& d(m) == layout::with_map_entry(disk(m), n % 32 * 16, listed_entry(at, data))
            &&& disk::stores(d, at, data)
            &&& forall|i: int|
                i != db && i != db + 1 && i != m && !(at <= i < at + disk::sectors(
                    data.len() as int,
                )) ==> #[trigger] d(i) == disk(i)
        }),
{
    let n = es.len() as int;
    let at = contents::start_of(db as int, es, n);
    let m = contents::map_sector(db as int, n);
    contents::lemma_starts(db as int, es, 0, n);
    let entry_sector = layout::with_map_entry(disk(m), n % 32 * 16, listed_entry(at, data));
    let d1 = disk::written(disk, at, disk::padded(data));
    let d2 = disk::written(d1, m, entry_sector);
    let d3 = disk::written(d2, db + 1, layout::map_header_sector((n + 1) as u64));
    let h = listed_header(disk, db, es, data);
    let d4 = disk::written(d3, db as int, layout::header_sector(h));
    layout::law_header_round_trip(h);
    layout::law_map_header_round_trip((n + 1) as u64);
    contents::lemma_written_stores(disk, at, data);
    assert(entry_sector.len() == 512);
    contents::lemma_write_sector(d1, m, entry_sector);
    contents::lemma_write_sector(d2, db + 1, layout::map_header_sector((n + 1) as u64));
    contents::lemma_write_sector(d3, db as int, layout::header_sector(h));
    disk::lemma_written_is_disk(disk, at, disk::padded(data));
    disk::lemma_written_is_disk(d1, m, entry_sector);
    disk::lemma_written_is_disk(d2, db + 1, layout::map_header_sector((n + 1) as u64));
    disk::lemma_written_is_disk(d3, db as int, layout::header_sector(h));
    contents::lemma_stores_frame(d1, d4, at, data);
}

proof fn lemma_appended_holds(
    disk: spec_fn(int) -> Seq<u8>,
    db: u64,
    es: Seq<Seq<u8>>,
    data: Seq<u8>,
)
    requires
        contents::holds(disk, db, es),
        es.len() < layout::MEMORY_DB_MAP_MAX_ENTRIES,
        0 < data.len() <= u32::MAX,
        contents::start_of(db as int, es, es.len() as int) + disk::sectors(data.len() as int)
            <= contents::end_of(db as int),
    ensures
        contents::holds(appended(disk, db, es, data), db, es.push(data)),
{
    let n = es.len() as int;
    let at = contents::start_of(db as int, es, n);
    let m = contents::map_sector(db as int, n);
    let d = appended(disk, db, es, data);
    let fs = es.push(data);
    let h = listed_header(disk, db, es, data);
    lemma_appended_frame(disk, db, es, data);
    layout::law_header_round_trip(h);
    layout::law_map_header_round_trip((n + 1) as u64);
    contents::lemma_starts(db as int, es, 0, n);
    assert forall|i: int| 0 <= i < fs.len() implies #[trigger] contents::lists(d, db as int, fs, i) by {
        contents::lemma_start_prefix(db as int, es, fs, i);
        let slot = i % 32;
        let mine = n % 32;
        layout::law_entry_round_trip(disk(m), mine, slot, listed_entry(at, data));
        if i < n {
            assert(contents::lists(disk, db as int, es, i));
            assert(fs[i] == es[i]);
            contents::lemma_starts(db as int, es, i, n);
            if contents::map_sector(db as int, i) == m {
                assert(slot != mine);
            }
            contents::lemma_stores_frame(disk, d, contents::start_of(db as int, es, i), es[i]);
        } else {
            assert(i == n);
            assert(fs[i] == data);
        }
    }
    contents::lemma_start_prefix(db as int, es, fs, n);
    assert(contents::start_of(db as int, fs, n + 1) == at + disk::sectors(data.len() as int));
    assert(contents::heads(h, db as int));
}

/// From the payload's last sector to the end.
proof fn lemma_append_lists(
    disk: spec_fn(int) -> Seq<u8>,
    db: u64,
    es: Seq<Seq<u8>>,
    data: Seq<u8>,
    a2: Append,
)
    requires
        contents::holds(disk, db, es),
        es.len() < layout::MEMORY_DB_MAP_MAX_ENTRIES,
        0 < data.len() <= u32::MAX,
        contents::start_of(db as int, es, es.len() as int) + disk::sectors(data.len() as int)
            <= contents::end_of(db as int),
        a2.phase == AppendPhase::EntrySector,
        a2.data == data,
        a2.opening.db == db,
        a2.state == contents::opened_state(disk, db, es),
        a2.lba == contents::start_of(db as int, es, es.len() as int) + disk::sectors(
            data.len() as int,
        ),
    ensures
        disk::leads_to(
            a2,
            disk::written(
                disk,
                contents::start_of(db as int, es, es.len() as int),
                disk::padded(data),
            ),
            Append {
                sector: layout::with_map_entry(
                    disk(contents::map_sector(db as int, es.len() as int)),
                    es.len() as int % 32 * 16,
                    listed_entry(contents::start_of(db as int, es, es.len() as int), data),
                ),
                state: listed_header(disk, db, es, data),
                phase: AppendPhase::Done,
                ..a2
            },
            appended(disk, db, es, data),
        ),
{
    let n = es.len() as int;
    let at = contents::start_of(db as int, es, n);
    let m = contents::map_sector(db as int, n);
    let d5 = appended(disk, db, es, data);
    let h = a2.state;
    contents::lemma_starts(db as int, es, 0, n);
    contents::lemma_written_stores(disk, at, data);
    let d1 = disk::written(disk, at, disk::padded(data));
    let entry_sector = layout::with_map_entry(disk(m), n % 32 * 16, listed_entry(at, data));
    let a3 = Append { sector: entry_sector, phase: AppendPhase::EntryWrite, ..a2 };
    assert(opening::entry_lba(h.map_lba, n as u64) == m);
    assert(d1(m) == disk(m));
    assert(disk::advanced(a2, d1) == (a3, d1));
    let d2 = disk::written(d1, m, entry_sector);
    let h2 = listed_header(disk, db, es, data);
    let a4 = Append { state: h2, phase: AppendPhase::MapHeaderWrite, ..a3 };
    assert(a3.listed() == h2);
    assert(disk::advanced(a3, d1) == (a4, d2));
    let d3 = disk::written(d2, db + 1, layout::map_header_sector((n + 1) as u64));
    let a5 = a4.with_phase(AppendPhase::HeaderWrite);
    assert(disk::advanced(a4, d2) == (a5, d3));
    let a6 = a5.with_phase(AppendPhase::Done);
    assert(disk::advanced(a5, d3) == (a6, d5));
    disk::lemma_leads_to_self(a6, d5);
    disk::lemma_leads_by_step(a5, d3, a6, d5, a6, d5);
    disk::lemma_leads_by_step(a4, d2, a5, d3, a6, d5);
    disk::lemma_leads_by_step(a3, d1, a4, d2, a6, d5);
    disk::lemma_leads_by_step(a2, d1, a3, d1, a6, d5);
}

proof fn lemma_append_data_fails(disk: spec_fn(int) -> Seq<u8>, a: Append) -> (r: (
    Append,
    spec_fn(int) -> Seq<u8>,
))
    requires
        a.phase == AppendPhase::Data,
        0 <= a.done < a.data.len(),
        a.lba < a.end,
        a.lba + disk::sectors(a.data.len() - a.done) > a.end || a.data.len() > u32::MAX,
    ensures
        disk::leads_to(a, disk, r.0, r.1),
        r.0.phase == AppendPhase::Failed,
    decreases a.data.len() - a.done,
{
    let (a1, d1) = disk::advanced(a, disk);
    let r = if a1.phase == AppendPhase::Data {
        lemma_append_data_fails(d1, a1)
    } else {
        disk::lemma_leads_to_self(a1, d1);
        (a1, d1)
    };
    disk::lemma_leads_by_step(a, disk, a1, d1, r.0, r.1);
    r
}

/// Appending to a database that has no room for a payload, or no entry for it, fails; so does
/// appending a payload whose length an entry cannot hold.
pub proof fn law_append_needs_room(
    disk: spec_fn(int) -> Seq<u8>,
    db: u64,
    capacity: u64,
    es: Seq<Seq<u8>>,
    data: Seq<u8>,
) -> (r: (Append, spec_fn(int) -> Seq<u8>))
    requires
        contents::holds(disk, db, es),
        data.len() > 0,
        es.len() >= layout::MEMORY_DB_MAP_MAX_ENTRIES || data.len() > u32::MAX
            || contents::start_of(db as int, es, es.len() as int) + disk::sectors(data.len() as int)
            > contents::end_of(db as int) || contents::start_of(db as int, es, es.len() as int)
            + disk::sectors(data.len() as int) > capacity + 1,
    ensures
        disk::leads_to(Append::begin(db, Some(capacity), data), disk, r.0, r.1),
        append::append_outcome(r.0) == Some(Err::<int, ()>(())),
{
    let h = contents::opened_state(disk, db, es);
    contents::lemma_starts(db as int, es, 0, es.len() as int);
    let a0 = Append::begin(db, Some(capacity), data);
    lemma_append_opens(disk, a0, es);
    let a1 = Append { opening: contents::opening_over(disk, db, es), ..a0 }.planned(h);
    if a1.phase == AppendPhase::Data {
        let r = lemma_append_data_fails(disk, a1);
        disk::lemma_leads_to_transitive(a0, disk, a1, disk, r.0, r.1);
        r
    } else {
        (a1, disk)
    }
}

/// On a disk that holds a database with the payloads `es` and has room for `data`, appending
/// `data` ends, on a disk on which no access fails, with the payloads `es` and `data`
/// behind them, and touches nothing outside the database.
pub proof fn law_append_adds_payload(
    disk: spec_fn(int) -> Seq<u8>,
    db: u64,
    capacity: u64,
    es: Seq<Seq<u8>>,
    data: Seq<u8>,
) -> (r: (Append, spec_fn(int) -> Seq<u8>))
    requires
        contents::holds(disk, db, es),
        es.len() < layout::MEMORY_DB_MAP_MAX_ENTRIES,
        0 < data.len() <= u32::MAX,
        contents::start_of(db as int, es, es.len() as int) + disk::sectors(data.len() as int)
            <= contents::end_of(db as int),
        contents::start_of(db as int, es, es.len() as int) + disk::sectors(data.len() as int)
            <= capacity + 1,
    ensures
        disk::leads_to(Append::begin(db, Some(capacity), data), disk, r.0, r.1),
        append::append_outcome(r.0) == Some(Ok::<int, ()>(data.len() as int)),
        contents::holds(r.1, db, es.push(data)),
        contents::start_of(db as int, es, es.len() as int) + disk::sectors(data.len() as int) <= db
            + layout::MEMORY_DB_TOTAL_SECTORS ==> ensure::keeps_layout(
            db as int,
            (r.1)(db as int),
        ),
        forall|i: int|
            i < db || i >= contents::end_of(db as int) ==> #[trigger] (r.1)(i) == disk(i),
{
    let n = es.len() as int;
    let at = contents::start_of(db as int, es, n);
    let m = contents::map_sector(db as int, n);
    let d5 = appended(disk, db, es, data);
    let h = contents::opened_state(disk, db, es);
    contents::lemma_starts(db as int, es, 0, n);
    let a0 = Append::begin(db, Some(capacity), data);
    lemma_append_opens(disk, a0, es);
    let a1 = Append { opening: contents::opening_over(disk, db, es), ..a0 }.planned(h);
    assert(a1.phase == AppendPhase::Data);
    assert(a1.lba == at);
    lemma_append_data(disk, a1);
    assert(data.subrange(0, data.len() as int) =~= data);
    let d1 = disk::written(disk, at, disk::padded(data));
    let a2 = Append {
        done: data.len() as int,
        lba: at + disk::sectors(data.len() as int),
        phase: AppendPhase::EntrySector,
        ..a1
    };
    contents::lemma_written_stores(disk, at, data);
    let a6 = Append {
        sector: layout::with_map_entry(disk(m), n % 32 * 16, listed_entry(at, data)),
        state: listed_header(disk, db, es, data),
        phase: AppendPhase::Done,
        ..a2
    };
    assert(d1(m) == disk(m));
    lemma_append_lists(disk, db, es, data, a2);
    disk::lemma_leads_to_transitive(a1, disk, a2, d1, a6, d5);
    disk::lemma_leads_to_transitive(a0, disk, a1, disk, a6, d5);
    lemma_appended_holds(disk, db, es, data);
    lemma_appended_frame(disk, db, es, data);
    layout::law_header_round_trip(listed_header(disk, db, es, data));
    (a6, d5)
}

} // verus!
