//! What a memory database on a disk holds.

use vstd::prelude::*;

use crate::storage::disk;
use crate::storage::disk::SECTOR_SIZE;
use crate::storage::ensure;
use crate::storage::layout;
use crate::storage::layout::MemoryDbHeader;
use crate::storage::opening;
use crate::storage::opening::OpenPhase;
use crate::storage::opening::Opening;
use crate::storage::opening::Recovery;
use crate::storage::opening::RecoveryStep;

verus! {

/// Where payload `i` of `es` starts.
pub open spec fn start_of(db: int, es: Seq<Seq<u8>>, i: int) -> int
    decreases i,
{
    if i <= 0 {
        ensure::data_lba_of(db)
    } else {
        start_of(db, es, i - 1) + disk::sectors(es[i - 1].len() as int)
    }
}

/// The sector behind the data of the database at `db`, as far as sectors have numbers.
pub open spec fn end_of(db: int) -> int {
    opening::sat64(ensure::data_lba_of(db) + layout::MEMORY_DB_TOTAL_SECTORS)
}

/// The sector that entry `i` of the map stands in.
pub open spec fn map_sector(db: int, i: int) -> int {
    db + 2 + i / 32
}

/// The map lists payload `i`, and the payload is where the map says.
pub open spec fn lists(disk: spec_fn(int) -> Seq<u8>, db: int, es: Seq<Seq<u8>>, i: int) -> bool {
    let e = layout::entry_of(disk(map_sector(db, i)), i % 32 * 16);
    &&& 0 < es[i].len() <= u32::MAX
    &&& e.start_lba == start_of(db, es, i)
    &&& e.payload_bytes == es[i].len()
    &&& e.flags % 2 == 1
    &&& disk::stores(disk, start_of(db, es, i), es[i])
}

/// Whether `h` is the header of a database of this layout at `db`.
pub open spec fn heads(h: MemoryDbHeader, db: int) -> bool {
    &&& h.version == layout::MEMORY_DB_VERSION
    &&& h.sector_size == SECTOR_SIZE
    &&& h.header_lba == db
    &&& h.data_lba == ensure::data_lba_of(db)
    &&& h.total_sectors == layout::MEMORY_DB_TOTAL_SECTORS
    &&& h.map_lba == db + 1
    &&& h.map_sectors == layout::MEMORY_DB_MAP_SECTORS
}

/// The disk holds, at `db`, a database with the payloads `es`.
pub open spec fn holds(disk: spec_fn(int) -> Seq<u8>, db: u64, es: Seq<Seq<u8>>) -> bool {
    &&& disk::is_disk(disk)
    &&& db + layout::MEMORY_DB_TOTAL_SECTORS <= u64::MAX
    &&& layout::header_of(disk(db as int)) matches Some(h) && heads(h, db as int)
    &&& es.len() <= layout::MEMORY_DB_MAP_MAX_ENTRIES
    &&& layout::map_used_of(disk(db + 1)) == Some(es.len() as u64)
    &&& forall|i: int| 0 <= i < es.len() ==> #[trigger] lists(disk, db as int, es, i)
    &&& start_of(db as int, es, es.len() as int) <= end_of(db as int)
}

/// The header of the database at `db`.
pub open spec fn head_of(disk: spec_fn(int) -> Seq<u8>, db: u64) -> MemoryDbHeader {
    layout::header_of(disk(db as int))->0
}

/// The payloads one after the other.
pub open spec fn joined(es: Seq<Seq<u8>>) -> Seq<u8>
    decreases es.len(),
{
    if es.len() == 0 {
        Seq::empty()
    } else {
        joined(es.drop_last()) + es.last()
    }
}

/// Going through the map has passed `k` of the payloads.
pub open spec fn rec_at(db: int, es: Seq<Seq<u8>>, k: int) -> Recovery {
    Recovery {
        mapped: es.len() as u64,
        cursor: start_of(db, es, k) as u64,
        recovered: k as u64,
    }
}

/// The header once the map was gone through.
pub open spec fn opened_state(disk: spec_fn(int) -> Seq<u8>, db: u64, es: Seq<Seq<u8>>) -> MemoryDbHeader {
    opening::recovered_header(head_of(disk, db), rec_at(db as int, es, es.len() as int))
}

/// Payloads follow each other.
pub proof fn lemma_starts(db: int, es: Seq<Seq<u8>>, i: int, j: int)
    requires
        0 <= i <= j <= es.len(),
    ensures
        ensure::data_lba_of(db) <= start_of(db, es, i) <= start_of(db, es, j),
        i < j ==> start_of(db, es, i) + disk::sectors(es[i].len() as int) <= start_of(db, es, j),
    decreases j,
{
    if j > 0 {
        if i < j {
            lemma_starts(db, es, i, j - 1);
        } else {
            lemma_starts(db, es, i - 1, j - 1);
        }
    }
}

/// Where a payload starts depends only on those before it.
pub proof fn lemma_start_prefix(db: int, es: Seq<Seq<u8>>, fs: Seq<Seq<u8>>, i: int)
    requires
        0 <= i <= es.len(),
        i <= fs.len(),
        forall|k: int| 0 <= k < i ==> es[k] == fs[k],
    ensures
        start_of(db, es, i) == start_of(db, fs, i),
    decreases i,
{
    if i > 0 {
        lemma_start_prefix(db, es, fs, i - 1);
    }
}

/// The opening of a database that holds `es`, before its entry `k` is looked at.
pub open spec fn opening_at(disk: spec_fn(int) -> Seq<u8>, db: u64, es: Seq<Seq<u8>>, k: int) -> Opening {
    Opening {
        db,
        phase: OpenPhase::Entry,
        state: head_of(disk, db),
        rec: rec_at(db as int, es, k),
    }
}

/// The opening of a database that holds `es`, when it is over.
pub open spec fn opening_over(disk: spec_fn(int) -> Seq<u8>, db: u64, es: Seq<Seq<u8>>) -> Opening {
    Opening {
        db,
        phase: OpenPhase::Opened,
        state: opened_state(disk, db, es),
        rec: rec_at(db as int, es, es.len() as int),
    }
}

/// Going through the map of a database passes one payload after the other.
pub proof fn lemma_entry_step(disk: spec_fn(int) -> Seq<u8>, db: u64, es: Seq<Seq<u8>>, h: MemoryDbHeader, k: int)
    requires
        holds(disk, db, es),
        heads(h, db as int),
        0 <= k < es.len(),
    ensures
        opening::entry_lba(h.map_lba, k as u64) == map_sector(db as int, k),
        opening::recovery_step(
            h,
            rec_at(db as int, es, k),
            layout::entry_of(
                disk(map_sector(db as int, k)),
                opening::entry_offset(k as u64),
            ),
        ) == if k + 1 < es.len() {
            RecoveryStep::More(rec_at(db as int, es, k + 1))
        } else {
            RecoveryStep::Over(rec_at(db as int, es, k + 1))
        },
        start_of(db as int, es, k + 1) <= end_of(db as int),
{
    assert(lists(disk, db as int, es, k));
    lemma_starts(db as int, es, k, k + 1);
    lemma_starts(db as int, es, k + 1, es.len() as int);
    lemma_starts(db as int, es, 0, k);
}

/// Writing one sector.
pub proof fn lemma_write_sector(disk: spec_fn(int) -> Seq<u8>, lba: int, s: Seq<u8>)
    requires
        s.len() == SECTOR_SIZE,
    ensures
        disk::written(disk, lba, s)(lba) == s,
        forall|i: int| i != lba ==> #[trigger] disk::written(disk, lba, s)(i) == disk(i),
{
    assert(s.subrange(0, 512) =~= s);
}

/// Writing one stretch and then the next is writing both.
pub proof fn lemma_written_concat(
    disk: spec_fn(int) -> Seq<u8>,
    lba: int,
    x: Seq<u8>,
    y: Seq<u8>,
    n: int,
)
    requires
        x.len() == n * 512,
        y.len() % 512 == 0,
    ensures
        disk::written(disk::written(disk, lba, x), lba + n, y) == disk::written(disk, lba, x + y),
{
    let l = disk::written(disk::written(disk, lba, x), lba + n, y);
    let r = disk::written(disk, lba, x + y);
    assert forall|i: int| #[trigger] l(i) == r(i) by {
        let k = (i - lba) * 512;
        if lba <= i < lba + n {
            assert(x.subrange(k, k + 512) =~= (x + y).subrange(k, k + 512));
        } else if lba + n <= i < lba + n + y.len() / 512 {
            let j = (i - lba - n) * 512;
            assert(y.subrange(j, j + 512) =~= (x + y).subrange(k, k + 512));
        }
    }
    assert(l =~= r);
}

/// What was written is stored.
pub proof fn lemma_written_stores(disk: spec_fn(int) -> Seq<u8>, lba: int, data: Seq<u8>)
    ensures
        disk::stores(disk::written(disk, lba, disk::padded(data)), lba, data),
        disk::padded(data).len() == disk::sectors(data.len() as int) * 512,
        forall|i: int|
            i < lba || i >= lba + disk::sectors(data.len() as int) ==> #[trigger] disk::written(
                disk,
                lba,
                disk::padded(data),
            )(i) == disk(i),
{
    let p = disk::padded(data);
    let d = disk::written(disk, lba, p);
    assert forall|k: int| 0 <= k < data.len() implies d(lba + k / 512)[k % 512]
        == #[trigger] data[k] by {
        let i = k / 512;
        assert(p.subrange(i * 512, i * 512 + 512)[k % 512] == p[k]);
    }
}

/// What is stored stays stored where nothing is written over it.
pub proof fn lemma_stores_frame(
    d1: spec_fn(int) -> Seq<u8>,
    d2: spec_fn(int) -> Seq<u8>,
    lba: int,
    data: Seq<u8>,
)
    requires
        disk::stores(d1, lba, data),
        forall|i: int|
            lba <= i < lba + disk::sectors(data.len() as int) ==> #[trigger] d2(i) == d1(i),
    ensures
        disk::stores(d2, lba, data),
{
    assert forall|k: int| 0 <= k < data.len() implies d2(lba + k / 512)[k % 512]
        == #[trigger] data[k] by {
        assert(d2(lba + k / 512) == d1(lba + k / 512));
    }
}

/// An empty database: its header and the head of its map say so.
pub proof fn lemma_empty_holds(disk: spec_fn(int) -> Seq<u8>, db: u64, h: MemoryDbHeader)
    requires
        disk::is_disk(disk),
        db + layout::MEMORY_DB_TOTAL_SECTORS <= u64::MAX,
        heads(h, db as int),
        disk(db as int) == layout::header_sector(h),
        disk(db + 1) == layout::map_header_sector(0),
    ensures
        holds(disk, db, Seq::empty()),
{
    layout::law_header_round_trip(h);
    layout::law_map_header_round_trip(0);
}

} // verus!
