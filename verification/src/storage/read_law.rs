//! Reading gives back what was appended.

use vstd::prelude::*;

use crate::storage::append;
use crate::storage::append::Append;
use crate::storage::append_law;
use crate::storage::contents;
use crate::storage::disk;
use crate::storage::disk::DiskOp;
use crate::storage::layout;
use crate::storage::opening;
use crate::storage::opening::OpenPhase;
use crate::storage::read::ReadPhase;
use crate::storage::read::Reading;

verus! {

/// The first `room` bytes of `b`, or all of it.
pub open spec fn clipped(b: Seq<u8>, room: int) -> Seq<u8> {
    if b.len() <= room {
        b
    } else {
        b.subrange(0, room)
    }
}

/// Reading ends with `out`, and without an error.
pub open spec fn reads_out(m: Reading, disk: spec_fn(int) -> Seq<u8>, out: Seq<u8>) -> bool {
    exists|m2: Reading| #[trigger]
        disk::leads_to(m, disk, m2, disk) && m2.phase == ReadPhase::Done && m2.out == out
}

proof fn lemma_reads_by_step(m: Reading, disk: spec_fn(int) -> Seq<u8>, out: Seq<u8>)
    requires
        m.request() is Read,
        reads_out(disk::advanced(m, disk).0, disk, out),
    ensures
        reads_out(m, disk, out),
{
    let m1 = disk::advanced(m, disk).0;
    let m2 = choose|m2: Reading| #[trigger]
        disk::leads_to(m1, disk, m2, disk) && m2.phase == ReadPhase::Done && m2.out == out;
    disk::lemma_leads_by_step(m, disk, m1, disk, m2, disk);
}

proof fn lemma_reads_done(m: Reading, disk: spec_fn(int) -> Seq<u8>)
    requires
        m.phase == ReadPhase::Done,
    ensures
        reads_out(m, disk, m.out),
{
    disk::lemma_leads_to_self(m, disk);
}

/// `m` is set up to read the database that the disk holds.
spec fn set_up(m: Reading, disk: spec_fn(int) -> Seq<u8>, es: Seq<Seq<u8>>) -> bool {
    let db = m.opening.db;
    &&& contents::holds(disk, db, es)
    &&& m.state == contents::opened_state(disk, db, es)
    &&& m.tail >= contents::end_of(db as int)
    &&& 0 < m.room
    &&& m.out.len() <= m.room
}

proof fn lemma_joined_grows(es: Seq<Seq<u8>>, i: int)
    requires
        0 <= i <= es.len(),
    ensures
        contents::joined(es.take(i)).len() <= contents::joined(es).len(),
        contents::joined(es).subrange(0, contents::joined(es.take(i)).len() as int)
            == contents::joined(es.take(i)),
    decreases es.len() - i,
{
    if i == es.len() {
        assert(es.take(i) =~= es);
        assert(contents::joined(es).subrange(0, contents::joined(es).len() as int)
            =~= contents::joined(es));
    } else {
        lemma_joined_grows(es.drop_last(), i);
        assert(es.drop_last().take(i) =~= es.take(i));
        let n = contents::joined(es.take(i)).len() as int;
        assert(contents::joined(es).subrange(0, n) =~= contents::joined(es.drop_last()).subrange(
            0,
            n,
        ));
    }
}

/// From the moment payload `i` comes up.
proof fn lemma_read_entries(m: Reading, disk: spec_fn(int) -> Seq<u8>, es: Seq<Seq<u8>>, i: int)
    requires
        set_up(m, disk, es),
        0 <= i <= es.len(),
        m.left == es.len() - i,
        m.out == clipped(contents::joined(es.take(i)), m.room),
    ensures
        reads_out(m.next_entry(), disk, clipped(contents::joined(es), m.room)),
    decreases es.len() - i, 1int, 0int,
{
    let next = m.next_entry();
    lemma_joined_grows(es, i);
    if m.left == 0 {
        assert(es.take(i) =~= es);
        lemma_reads_done(next, disk);
    } else if m.out.len() >= m.room {
        let all = contents::joined(es);
        let some = contents::joined(es.take(i));
        assert(clipped(all, m.room) =~= m.out) by {
            assert(all.subrange(0, some.len() as int) == some);
            assert forall|k: int| 0 <= k < m.room implies all[k] == #[trigger] m.out[k] by {
                assert(all.subrange(0, some.len() as int)[k] == all[k]);
            }
        }
        lemma_reads_done(next, disk);
    } else {
        let db = m.opening.db;
        assert(next.index() == i);
        assert(next.phase == ReadPhase::Entry);
        contents::lemma_entry_step(disk, db, es, contents::head_of(disk, db), i);
        assert(contents::lists(disk, db as int, es, i));
        let e = layout::entry_of(
            disk(contents::map_sector(db as int, i)),
            opening::entry_offset(i as u64),
        );
        let m1 = Reading { entry: e, taken: 0, ..next };
        assert(disk::advanced(next, disk).0 == m1.next_data());
        assert(m1.out =~= contents::joined(es.take(i)) + es[i].take(0));
        lemma_read_data(m1, disk, es, i);
        lemma_reads_by_step(next, disk, clipped(contents::joined(es), m.room));
    }
}

proof fn lemma_sector_part(
    disk: spec_fn(int) -> Seq<u8>,
    start: int,
    data: Seq<u8>,
    taken: int,
    t: int,
)
    requires
        disk::is_disk(disk),
        disk::stores(disk, start, data),
        taken % 512 == 0,
        0 <= taken,
        0 <= t <= 512,
        taken + t <= data.len(),
    ensures
        disk(start + taken / 512).subrange(0, t) == data.subrange(taken, taken + t),
{
    let part = disk(start + taken / 512).subrange(0, t);
    assert forall|k: int| 0 <= k < t implies part[k] == #[trigger] data.subrange(
        taken,
        taken + t,
    )[k] by {
        let j = taken + k;
        assert(disk(start + j / 512)[j % 512] == data[j]);
        assert(j / 512 == taken / 512 && j % 512 == k);
    }
    assert(part =~= data.subrange(taken, taken + t));
}

/// From the moment that some of payload `i` was read.
#[verifier::rlimit(30)]
proof fn lemma_read_data(m: Reading, disk: spec_fn(int) -> Seq<u8>, es: Seq<Seq<u8>>, i: int)
    requires
        set_up(m, disk, es),
        0 <= i < es.len(),
        m.left == es.len() - i,
        0 <= m.taken <= es[i].len(),
        m.taken % 512 == 0 || m.taken == es[i].len() || m.out.len() == m.room,
        m.entry == layout::entry_of(
            disk(contents::map_sector(m.opening.db as int, i)),
            opening::entry_offset(i as u64),
        ),
        m.out == contents::joined(es.take(i)) + es[i].take(m.taken),
    ensures
        reads_out(m.next_data(), disk, clipped(contents::joined(es), m.room)),
    decreases es.len() - i, 0int, es[i].len() - m.taken,
{
    let db = m.opening.db;
    let next = m.next_data();
    assert(contents::lists(disk, db as int, es, i));
    contents::lemma_entry_step(disk, db, es, contents::head_of(disk, db), i);
    assert(es.take(i + 1).drop_last() =~= es.take(i));
    assert(es.take(i + 1).last() == es[i]);
    let whole = contents::joined(es.take(i + 1));
    assert(whole == contents::joined(es.take(i)) + es[i]);
    if m.taken < es[i].len() && m.out.len() < m.room {
        let start = contents::start_of(db as int, es, i);
        assert(m.data_lba() < start + disk::sectors(es[i].len() as int));
        contents::lemma_starts(db as int, es, i, i + 1);
        assert(next.phase == ReadPhase::Data);
        let t = m.take_len();
        let part = disk(m.data_lba()).subrange(0, t);
        lemma_sector_part(disk, start, es[i], m.taken, t);
        let m1 = Reading { out: next.out + part, taken: next.taken + t, ..next };
        assert(disk::advanced(next, disk).0 == m1.next_data());
        assert(m1.out =~= contents::joined(es.take(i)) + es[i].take(m1.taken));
        lemma_read_data(m1, disk, es, i);
        lemma_reads_by_step(next, disk, clipped(contents::joined(es), m.room));
    } else {
        let m1 = Reading { left: m.left - 1, ..m };
        assert(m1.out =~= clipped(whole, m.room));
        lemma_read_entries(m1, disk, es, i + 1);
    }
}

proof fn lemma_read_opened(m: Reading, disk: spec_fn(int) -> Seq<u8>, es: Seq<Seq<u8>>)
    requires
        contents::holds(disk, m.opening.db, es),
        m.capacity is Some,
        0 < m.room,
        m.out.len() == 0,
    ensures
        reads_out(
            m.planned(contents::opened_state(disk, m.opening.db, es)),
            disk,
            clipped(contents::joined(es), m.room),
        ),
{
    let db = m.opening.db;
    let h = contents::opened_state(disk, db, es);
    contents::lemma_starts(db as int, es, 0, es.len() as int);
    let end = opening::data_end(h);
    let capacity = m.capacity->0;
    let m1 = Reading {
        state: h,
        tail: if capacity > end {
            capacity as int
        } else {
            end
        },
        left: es.len() as int,
        ..m
    };
    assert(m.planned(h) == m1.next_entry());
    assert(es.take(0) =~= Seq::empty());
    assert(m1.out =~= clipped(contents::joined(es.take(0)), m.room));
    lemma_read_entries(m1, disk, es, 0);
}

proof fn lemma_read_map(m: Reading, disk: spec_fn(int) -> Seq<u8>, es: Seq<Seq<u8>>, k: int)
    requires
        contents::holds(disk, m.opening.db, es),
        m.capacity is Some,
        0 < m.room,
        m.out.len() == 0,
        0 <= k < es.len(),
        m.phase == ReadPhase::Open,
        m.opening == contents::opening_at(disk, m.opening.db, es, k),
    ensures
        reads_out(m, disk, clipped(contents::joined(es), m.room)),
    decreases es.len() - k,
{
    let db = m.opening.db;
    contents::lemma_entry_step(disk, db, es, contents::head_of(disk, db), k);
    let m1 = disk::advanced(m, disk).0;
    if k + 1 < es.len() {
        assert(m1 == Reading { opening: contents::opening_at(disk, db, es, k + 1), ..m });
        lemma_read_map(m1, disk, es, k + 1);
    } else {
        let opened = Reading { opening: contents::opening_over(disk, db, es), ..m };
        lemma_read_opened(opened, disk, es);
        assert(m1 == opened.planned(contents::opened_state(disk, db, es)));
    }
    lemma_reads_by_step(m, disk, clipped(contents::joined(es), m.room));
}

/// Reading a database gives its payloads, one after the other, as far as there is room.
#[verifier::rlimit(30)]
pub proof fn law_read_gives_payloads(
    disk: spec_fn(int) -> Seq<u8>,
    db: u64,
    capacity: u64,
    es: Seq<Seq<u8>>,
    room: int,
)
    requires
        contents::holds(disk, db, es),
        0 < room <= usize::MAX,
    ensures
        reads_out(
            Reading::begin(db, Some(capacity), room),
            disk,
            clipped(contents::joined(es), room),
        ),
{
    let m = Reading::begin(db, Some(capacity), room);
    let out = clipped(contents::joined(es), room);
    let m1 = disk::advanced(m, disk).0;
    let m2 = disk::advanced(m1, disk).0;
    assert(m1.opening.phase == OpenPhase::MapHeader);
    if es.len() == 0 {
        let opened = Reading { opening: contents::opening_over(disk, db, es), ..m };
        lemma_read_opened(opened, disk, es);
        assert(m2 == opened.planned(contents::opened_state(disk, db, es)));
    } else {
        assert(m2 == Reading { opening: contents::opening_at(disk, db, es, 0), ..m });
        lemma_read_map(m2, disk, es, 0);
    }
    lemma_reads_by_step(m1, disk, out);
    lemma_reads_by_step(m, disk, out);
}

/// What is appended is read back, behind what was there before.
pub proof fn law_read_after_append(
    disk: spec_fn(int) -> Seq<u8>,
    db: u64,
    capacity: u64,
    es: Seq<Seq<u8>>,
    data: Seq<u8>,
    room: int,
) -> (r: (Append, spec_fn(int) -> Seq<u8>))
    requires
        contents::holds(disk, db, es),
        es.len() < layout::MEMORY_DB_MAP_MAX_ENTRIES,
        0 < data.len() <= u32::MAX,
        contents::start_of(db as int, es, es.len() as int) + disk::sectors(data.len() as int)
            <= contents::end_of(db as int),
        contents::start_of(db as int, es, es.len() as int) + disk::sectors(data.len() as int)
            <= capacity + 1,
        0 < room <= usize::MAX,
    ensures
        disk::leads_to(Append::begin(db, Some(capacity), data), disk, r.0, r.1),
        append::append_outcome(r.0) == Some(Ok::<int, ()>(data.len() as int)),
        reads_out(
            Reading::begin(db, Some(capacity), room),
            r.1,
            clipped(contents::joined(es) + data, room),
        ),
{
    let r = append_law::law_append_adds_payload(disk, db, capacity, es, data);
    law_read_gives_payloads(r.1, db, capacity, es.push(data), room);
    assert(es.push(data).drop_last() =~= es);
    assert(contents::joined(es.push(data)) == contents::joined(es) + data);
    r
}

} // verus!
