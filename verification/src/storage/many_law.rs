//! What a database holds after one piece of work upon the other.

use vstd::prelude::*;

use crate::storage::append;
use crate::storage::append::Append;
use crate::storage::append::AppendPhase;
use crate::storage::append_law;
use crate::storage::contents;
use crate::storage::disk;
use crate::storage::disk::DiskOp;
use crate::storage::ensure;
use crate::storage::ensure::EnsureOp;
use crate::storage::ensure::EnsurePhase;
use crate::storage::ensure_law;
use crate::storage::layout;
use crate::storage::read::Reading;
use crate::storage::read_law;

verus! {

/// Appending, as it begins where a database is registered: there is nothing to do for an
/// empty payload.
pub open spec fn appending(db: u64, capacity: u64, data: Seq<u8>) -> Append {
    let a = Append::begin(db, Some(capacity), data);
    if data.len() == 0 {
        a.with_phase(AppendPhase::Done)
    } else {
        a
    }
}

/// Appending `data` succeeds, on a disk on which no access fails, and leaves `after`.
pub open spec fn appends(
    disk: spec_fn(int) -> Seq<u8>,
    db: u64,
    capacity: u64,
    data: Seq<u8>,
    after: spec_fn(int) -> Seq<u8>,
) -> bool {
    exists|end: Append| #[trigger]
        disk::leads_to(appending(db, capacity, data), disk, end, after) && append::append_outcome(
            end,
        ) == Some(Ok::<int, ()>(data.len() as int))
}

/// The payloads of a database that held `es`, after `data` was appended.
pub open spec fn with_payload(es: Seq<Seq<u8>>, data: Seq<u8>) -> Seq<Seq<u8>> {
    if data.len() == 0 {
        es
    } else {
        es.push(data)
    }
}

/// The payloads of a database that held `es`, after each of `ps` was appended.
pub open spec fn with_payloads(es: Seq<Seq<u8>>, ps: Seq<Seq<u8>>) -> Seq<Seq<u8>>
    decreases ps.len(),
{
    if ps.len() == 0 {
        es
    } else {
        with_payload(with_payloads(es, ps.drop_last()), ps.last())
    }
}

/// Appending payload `i` of `ps` succeeds on disk `i`, and leaves the next.
pub open spec fn appends_one(
    disks: Seq<spec_fn(int) -> Seq<u8>>,
    db: u64,
    capacity: u64,
    ps: Seq<Seq<u8>>,
    i: int,
) -> bool {
    appends(disks[i], db, capacity, ps[i], disks[i + 1])
}

/// Appending each of `ps` in turn succeeds, and leaves one of `disks` after the other.
pub open spec fn appends_all(
    disks: Seq<spec_fn(int) -> Seq<u8>>,
    db: u64,
    capacity: u64,
    ps: Seq<Seq<u8>>,
) -> bool {
    &&& disks.len() == ps.len() + 1
    &&& forall|i: int| 0 <= i < ps.len() ==> #[trigger] appends_one(disks, db, capacity, ps, i)
}

/// The header of the database at `db` is one that is kept, if its payloads end early enough.
pub open spec fn is_kept(disk: spec_fn(int) -> Seq<u8>, db: u64, es: Seq<Seq<u8>>) -> bool {
    contents::start_of(db as int, es, es.len() as int) <= db + layout::MEMORY_DB_TOTAL_SECTORS
        ==> ensure::keeps_layout(db as int, disk(db as int))
}

/// A payload whose appending succeeded is in the database, behind those that were there; an
/// empty one leaves no trace. Nothing outside the database is touched.
pub proof fn law_success_means_appended(
    disk: spec_fn(int) -> Seq<u8>,
    db: u64,
    capacity: u64,
    es: Seq<Seq<u8>>,
    data: Seq<u8>,
    after: spec_fn(int) -> Seq<u8>,
)
    requires
        contents::holds(disk, db, es),
        appends(disk, db, capacity, data, after),
    ensures
        contents::holds(after, db, with_payload(es, data)),
        is_kept(disk, db, es) ==> is_kept(after, db, with_payload(es, data)),
        forall|i: int|
            i < db || i >= contents::end_of(db as int) ==> #[trigger] after(i) == disk(i),
{
    let a = appending(db, capacity, data);
    let end = choose|end: Append| #[trigger]
        disk::leads_to(a, disk, end, after) && append::append_outcome(end) == Some(
            Ok::<int, ()>(data.len() as int),
        );
    if data.len() == 0 {
        disk::lemma_leads_to_self(a, disk);
        disk::lemma_one_end(a, disk, end, after, a, disk);
    } else {
        let n = es.len() as int;
        let to = contents::start_of(db as int, es, n) + disk::sectors(data.len() as int);
        if n < layout::MEMORY_DB_MAP_MAX_ENTRIES && data.len() <= u32::MAX && to <= contents::end_of(
            db as int,
        ) && to <= capacity + 1 {
            let r = append_law::law_append_adds_payload(disk, db, capacity, es, data);
            disk::lemma_one_end(a, disk, end, after, r.0, r.1);
            contents::lemma_start_prefix(db as int, es, es.push(data), n);
            assert(contents::start_of(db as int, es.push(data), n + 1) == to);
        } else {
            let r = append_law::law_append_needs_room(disk, db, capacity, es, data);
            disk::lemma_one_end(a, disk, end, after, r.0, r.1);
        }
    }
}

proof fn lemma_joined_with(es: Seq<Seq<u8>>, ps: Seq<Seq<u8>>)
    ensures
        contents::joined(with_payloads(es, ps)) == contents::joined(es) + contents::joined(ps),
    decreases ps.len(),
{
    let all = contents::joined(es) + contents::joined(ps);
    if ps.len() == 0 {
        assert(all =~= contents::joined(es));
    } else {
        let qs = ps.drop_last();
        let fs = with_payloads(es, qs);
        lemma_joined_with(es, qs);
        if ps.last().len() == 0 {
            assert(contents::joined(ps) =~= contents::joined(qs));
        } else {
            assert(fs.push(ps.last()).drop_last() =~= fs);
            assert(contents::joined(fs) + ps.last() =~= all);
        }
    }
}

proof fn lemma_appended_all(
    disks: Seq<spec_fn(int) -> Seq<u8>>,
    db: u64,
    capacity: u64,
    es: Seq<Seq<u8>>,
    ps: Seq<Seq<u8>>,
)
    requires
        appends_all(disks, db, capacity, ps),
        contents::holds(disks[0], db, es),
    ensures
        contents::holds(disks.last(), db, with_payloads(es, ps)),
        is_kept(disks[0], db, es) ==> is_kept(disks.last(), db, with_payloads(es, ps)),
        forall|i: int|
            i < db || i >= contents::end_of(db as int) ==> #[trigger] (disks.last())(i) == (
            disks[0])(i),
    decreases ps.len(),
{
    if ps.len() > 0 {
        let n = ps.len() - 1;
        let ds = disks.drop_last();
        let qs = ps.drop_last();
        assert forall|i: int| 0 <= i < qs.len() implies #[trigger] appends_one(
            ds,
            db,
            capacity,
            qs,
            i,
        ) by {
            assert(appends_one(disks, db, capacity, ps, i));
        }
        lemma_appended_all(ds, db, capacity, es, qs);
        assert(appends_one(disks, db, capacity, ps, n));
        law_success_means_appended(
            ds.last(),
            db,
            capacity,
            with_payloads(es, qs),
            ps.last(),
            disks.last(),
        );
    }
}

/// However many payloads were appended, each with success: reading gives them all, behind what
/// the database held before, one right after the other, as far as there is room.
pub proof fn law_read_after_appends(
    disks: Seq<spec_fn(int) -> Seq<u8>>,
    db: u64,
    capacity: u64,
    es: Seq<Seq<u8>>,
    ps: Seq<Seq<u8>>,
    room: int,
)
    requires
        contents::holds(disks[0], db, es),
        appends_all(disks, db, capacity, ps),
        0 < room <= usize::MAX,
    ensures
        read_law::reads_out(
            Reading::begin(db, Some(capacity), room),
            disks.last(),
            read_law::clipped(contents::joined(es) + contents::joined(ps), room),
        ),
{
    lemma_appended_all(disks, db, capacity, es, ps);
    lemma_joined_with(es, ps);
    read_law::law_read_gives_payloads(
        disks.last(),
        db,
        capacity,
        with_payloads(es, ps),
        room,
    );
}

/// A database that was set up where none was, and to which payloads were appended since, each
/// with success, is kept when it is made sure of again: reading gives the same before and
/// after. The payloads together must end within the sectors counted from the header, for a
/// database that goes beyond them is set up afresh.
pub proof fn law_ensure_again_keeps_payloads(
    before: spec_fn(int) -> Seq<u8>,
    db: u64,
    model_start: u64,
    model_last: u64,
    capacity: u64,
    ps: Seq<Seq<u8>>,
    disks: Seq<spec_fn(int) -> Seq<u8>>,
    room: int,
) -> (r: (EnsureOp, spec_fn(int) -> Seq<u8>))
    requires
        disk::is_disk(before),
        db + layout::MEMORY_DB_TOTAL_SECTORS <= capacity,
        !ensure::keeps_layout(db as int, before(db as int)) || layout::map_used_of(before(db + 1))
            is None,
        exists|end: EnsureOp| #[trigger]
            disk::leads_to(
                EnsureOp::begin(db, model_start, model_last, capacity, None),
                before,
                end,
                disks[0],
            ) && ensure::is_over(end),
        appends_all(disks, db, capacity, ps),
        contents::start_of(
            db as int,
            with_payloads(Seq::empty(), ps),
            with_payloads(Seq::empty(), ps).len() as int,
        ) <= db + layout::MEMORY_DB_TOTAL_SECTORS,
        0 < room <= usize::MAX,
    ensures
        disk::leads_to(
            EnsureOp::begin(db, model_start, model_last, capacity, Some(db)),
            disks.last(),
            r.0,
            r.1,
        ),
        r.0.phase == EnsurePhase::Done,
        r.0.registered == Some(db),
        contents::holds(r.1, db, with_payloads(Seq::empty(), ps)),
        read_law::reads_out(
            Reading::begin(db, Some(capacity), room),
            disks.last(),
            read_law::clipped(contents::joined(ps), room),
        ),
        read_law::reads_out(
            Reading::begin(db, Some(capacity), room),
            r.1,
            read_law::clipped(contents::joined(ps), room),
        ),
{
    let m = EnsureOp::begin(db, model_start, model_last, capacity, None);
    let end = choose|end: EnsureOp| #[trigger]
        disk::leads_to(m, before, end, disks[0]) && ensure::is_over(end);
    let s = ensure_law::law_ensure_sets_up(before, db, model_start, model_last, capacity, None);
    reveal(EnsureOp::asks);
    disk::lemma_one_end(m, before, end, disks[0], s.0, s.1);
    let none: Seq<Seq<u8>> = Seq::empty();
    let fs = with_payloads(none, ps);
    lemma_appended_all(disks, db, capacity, none, ps);
    lemma_joined_with(none, ps);
    assert(contents::joined(none) + contents::joined(ps) =~= contents::joined(ps));
    let r = ensure_law::law_ensure_keeps_payloads(
        disks.last(),
        db,
        model_start,
        model_last,
        capacity,
        Some(db),
        fs,
    );
    read_law::law_read_gives_payloads(disks.last(), db, capacity, fs, room);
    read_law::law_read_gives_payloads(r.1, db, capacity, fs, room);
    r
}

} // verus!
