//! A model that was written to the cache is loaded from it.

use vstd::prelude::*;

use crate::storage::contents;
use crate::storage::disk;
use crate::storage::disk::DiskOp;
use crate::storage::disk::Io;
use crate::storage::disk::SECTOR_SIZE;
use crate::storage::ensure;
use crate::storage::ensure::EnsureOp;
use crate::storage::ensure_law;
use crate::storage::load_model::LoadModelOp;
use crate::storage::load_model::LoadPhase;
use crate::storage::model_cache;
use crate::storage::model_cache::CacheCheck;
use crate::storage::model_cache::ModelIo;
use crate::storage::write_model;
use crate::storage::write_model::WriteModelOp;
use crate::storage::write_model::WritePhase;

verus! {

/// Writing a model, together with the memory that the model stands in.
pub struct Caching {
    pub op: WriteModelOp,
    pub image: Seq<u8>,
}

impl DiskOp for Caching {
    open spec fn request(self) -> Io {
        match self.op.request() {
            ModelIo::Disk(io) => io,
            ModelIo::WriteModel { lba, offset, count } => Io::Write {
                lba,
                data: self.image.subrange(offset, offset + count * 512),
            },
            _ => Io::Done,
        }
    }

    open spec fn after(self, reply: Option<Seq<u8>>) -> Caching {
        Caching { op: self.op.after(reply), ..self }
    }
}

/// Loading a model, together with what was read of it. Memory is always had.
pub struct Loading {
    pub op: LoadModelOp,
    pub got: Seq<u8>,
}

impl DiskOp for Loading {
    open spec fn request(self) -> Io {
        match self.op.request() {
            ModelIo::Disk(io) => io,
            ModelIo::Allocate { size, align } => Io::Write { lba: 0, data: Seq::empty() },
            _ => Io::Done,
        }
    }

    open spec fn after(self, reply: Option<Seq<u8>>) -> Loading {
        Loading {
            op: self.op.after(reply),
            got: match reply {
                Some(s) => if self.op.phase == LoadPhase::Chunk {
                    self.got + s
                } else {
                    self.got
                },
                None => self.got,
            },
        }
    }
}

proof fn lemma_lift_write(
    c: Caching,
    disk: spec_fn(int) -> Seq<u8>,
    e: EnsureOp,
    n: nat,
)
    ensures
        disk::leads_to(
            Caching { op: c.op.with_ensure(e), ..c },
            disk,
            Caching { op: c.op.with_ensure(disk::run(e, disk, n).0), ..c },
            disk::run(e, disk, n).1,
        ),
    decreases n,
{
    let c0 = Caching { op: c.op.with_ensure(e), ..c };
    if n == 0 {
        disk::lemma_leads_to_self(c0, disk);
    } else {
        let (e1, d1) = disk::advanced(e, disk);
        let c1 = Caching { op: c.op.with_ensure(e1), ..c };
        ensure::lemma_over(e);
        lemma_lift_write(c, d1, e1, (n - 1) as nat);
        let (e2, d2) = disk::run(e, disk, n);
        let c2 = Caching { op: c.op.with_ensure(e2), ..c };
        if ensure::is_over(e) {
            assert(e1 == e && d1 == disk);
        } else {
            assert(disk::advanced(c0, disk) == (c1, d1));
            disk::lemma_leads_by_step(c0, disk, c1, d1, c2, d2);
        }
    }
}

proof fn lemma_lift_load(
    c: Loading,
    disk: spec_fn(int) -> Seq<u8>,
    e: EnsureOp,
    e2: EnsureOp,
    d2: spec_fn(int) -> Seq<u8>,
    n: nat,
)
    requires
        disk::run(e, disk, n) == (e2, d2),
    ensures
        ensure::is_over(e) ==> e2 == e && d2 == disk,
        disk::leads_to(
            Loading { op: c.op.with_ensure(e), ..c },
            disk,
            Loading { op: c.op.with_ensure(e2), ..c },
            d2,
        ),
    decreases n,
{
    let c0 = Loading { op: c.op.with_ensure(e), ..c };
    if n == 0 {
        disk::lemma_leads_to_self(c0, disk);
    } else {
        let (e1, d1) = disk::advanced(e, disk);
        let c1 = Loading { op: c.op.with_ensure(e1), ..c };
        ensure::lemma_over(e);
        lemma_lift_load(c, d1, e1, e2, d2, (n - 1) as nat);
        let c2 = Loading { op: c.op.with_ensure(e2), ..c };
        if ensure::is_over(e) {
            assert(e1 == e && d1 == disk);
        } else {
            assert(disk::advanced(c0, disk) == (c1, d1));
            disk::lemma_leads_by_step(c0, disk, c1, d1, c2, d2);
        }
    }
}

/// Making sure of the database behind a model ends, and leaves what stands before alone.
proof fn lemma_database_behind(
    disk: spec_fn(int) -> Seq<u8>,
    data_lba: int,
    sectors: int,
    capacity: u64,
    registered: Option<u64>,
) -> (r: (EnsureOp, spec_fn(int) -> Seq<u8>))
    requires
        disk::is_disk(disk),
        0 <= data_lba,
        0 <= sectors,
        data_lba + sectors <= capacity,
    ensures
        disk::leads_to(
            write_model::database_behind(data_lba, sectors, Some(capacity), registered),
            disk,
            r.0,
            r.1,
        ),
        ensure::is_over(r.0),
        disk::is_disk(r.1),
        forall|i: int| i < data_lba + sectors ==> #[trigger] (r.1)(i) == disk(i),
{
    let e = write_model::database_behind(data_lba, sectors, Some(capacity), registered);
    if ensure::is_over(e) {
        disk::lemma_leads_to_self(e, disk);
        (e, disk)
    } else {
        ensure_law::law_ensure_ends(
            disk,
            e.db,
            e.model_start,
            e.model_last,
            capacity,
            registered,
        )
    }
}

proof fn lemma_write_chunks(disk: spec_fn(int) -> Seq<u8>, c: Caching)
    requires
        c.op.wf(),
        c.op.phase == WritePhase::Chunk,
        c.image.len() >= disk::sectors(c.op.model_size as int) * 512,
    ensures
        disk::leads_to(
            c,
            disk,
            Caching {
                op: WriteModelOp {
                    offset: (disk::sectors(c.op.model_size as int) * 512) as u64,
                    phase: WritePhase::ReadyHeader,
                    ..c.op
                },
                ..c
            },
            disk::written(
                disk,
                c.op.data_lba() + c.op.offset as int / 512,
                c.image.subrange(
                    c.op.offset as int,
                    disk::sectors(c.op.model_size as int) * 512,
                ),
            ),
        ),
    decreases c.op.model_size - c.op.offset,
{
    let size = c.op.model_size as int;
    let at = c.op.offset as int;
    let end = disk::sectors(size) * 512;
    let n = model_cache::chunk_sectors(size, at);
    let lba = c.op.data_lba() + at / 512;
    let x = c.image.subrange(at, at + n * 512);
    let goal = Caching {
        op: WriteModelOp { offset: end as u64, phase: WritePhase::ReadyHeader, ..c.op },
        ..c
    };
    let dg = disk::written(disk, lba, c.image.subrange(at, end));
    let c1 = disk::advanced(c, disk).0;
    let d1 = disk::written(disk, lba, x);
    assert(disk::advanced(c, disk) == (c1, d1));
    assert(0 < n && at + n * 512 <= end);
    if at + n * 512 < size {
        lemma_write_chunks(d1, c1);
        let y = c.image.subrange(at + n * 512, end);
        contents::lemma_written_concat(disk, lba, x, y, n);
        assert(x + y =~= c.image.subrange(at, end));
        assert(c1.op.data_lba() + c1.op.offset as int / 512 == lba + n);
    } else {
        assert(at + n * 512 == end);
        assert(c1 == goal);
        disk::lemma_leads_to_self(goal, dg);
    }
    disk::lemma_leads_by_step(c, disk, c1, d1, goal, dg);
}

/// Writing a model to the cache, where no access fails, ends with a header that says that
/// the copy is complete, and with the model behind it.
pub proof fn law_model_is_cached(
    disk: spec_fn(int) -> Seq<u8>,
    cache_lba: u64,
    image: Seq<u8>,
    model_size: u64,
    capacity: u64,
    registered: Option<u64>,
) -> (r: (Caching, spec_fn(int) -> Seq<u8>))
    requires
        disk::is_disk(disk),
        model_cache::MIN_RAW_MODEL_SIZE <= model_size <= model_cache::MAX_RAW_MODEL_SIZE,
        image.len() >= disk::sectors(model_size as int) * 512,
        cache_lba + model_cache::MODEL_HEADER_SECTORS + disk::sectors(model_size as int)
            <= capacity,
    ensures
        disk::leads_to(
            Caching {
                op: WriteModelOp::begin(cache_lba, model_size, Some(capacity), registered),
                image,
            },
            disk,
            r.0,
            r.1,
        ),
        r.0.op.phase == WritePhase::Done,
        disk::is_disk(r.1),
        model_cache::cache_check((r.1)(cache_lba as int), cache_lba) == CacheCheck::Ready(
            model_size,
        ),
        disk::stores(
            r.1,
            cache_lba + model_cache::MODEL_HEADER_SECTORS,
            image.subrange(0, model_size as int),
        ),
{
    let data_lba = cache_lba + model_cache::MODEL_HEADER_SECTORS;
    let total = disk::sectors(model_size as int);
    let test = (cache_lba + 1) as u64;
    let c0 = Caching {
        op: WriteModelOp::begin(cache_lba, model_size, Some(capacity), registered),
        image,
    };
    let smoke = model_cache::smoke_sector(test);
    lemma_smoke_len(test);
    let d1 = disk::written(disk, cache_lba + 1, smoke);
    contents::lemma_write_sector(disk, cache_lba + 1, smoke);
    disk::lemma_written_is_disk(disk, cache_lba + 1, smoke);
    let c1 = Caching { op: c0.op.with_phase(WritePhase::SmokeRead), ..c0 };
    assert(disk::advanced(c0, disk) == (c1, d1));
    let c2 = Caching { op: c0.op.with_phase(WritePhase::WritingHeader), ..c0 };
    assert(disk::advanced(c1, d1) == (c2, d1));
    model_cache::law_model_header_round_trip(model_size, cache_lba);
    let writing = model_cache::model_header_sector(
        model_cache::MODEL_MAGIC_WRITING@,
        model_size,
        data_lba as u64,
    );
    let d3 = disk::written(d1, cache_lba as int, writing);
    contents::lemma_write_sector(d1, cache_lba as int, writing);
    disk::lemma_written_is_disk(d1, cache_lba as int, writing);
    let c3 = Caching { op: c0.op.with_phase(WritePhase::Chunk), ..c0 };
    assert(disk::advanced(c2, d1) == (c3, d3));
    lemma_write_chunks(d3, c3);
    let whole = image.subrange(0, total * 512);
    let d4 = disk::written(d3, data_lba, whole);
    disk::lemma_written_is_disk(d3, data_lba, whole);
    let c4 = Caching {
        op: WriteModelOp {
            offset: (total * 512) as u64,
            phase: WritePhase::ReadyHeader,
            ..c0.op
        },
        ..c0
    };
    lemma_whole_stores(d3, data_lba, image, model_size as int);
    let ready = model_cache::model_header_sector(
        model_cache::MODEL_MAGIC_READY@,
        model_size,
        data_lba as u64,
    );
    let d5 = disk::written(d4, cache_lba as int, ready);
    contents::lemma_write_sector(d4, cache_lba as int, ready);
    disk::lemma_written_is_disk(d4, cache_lba as int, ready);
    let e = write_model::database_behind(data_lba, total, Some(capacity), registered);
    let c5 = Caching { op: c4.op.with_ensure(e), ..c0 };
    assert(disk::advanced(c4, d4) == (c5, d5));
    let (e2, d6) = lemma_database_behind(d5, data_lba, total, capacity, registered);
    let n = choose|n: nat| #[trigger] disk::run(e, d5, n) == (e2, d6);
    lemma_lift_write(c4, d5, e, n);
    let c6 = Caching { op: c4.op.with_ensure(e2), ..c0 };
    disk::lemma_leads_by_step(c4, d4, c5, d5, c6, d6);
    disk::lemma_leads_to_transitive(c3, d3, c4, d4, c6, d6);
    disk::lemma_leads_by_step(c2, d1, c3, d3, c6, d6);
    disk::lemma_leads_by_step(c1, d1, c2, d1, c6, d6);
    disk::lemma_leads_by_step(c0, disk, c1, d1, c6, d6);
    let model = image.subrange(0, model_size as int);
    contents::lemma_stores_frame(d4, d5, data_lba, model);
    contents::lemma_stores_frame(d5, d6, data_lba, model);
    (c6, d6)
}

proof fn lemma_smoke_len(test: u64)
    ensures
        model_cache::smoke_sector(test).len() == SECTOR_SIZE,
{
    reveal(model_cache::smoke_sector);
    crate::bytes::lemma_le_lengths();
}

proof fn lemma_whole_stores(
    disk: spec_fn(int) -> Seq<u8>,
    lba: int,
    image: Seq<u8>,
    size: int,
)
    requires
        0 <= size,
        image.len() >= disk::sectors(size) * 512,
    ensures
        disk::stores(
            disk::written(disk, lba, image.subrange(0, disk::sectors(size) * 512)),
            lba,
            image.subrange(0, size),
        ),
{
    let whole = image.subrange(0, disk::sectors(size) * 512);
    let d = disk::written(disk, lba, whole);
    let model = image.subrange(0, size);
    assert forall|k: int| 0 <= k < model.len() implies d(lba + k / 512)[k % 512]
        == #[trigger] model[k] by {
        let i = k / 512;
        assert(whole.subrange(i * 512, i * 512 + 512)[k % 512] == whole[k]);
    }
}

proof fn lemma_load_chunks(disk: spec_fn(int) -> Seq<u8>, c: Loading)
    requires
        disk::is_disk(disk),
        c.op.wf(),
        c.op.phase == LoadPhase::Chunk,
        disk(c.op.data_lba()).subrange(0, 4) == model_cache::GGUF_MAGIC@,
        c.got == disk::span(disk, c.op.data_lba(), c.op.offset as int / 512),
    ensures
        disk::leads_to(
            c,
            disk,
            Loading {
                op: LoadModelOp {
                    offset: (disk::sectors(c.op.model_size as int) * 512) as u64,
                    phase: LoadPhase::Done,
                    ..c.op
                },
                got: disk::span(disk, c.op.data_lba(), disk::sectors(c.op.model_size as int)),
            },
            disk,
        ),
    decreases c.op.model_size - c.op.offset,
{
    let size = c.op.model_size as int;
    let at = c.op.offset as int;
    let end = disk::sectors(size) * 512;
    let n = model_cache::chunk_sectors(size, at);
    let base = c.op.data_lba();
    let lba = base + at / 512;
    let part = disk::span(disk, lba, n);
    let goal = Loading {
        op: LoadModelOp { offset: end as u64, phase: LoadPhase::Done, ..c.op },
        got: disk::span(disk, base, disk::sectors(size)),
    };
    assert(0 < n && at + n * 512 <= end);
    if at == 0 {
        assert(part.subrange(0, 4) =~= disk(base).subrange(0, 4));
    }
    let c1 = disk::advanced(c, disk).0;
    assert(c.got + part =~= disk::span(disk, base, at / 512 + n)) by {
        let all = disk::span(disk, base, at / 512 + n);
        assert forall|k: int| 0 <= k < all.len() implies (c.got + part)[k] == #[trigger] all[k] by {
            if k >= at {
                let j = k - at;
                assert(lba + j / 512 == base + k / 512 && j % 512 == k % 512);
            }
        }
    }
    if at + n * 512 < size {
        assert(c1.got == disk::span(disk, base, c1.op.offset as int / 512));
        lemma_load_chunks(disk, c1);
    } else {
        assert(c1 == goal);
        disk::lemma_leads_to_self(goal, disk);
    }
    disk::lemma_leads_by_step(c, disk, c1, disk, goal, disk);
}

/// Where the cache holds a complete copy of `model`, loading ends, where no access fails,
/// with `model` in memory.
#[verifier::rlimit(40)]
pub proof fn law_cached_model_is_loaded(
    disk: spec_fn(int) -> Seq<u8>,
    cache_lba: u64,
    model: Seq<u8>,
    capacity: u64,
    registered: Option<u64>,
) -> (r: (Loading, spec_fn(int) -> Seq<u8>))
    requires
        disk::is_disk(disk),
        model_cache::MIN_RAW_MODEL_SIZE <= model.len() <= model_cache::MAX_RAW_MODEL_SIZE,
        model.subrange(0, 4) == model_cache::GGUF_MAGIC@,
        model_cache::cache_check(disk(cache_lba as int), cache_lba) == CacheCheck::Ready(
            model.len() as u64,
        ),
        disk::stores(disk, cache_lba + model_cache::MODEL_HEADER_SECTORS, model),
        cache_lba + model_cache::MODEL_HEADER_SECTORS + disk::sectors(model.len() as int)
            <= capacity,
        cache_lba + 0x200_0000 <= u64::MAX,
    ensures
        disk::leads_to(
            Loading {
                op: LoadModelOp::begin(cache_lba, Some(capacity), registered),
                got: Seq::empty(),
            },
            disk,
            r.0,
            r.1,
        ),
        r.0.op.phase == LoadPhase::Done,
        r.0.op.model_size == model.len(),
        r.0.got.len() >= model.len(),
        r.0.got.subrange(0, model.len() as int) == model,
{
    let data_lba = cache_lba + model_cache::MODEL_HEADER_SECTORS;
    let size = model.len() as u64;
    let total = disk::sectors(size as int);
    let c0 = Loading {
        op: LoadModelOp::begin(cache_lba, Some(capacity), registered),
        got: Seq::empty(),
    };
    let op1 = LoadModelOp { model_size: size, phase: LoadPhase::LastSector, ..c0.op };
    let c1 = Loading { op: op1, ..c0 };
    assert(disk::advanced(c0, disk) == (c1, disk));
    let e = write_model::database_behind(data_lba, total, Some(capacity), registered);
    let c3 = Loading { op: op1.with_ensure(e), ..c0 };
    let (e2, d) = lemma_database_behind(disk, data_lba, total, capacity, registered);
    let n = choose|n: nat| #[trigger] disk::run(e, disk, n) == (e2, d);
    lemma_lift_load(c1, disk, e, e2, d, n);
    let c4 = Loading { op: op1.with_ensure(e2), ..c0 };
    assert(c4.op.phase == LoadPhase::Allocate);
    let c5 = Loading {
        op: LoadModelOp { offset: 0, phase: LoadPhase::Chunk, ..c4.op },
        ..c0
    };
    assert(disk::written(d, 0, Seq::empty()) =~= d);
    assert(disk::advanced(c4, d) == (c5, d));
    contents::lemma_stores_frame(disk, d, data_lba, model);
    assert(d(data_lba).subrange(0, 4) =~= model_cache::GGUF_MAGIC@) by {
        assert forall|k: int| 0 <= k < 4 implies d(data_lba).subrange(0, 4)[k]
            == #[trigger] model_cache::GGUF_MAGIC@[k] by {
            assert(d(data_lba + k / 512)[k % 512] == model[k]);
            assert(model.subrange(0, 4)[k] == model[k]);
        }
    }
    assert(c5.got =~= disk::span(d, data_lba, 0));
    lemma_load_chunks(d, c5);
    let c6 = Loading {
        op: LoadModelOp { offset: (total * 512) as u64, phase: LoadPhase::Done, ..c5.op },
        got: disk::span(d, data_lba, total),
    };
    disk::lemma_leads_by_step(c4, d, c5, d, c6, d);
    disk::lemma_leads_to_transitive(c3, disk, c4, d, c6, d);
    if data_lba + total < capacity {
        let c2 = Loading { op: op1.with_phase(LoadPhase::Probe), ..c0 };
        assert(disk::advanced(c1, disk) == (c2, disk));
        assert(disk::advanced(c2, disk) == (c3, disk));
        disk::lemma_leads_by_step(c2, disk, c3, disk, c6, d);
        disk::lemma_leads_by_step(c1, disk, c2, disk, c6, d);
    } else {
        assert(disk::advanced(c1, disk) == (c3, disk));
        disk::lemma_leads_by_step(c1, disk, c3, disk, c6, d);
    }
    disk::lemma_leads_by_step(c0, disk, c1, disk, c6, d);
    assert(c6.got.subrange(0, model.len() as int) =~= model);
    (c6, d)
}

/// A model that is written to the cache is what a later start loads from it.
pub proof fn law_model_survives(
    disk: spec_fn(int) -> Seq<u8>,
    cache_lba: u64,
    image: Seq<u8>,
    model_size: u64,
    capacity: u64,
    registered: Option<u64>,
) -> (r: (Caching, spec_fn(int) -> Seq<u8>, Loading, spec_fn(int) -> Seq<u8>))
    requires
        disk::is_disk(disk),
        model_cache::MIN_RAW_MODEL_SIZE <= model_size <= model_cache::MAX_RAW_MODEL_SIZE,
        image.len() >= disk::sectors(model_size as int) * 512,
        image.subrange(0, 4) == model_cache::GGUF_MAGIC@,
        cache_lba + model_cache::MODEL_HEADER_SECTORS + disk::sectors(model_size as int)
            <= capacity,
        cache_lba + 0x200_0000 <= u64::MAX,
    ensures
        disk::leads_to(
            Caching {
                op: WriteModelOp::begin(cache_lba, model_size, Some(capacity), registered),
                image,
            },
            disk,
            r.0,
            r.1,
        ),
        r.0.op.phase == WritePhase::Done,
        disk::leads_to(
            Loading {
                op: LoadModelOp::begin(cache_lba, Some(capacity), None),
                got: Seq::empty(),
            },
            r.1,
            r.2,
            r.3,
        ),
        r.2.op.phase == LoadPhase::Done,
        r.2.op.model_size == model_size,
        r.2.got.len() >= model_size,
        r.2.got.subrange(0, model_size as int) == image.subrange(0, model_size as int),
{
    let (c, d) = law_model_is_cached(
        disk,
        cache_lba,
        image,
        model_size,
        capacity,
        registered,
    );
    let model = image.subrange(0, model_size as int);
    assert(model.subrange(0, 4) =~= image.subrange(0, 4));
    let (l, d2) = law_cached_model_is_loaded(d, cache_lba, model, capacity, None);
    (c, d, l, d2)
}

} // verus!
