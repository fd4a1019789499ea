//! What is written where on the disk, step by step, in plain numbers.

use vstd::prelude::*;

use crate::bytes;
use crate::storage::append::Append;
use crate::storage::append::AppendPhase;
use crate::storage::boot_log::DumpOp;
use crate::storage::boot_log::DumpPhase;
use crate::storage::boot_log::DumpRequest;
use crate::storage::disk::DiskOp;
use crate::storage::disk::Io;
use crate::storage::ensure;
use crate::storage::ensure::EnsureOp;
use crate::storage::ensure::EnsurePhase;
use crate::storage::enumerate;
use crate::storage::enumerate::AhciDevice;
use crate::storage::erase::EraseOp;
use crate::storage::erase::ErasePhase;
use crate::storage::format_law;
use crate::storage::layout;
use crate::storage::layout::MemoryDbHeader;
use crate::storage::layout::MemoryDbMapEntry;
use crate::storage::load_model::LoadModelOp;
use crate::storage::load_model::LoadPhase;
use crate::storage::model_cache;
use crate::storage::model_cache::ModelIo;
use crate::storage::opening;
use crate::storage::opening::OpenPhase;
use crate::storage::opening::Opening;
use crate::storage::opening::Recovery;
use crate::storage::opening::RecoveryStep;
use crate::storage::read::ReadPhase;
use crate::storage::read::Reading;
use crate::storage::write_model;
use crate::storage::write_model::WriteModelOp;
use crate::storage::write_model::WritePhase;

verus! {

/// A database is kept where its header has the name, the version and the sector size, and says
/// that its map follows it, that its data follows 32 sectors of map, that there are 131072
/// sectors, that the next payload goes among them, and that no more entries are used than the
/// map has.
pub proof fn law_layout_is_checked(db: u64, s: Seq<u8>)
    requires
        s.len() == 512,
        db <= u64::MAX - 131_072,
    ensures
        ensure::keeps_layout(db as int, s) == {
            &&& format_law::is_database(s)
            &&& format_law::num4(s, 8) == 2
            &&& format_law::num4(s, 12) == 512
            &&& format_law::num8(s, 16) == db
            &&& format_law::num8(s, 24) == db + 33
            &&& format_law::num8(s, 32) == 131_072
            &&& db + 33 <= format_law::num8(s, 40) <= db + 131_072
            &&& format_law::num8(s, 72) == db + 1
            &&& format_law::num8(s, 80) <= 992
            &&& format_law::num8(s, 88) == 32
        },
{
    format_law::law_header_sector(opening::blank_header(), s);
    assert(bytes::le32(s, 8) == format_law::num4(s, 8));
    assert(bytes::le32(s, 12) == format_law::num4(s, 12));
}

/// The header of a database that is set up: it is empty, stands behind the model, and knows
/// where the model begins and ends and which sector is the disk's last.
pub proof fn law_fresh_header(m: EnsureOp)
    requires
        m.db <= u64::MAX - 131_072,
        m.capacity > 0,
    ensures
        ({
            let b = layout::header_sector(m.fresh());
            &&& b.len() == 512 && format_law::is_database(b)
            &&& format_law::num4(b, 8) == 2
            &&& format_law::num4(b, 12) == 512
            &&& format_law::num8(b, 16) == m.db
            &&& format_law::num8(b, 24) == m.db + 33
            &&& format_law::num8(b, 32) == 131_072
            &&& format_law::num8(b, 40) == m.db + 33
            &&& format_law::num8(b, 48) == m.capacity - 1
            &&& format_law::num8(b, 56) == m.model_start
            &&& format_law::num8(b, 64) == m.model_last
            &&& format_law::num8(b, 72) == m.db + 1
            &&& format_law::num8(b, 80) == 0
            &&& format_law::num8(b, 88) == 32
        }),
{
    format_law::law_header_sector(m.fresh(), bytes::zeros(512));
}

/// A database that is kept keeps its header but for the place of the model, and for what its
/// map shows: where the next payload goes, and how many there are.
pub proof fn law_kept_header(m: EnsureOp, h: MemoryDbHeader, r: Recovery)
    ensures
        m.kept(h) == (MemoryDbHeader {
            model_start_lba: m.model_start,
            model_last_lba: m.model_last,
            ..h
        }),
        ({
            let k = opening::recovered_header(h, r);
            &&& k.next_append_lba == r.cursor
            &&& k.map_entries_used == r.recovered
            &&& k.version == h.version && k.sector_size == h.sector_size
            &&& k.header_lba == h.header_lba && k.data_lba == h.data_lba
            &&& k.total_sectors == h.total_sectors && k.last_ssd_lba == h.last_ssd_lba
            &&& k.model_start_lba == h.model_start_lba && k.model_last_lba == h.model_last_lba
            &&& k.map_lba == h.map_lba && k.map_sectors == h.map_sectors
        }),
{
}

/// An entry counts while payloads follow each other without a gap inside the database: the
/// first that does not, or that is not in use, ends the map.
pub proof fn law_map_is_gone_through(h: MemoryDbHeader, r: Recovery, e: MemoryDbMapEntry)
    requires
        h.data_lba + h.total_sectors <= u64::MAX,
        r.recovered < r.mapped,
        r.cursor <= h.data_lba + h.total_sectors,
    ensures
        ({
            let next = r.cursor + (e.payload_bytes + 511) / 512;
            let follows = e.flags % 2 == 1 && e.payload_bytes > 0 && e.start_lba == r.cursor
                && next <= h.data_lba + h.total_sectors;
            &&& follows && r.recovered + 1 < r.mapped ==> opening::recovery_step(h, r, e)
                == RecoveryStep::More(
                Recovery {
                    mapped: r.mapped,
                    cursor: next as u64,
                    recovered: (r.recovered + 1) as u64,
                },
            )
            &&& follows && r.recovered + 1 == r.mapped ==> opening::recovery_step(h, r, e)
                == RecoveryStep::Over(
                Recovery {
                    mapped: r.mapped,
                    cursor: next as u64,
                    recovered: (r.recovered + 1) as u64,
                },
            )
            &&& !follows && next <= u64::MAX ==> opening::recovery_step(h, r, e)
                == RecoveryStep::Over(r)
        }),
{
}

/// Opening reads the header, the map's head behind it, and then an entry at a time from the
/// sectors behind that. A header that is none, or whose map is elsewhere, is refused; where
/// only the map cannot be read, what the header says stands.
pub proof fn law_opening(o: Opening, s: Seq<u8>, i: u64)
    requires
        s.len() == 512,
        o.db <= u64::MAX - 131_072,
        i < 992,
        o.state.map_lba <= u64::MAX - 33,
    ensures
        Opening::begin(o.db).request() == (Io::Read { lba: o.db as int }),
        o.phase == OpenPhase::Header ==> o.after(None).phase == OpenPhase::Refused,
        o.phase == OpenPhase::Header ==> (o.after(Some(s)).phase == OpenPhase::MapHeader) == (
        format_law::is_database(s) && format_law::num4(s, 8) == 2 && format_law::num4(s, 12) == 512
            && format_law::num8(s, 72) == o.db + 1 && format_law::num8(s, 88) == 32),
        o.phase == OpenPhase::Header && o.after(Some(s)).phase != OpenPhase::MapHeader ==> o.after(
            Some(s),
        ).phase == OpenPhase::Refused,
        o.phase == OpenPhase::Header && o.after(Some(s)).phase == OpenPhase::MapHeader ==> o.after(
            Some(s),
        ).request() == (Io::Read { lba: o.db + 1 }),
        o.phase == OpenPhase::MapHeader || o.phase == OpenPhase::Entry ==> o.after(None) == (
        Opening { phase: OpenPhase::Opened, ..o }),
        o.phase == OpenPhase::Entry && o.rec.recovered == i ==> o.request() == (Io::Read {
            lba: o.state.map_lba + 1 + i as int / 32,
        }),
        opening::entry_offset(i) == 16 * (i as int % 32),
{
    format_law::law_header_sector(opening::blank_header(), s);
    format_law::law_map_entry(s, i as int, layout::entry_of(s, 0));
}

/// The database stands right behind the model, which takes up sectors from `data_lba` on; it
/// is made sure of only where the disk is known to have 131072 sectors there.
pub proof fn law_database_stands_behind_model(
    data_lba: u64,
    sectors: u64,
    capacity: Option<u64>,
    registered: Option<u64>,
)
    requires
        data_lba + sectors <= u64::MAX,
    ensures
        ({
            let e = write_model::database_behind(
                data_lba as int,
                sectors as int,
                capacity,
                registered,
            );
            &&& e.db == data_lba + sectors
            &&& e.model_start == data_lba
            &&& sectors > 0 ==> e.model_last == data_lba + sectors - 1
            &&& sectors == 0 ==> e.model_last == data_lba
            &&& e.registered == registered
            &&& capacity matches Some(c) ==> e.capacity == c
            &&& (e.phase == EnsurePhase::Existing) == (capacity is Some && data_lba + sectors
                + 131_072 <= capacity->0)
            &&& e.phase != EnsurePhase::Existing ==> e.phase == EnsurePhase::Failed
        }),
{
}

/// A model is written behind eight sectors of header. First the sector behind the header is
/// written and read back as a test; then the header says that a model is being written; then
/// the model is written; and only then does the header say that it is there. An access that
/// fails, or a test that is not read back, ends it.
pub proof fn law_model_is_written_in_order(m: WriteModelOp, s: Seq<u8>, ok: Seq<u8>)
    requires
        m.cache_lba + 8 + m.model_size <= u64::MAX - 512,
        s.len() == 512,
        m.offset % 512 == 0,
        m.phase == WritePhase::Chunk ==> m.offset < m.model_size,
    ensures
        m.phase == WritePhase::SmokeWrite ==> m.request() == ModelIo::Disk(
            (Io::Write {
                lba: m.cache_lba + 1,
                data: model_cache::smoke_sector((m.cache_lba + 1) as u64),
            }),
        ) && m.after(Some(ok)) == (WriteModelOp { phase: WritePhase::SmokeRead, ..m }),
        m.phase == WritePhase::SmokeRead ==> m.request() == ModelIo::Disk(
            (Io::Read { lba: m.cache_lba + 1 }),
        ) && m.after(Some(s)) == (WriteModelOp {
            phase: if forall|k: int|
                0 <= k < 16 ==> #[trigger] s[k] == model_cache::smoke_sector(
                    (m.cache_lba + 1) as u64,
                )[k] {
                WritePhase::WritingHeader
            } else {
                WritePhase::Failed
            },
            ..m
        }),
        m.phase == WritePhase::WritingHeader ==> m.request() == ModelIo::Disk(
            (Io::Write {
                lba: m.cache_lba as int,
                data: model_cache::model_header_sector(
                    seq![66u8, 73, 84, 78, 69, 84, 48, 48],
                    m.model_size,
                    (m.cache_lba + 8) as u64,
                ),
            }),
        ) && m.after(Some(ok)) == (WriteModelOp {
            offset: 0,
            phase: if m.model_size == 0 {
                WritePhase::ReadyHeader
            } else {
                WritePhase::Chunk
            },
            ..m
        }),
        m.phase == WritePhase::Chunk ==> ({
            let left = m.model_size - m.offset;
            let n: int = if left > 4_194_304 {
                8192
            } else {
                (left + 511) / 512
            };
            &&& m.request() == (ModelIo::WriteModel {
                lba: m.cache_lba + 8 + m.offset as int / 512,
                offset: m.offset as int,
                count: n,
            })
            &&& m.after(Some(ok)).phase == (if left <= 4_194_304 {
                WritePhase::ReadyHeader
            } else {
                WritePhase::Chunk
            })
            &&& m.after(Some(ok)).offset == m.offset + n * 512
        }),
        m.phase == WritePhase::ReadyHeader ==> m.request() == ModelIo::Disk(
            (Io::Write {
                lba: m.cache_lba as int,
                data: model_cache::model_header_sector(
                    seq![66u8, 73, 84, 78, 69, 84, 48, 49],
                    m.model_size,
                    (m.cache_lba + 8) as u64,
                ),
            }),
        ),
        m.phase == WritePhase::SmokeWrite || m.phase == WritePhase::SmokeRead || m.phase
            == WritePhase::WritingHeader || m.phase == WritePhase::Chunk || m.phase
            == WritePhase::ReadyHeader ==> m.after(None).phase == WritePhase::Failed,
        m.phase == WritePhase::Done || m.phase == WritePhase::Failed ==> m.request()
            == ModelIo::Done,
{
    if m.phase == WritePhase::SmokeRead {
        format_law::law_smoke_sector((m.cache_lba + 1) as u64, s);
    }
    assert(model_cache::MODEL_MAGIC_WRITING@ =~= seq![66u8, 73, 84, 78, 69, 84, 48, 48]);
    assert(model_cache::MODEL_MAGIC_READY@ =~= seq![66u8, 73, 84, 78, 69, 84, 48, 49]);
}

/// Writing a model begins with the test where the disk has room for the model, and fails at
/// once where it has not.
pub proof fn law_model_needs_room(
    cache_lba: u64,
    size: u64,
    capacity: Option<u64>,
    registered: Option<u64>,
)
    requires
        cache_lba + 8 + size <= u64::MAX,
    ensures
        WriteModelOp::begin(cache_lba, size, capacity, registered).phase == (if capacity is None
            || (capacity->0 - cache_lba - 8) * 512 >= size {
            WritePhase::SmokeWrite
        } else {
            WritePhase::Failed
        }),
        WriteModelOp::begin(cache_lba, size, capacity, registered).cache_lba == cache_lba,
        WriteModelOp::begin(cache_lba, size, capacity, registered).model_size == size,
        WriteModelOp::begin(cache_lba, size, capacity, registered).offset == 0,
{
}

/// A model is loaded from behind its header: first the header is read, then the model's last
/// sector, and the one behind it where the disk has one; the database is made sure of; memory
/// is asked for in whole chunks of 4 MiB, at a page; and the model is read in such chunks. It
/// must begin with `GGUF`.
pub proof fn law_model_is_loaded_in_order(m: LoadModelOp, s: Seq<u8>)
    requires
        m.cache_lba + 0x200_0000 <= u64::MAX,
        m.model_size <= 0x2_0000_0000,
        s.len() >= 512,
        m.offset % 512 == 0,
        m.phase == LoadPhase::Chunk ==> m.offset < m.model_size,
    ensures
        ({
            let behind = m.cache_lba + 8 + (m.model_size + 511) / 512;
            let left = m.model_size - m.offset;
            let n: int = if left > 4_194_304 {
                8192
            } else {
                (left + 511) / 512
            };
            &&& m.phase == LoadPhase::Header ==> m.request() == ModelIo::Disk(
                Io::Read { lba: m.cache_lba as int },
            )
            &&& m.phase == LoadPhase::LastSector ==> m.request() == ModelIo::Disk(
                Io::Read { lba: behind - 1 },
            )
            &&& m.phase == LoadPhase::Probe ==> m.request() == ModelIo::Disk(
                Io::Read { lba: behind },
            )
            &&& m.phase == LoadPhase::LastSector ==> (m.after(Some(s)).phase == LoadPhase::Probe)
                == (m.capacity is Some && behind < m.capacity->0)
            &&& m.phase == LoadPhase::Probe || m.phase == LoadPhase::LastSector && m.after(
                Some(s),
            ).phase != LoadPhase::Probe ==> m.after(Some(s)).ensure
                == write_model::database_behind(
                m.cache_lba + 8,
                (m.model_size + 511) / 512,
                m.capacity,
                m.registered,
            )
            &&& m.phase == LoadPhase::Probe ==> m.after(None) == m.after(Some(s))
            &&& m.phase == LoadPhase::Allocate ==> m.request() == (ModelIo::Allocate {
                size: (m.model_size + 4_194_303) / 4_194_304 * 4_194_304,
                align: 4096,
            })
            &&& m.phase == LoadPhase::Chunk ==> m.request() == ModelIo::Disk(
                Io::ReadMany { lba: m.cache_lba + 8 + m.offset as int / 512, count: n },
            )
            &&& m.phase == LoadPhase::Chunk && m.offset == 0 && !(s[0] == 71 && s[1] == 71 && s[2]
                == 85 && s[3] == 70) ==> m.after(Some(s)).phase == LoadPhase::Failed
            &&& m.phase == LoadPhase::Chunk && (m.offset > 0 || s[0] == 71 && s[1] == 71 && s[2]
                == 85 && s[3] == 70) ==> m.after(Some(s)).phase == (if left <= 4_194_304 {
                LoadPhase::Done
            } else {
                LoadPhase::Chunk
            }) && m.after(Some(s)).offset == m.offset + n * 512
        }),
        m.phase == LoadPhase::Header || m.phase == LoadPhase::LastSector || m.phase
            == LoadPhase::Allocate || m.phase == LoadPhase::Chunk ==> m.after(None).phase
            == LoadPhase::Failed,
        m.phase == LoadPhase::Done || m.phase == LoadPhase::Failed ==> m.request() == ModelIo::Done,
{
    let head = s.subrange(0, 4);
    let g = model_cache::GGUF_MAGIC;
    if s[0] == 71 && s[1] == 71 && s[2] == 85 && s[3] == 70 {
        assert(head =~= g@);
    } else if head == g@ {
        assert(head[0] == g@[0] && head[1] == g@[1] && head[2] == g@[2] && head[3] == g@[3]);
    }
}

/// Where the header is that of a complete model of a size that fits, its last sector comes
/// next; else loading fails.
pub proof fn law_model_header_is_checked(m: LoadModelOp, s: Seq<u8>)
    requires
        m.phase == LoadPhase::Header,
        m.cache_lba + 0x200_0000 <= u64::MAX,
        s.len() == 512,
    ensures
        ({
            let size = format_law::num8(s, 8);
            let good = format_law::ready_and_tagged(s) && format_law::num8(s, 16) == m.cache_lba + 8
                && 0x4000_0000 <= size <= 0x2_0000_0000 && (m.capacity is None || (m.capacity->0
                - m.cache_lba - 8) * 512 >= size);
            &&& m.after(Some(s)).phase == (if good {
                LoadPhase::LastSector
            } else {
                LoadPhase::Failed
            })
            &&& good ==> m.after(Some(s)).model_size == size
        }),
{
    format_law::law_model_header(0, 0, s, m.cache_lba);
}

/// The header of a database that was erased: it is empty, and keeps its place and the model's.
pub proof fn law_erased_header(m: EraseOp)
    ensures
        ({
            let b = layout::header_sector(m.fresh());
            &&& b.len() == 512 && format_law::is_database(b)
            &&& format_law::num4(b, 8) == 2
            &&& format_law::num4(b, 12) == 512
            &&& format_law::num8(b, 16) == m.db
            &&& format_law::num8(b, 24) == m.state.data_lba
            &&& format_law::num8(b, 32) == 131_072
            &&& format_law::num8(b, 40) == m.state.data_lba
            &&& m.capacity is Some && m.capacity->0 > 0 ==> format_law::num8(b, 48) == m.capacity->0
                - 1
            &&& format_law::num8(b, 56) == m.state.model_start_lba
            &&& format_law::num8(b, 64) == m.state.model_last_lba
            &&& format_law::num8(b, 72) == m.state.map_lba
            &&& format_law::num8(b, 80) == 0
            &&& format_law::num8(b, 88) == 32
        }),
{
    format_law::law_header_sector(m.fresh(), bytes::zeros(512));
}

/// A database is erased only where its header names its own place, its map's and its size, and
/// all of it is on the disk. Its 131072 sectors are zeroed, eight at a time, then its map's head
/// is written, and its header last.
pub proof fn law_database_is_erased_in_order(m: EraseOp, s: Seq<u8>, ok: Seq<u8>)
    requires
        s.len() == 512,
        m.db <= u64::MAX - 131_072,
        m.phase == ErasePhase::Zero ==> m.db <= m.lba < m.db + 131_072,
    ensures
        m.phase == ErasePhase::Header ==> m.request() == (Io::Read { lba: m.db as int }),
        m.phase == ErasePhase::Header ==> m.after(Some(s)).phase == (if format_law::is_database(s)
            && format_law::num4(s, 8) == 2 && format_law::num4(s, 12) == 512 && format_law::num8(
            s,
            16,
        ) == m.db && format_law::num8(s, 72) == m.db + 1 && format_law::num8(s, 88) == 32
            && format_law::num8(s, 32) == 131_072 && m.capacity is Some && m.db + 131_072
            <= m.capacity->0 {
            ErasePhase::Zero
        } else {
            ErasePhase::Failed
        }),
        m.phase == ErasePhase::Header && m.after(Some(s)).phase == ErasePhase::Zero ==> m.after(
            Some(s),
        ).lba == m.db,
        m.phase == ErasePhase::Zero ==> ({
            let n: int = if m.db + 131_072 - m.lba < 8 {
                m.db + 131_072 - m.lba
            } else {
                8
            };
            &&& m.request() == (Io::Write { lba: m.lba as int, data: bytes::zeros(n * 512) })
            &&& m.after(Some(ok)).lba == m.lba + n
            &&& m.after(Some(ok)).phase == (if m.lba + n == m.db + 131_072 {
                ErasePhase::MapHeader
            } else {
                ErasePhase::Zero
            })
        }),
        m.phase == ErasePhase::MapHeader ==> m.request() == (Io::Write {
            lba: m.state.map_lba as int,
            data: layout::map_header_sector(0),
        }) && m.after(Some(ok)).phase == ErasePhase::HeaderWrite,
        m.phase == ErasePhase::HeaderWrite ==> m.request() == (Io::Write {
            lba: m.db as int,
            data: layout::header_sector(m.fresh()),
        }) && m.after(Some(ok)).phase == ErasePhase::Done,
        m.phase == ErasePhase::Header || m.phase == ErasePhase::Zero || m.phase
            == ErasePhase::MapHeader || m.phase == ErasePhase::HeaderWrite ==> m.after(None).phase
            == ErasePhase::Failed,
{
    format_law::law_header_sector(opening::blank_header(), s);
}

/// An access that fails makes appending fail, and reading; neither is told that it worked.
pub proof fn law_failed_access_is_told(a: Append, r: Reading)
    ensures
        a.phase == AppendPhase::Data || a.phase == AppendPhase::EntrySector || a.phase
            == AppendPhase::EntryWrite || a.phase == AppendPhase::MapHeaderWrite || a.phase
            == AppendPhase::HeaderWrite ==> a.after(None).phase == AppendPhase::Failed,
        a.phase == AppendPhase::Failed ==> a.request() == Io::Done,
        a.phase == AppendPhase::Done ==> a.request() == Io::Done,
        r.phase == ReadPhase::Entry || r.phase == ReadPhase::Data ==> r.after(None).phase
            == ReadPhase::Failed,
        r.phase == ReadPhase::Failed || r.phase == ReadPhase::Done ==> r.request() == Io::Done,
{
}

/// Whoever makes sure of a database goes on with an empty one where the old one cannot be
/// read, and fails where it cannot write.
pub proof fn law_failed_access_while_ensuring(m: EnsureOp)
    ensures
        m.phase == EnsurePhase::Existing || m.phase == EnsurePhase::Probe || m.phase
            == EnsurePhase::MapHeader || m.phase == EnsurePhase::Entry ==> m.after(None) == (
        EnsureOp { phase: EnsurePhase::ZeroMap, zeroed: 0, ..m }),
        m.phase == EnsurePhase::KeepMap || m.phase == EnsurePhase::KeepHeader || m.phase
            == EnsurePhase::ZeroMap || m.phase == EnsurePhase::FreshMap || m.phase
            == EnsurePhase::FreshHeader || m.phase == EnsurePhase::Verify ==> m.after(None).phase
            == EnsurePhase::Failed,
{
    reveal(EnsureOp::answered);
}

/// The states that a dump goes through while every access works.
pub open spec fn dump_run(ms: Seq<DumpOp>) -> bool {
    &&& ms.len() > 0
    &&& forall|i: int| #![trigger ms[i + 1]] 0 <= i < ms.len() - 1 ==> ms[i + 1] == ms[i].after(true)
}

/// A dump writes the framebuffer from sector 1024 on, 4096 bytes at a time and what is left at
/// last, and then reads it back in the same pieces. Where one piece fails, the dump does.
pub proof fn law_dump_in_pieces(ms: Seq<DumpOp>, size: u64, n: int)
    requires
        dump_run(ms),
        0 < size <= 0x1_0000_0000_0000,
        ms[0] == (DumpOp { size, phase: DumpPhase::Write, offset: 0 }),
        0 <= n < ms.len(),
    ensures
        ({
            let pieces = (size + 4095) / 4096;
            let k: int = if n < pieces {
                n
            } else {
                n - pieces
            };
            let len: int = if size - k * 4096 < 4096 {
                size - k * 4096
            } else {
                4096
            };
            &&& n < pieces ==> ms[n].request() == (DumpRequest::Write {
                lba: (1024 + k * 8) as u64,
                count: ((len + 511) / 512) as u16,
                offset: (k * 4096) as u64,
                len: len as u64,
            })
            &&& pieces <= n < 2 * pieces ==> ms[n].request() == (DumpRequest::ReadBack {
                lba: (1024 + k * 8) as u64,
                count: ((len + 511) / 512) as u16,
                offset: (k * 4096) as u64,
                len: len as u64,
            })
            &&& n == 2 * pieces ==> ms[n].phase == DumpPhase::Done
            &&& n < 2 * pieces ==> ms[n].after(false).phase == DumpPhase::Failed
        }),
{
    lemma_dump(ms, size, n);
}

proof fn lemma_dump(ms: Seq<DumpOp>, size: u64, n: int)
    requires
        dump_run(ms),
        0 < size <= 0x1_0000_0000_0000,
        ms[0] == (DumpOp { size, phase: DumpPhase::Write, offset: 0 }),
        0 <= n < ms.len(),
    ensures
        ({
            let pieces = (size + 4095) / 4096;
            &&& n < pieces ==> ms[n] == (DumpOp {
                size,
                phase: DumpPhase::Write,
                offset: (n * 4096) as u64,
            }) && n * 4096 < size
            &&& pieces <= n < 2 * pieces ==> ms[n] == (DumpOp {
                size,
                phase: DumpPhase::Verify,
                offset: ((n - pieces) * 4096) as u64,
            }) && (n - pieces) * 4096 < size
            &&& n == 2 * pieces ==> ms[n].phase == DumpPhase::Done
        }),
    decreases n,
{
    let pieces = (size + 4095) / 4096;
    if n > 0 {
        lemma_dump(ms, size, n - 1);
        assert(ms[n - 1 + 1] == ms[n - 1].after(true));
    }
}

/// What is connected to a port is told by its signature; a disk has one of two.
pub proof fn law_signatures(sig: u32)
    ensures
        (enumerate::device_type(sig) == AhciDevice::Sata) == (sig == 257 || sig == 16_843_009),
        (enumerate::device_type(sig) == AhciDevice::Satapi) == (sig == 0xeb14_0101),
        (enumerate::device_type(sig) == AhciDevice::EnclosureBridge) == (sig == 0xc33c_0101),
        (enumerate::device_type(sig) == AhciDevice::PortMultiplier) == (sig == 0x9669_0101),
{
}

/// Loading `size` bytes in `us` microseconds goes at as many whole MiB a second as it says.
pub proof fn law_throughput(size: u64, us: u64)
    requires
        us > 0,
        size <= 0x2_0000_0000,
    ensures
        ({
            let rate = model_cache::throughput_mib_s(size, us);
            rate * 1_048_576 * us <= size * 1_000_000 < (rate + 1) * 1_048_576 * us
        }),
        model_cache::throughput_mib_s(size, 0) == 0,
{
    let rate = model_cache::throughput_mib_s(size, us);
    let scaled = size * 1_000_000;
    let q = scaled / us as int;
    let u = us as int;
    assert(scaled == q * u + scaled % u && 0 <= scaled % u < u && q >= 0) by (nonlinear_arith)
        requires
            u > 0,
            scaled >= 0,
            q == scaled / u,
    ;
    assert(rate * 1_048_576 <= q < (rate + 1) * 1_048_576);
    assert(rate * 1_048_576 * u <= q * u) by (nonlinear_arith)
        requires
            rate * 1_048_576 <= q,
            u > 0,
    ;
    assert(q * u + u <= (rate + 1) * 1_048_576 * u) by (nonlinear_arith)
        requires
            q + 1 <= (rate + 1) * 1_048_576,
            u > 0,
    ;
}

/// A payload is written in whole sectors as far as they go, up to 8192 at once and no further
/// than the database and the disk go; what is left fills a last sector, with zeros behind it.
pub proof fn law_payload_is_written_in_pieces(a: Append, ok: Seq<u8>)
    requires
        a.phase == AppendPhase::Data,
        0 <= a.done < a.data.len() <= u32::MAX,
        a.lba < a.end <= u64::MAX,
    ensures
        ({
            let left = a.data.len() - a.done;
            let room = a.end - a.lba;
            let n: int = if left / 512 <= room && left / 512 <= 8192 {
                left / 512
            } else if room <= 8192 {
                room
            } else {
                8192
            };
            &&& left >= 512 ==> a.request() == (Io::Write {
                lba: a.lba,
                data: a.data.subrange(a.done, a.done + n * 512),
            }) && a.after(Some(ok)).done == a.done + n * 512 && a.after(Some(ok)).lba == a.lba + n
            &&& left < 512 ==> (a.request() matches Io::Write { lba, data } && {
                &&& lba == a.lba
                &&& data.len() == 512
                &&& forall|i: int| 0 <= i < left ==> #[trigger] data[i] == a.data[a.done + i]
                &&& forall|i: int| left <= i < 512 ==> #[trigger] data[i] == 0
            }) && a.after(Some(ok)).phase == AppendPhase::EntrySector && a.after(Some(ok)).lba
                == a.lba + 1
        }),
{
    let rest = a.data.subrange(a.done, a.data.len() as int);
    if rest.len() < 512 {
        assert(forall|i: int| 0 <= i < rest.len() ==> rest[i] == a.data[a.done + i]);
    }
}

} // verus!
