//! What stands where in the sectors that are kept on a disk.

use vstd::prelude::*;

use crate::bytes;
use crate::storage::disk;
use crate::storage::layout;
use crate::storage::layout::MemoryDbHeader;
use crate::storage::layout::MemoryDbMapEntry;
use crate::storage::model_cache;
use crate::storage::model_cache::CacheCheck;

verus! {

/// The number that four bytes hold, the lowest first.
pub open spec fn num4(b: Seq<u8>, at: int) -> int {
    b[at] + 256 * (b[at + 1] + 256 * (b[at + 2] + 256 * b[at + 3]))
}

/// The number that eight bytes hold, the lowest first.
pub open spec fn num8(b: Seq<u8>, at: int) -> int {
    num4(b, at) + 0x1_0000_0000 * num4(b, at + 4)
}

/// The first eight bytes are as given.
pub open spec fn has8(
    b: Seq<u8>,
    at: int,
    m0: u8,
    m1: u8,
    m2: u8,
    m3: u8,
    m4: u8,
    m5: u8,
    m6: u8,
    m7: u8,
) -> bool {
    &&& b[at] == m0 && b[at + 1] == m1 && b[at + 2] == m2 && b[at + 3] == m3
    &&& b[at + 4] == m4 && b[at + 5] == m5 && b[at + 6] == m6 && b[at + 7] == m7
}

proof fn lemma_num(b: Seq<u8>, at: int)
    ensures
        num4(b, at) == bytes::le32(b, at),
        num8(b, at) == bytes::le64(b, at),
{
}

proof fn lemma_eight(b: Seq<u8>, at: int, m: [u8; 8])
    requires
        0 <= at,
        at + 8 <= b.len(),
    ensures
        (b.subrange(at, at + 8) == m@) == has8(
            b,
            at,
            m[0],
            m[1],
            m[2],
            m[3],
            m[4],
            m[5],
            m[6],
            m[7],
        ),
{
    let s = b.subrange(at, at + 8);
    assert(forall|k: int| 0 <= k < 8 ==> s[k] == b[at + k]);
    if has8(b, at, m[0], m[1], m[2], m[3], m[4], m[5], m[6], m[7]) {
        assert(s =~= m@);
    } else if s == m@ {
        assert(s[0] == m@[0] && s[1] == m@[1] && s[2] == m@[2] && s[3] == m@[3]);
        assert(s[4] == m@[4] && s[5] == m@[5] && s[6] == m@[6] && s[7] == m@[7]);
    }
}

/// Whether a sector begins with `MEMDB002`.
pub open spec fn is_database(s: Seq<u8>) -> bool {
    has8(s, 0, 77, 69, 77, 68, 66, 48, 48, 50)
}

/// The header of the memory database is one sector: its name, then its fields, and zeros. It is
/// read where the name, the version 2 and the sector size 512 are right.
pub proof fn law_header_sector(h: MemoryDbHeader, s: Seq<u8>)
    requires
        s.len() == 512,
    ensures
        ({
            let b = layout::header_sector(h);
            &&& b.len() == 512
            &&& is_database(b)
            &&& num4(b, 8) == h.version
            &&& num4(b, 12) == h.sector_size
            &&& num8(b, 16) == h.header_lba
            &&& num8(b, 24) == h.data_lba
            &&& num8(b, 32) == h.total_sectors
            &&& num8(b, 40) == h.next_append_lba
            &&& num8(b, 48) == h.last_ssd_lba
            &&& num8(b, 56) == h.model_start_lba
            &&& num8(b, 64) == h.model_last_lba
            &&& num8(b, 72) == h.map_lba
            &&& num8(b, 80) == h.map_entries_used
            &&& num8(b, 88) == h.map_sectors
            &&& forall|k: int| 96 <= k < 512 ==> #[trigger] b[k] == 0
        }),
        layout::header_of(s) is Some == (is_database(s) && num4(s, 8) == 2 && num4(s, 12) == 512),
        layout::header_of(s) matches Some(f) ==> {
            &&& f.version == 2 && f.sector_size == 512
            &&& f.header_lba == num8(s, 16)
            &&& f.data_lba == num8(s, 24)
            &&& f.total_sectors == num8(s, 32)
            &&& f.next_append_lba == num8(s, 40)
            &&& f.last_ssd_lba == num8(s, 48)
            &&& f.model_start_lba == num8(s, 56)
            &&& f.model_last_lba == num8(s, 64)
            &&& f.map_lba == num8(s, 72)
            &&& f.map_entries_used == num8(s, 80)
            &&& f.map_sectors == num8(s, 88)
        },
{
    let b = layout::header_sector(h);
    layout::law_header_round_trip(h);
    lemma_eight(b, 0, layout::MEMORY_DB_MAGIC);
    lemma_eight(s, 0, layout::MEMORY_DB_MAGIC);
    lemma_num(b, 8);
    lemma_num(b, 12);
    lemma_num(s, 8);
    lemma_num(s, 12);
    reveal(layout::header_sector);
    bytes::lemma_le_lengths();
    assert(layout::header_bytes(h).len() == 96);
}

/// Whether a sector begins with `DMAP`.
pub open spec fn is_map(s: Seq<u8>) -> bool {
    s[0] == 68 && s[1] == 77 && s[2] == 65 && s[3] == 80
}

/// The head of the map: its name, its version 1, the size 16 and the number 992 of its entries,
/// and how many of them are used. Others are no heads of a map.
pub proof fn law_map_sector(used: u64, s: Seq<u8>)
    requires
        used <= 992,
        s.len() == 512,
    ensures
        ({
            let b = layout::map_header_sector(used);
            &&& b.len() == 512
            &&& is_map(b) && num4(b, 4) == 1 && num4(b, 8) == 16 && num4(b, 12) == 992
            &&& num8(b, 16) == used
            &&& forall|k: int| 24 <= k < 512 ==> #[trigger] b[k] == 0
        }),
        layout::map_used_of(s) is Some == (is_map(s) && num4(s, 4) == 1 && num4(s, 8) == 16
            && num4(s, 12) == 992 && num8(s, 16) <= 992),
        layout::map_used_of(s) matches Some(n) ==> n == num8(s, 16),
{
    let b = layout::map_header_sector(used);
    layout::law_map_header_round_trip(used);
    let m = layout::MEMORY_DB_MAP_MAGIC;
    let head = s.subrange(0, 4);
    if is_map(s) {
        assert(head =~= m@);
    } else if head == m@ {
        assert(head[0] == m@[0] && head[1] == m@[1] && head[2] == m@[2] && head[3] == m@[3]);
    }
    let bhead = b.subrange(0, 4);
    assert(bhead == m@);
    assert(bhead[0] == m@[0] && bhead[1] == m@[1] && bhead[2] == m@[2] && bhead[3] == m@[3]);
    reveal(layout::map_header_sector);
    bytes::lemma_le_lengths();
}

/// An entry of the map is the first sector of a payload, its length and flags; there are 32 in a
/// sector, of 16 bytes. It counts where the lowest flag is set and there is a payload.
pub proof fn law_map_entry(s: Seq<u8>, index: int, e: MemoryDbMapEntry)
    requires
        s.len() == 512,
        0 <= index < 992,
    ensures
        layout::entry_place(index) == Some((index / 32, 16 * (index % 32))),
        layout::entry_place(992) is None,
        ({
            let at = 16 * (index % 32);
            let b = layout::with_map_entry(s, at, e);
            &&& num8(b, at) == e.start_lba
            &&& num4(b, at + 8) == e.payload_bytes
            &&& num4(b, at + 12) == e.flags
            &&& b.len() == 512
            &&& forall|k: int| 0 <= k < 512 && (k < at || k >= at + 16) ==> #[trigger] b[k] == s[k]
            &&& layout::entry_of(s, at).start_lba == num8(s, at)
            &&& layout::entry_of(s, at).payload_bytes == num4(s, at + 8)
            &&& layout::entry_of(s, at).flags == num4(s, at + 12)
        }),
        layout::counts(e) == (e.flags % 2 == 1 && e.payload_bytes > 0),
{
    let slot = index % 32;
    layout::law_entry_round_trip(s, slot, slot, e);
    assert(slot * 16 == 16 * slot);
    bytes::lemma_le_lengths();
}

/// The header of the model cache: its name, which says whether the model is all there
/// (`BITNET01`) or is being written (`BITNET00`), the model's size, its first sector and the tag
/// `BITNET2B`. A model is taken from the cache only where all of it is right: its first sector is
/// the eighth behind the header, and it has between one and eight gibibytes.
pub proof fn law_model_header(size: u64, data_lba: u64, s: Seq<u8>, cache_lba: u64)
    requires
        s.len() == 512,
        cache_lba <= u64::MAX - 8,
    ensures
        ({
            let b = model_cache::model_header_sector(
                model_cache::MODEL_MAGIC_READY@,
                size,
                data_lba,
            );
            &&& b.len() == 512
            &&& has8(b, 0, 66, 73, 84, 78, 69, 84, 48, 49)
            &&& num8(b, 8) == size
            &&& num8(b, 16) == data_lba
            &&& has8(b, 24, 66, 73, 84, 78, 69, 84, 50, 66)
        }),
        ({
            let b = model_cache::model_header_sector(
                model_cache::MODEL_MAGIC_WRITING@,
                size,
                data_lba,
            );
            &&& b.len() == 512
            &&& has8(b, 0, 66, 73, 84, 78, 69, 84, 48, 48)
            &&& num8(b, 8) == size
            &&& num8(b, 16) == data_lba
            &&& has8(b, 24, 66, 73, 84, 78, 69, 84, 50, 66)
        }),
        match model_cache::cache_check(s, cache_lba) {
            CacheCheck::NotReady => !has8(s, 0, 66, 73, 84, 78, 69, 84, 48, 49),
            CacheCheck::WrongTag => has8(s, 0, 66, 73, 84, 78, 69, 84, 48, 49) && !has8(
                s,
                24,
                66,
                73,
                84,
                78,
                69,
                84,
                50,
                66,
            ),
            CacheCheck::WrongPlace => num8(s, 16) != cache_lba + 8 && ready_and_tagged(s),
            CacheCheck::Empty => num8(s, 16) == cache_lba + 8 && ready_and_tagged(s) && num8(s, 8)
                == 0,
            CacheCheck::WrongSize => num8(s, 16) == cache_lba + 8 && ready_and_tagged(s) && num8(
                s,
                8,
            ) > 0 && !(0x4000_0000 <= num8(s, 8) <= 0x2_0000_0000),
            CacheCheck::Ready(n) => num8(s, 16) == cache_lba + 8 && ready_and_tagged(s) && n
                == num8(s, 8) && 0x4000_0000 <= n <= 0x2_0000_0000,
        },
{
    lemma_eight(s, 0, model_cache::MODEL_MAGIC_READY);
    lemma_eight(s, 24, model_cache::MODEL_CACHE_TAG);
    lemma_num(s, 8);
    lemma_num(s, 16);
    lemma_model_header(model_cache::MODEL_MAGIC_READY, size, data_lba);
    lemma_model_header(model_cache::MODEL_MAGIC_WRITING, size, data_lba);
}

/// Whether the name and the tag of the model cache are those of a model that is all there.
pub open spec fn ready_and_tagged(s: Seq<u8>) -> bool {
    has8(s, 0, 66, 73, 84, 78, 69, 84, 48, 49) && has8(s, 24, 66, 73, 84, 78, 69, 84, 50, 66)
}

proof fn lemma_model_header(m: [u8; 8], size: u64, data_lba: u64)
    ensures
        ({
            let b = model_cache::model_header_sector(m@, size, data_lba);
            &&& b.len() == 512
            &&& has8(b, 0, m[0], m[1], m[2], m[3], m[4], m[5], m[6], m[7])
            &&& num8(b, 8) == size
            &&& num8(b, 16) == data_lba
            &&& has8(b, 24, 66, 73, 84, 78, 69, 84, 50, 66)
        }),
{
    let b = model_cache::model_header_sector(m@, size, data_lba);
    reveal(model_cache::model_header_sector);
    bytes::lemma_le_lengths();
    assert(b.subrange(0, 8) =~= m@);
    assert(b.subrange(24, 32) =~= model_cache::MODEL_CACHE_TAG@);
    lemma_eight(b, 0, m);
    lemma_eight(b, 24, model_cache::MODEL_CACHE_TAG);
    bytes::lemma_le64_in(b, b.subrange(0, 8), size, b.subrange(16, 512));
    bytes::lemma_le64_in(b, b.subrange(0, 16), data_lba, b.subrange(24, 512));
    lemma_num(b, 8);
    lemma_num(b, 16);
}

/// The test of a disk writes `HSMOKE01` and the sector's number, and passes where those sixteen
/// bytes are read back.
pub proof fn law_smoke_sector(lba: u64, s: Seq<u8>)
    requires
        s.len() == 512,
    ensures
        ({
            let b = model_cache::smoke_sector(lba);
            &&& b.len() == 512
            &&& has8(b, 0, 72, 83, 77, 79, 75, 69, 48, 49)
            &&& num8(b, 8) == lba
        }),
        model_cache::smoke_ok(s, lba) == (forall|k: int|
            0 <= k < 16 ==> #[trigger] s[k] == model_cache::smoke_sector(lba)[k]),
{
    let b = model_cache::smoke_sector(lba);
    reveal(model_cache::smoke_sector);
    bytes::lemma_le_lengths();
    assert(b.subrange(0, 8) =~= model_cache::SMOKE_MAGIC@);
    lemma_eight(b, 0, model_cache::SMOKE_MAGIC);
    bytes::lemma_le64_in(b, b.subrange(0, 8), lba, b.subrange(16, 512));
    lemma_num(b, 8);
    let x = s.subrange(0, 16);
    let y = b.subrange(0, 16);
    if forall|k: int| 0 <= k < 16 ==> #[trigger] s[k] == b[k] {
        assert(x =~= y);
    } else if x == y {
        assert forall|k: int| 0 <= k < 16 implies #[trigger] s[k] == b[k] by {
            assert(x[k] == y[k]);
        }
    }
}

/// Bytes take up the fewest sectors of 512 bytes that hold them; a model is transferred in
/// chunks of 4 MiB, the last of which has what is left.
pub proof fn law_sectors_hold_bytes(n: int, size: int, offset: int)
    requires
        0 <= n,
        0 <= offset < size,
    ensures
        disk::sectors(n) * 512 >= n,
        (disk::sectors(n) - 1) * 512 < n,
        ({
            let c = model_cache::chunk_sectors(size, offset);
            if size - offset > 0x40_0000 {
                c * 512 == 0x40_0000
            } else {
                c * 512 >= size - offset && (c - 1) * 512 < size - offset
            }
        }),
{
}

/// A model fits where the disk has all the sectors that it takes.
pub proof fn law_model_fits(capacity: u64, data_lba: int, size: int)
    requires
        0 <= size,
    ensures
        model_cache::range_fits(Some(capacity), data_lba, size) == ((capacity - data_lba) * 512
            >= size),
        model_cache::range_fits(None, data_lba, size),
{
}

} // verus!
