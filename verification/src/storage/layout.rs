//! The sectors of the memory database: its header, its map and the map's entries.

use vstd::prelude::*;

use crate::bytes;
use crate::storage::disk;
use crate::storage::disk::SECTOR_SIZE;

verus! {

/// `MEMDB002`
pub const MEMORY_DB_MAGIC: [u8; 8] = [0x4d, 0x45, 0x4d, 0x44, 0x42, 0x30, 0x30, 0x32];

pub const MEMORY_DB_VERSION: u32 = 2;

/// 64 MiB.
pub const MEMORY_DB_TOTAL_SECTORS: u64 = 131_072;

/// `DMAP`
pub const MEMORY_DB_MAP_MAGIC: [u8; 4] = [0x44, 0x4d, 0x41, 0x50];

pub const MEMORY_DB_MAP_VERSION: u32 = 1;

/// 16 KiB: one header sector and the entry sectors.
pub const MEMORY_DB_MAP_SECTORS: u64 = 32;

pub const MEMORY_DB_MAP_ENTRY_SIZE: u32 = 16;

pub const MEMORY_DB_MAP_ENTRIES_PER_SECTOR: u64 = 32;

pub const MEMORY_DB_MAP_MAX_ENTRIES: u64 = 992;

pub const MEMORY_DB_MAP_FLAG_ACTIVE: u32 = 1;

pub const MEMORY_DB_ERASE_CHUNK_SECTORS: u64 = 8;

/// The state that the header sector keeps.
#[derive(Clone, Copy, PartialEq, Eq, Structural)]
pub struct MemoryDbHeader {
    pub version: u32,
    pub sector_size: u32,
    pub header_lba: u64,
    pub data_lba: u64,
    pub total_sectors: u64,
    pub next_append_lba: u64,
    pub last_ssd_lba: u64,
    pub model_start_lba: u64,
    pub model_last_lba: u64,
    pub map_lba: u64,
    pub map_entries_used: u64,
    pub map_sectors: u64,
}

/// One payload: where it starts, how long it is, and whether it counts.
#[derive(Clone, Copy, PartialEq, Eq, Structural)]
pub struct MemoryDbMapEntry {
    pub start_lba: u64,
    pub payload_bytes: u32,
    pub flags: u32,
}

/// The bytes of a header.
pub open spec fn header_bytes(h: MemoryDbHeader) -> Seq<u8> {
    MEMORY_DB_MAGIC@ + bytes::le32_bytes(h.version as int) + bytes::le32_bytes(
        h.sector_size as int,
    ) + bytes::le64_bytes(h.header_lba as int) + bytes::le64_bytes(h.data_lba as int)
        + bytes::le64_bytes(h.total_sectors as int) + bytes::le64_bytes(h.next_append_lba as int)
        + bytes::le64_bytes(h.last_ssd_lba as int) + bytes::le64_bytes(h.model_start_lba as int)
        + bytes::le64_bytes(h.model_last_lba as int) + bytes::le64_bytes(h.map_lba as int)
        + bytes::le64_bytes(h.map_entries_used as int) + bytes::le64_bytes(h.map_sectors as int)
}

/// The sector that keeps a header.
#[verifier::opaque]
pub open spec fn header_sector(h: MemoryDbHeader) -> Seq<u8> {
    header_bytes(h) + bytes::zeros(416)
}

/// The fields of a header sector, whatever its magic says.
pub open spec fn header_fields(s: Seq<u8>) -> MemoryDbHeader {
    MemoryDbHeader {
        version: bytes::le32(s, 8) as u32,
        sector_size: bytes::le32(s, 12) as u32,
        header_lba: bytes::le64(s, 16) as u64,
        data_lba: bytes::le64(s, 24) as u64,
        total_sectors: bytes::le64(s, 32) as u64,
        next_append_lba: bytes::le64(s, 40) as u64,
        last_ssd_lba: bytes::le64(s, 48) as u64,
        model_start_lba: bytes::le64(s, 56) as u64,
        model_last_lba: bytes::le64(s, 64) as u64,
        map_lba: bytes::le64(s, 72) as u64,
        map_entries_used: bytes::le64(s, 80) as u64,
        map_sectors: bytes::le64(s, 88) as u64,
    }
}

/// Whether a sector starts with the database's magic.
pub open spec fn has_db_magic(s: Seq<u8>) -> bool {
    s.subrange(0, 8) == MEMORY_DB_MAGIC@
}

/// The header that a sector keeps, if it keeps one of this version.
pub open spec fn header_of(s: Seq<u8>) -> Option<MemoryDbHeader> {
    let h = header_fields(s);
    if has_db_magic(s) && h.version == MEMORY_DB_VERSION && h.sector_size == SECTOR_SIZE {
        Some(h)
    } else {
        None
    }
}

/// Writes the sector that keeps a header.
pub fn memory_db_write_header(h: &MemoryDbHeader) -> (r: Vec<u8>)
    ensures
        r@ == header_sector(*h),
        r@.len() == SECTOR_SIZE,
{
    reveal(header_sector);
    let mut out: Vec<u8> = Vec::new();
    out.extend_from_slice(MEMORY_DB_MAGIC.as_slice());
    assert(out@ =~= MEMORY_DB_MAGIC@);
    bytes::push_le_u32(&mut out, h.version);
    bytes::push_le_u32(&mut out, h.sector_size);
    bytes::push_le_u64(&mut out, h.header_lba);
    bytes::push_le_u64(&mut out, h.data_lba);
    bytes::push_le_u64(&mut out, h.total_sectors);
    bytes::push_le_u64(&mut out, h.next_append_lba);
    bytes::push_le_u64(&mut out, h.last_ssd_lba);
    bytes::push_le_u64(&mut out, h.model_start_lba);
    bytes::push_le_u64(&mut out, h.model_last_lba);
    bytes::push_le_u64(&mut out, h.map_lba);
    bytes::push_le_u64(&mut out, h.map_entries_used);
    bytes::push_le_u64(&mut out, h.map_sectors);
    proof {
        bytes::lemma_le_lengths();
    }
    assert(out@ == header_bytes(*h));
    assert(out@.len() == 96);
    out.resize(SECTOR_SIZE, 0);
    assert(out@ =~= header_sector(*h));
    out
}

/// Reads the fields of a header sector, whatever its magic says.
pub fn memory_db_header_fields(s: &[u8]) -> (r: MemoryDbHeader)
    requires
        s.len() == SECTOR_SIZE,
    ensures
        r == header_fields(s@),
{
    MemoryDbHeader {
        version: bytes::le_u32(s, 8),
        sector_size: bytes::le_u32(s, 12),
        header_lba: bytes::le_u64(s, 16),
        data_lba: bytes::le_u64(s, 24),
        total_sectors: bytes::le_u64(s, 32),
        next_append_lba: bytes::le_u64(s, 40),
        last_ssd_lba: bytes::le_u64(s, 48),
        model_start_lba: bytes::le_u64(s, 56),
        model_last_lba: bytes::le_u64(s, 64),
        map_lba: bytes::le_u64(s, 72),
        map_entries_used: bytes::le_u64(s, 80),
        map_sectors: bytes::le_u64(s, 88),
    }
}

/// Whether a sector starts with the database's magic.
pub fn starts_with_db_magic(s: &[u8]) -> (r: bool)
    requires
        s.len() == SECTOR_SIZE,
    ensures
        r == has_db_magic(s@),
{
    bytes::same_bytes(&s[0..8], MEMORY_DB_MAGIC.as_slice())
}

/// Reads the header that a sector keeps.
pub fn memory_db_read_header(s: &[u8]) -> (r: Option<MemoryDbHeader>)
    requires
        s.len() == SECTOR_SIZE,
    ensures
        r == header_of(s@),
{
    let h = memory_db_header_fields(s);
    if starts_with_db_magic(s) && h.version == MEMORY_DB_VERSION && h.sector_size
        == SECTOR_SIZE as u32 {
        Some(h)
    } else {
        None
    }
}

/// A header of this version that was written is read back.
pub proof fn law_header_round_trip(h: MemoryDbHeader)
    ensures
        header_sector(h).len() == SECTOR_SIZE,
        header_fields(header_sector(h)) == h,
        has_db_magic(header_sector(h)),
        h.version == MEMORY_DB_VERSION && h.sector_size == SECTOR_SIZE ==> header_of(
            header_sector(h),
        ) == Some(h),
{
    reveal(header_sector);
    bytes::lemma_le_lengths();
    let s = header_sector(h);
    assert(s.subrange(0, 8) =~= MEMORY_DB_MAGIC@);
    bytes::lemma_le32_in(s, s.subrange(0, 8), h.version, s.subrange(12, 512));
    bytes::lemma_le32_in(s, s.subrange(0, 12), h.sector_size, s.subrange(16, 512));
    bytes::lemma_le64_in(s, s.subrange(0, 16), h.header_lba, s.subrange(24, 512));
    bytes::lemma_le64_in(s, s.subrange(0, 24), h.data_lba, s.subrange(32, 512));
    bytes::lemma_le64_in(s, s.subrange(0, 32), h.total_sectors, s.subrange(40, 512));
    bytes::lemma_le64_in(s, s.subrange(0, 40), h.next_append_lba, s.subrange(48, 512));
    bytes::lemma_le64_in(s, s.subrange(0, 48), h.last_ssd_lba, s.subrange(56, 512));
    bytes::lemma_le64_in(s, s.subrange(0, 56), h.model_start_lba, s.subrange(64, 512));
    bytes::lemma_le64_in(s, s.subrange(0, 64), h.model_last_lba, s.subrange(72, 512));
    bytes::lemma_le64_in(s, s.subrange(0, 72), h.map_lba, s.subrange(80, 512));
    bytes::lemma_le64_in(s, s.subrange(0, 80), h.map_entries_used, s.subrange(88, 512));
    bytes::lemma_le64_in(s, s.subrange(0, 88), h.map_sectors, s.subrange(96, 512));
}

/// The sector that heads a map of which `used` entries are used.
#[verifier::opaque]
pub open spec fn map_header_sector(used: u64) -> Seq<u8> {
    MEMORY_DB_MAP_MAGIC@ + bytes::le32_bytes(MEMORY_DB_MAP_VERSION as int) + bytes::le32_bytes(
        MEMORY_DB_MAP_ENTRY_SIZE as int,
    ) + bytes::le32_bytes(MEMORY_DB_MAP_MAX_ENTRIES as int) + bytes::le64_bytes(used as int)
        + bytes::zeros(488)
}

/// How many entries of its map are used, as the sector that heads it says; nothing where
/// that sector is not valid.
pub open spec fn map_used_of(s: Seq<u8>) -> Option<u64> {
    if s.subrange(0, 4) == MEMORY_DB_MAP_MAGIC@ && bytes::le32(s, 4) == MEMORY_DB_MAP_VERSION
        && bytes::le32(s, 8) == MEMORY_DB_MAP_ENTRY_SIZE && bytes::le32(s, 12)
        == MEMORY_DB_MAP_MAX_ENTRIES && bytes::le64(s, 16) <= MEMORY_DB_MAP_MAX_ENTRIES {
        Some(bytes::le64(s, 16) as u64)
    } else {
        None
    }
}

/// Writes the sector that heads a map.
pub fn memory_db_write_map_header(map_entries_used: u64) -> (r: Vec<u8>)
    ensures
        r@ == map_header_sector(map_entries_used),
        r@.len() == SECTOR_SIZE,
{
    reveal(map_header_sector);
    let mut out: Vec<u8> = Vec::new();
    out.extend_from_slice(MEMORY_DB_MAP_MAGIC.as_slice());
    assert(out@ =~= MEMORY_DB_MAP_MAGIC@);
    bytes::push_le_u32(&mut out, MEMORY_DB_MAP_VERSION);
    bytes::push_le_u32(&mut out, MEMORY_DB_MAP_ENTRY_SIZE);
    bytes::push_le_u32(&mut out, 992);
    bytes::push_le_u64(&mut out, map_entries_used);
    proof {
        bytes::lemma_le_lengths();
    }
    assert(out@.len() == 24);
    out.resize(SECTOR_SIZE, 0);
    assert(out@ =~= map_header_sector(map_entries_used));
    out
}

/// Reads how large an entry of a map is, and how many of them are used.
pub fn memory_db_read_map_header(s: &[u8]) -> (r: Result<(u64, u64), ()>)
    requires
        s.len() == SECTOR_SIZE,
    ensures
        match r {
            Ok((size, used)) => size == MEMORY_DB_MAP_ENTRY_SIZE && map_used_of(s@) == Some(used),
            Err(_) => map_used_of(s@) is None,
        },
{
    if !bytes::same_bytes(&s[0..4], MEMORY_DB_MAP_MAGIC.as_slice()) {
        return Err(());
    }
    if bytes::le_u32(s, 4) != MEMORY_DB_MAP_VERSION {
        return Err(());
    }
    let entry_size: u32 = bytes::le_u32(s, 8);
    if entry_size != MEMORY_DB_MAP_ENTRY_SIZE {
        return Err(());
    }
    let capacity: u64 = bytes::le_u32(s, 12) as u64;
    let used: u64 = bytes::le_u64(s, 16);
    if capacity != MEMORY_DB_MAP_MAX_ENTRIES || used > capacity {
        return Err(());
    }
    Ok((entry_size as u64, used))
}

/// The sector that heads a map has the size of one.
pub proof fn lemma_map_header_len(used: u64)
    ensures
        map_header_sector(used).len() == SECTOR_SIZE,
{
    reveal(map_header_sector);
    bytes::lemma_le_lengths();
}

/// What was written at the head of a map is read back.
pub proof fn law_map_header_round_trip(used: u64)
    requires
        used <= MEMORY_DB_MAP_MAX_ENTRIES,
    ensures
        map_header_sector(used).len() == SECTOR_SIZE,
        map_used_of(map_header_sector(used)) == Some(used),
{
    reveal(map_header_sector);
    bytes::lemma_le_lengths();
    let s = map_header_sector(used);
    assert(s.subrange(0, 4) =~= MEMORY_DB_MAP_MAGIC@);
    bytes::lemma_le32_in(s, s.subrange(0, 4), MEMORY_DB_MAP_VERSION, s.subrange(8, 512));
    bytes::lemma_le32_in(s, s.subrange(0, 8), MEMORY_DB_MAP_ENTRY_SIZE, s.subrange(12, 512));
    bytes::lemma_le32_in(s, s.subrange(0, 12), 992u32, s.subrange(16, 512));
    bytes::lemma_le64_in(s, s.subrange(0, 16), used, s.subrange(24, 512));
}

/// The entry that a sector keeps at `off`.
pub open spec fn entry_of(s: Seq<u8>, off: int) -> MemoryDbMapEntry {
    MemoryDbMapEntry {
        start_lba: bytes::le64(s, off) as u64,
        payload_bytes: bytes::le32(s, off + 8) as u32,
        flags: bytes::le32(s, off + 12) as u32,
    }
}

/// `s` with an entry put at `off`.
pub open spec fn with_map_entry(s: Seq<u8>, off: int, e: MemoryDbMapEntry) -> Seq<u8> {
    bytes::spliced(
        bytes::spliced(
            bytes::spliced(s, off, bytes::le64_bytes(e.start_lba as int)),
            off + 8,
            bytes::le32_bytes(e.payload_bytes as int),
        ),
        off + 12,
        bytes::le32_bytes(e.flags as int),
    )
}

/// Reads the entry that a sector keeps at `off`.
pub fn memory_db_read_map_entry(s: &[u8], off: usize) -> (r: MemoryDbMapEntry)
    requires
        s.len() == SECTOR_SIZE,
        off + 16 <= SECTOR_SIZE,
    ensures
        r == entry_of(s@, off as int),
{
    MemoryDbMapEntry {
        start_lba: bytes::le_u64(s, off),
        payload_bytes: bytes::le_u32(s, off + 8),
        flags: bytes::le_u32(s, off + 12),
    }
}

/// Puts an entry into a sector at `off`.
pub fn memory_db_write_map_entry(s: &mut Vec<u8>, off: usize, e: MemoryDbMapEntry)
    requires
        old(s)@.len() == SECTOR_SIZE,
        off + 16 <= SECTOR_SIZE,
    ensures
        final(s)@ == with_map_entry(old(s)@, off as int, e),
        final(s)@.len() == SECTOR_SIZE,
{
    bytes::write_le_u64(s, off, e.start_lba);
    bytes::write_le_u32(s, off + 8, e.payload_bytes);
    bytes::write_le_u32(s, off + 12, e.flags);
}

/// Where entry `index` stands: in which of the sectors behind the head of the map, and at
/// which byte.
pub open spec fn entry_place(index: int) -> Option<(int, int)> {
    if 0 <= index < MEMORY_DB_MAP_MAX_ENTRIES {
        Some((index / 32, index % 32 * 16))
    } else {
        None
    }
}

/// Finds where an entry stands.
pub fn memory_db_map_entry_location(entry_index: u64) -> (r: Result<(u64, usize), ()>)
    ensures
        match r {
            Ok((s, o)) => entry_place(entry_index as int) == Some((s as int, o as int)),
            Err(_) => entry_place(entry_index as int) is None,
        },
{
    if entry_index >= MEMORY_DB_MAP_MAX_ENTRIES {
        return Err(());
    }
    let sector: u64 = entry_index / MEMORY_DB_MAP_ENTRIES_PER_SECTOR;
    let offset: u64 = entry_index % MEMORY_DB_MAP_ENTRIES_PER_SECTOR * 16;
    Ok((sector, offset as usize))
}

/// An entry that was put into a sector is read back, and the others stay.
pub proof fn law_entry_round_trip(s: Seq<u8>, slot: int, other: int, e: MemoryDbMapEntry)
    requires
        s.len() == SECTOR_SIZE,
        0 <= slot < 32,
        0 <= other < 32,
    ensures
        entry_of(with_map_entry(s, slot * 16, e), slot * 16) == e,
        other != slot ==> entry_of(with_map_entry(s, slot * 16, e), other * 16) == entry_of(
            s,
            other * 16,
        ),
{
    bytes::lemma_le_lengths();
    let off = slot * 16;
    let s1 = bytes::spliced(s, off, bytes::le64_bytes(e.start_lba as int));
    let s2 = bytes::spliced(s1, off + 8, bytes::le32_bytes(e.payload_bytes as int));
    let s3 = bytes::spliced(s2, off + 12, bytes::le32_bytes(e.flags as int));
    bytes::law_le64_round_trip(s, off, e.start_lba);
    bytes::law_le32_round_trip(s1, off + 8, e.payload_bytes);
    bytes::law_le32_round_trip(s2, off + 12, e.flags);
    bytes::lemma_le_frame(s1, off + 8, bytes::le32_bytes(e.payload_bytes as int), off, 8);
    bytes::lemma_le_frame(s2, off + 12, bytes::le32_bytes(e.flags as int), off, 8);
    bytes::lemma_le_frame(s2, off + 12, bytes::le32_bytes(e.flags as int), off + 8, 4);
    if other != slot {
        let o = other * 16;
        assert(o + 16 <= off || off + 16 <= o);
        assert forall|k: int| o <= k < o + 16 implies s3[k] == s[k] by {}
    }
}

/// Whether an entry counts.
pub open spec fn counts(e: MemoryDbMapEntry) -> bool {
    e.flags % 2 == 1 && e.payload_bytes != 0
}

/// Whether an entry counts.
pub fn entry_counts(e: &MemoryDbMapEntry) -> (r: bool)
    ensures
        r == counts(*e),
{
    e.flags % 2 == 1 && e.payload_bytes != 0
}

} // verus!
