//! The raw copy of the model on the disk: a header, and the model behind it.

use vstd::prelude::*;

use crate::bytes;
use crate::storage::disk;
use crate::storage::disk::DiskRequest;
use crate::storage::disk::Io;
use crate::storage::disk::SECTOR_SIZE;

verus! {

/// Where the header of the model cache stands.
pub const MODEL_FIXED_CACHE_LBA: u64 = 2048;

/// How many sectors are set aside for the header.
pub const MODEL_HEADER_SECTORS: u64 = 8;

/// The largest transfer, in sectors.
pub const MODEL_CHUNK_SECTORS: u64 = 8192;

/// The largest transfer, in bytes.
pub const MODEL_CHUNK_BYTES: u64 = 0x40_0000;

/// The smallest model that is taken for one.
pub const MIN_RAW_MODEL_SIZE: u64 = 0x4000_0000;

/// The largest model that is taken for one.
pub const MAX_RAW_MODEL_SIZE: u64 = 0x2_0000_0000;

/// `BITNET01`: the copy is complete.
pub const MODEL_MAGIC_READY: [u8; 8] = [0x42, 0x49, 0x54, 0x4e, 0x45, 0x54, 0x30, 0x31];

/// `BITNET00`: the copy is being written.
pub const MODEL_MAGIC_WRITING: [u8; 8] = [0x42, 0x49, 0x54, 0x4e, 0x45, 0x54, 0x30, 0x30];

/// `BITNET2B`: which model it is.
pub const MODEL_CACHE_TAG: [u8; 8] = [0x42, 0x49, 0x54, 0x4e, 0x45, 0x54, 0x32, 0x42];

/// `HSMOKE01`
pub const SMOKE_MAGIC: [u8; 8] = [0x48, 0x53, 0x4d, 0x4f, 0x4b, 0x45, 0x30, 0x31];

/// `GGUF`: how a model starts.
pub const GGUF_MAGIC: [u8; 4] = [0x47, 0x47, 0x55, 0x46];

/// What is asked for while the model is written or loaded.
pub enum ModelRequest {
    Disk(DiskRequest),
    /// Write `count` sectors of the model, from byte `offset` of it on, to `lba`.
    WriteModel { lba: u64, offset: u64, count: u16 },
    /// Memory for the model.
    Allocate { size: u64, align: u64 },
    /// Nothing: it is over.
    Done,
}

/// What is asked for, over byte strings.
pub enum ModelIo {
    Disk(Io),
    WriteModel { lba: int, offset: int, count: int },
    Allocate { size: int, align: int },
    Done,
}

impl View for ModelRequest {
    type V = ModelIo;

    open spec fn view(&self) -> ModelIo {
        match self {
            ModelRequest::Disk(r) => ModelIo::Disk(r@),
            ModelRequest::WriteModel { lba, offset, count } => ModelIo::WriteModel {
                lba: *lba as int,
                offset: *offset as int,
                count: *count as int,
            },
            ModelRequest::Allocate { size, align } => ModelIo::Allocate {
                size: *size as int,
                align: *align as int,
            },
            ModelRequest::Done => ModelIo::Done,
        }
    }
}

/// A reply that fits the request.
pub open spec fn model_fits(io: ModelIo, reply: Option<Seq<u8>>) -> bool {
    io matches ModelIo::Disk(d) ==> disk::fits(d, reply)
}

/// The header sector of the model cache.
#[verifier::opaque]
pub open spec fn model_header_sector(magic: Seq<u8>, model_size: u64, data_lba: u64) -> Seq<u8> {
    magic + bytes::le64_bytes(model_size as int) + bytes::le64_bytes(data_lba as int)
        + MODEL_CACHE_TAG@ + bytes::zeros(480)
}

/// Writes the header sector of the model cache.
pub fn write_model_header(magic: &[u8; 8], model_size: u64, data_lba: u64) -> (r: Vec<u8>)
    ensures
        r@ == model_header_sector(magic@, model_size, data_lba),
        r@.len() == SECTOR_SIZE,
{
    reveal(model_header_sector);
    let mut out: Vec<u8> = Vec::new();
    out.extend_from_slice(magic.as_slice());
    assert(out@ =~= magic@);
    bytes::push_le_u64(&mut out, model_size);
    bytes::push_le_u64(&mut out, data_lba);
    let ghost so_far = out@;
    out.extend_from_slice(MODEL_CACHE_TAG.as_slice());
    assert(out@ =~= so_far + MODEL_CACHE_TAG@);
    proof {
        bytes::lemma_le_lengths();
    }
    assert(out@.len() == 32);
    out.resize(SECTOR_SIZE, 0);
    assert(out@ =~= model_header_sector(magic@, model_size, data_lba));
    out
}

/// What the header sector of the model cache says.
#[derive(Clone, Copy, PartialEq, Eq, Structural)]
pub enum CacheCheck {
    /// A complete copy of this size.
    Ready(u64),
    NotReady,
    WrongTag,
    WrongPlace,
    Empty,
    WrongSize,
}

/// What the header sector at `cache_lba` says.
pub open spec fn cache_check(s: Seq<u8>, cache_lba: u64) -> CacheCheck {
    let size = bytes::le64(s, 8);
    if s.subrange(0, 8) != MODEL_MAGIC_READY@ {
        CacheCheck::NotReady
    } else if s.subrange(24, 32) != MODEL_CACHE_TAG@ {
        CacheCheck::WrongTag
    } else if bytes::le64(s, 16) != cache_lba + MODEL_HEADER_SECTORS {
        CacheCheck::WrongPlace
    } else if size == 0 {
        CacheCheck::Empty
    } else if !(MIN_RAW_MODEL_SIZE <= size <= MAX_RAW_MODEL_SIZE) {
        CacheCheck::WrongSize
    } else {
        CacheCheck::Ready(size as u64)
    }
}

/// Reads the header sector of the model cache.
pub fn check_model_header(s: &[u8], cache_lba: u64) -> (r: CacheCheck)
    requires
        s.len() == SECTOR_SIZE,
        cache_lba + MODEL_HEADER_SECTORS <= u64::MAX,
    ensures
        r == cache_check(s@, cache_lba),
{
    if !bytes::same_bytes(&s[0..8], MODEL_MAGIC_READY.as_slice()) {
        return CacheCheck::NotReady;
    }
    if !bytes::same_bytes(&s[24..32], MODEL_CACHE_TAG.as_slice()) {
        return CacheCheck::WrongTag;
    }
    if bytes::le_u64(s, 16) != cache_lba + MODEL_HEADER_SECTORS {
        return CacheCheck::WrongPlace;
    }
    let size: u64 = bytes::le_u64(s, 8);
    if size == 0 {
        return CacheCheck::Empty;
    }
    if size < MIN_RAW_MODEL_SIZE || size > MAX_RAW_MODEL_SIZE {
        return CacheCheck::WrongSize;
    }
    CacheCheck::Ready(size)
}

/// A header that says that the copy is complete is read as such; one that says that it is
/// being written is not.
pub proof fn law_model_header_round_trip(model_size: u64, cache_lba: u64)
    requires
        MIN_RAW_MODEL_SIZE <= model_size <= MAX_RAW_MODEL_SIZE,
        cache_lba + MODEL_HEADER_SECTORS <= u64::MAX,
    ensures
        ({
            let data_lba = (cache_lba + MODEL_HEADER_SECTORS) as u64;
            let ready = model_header_sector(MODEL_MAGIC_READY@, model_size, data_lba);
            let writing = model_header_sector(MODEL_MAGIC_WRITING@, model_size, data_lba);
            &&& ready.len() == SECTOR_SIZE
            &&& writing.len() == SECTOR_SIZE
            &&& cache_check(ready, cache_lba) == CacheCheck::Ready(model_size)
            &&& cache_check(writing, cache_lba) == CacheCheck::NotReady
        }),
{
    reveal(model_header_sector);
    let data_lba = (cache_lba + MODEL_HEADER_SECTORS) as u64;
    let s = model_header_sector(MODEL_MAGIC_READY@, model_size, data_lba);
    let w = model_header_sector(MODEL_MAGIC_WRITING@, model_size, data_lba);
    bytes::lemma_le_lengths();
    assert(s.subrange(0, 8) =~= MODEL_MAGIC_READY@);
    assert(s.subrange(24, 32) =~= MODEL_CACHE_TAG@);
    bytes::lemma_le64_in(s, s.subrange(0, 8), model_size, s.subrange(16, 512));
    bytes::lemma_le64_in(s, s.subrange(0, 16), data_lba, s.subrange(24, 512));
    assert(w.subrange(0, 8)[7] == 0x30);
    assert(MODEL_MAGIC_READY@[7] == 0x31);
}

/// Whether a model fits on the disk; taken to be so where the disk's size is unknown.
pub open spec fn range_fits(capacity: Option<u64>, data_lba: int, model_size: int) -> bool {
    match capacity {
        Some(c) => data_lba + disk::sectors(model_size) <= c,
        None => true,
    }
}

/// Whether a model fits on the disk.
pub fn raw_model_range_fits(capacity: Option<u64>, data_lba: u64, model_size: u64) -> (r: bool)
    ensures
        r == range_fits(capacity, data_lba as int, model_size as int),
{
    match capacity {
        Some(c) => match data_lba.checked_add(disk::sectors_for_u64(model_size)) {
            Some(end) => end <= c,
            None => false,
        },
        None => true,
    }
}

/// The sector that the smoke test writes at `test_lba`.
#[verifier::opaque]
pub open spec fn smoke_sector(test_lba: u64) -> Seq<u8> {
    SMOKE_MAGIC@ + bytes::le64_bytes(test_lba as int) + bytes::zeros(496)
}

/// Builds the sector that the smoke test writes.
pub fn build_smoke_sector(test_lba: u64) -> (r: Vec<u8>)
    ensures
        r@ == smoke_sector(test_lba),
        r@.len() == SECTOR_SIZE,
{
    reveal(smoke_sector);
    let mut out: Vec<u8> = Vec::new();
    out.extend_from_slice(SMOKE_MAGIC.as_slice());
    assert(out@ =~= SMOKE_MAGIC@);
    bytes::push_le_u64(&mut out, test_lba);
    proof {
        bytes::lemma_le_lengths();
    }
    assert(out@.len() == 16);
    out.resize(SECTOR_SIZE, 0);
    assert(out@ =~= smoke_sector(test_lba));
    out
}

/// Whether the smoke test read back what it wrote.
pub open spec fn smoke_ok(s: Seq<u8>, test_lba: u64) -> bool {
    s.subrange(0, 16) == smoke_sector(test_lba).subrange(0, 16)
}

/// Whether the smoke test read back what it wrote.
pub fn smoke_test_passed(s: &[u8], test_lba: u64) -> (r: bool)
    requires
        s.len() == SECTOR_SIZE,
    ensures
        r == smoke_ok(s@, test_lba),
{
    let want = build_smoke_sector(test_lba);
    bytes::same_bytes(&s[0..16], &want.as_slice()[0..16])
}

/// How many sectors of a model are transferred next, from byte `offset` of it on.
pub open spec fn chunk_sectors(model_size: int, offset: int) -> int {
    let n = disk::sectors(model_size - offset);
    if n <= MODEL_CHUNK_SECTORS {
        n
    } else {
        MODEL_CHUNK_SECTORS as int
    }
}

/// How many sectors of a model are transferred next.
pub fn model_chunk(model_size: u64, offset: u64) -> (r: u16)
    requires
        offset < model_size,
    ensures
        r == chunk_sectors(model_size as int, offset as int),
        0 < r,
{
    let n: u64 = disk::sectors_for_u64(model_size - offset);
    if n <= MODEL_CHUNK_SECTORS {
        n as u16
    } else {
        MODEL_CHUNK_SECTORS as u16
    }
}

/// How many MiB were loaded per second, given what was loaded and how long it took in
/// microseconds.
pub open spec fn throughput_mib_s(model_size: u64, elapsed_us: u64) -> int {
    let scaled = if model_size * 1_000_000 > u64::MAX {
        u64::MAX as int
    } else {
        model_size * 1_000_000
    };
    if elapsed_us == 0 {
        0
    } else {
        scaled / elapsed_us as int / 0x10_0000
    }
}

/// Computes how many MiB were loaded per second.
pub fn load_throughput(model_size: u64, elapsed_us: u64) -> (r: u64)
    ensures
        r == throughput_mib_s(model_size, elapsed_us),
{
    if elapsed_us == 0 {
        return 0;
    }
    let scaled: u64 = match model_size.checked_mul(1_000_000) {
        Some(v) => v,
        None => u64::MAX,
    };
    scaled / elapsed_us / 0x10_0000
}

} // verus!
