use std::collections::HashMap;

use hermit_llm::storage::boot_log::{dump_boot_log, DumpPhase, DumpRequest};
use hermit_llm::storage::disk::DiskRequest;
use hermit_llm::storage::gpt::{discover_model_partition, gpt_partition_name, GptOp};
use hermit_llm::storage::load_model::try_load_raw_model;
use hermit_llm::storage::model_cache::{
    build_smoke_sector, check_model_header, load_throughput, model_chunk, raw_model_range_fits,
    smoke_test_passed, write_model_header, CacheCheck, ModelRequest, MODEL_FIXED_CACHE_LBA,
    MODEL_MAGIC_READY, MODEL_MAGIC_WRITING,
};
use hermit_llm::storage::write_model::write_raw_model_cache;

const GIB: u64 = 0x4000_0000;
const CAPACITY: Option<u64> = Some(500_000_000);

/// A disk that keeps single sectors and hands out zeros elsewhere.
struct Sectors {
    kept: HashMap<u64, Vec<u8>>,
}

impl Sectors {
    fn perform(&mut self, request: DiskRequest) -> Option<Vec<u8>> {
        match request {
            DiskRequest::Read { lba } => {
                Some(self.kept.get(&lba).cloned().unwrap_or(vec![0; 512]))
            }
            DiskRequest::ReadMany { lba, count } => {
                let mut out = vec![0; count as usize * 512];
                if let Some(first) = self.kept.get(&lba) {
                    out[..512].copy_from_slice(first);
                }
                Some(out)
            }
            DiskRequest::Write { lba, data } => {
                for (i, chunk) in data.chunks(512).enumerate() {
                    self.kept.insert(lba + i as u64, chunk.to_vec());
                }
                Some(Vec::new())
            }
            DiskRequest::Done => None,
        }
    }
}

fn cache_model(disk: &mut Sectors, size: u64) -> (Result<(), ()>, u64) {
    let mut op = write_raw_model_cache(MODEL_FIXED_CACHE_LBA, size, CAPACITY, None);
    let mut written = 0;
    loop {
        match op.next_request() {
            ModelRequest::Disk(request) => {
                let reply = disk.perform(request);
                op.feed(reply.as_deref());
            }
            ModelRequest::WriteModel { lba, offset, count } => {
                assert_eq!(lba, MODEL_FIXED_CACHE_LBA + 8 + offset / 512);
                let mut first = vec![0u8; 512];
                if offset == 0 {
                    first[..4].copy_from_slice(b"GGUF");
                }
                disk.kept.insert(lba, first);
                written += count as u64;
                op.feed(Some(&[]));
            }
            ModelRequest::Allocate { .. } => unreachable!(),
            ModelRequest::Done => return (op.outcome().unwrap(), written),
        }
    }
}

#[test]
fn a_cached_model_is_loaded() {
    let size = GIB + 700;
    let mut disk = Sectors { kept: HashMap::new() };
    let (outcome, written) = cache_model(&mut disk, size);
    assert_eq!(outcome, Ok(()));
    assert_eq!(written, GIB / 512 + 2);
    assert_eq!(disk.kept[&2048][..8], *b"BITNET01");

    let mut op = try_load_raw_model(false, MODEL_FIXED_CACHE_LBA, CAPACITY, None);
    let mut loaded: u64 = 0;
    let mut allocated = 0;
    loop {
        match op.next_request() {
            ModelRequest::Disk(request) => {
                if let DiskRequest::ReadMany { lba, count } = &request {
                    assert_eq!(*lba, 2056 + loaded);
                    loaded += *count as u64;
                }
                let reply = disk.perform(request);
                op.feed(reply.as_deref());
            }
            ModelRequest::Allocate { size, .. } => {
                allocated = size;
                op.feed(Some(&[]));
            }
            ModelRequest::WriteModel { .. } => unreachable!(),
            ModelRequest::Done => break,
        }
    }
    assert_eq!(op.outcome(), Some(true));
    assert_eq!(loaded, GIB / 512 + 2);
    assert_eq!(allocated, GIB + 0x40_0000);
}

#[test]
fn a_model_that_is_there_is_not_loaded_again() {
    let op = try_load_raw_model(true, MODEL_FIXED_CACHE_LBA, CAPACITY, None);
    assert!(matches!(op.next_request(), ModelRequest::Done));
    assert_eq!(op.outcome(), Some(true));
}

#[test]
fn an_empty_cache_loads_nothing() {
    let mut op = try_load_raw_model(false, MODEL_FIXED_CACHE_LBA, CAPACITY, None);
    assert!(matches!(
        op.next_request(),
        ModelRequest::Disk(DiskRequest::Read { lba: 2048 })
    ));
    op.feed(Some(&vec![0; 512]));
    assert_eq!(op.outcome(), Some(false));
}

#[test]
fn a_model_behind_the_disk_is_refused() {
    let op = write_raw_model_cache(MODEL_FIXED_CACHE_LBA, GIB, Some(4096), None);
    assert_eq!(op.outcome(), Some(Err(())));
    assert!(!raw_model_range_fits(Some(4096), 2056, GIB));
    assert!(raw_model_range_fits(None, 2056, GIB));
    assert!(raw_model_range_fits(Some(2056 + GIB / 512), 2056, GIB));
    assert!(!raw_model_range_fits(Some(2055 + GIB / 512), 2056, GIB));
}

#[test]
fn a_failed_self_test_stops_the_write() {
    let mut op = write_raw_model_cache(MODEL_FIXED_CACHE_LBA, GIB, CAPACITY, None);
    op.feed(Some(&[]));
    op.feed(Some(&vec![0; 512]));
    assert_eq!(op.outcome(), Some(Err(())));
}

#[test]
fn cache_headers_are_told_apart() {
    let ready = write_model_header(&MODEL_MAGIC_READY, GIB, 2056);
    assert_eq!(ready[..8], *b"BITNET01");
    assert_eq!(ready[24..32], *b"BITNET2B");
    assert!(matches!(check_model_header(&ready, 2048), CacheCheck::Ready(n) if n == GIB));
    assert!(matches!(check_model_header(&ready, 4096), CacheCheck::WrongPlace));
    let writing = write_model_header(&MODEL_MAGIC_WRITING, GIB, 2056);
    assert!(matches!(check_model_header(&writing, 2048), CacheCheck::NotReady));
    let mut tag = ready.clone();
    tag[24] = 0;
    assert!(matches!(check_model_header(&tag, 2048), CacheCheck::WrongTag));
    let empty = write_model_header(&MODEL_MAGIC_READY, 0, 2056);
    assert!(matches!(check_model_header(&empty, 2048), CacheCheck::Empty));
    let small = write_model_header(&MODEL_MAGIC_READY, 512, 2056);
    assert!(matches!(check_model_header(&small, 2048), CacheCheck::WrongSize));
}

#[test]
fn the_self_test_sector_is_recognised() {
    let s = build_smoke_sector(2049);
    assert_eq!(s[..8], *b"HSMOKE01");
    assert!(smoke_test_passed(&s, 2049));
    assert!(!smoke_test_passed(&s, 2050));
}

#[test]
fn chunks_and_throughput() {
    assert_eq!(model_chunk(GIB, 0), 8192);
    assert_eq!(model_chunk(1000, 512), 1);
    assert_eq!(load_throughput(0x10_0000 * 100, 1_000_000), 100);
    assert_eq!(load_throughput(GIB, 0), 0);
}

fn run_gpt(mut op: GptOp, header: &[u8], entries: &[u8]) -> (Option<u64>, u64) {
    let mut reads = 0;
    loop {
        match op.next_request() {
            DiskRequest::Read { lba: 1 } => op.feed(Some(header)),
            DiskRequest::Read { lba } => {
                reads += 1;
                let at = (lba - 2) as usize * 512;
                op.feed(Some(&entries[at..at + 512]));
            }
            _ => return (op.outcome().unwrap(), reads),
        }
    }
}

fn gpt_header() -> Vec<u8> {
    let mut h = vec![0u8; 512];
    h[..8].copy_from_slice(b"EFI PART");
    h[72] = 2;
    h[80] = 8;
    h[84] = 128;
    h
}

#[test]
fn the_first_used_partition_is_taken() {
    let mut entries = vec![0u8; 1024];
    entries[512] = 0xaf;
    entries[512 + 32] = 0x39;
    entries[512 + 33] = 0x30;
    entries[512 + 40] = 0xff;
    entries[512 + 41] = 0xff;
    let (found, reads) = run_gpt(discover_model_partition(), &gpt_header(), &entries);
    assert_eq!(found, Some(0x3039));
    assert_eq!(reads, 5);
    let (none, reads) = run_gpt(discover_model_partition(), &gpt_header(), &vec![0u8; 1024]);
    assert_eq!(none, None);
    assert_eq!(reads, 8);
}

#[test]
fn a_disk_without_a_partition_table_has_none() {
    let mut header = gpt_header();
    header[0] = b'e';
    assert_eq!(run_gpt(discover_model_partition(), &header, &[]).0, None);
    let mut op = discover_model_partition();
    op.feed(None);
    assert_eq!(op.outcome(), Some(None));
}

#[test]
fn small_entries_are_passed_over_while_unused() {
    let mut header = gpt_header();
    header[84] = 32;
    let (none, reads) = run_gpt(discover_model_partition(), &header, &vec![0u8; 512]);
    assert_eq!(none, None);
    assert_eq!(reads, 8);

    let mut op = discover_model_partition();
    assert!(op.supports(Some(&header)));
    op.feed(Some(&header));
    let mut sector = vec![0u8; 512];
    assert!(op.supports(Some(&sector)));
    sector[0] = 1;
    assert!(!op.supports(Some(&sector)));

    header[84] = 15;
    assert!(!discover_model_partition().supports(Some(&header)));
    header[80] = 0;
    assert!(discover_model_partition().supports(Some(&header)));
    assert_eq!(run_gpt(discover_model_partition(), &header, &[]).0, None);
}

#[test]
fn entries_across_sectors_are_passed_over() {
    let mut header = gpt_header();
    header[80] = 3;
    header[84..86].copy_from_slice(&300u16.to_le_bytes());
    let mut entries = vec![0xeeu8; 1024];
    entries[..300].fill(0);
    entries[512 + 88..512 + 388].fill(0);
    entries[512 + 88] = 1;
    entries[512 + 88 + 32] = 9;
    let (found, reads) = run_gpt(discover_model_partition(), &header, &entries);
    assert_eq!(found, Some(9));
    assert_eq!(reads, 2);
}

#[test]
fn partition_names_end_at_zero() {
    let raw = [b'D', 0, b'B', 0, 0x00, 0xd8, 0, 0, b'x', 0];
    assert_eq!(gpt_partition_name(&raw), vec![0x44, 0x42, 0x3f]);
}

#[test]
fn the_boot_log_is_written_and_compared() {
    let mut op = dump_boot_log(5000, 2);
    let mut seen = Vec::new();
    loop {
        match op.next_request() {
            DumpRequest::Write { lba, count, offset, len } => {
                seen.push((false, lba, count, offset, len))
            }
            DumpRequest::ReadBack { lba, count, offset, len } => {
                seen.push((true, lba, count, offset, len))
            }
            DumpRequest::Done => break,
        }
        op.feed(true);
    }
    assert!(op.phase == DumpPhase::Done);
    assert_eq!(
        seen,
        vec![
            (false, 1024, 8, 0, 4096),
            (false, 1032, 8, 4096, 4096),
            (false, 1040, 4, 8192, 1808),
            (true, 1024, 8, 0, 4096),
            (true, 1032, 8, 4096, 4096),
            (true, 1040, 4, 8192, 1808),
        ]
    );
    let mut op = dump_boot_log(64, 1);
    op.feed(true);
    op.feed(false);
    assert!(op.phase == DumpPhase::Failed);
}
