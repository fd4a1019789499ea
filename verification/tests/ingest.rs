use hermit_llm::ingest::chain::{advance_progress, ChainIngest, ChainPhase};
use hermit_llm::ingest::fat32::{
    ascii_lower_u16, ascii_upper_u8, fat32_directory_from_entry, fat32_entry_is_gguf,
    fat32_entry_is_preferred_bitnet_gguf, fat32_file_from_entry, fat32_lfn_entry_has_gguf_suffix,
    parse_fat32_volume, read_fat_entry, valid_cluster, Fat32File, Fat32Volume,
};
use hermit_llm::ingest::raw::{RawIngest, RawPhase};
use hermit_llm::ingest::search::FatSearch;
use hermit_llm::ingest::split_read::{SplitRead, SplitRequest};
use hermit_llm::ingest::task::{
    model_size, partition_candidates, probe_partition, scan_round, source_name, IngestTask,
    ModelSource, PortScan, Probe, ScanRequest, ScanRound, TaskRequest,
};

const BASE: u32 = 2048;

/// A volume with one sector in a cluster, its table in one sector and 16 clusters.
struct Stick {
    sectors: Vec<[u8; 512]>,
}

impl Stick {
    fn new() -> Stick {
        let mut s = Stick { sectors: vec![[0; 512]; 4 + 16] };
        let b = &mut s.sectors[0];
        b[11] = 0;
        b[12] = 2;
        b[13] = 1;
        b[14] = 2;
        b[16] = 1;
        b[36] = 1;
        b[44] = 2;
        b[82..90].copy_from_slice(b"FAT32   ");
        b[510] = 0x55;
        b[511] = 0xaa;
        s
    }

    fn link(&mut self, from: usize, to: u32) {
        self.sectors[2][4 * from..4 * from + 4].copy_from_slice(&to.to_le_bytes());
    }

    fn cluster(&mut self, c: usize) -> &mut [u8; 512] {
        &mut self.sectors[3 + c - 2]
    }

    fn entry(&mut self, dir: usize, at: usize, name: &[u8; 11], attr: u8, first: u16, size: u32) {
        let e = &mut self.cluster(dir)[32 * at..32 * at + 32];
        e[..11].copy_from_slice(name);
        e[11] = attr;
        e[26..28].copy_from_slice(&first.to_le_bytes());
        e[28..32].copy_from_slice(&size.to_le_bytes());
    }

    fn read(&self, lba: u32, len: u32) -> Vec<u8> {
        let mut out = Vec::new();
        for i in 0..len / 512 {
            let at = lba.wrapping_sub(BASE) as usize + i as usize;
            out.extend_from_slice(self.sectors.get(at).unwrap_or(&[0; 512]));
        }
        out
    }

    fn volume(&self) -> Fat32Volume {
        match parse_fat32_volume(BASE, 512, &self.sectors[0]) {
            Some(v) => v,
            None => panic!("the boot sector is valid"),
        }
    }

    fn search(&self) -> Option<Fat32File> {
        let mut s = FatSearch::find_gguf_file_in_fat32(self.volume());
        while let Some(r) = s.next_request() {
            s.feed(Some(&self.read(r.lba, r.len)));
        }
        s.outcome().unwrap()
    }
}

fn with_model() -> Stick {
    let mut s = Stick::new();
    s.link(2, 0x0fff_ffff);
    s.entry(2, 0, b"README  TXT", 0x20, 9, 10);
    s.entry(2, 1, b"MODEL   GGU", 0x20, 5, 1300);
    s.cluster(5).fill(1);
    s.cluster(5)[..4].copy_from_slice(b"GGUF");
    s.cluster(6).fill(2);
    s.cluster(8).fill(3);
    s.link(5, 6);
    s.link(6, 8);
    s.link(8, 0x0fff_ffff);
    s
}

#[test]
fn a_volume_is_read_from_its_boot_sector() {
    let v = Stick::new().volume();
    assert_eq!(v.data_start_lba, BASE + 3);
    assert_eq!(v.first_device_lba_of_cluster(2), BASE + 3);
    assert_eq!(v.first_device_lba_of_cluster(7), BASE + 8);
    assert_eq!(v.fat_lba_for_cluster(130), (BASE + 3, 8));
    assert_eq!(v.bytes_in_cluster(), 512);
    assert_eq!(v.blocks_in_clusters(3), 3);
    assert_eq!(v.device_lba_for_fs_sector(5), BASE + 5);
    let mut bad = Stick::new().sectors[0];
    bad[510] = 0;
    assert!(parse_fat32_volume(BASE, 512, &bad).is_none());
    assert!(parse_fat32_volume(BASE, 1024, &Stick::new().sectors[0]).is_none());
    assert!(parse_fat32_volume(BASE, 512, &Stick::new().sectors[0][..100]).is_none());
}

#[test]
fn entries_are_recognised() {
    let mut e = [0u8; 32];
    e[..11].copy_from_slice(b"ggML    GGU");
    e[11] = 0x20;
    assert!(fat32_entry_is_gguf(&e));
    assert!(fat32_entry_is_preferred_bitnet_gguf(&e));
    e[0] = b'X';
    assert!(!fat32_entry_is_preferred_bitnet_gguf(&e));
    assert!(fat32_file_from_entry(&e).is_none());
    e[26] = 5;
    e[28] = 9;
    match fat32_file_from_entry(&e) {
        Some(f) => assert_eq!((f.first_cluster, f.size), (5, 9)),
        None => panic!("a file"),
    }
    assert_eq!(fat32_directory_from_entry(&e), None);
    e[11] = 0x10;
    assert_eq!(fat32_directory_from_entry(&e), Some(5));
    e[0] = b'.';
    assert_eq!(fat32_directory_from_entry(&e), None);
    assert_eq!(ascii_upper_u8(b'g'), b'G');
    assert_eq!(ascii_lower_u16(0x47), 0x67);
    assert!(valid_cluster(2) && !valid_cluster(1) && !valid_cluster(0x0fff_fff8));
    assert_eq!(read_fat_entry(&[1, 2, 3, 0xf4], 0), 0x0403_0201);
}

#[test]
fn long_names_end_in_gguf() {
    let mut e = [0xffu8; 32];
    e[11] = 0x0f;
    let slots = [1usize, 3, 5, 7, 9, 14, 16, 18, 20, 22, 24, 28, 30];
    for (slot, c) in slots.iter().zip(b"m.GGuF\0".iter()) {
        e[*slot] = *c;
        e[*slot + 1] = 0;
    }
    assert!(fat32_lfn_entry_has_gguf_suffix(&e));
    e[slots[5]] = b'X';
    assert!(!fat32_lfn_entry_has_gguf_suffix(&e));
}

#[test]
fn the_model_is_found_in_the_root() {
    let f = match with_model().search() {
        Some(f) => f,
        None => panic!("the model is there"),
    };
    assert_eq!((f.first_cluster, f.size), (5, 1300));
}

#[test]
fn the_model_is_found_in_a_directory() {
    let mut s = with_model();
    s.cluster(2).fill(0);
    s.entry(2, 0, b"MODELS     ", 0x10, 10, 0);
    s.link(10, 0x0fff_ffff);
    s.entry(10, 0, b"MODEL   GGU", 0x20, 5, 1300);
    assert!(s.search().is_some());
}

#[test]
fn files_are_taken_in_order_of_preference() {
    let found = |s: &Stick| s.search().map(|f| f.first_cluster);
    let mut s = Stick::new();
    s.link(2, 0x0fff_ffff);
    s.link(10, 0x0fff_ffff);
    s.entry(2, 0, b"BIG     BIN", 0x20, 4, 0x4000_0001);
    s.entry(2, 1, b"BIGGER  BIN", 0x20, 5, 0x4000_0002);
    s.entry(2, 2, b"BIGGER2 BIN", 0x20, 6, 0x4000_0002);
    assert_eq!(found(&s), Some(5));
    s.cluster(7)[..4].copy_from_slice(b"GGUF");
    s.entry(2, 3, b"STARTS  BIN", 0x20, 7, 1);
    s.entry(2, 4, b"NAMED   GGU", 0x20, 8, 1);
    assert_eq!(found(&s), Some(7));
    s.entry(2, 5, b"BELOW      ", 0x10, 10, 0);
    assert_eq!(found(&s), Some(7));
    s.entry(10, 0, b"DEEP    GGU", 0x20, 9, 1);
    assert_eq!(found(&s), Some(9));
    s.entry(2, 6, b"GGML    GGU", 0x20, 11, 1);
    assert_eq!(found(&s), Some(11));
}

#[test]
fn a_directory_that_cannot_be_read_gives_nothing() {
    let mut s = Stick::new();
    for i in 0..16 {
        s.entry(2, i, b"NAMED   GGU", 0x20, 8, 1);
    }
    let mut search = FatSearch::find_gguf_file_in_fat32(s.volume());
    let mut reads = 0;
    while let Some(r) = search.next_request() {
        reads += 1;
        let data = s.read(r.lba, r.len);
        search.feed(if reads == 18 { None } else { Some(&data) });
    }
    assert_eq!(reads, 18);
    assert!(search.outcome() == Some(None));
}

#[test]
fn an_empty_root_has_no_model() {
    assert!(Stick::new().search().is_none());
}

#[test]
fn a_file_is_followed_through_its_chain() {
    let s = with_model();
    let mut c = ChainIngest::new(s.volume(), Fat32File { first_cluster: 5, size: 1300 });
    let mut buf: Vec<u8> = Vec::new();
    loop {
        match c.next_request() {
            Some(r) => {
                let data = s.read(r.lba, r.len);
                if c.phase == ChainPhase::Data {
                    assert_eq!(buf.len() as u64, c.copied);
                    buf.extend_from_slice(&data);
                }
                c.feed(Some(&data));
            }
            None if c.phase == ChainPhase::Progress => c.feed(None),
            None => break,
        }
    }
    assert!(c.phase == ChainPhase::Done);
    assert_eq!(buf.len(), 1536);
    assert_eq!(buf[..4], *b"GGUF");
    assert_eq!(buf[511..513], [1, 2]);
    assert_eq!(buf[1024..], vec![3; 512]);
}

#[test]
fn broken_chains_fail() {
    let mut s = with_model();
    let mut c = ChainIngest::new(s.volume(), Fat32File { first_cluster: 5, size: 1300 });
    c.feed(None);
    let r = c.next_request().unwrap();
    c.feed(Some(&s.read(r.lba, r.len)));
    assert!(c.phase == ChainPhase::ChainError);
    s.link(6, 0);
    let mut c = ChainIngest::new(s.volume(), Fat32File { first_cluster: 5, size: 1300 });
    while let Some(r) = c.next_request() {
        c.feed(Some(&s.read(r.lba, r.len)));
    }
    assert!(c.phase == ChainPhase::Truncated);
    s.link(6, 0x0fff_ffff);
    let mut c = ChainIngest::new(s.volume(), Fat32File { first_cluster: 5, size: 1300 });
    while let Some(r) = c.next_request() {
        c.feed(Some(&s.read(r.lba, r.len)));
    }
    assert!(c.phase == ChainPhase::Truncated);
    let mut c = ChainIngest::new(s.volume(), Fat32File { first_cluster: 5, size: 1300 });
    c.feed(None);
    c.feed(None);
    assert!(c.phase == ChainPhase::ReadError);
}

#[test]
fn progress_is_announced_ahead() {
    assert_eq!(advance_progress(0x2000_0000, 0x1fff_ffff), 0x2000_0000);
    assert_eq!(advance_progress(0x2000_0000, 0x2000_0000), 0x4000_0000);
    assert_eq!(advance_progress(0x2000_0000, 0x5000_0000), 0x6000_0000);
}

#[test]
fn failing_reads_are_split() {
    let mut r = SplitRead::read_device_sectors(100, 4, 2048);
    let mut done = Vec::new();
    loop {
        match r.next_request() {
            SplitRequest::Read(p) => {
                let ok = p.blocks <= 2;
                if ok {
                    done.push((p.lba, p.blocks, p.offset, p.len));
                }
                r.feed(ok);
            }
            SplitRequest::Done(ok) => {
                assert!(ok);
                break;
            }
        }
    }
    assert_eq!(done, vec![(100, 2, 0, 1024), (102, 2, 1024, 1024)]);
    let mut r = SplitRead::read_device_sectors(100, 4, 2048);
    let mut tries = 0;
    while let SplitRequest::Read(_) = r.next_request() {
        tries += 1;
        r.feed(false);
    }
    assert!(matches!(r.next_request(), SplitRequest::Done(false)));
    assert_eq!(tries, 9);
}

#[test]
fn raw_images_are_read_whole() {
    let mut r = RawIngest::new(2048, 512, 0x40_0000 + 600);
    let mut reads = Vec::new();
    while r.phase != RawPhase::Done {
        if let Some(b) = r.next_request() {
            reads.push((b.lba, b.blocks, b.len));
        }
        r.feed(true);
    }
    assert_eq!(reads, vec![(2048, 8192, 0x40_0000), (2048 + 8192, 2, 1024)]);
    let mut r = RawIngest::new(2048, 512, 512);
    r.feed(false);
    assert!(r.phase == RawPhase::Failed);
}

#[test]
fn rounds_and_partitions() {
    assert!(matches!(scan_round(true, None), ScanRound::Idle));
    assert!(matches!(scan_round(false, Some(1_187_801_280)), ScanRound::ModelPresent));
    assert!(matches!(scan_round(false, None), ScanRound::LookAtPorts));
    assert_eq!(partition_candidates(None), vec![2048]);
    let mut mbr = [0u8; 512];
    mbr[450] = 0x0c;
    mbr[454] = 63;
    assert_eq!(partition_candidates(Some(&mbr)), vec![63, 2048]);
    mbr[450] = 0x83;
    assert_eq!(partition_candidates(Some(&mbr)), vec![2048]);
    let mut raw = [0u8; 512];
    raw[..4].copy_from_slice(b"GGUF");
    assert!(matches!(probe_partition(63, 512, Some(&raw)), Probe::Raw));
    assert!(matches!(probe_partition(63, 512, None), Probe::Nothing));
    let stick = Stick::new();
    assert!(matches!(probe_partition(63, 512, Some(&stick.sectors[0])), Probe::Volume(_)));
    assert_eq!(model_size(&ModelSource::Raw(63)), 1_187_801_280);
    assert_eq!(source_name(&ModelSource::Raw(63)), "usb-msc-raw");
    let file = ModelSource::File(stick.volume(), Fat32File { first_cluster: 5, size: 7 });
    assert_eq!(model_size(&file), 7);
    assert_eq!(source_name(&file), "usb-msc-fat32");
}

#[test]
fn a_stick_is_taken_in() {
    let s = with_model();
    let mut t = IngestTask::new(512);
    let mut model = Vec::new();
    let mut progress = Vec::new();
    loop {
        match t.next_request() {
            TaskRequest::Read(r) | TaskRequest::ReadSector(r) => {
                t.feed(Some(&s.read(r.lba, r.len)));
            }
            TaskRequest::ReadModel { read, offset } => {
                assert_eq!(offset, model.len() as u64);
                let data = s.read(read.lba, read.len);
                model.extend_from_slice(&data);
                t.feed(Some(&data));
            }
            TaskRequest::Allocate { size, align } => {
                assert_eq!((size, align), (0x40_0000, 4096));
                t.feed(Some(&[]));
            }
            TaskRequest::Progress { done, total } => {
                progress.push((done, total));
                t.feed(Some(&[]));
            }
            TaskRequest::Done => break,
        }
    }
    assert_eq!(t.outcome(), Some(true));
    assert_eq!(model.len(), 1536);
    assert_eq!(model[..4], *b"GGUF");
    assert_eq!(progress, vec![(1300, 1300)]);
}

#[test]
fn a_stick_without_a_model_fails() {
    let mut t = IngestTask::new(512);
    t.feed(None);
    t.feed(None);
    assert!(matches!(t.next_request(), TaskRequest::Allocate { .. }));
    t.feed(Some(&[]));
    assert_eq!(t.outcome(), Some(false));
}

#[test]
fn small_blocks_are_searched_for_a_raw_model() {
    let mut t = IngestTask::new(256);
    assert!(t.can_ask());
    match t.next_request() {
        TaskRequest::ReadSector(r) => assert_eq!((r.lba, r.len), (0, 256)),
        _ => panic!("the boot record is read"),
    }
    t.feed(Some(&[0xff; 256]));
    match t.next_request() {
        TaskRequest::ReadSector(r) => assert_eq!((r.lba, r.len), (2048, 256)),
        _ => panic!("the partition is read"),
    }
    let mut block = [0u8; 256];
    block[..4].copy_from_slice(b"GGUF");
    t.feed(Some(&block));
    assert!(matches!(t.next_request(), TaskRequest::Allocate { .. }));
    t.feed(Some(&[]));
    assert!(matches!(t.next_request(), TaskRequest::ReadModel { offset: 0, .. }));

    let mut record = vec![0u8; 458];
    record[450] = 0x0c;
    record[454] = 63;
    assert_eq!(partition_candidates(Some(&record)), vec![63, 2048]);
    assert_eq!(partition_candidates(Some(&record[..457])), vec![2048]);
}

#[test]
fn large_sectors_are_searched_until_one_is_read_alone() {
    let mut boot = vec![0u8; 4096];
    let stick = Stick::new();
    boot[..512].copy_from_slice(&stick.sectors[0][..512]);
    boot[11..13].copy_from_slice(&8192u16.to_le_bytes());
    let mut t = IngestTask::new(4096);
    t.feed(None);
    t.feed(Some(&boot));
    assert!(t.can_ask());
    let len = match t.next_request() {
        TaskRequest::Read(r) => r.len as usize,
        _ => panic!("the root is read"),
    };
    let mut empty = t;
    empty.feed(Some(&vec![0u8; len]));
    assert!(empty.can_ask());
    assert!(matches!(empty.next_request(), TaskRequest::Allocate { .. }));

    let mut full = IngestTask::new(4096);
    full.feed(None);
    full.feed(Some(&boot));
    full.feed(Some(&vec![0xe5u8; len]));
    assert!(!full.can_ask());
}

#[test]
fn entries_may_stand_in_longer_slices() {
    let mut entry = vec![0u8; 40];
    entry[..11].copy_from_slice(b"GGMLMOD GGU");
    entry[26] = 5;
    entry[28] = 7;
    assert!(fat32_entry_is_gguf(&entry));
    assert!(fat32_entry_is_gguf(&entry[..12]));
    assert!(fat32_entry_is_preferred_bitnet_gguf(&entry));
    assert!(fat32_file_from_entry(&entry).is_some());
    assert!(fat32_directory_from_entry(&entry).is_none());
    assert!(!fat32_lfn_entry_has_gguf_suffix(&entry));
}

fn ports_asked(ports: u8, connected: &[u8], devices: &[u8], storage: &[u8]) -> (bool, Vec<ScanRequest>) {
    let mut scan = PortScan::new(ports);
    let mut asked = Vec::new();
    loop {
        let request = scan.next_request();
        let ok = match request {
            ScanRequest::IsConnected(p) => connected.contains(&p),
            ScanRequest::MakeDevice(p) => devices.contains(&p),
            ScanRequest::MakeStorage(p) => storage.contains(&p),
            ScanRequest::TakeIn(_) | ScanRequest::GiveUp(_) => false,
            ScanRequest::Done => break,
        };
        assert_eq!(scan.outcome(), None);
        if !matches!(request, ScanRequest::IsConnected(_)) {
            asked.push(request);
        }
        scan.feed(ok);
    }
    (scan.outcome().unwrap(), asked)
}

#[test]
fn the_first_storage_is_taken() {
    let (found, asked) = ports_asked(6, &[1, 2, 4, 5], &[2, 4, 5], &[4, 5]);
    assert!(found);
    assert_eq!(
        asked,
        vec![
            ScanRequest::MakeDevice(1),
            ScanRequest::MakeDevice(2),
            ScanRequest::MakeStorage(2),
            ScanRequest::GiveUp(2),
            ScanRequest::MakeDevice(4),
            ScanRequest::MakeStorage(4),
            ScanRequest::TakeIn(4),
            ScanRequest::GiveUp(4),
        ]
    );
    assert_eq!(ports_asked(0, &[0], &[0], &[0]), (false, vec![]));
    assert!(!ports_asked(3, &[0, 1, 2], &[0, 2], &[1]).0);
    assert!(ports_asked(255, &[254], &[254], &[254]).0);
}

#[test]
fn a_table_entry_may_go_beyond_its_sector() {
    let vol = Fat32Volume {
        base_lba: 0,
        device_block_size: 514,
        bytes_per_sector: 514,
        device_blocks_per_fs_sector: 1,
        sectors_per_cluster: 1,
        reserved_sectors: 1,
        num_fats: 1,
        fat_size_sectors: 2,
        root_cluster: 2,
        data_start_lba: 3,
    };
    assert!(vol.can_read_entry(128));
    let mut c = ChainIngest::new(vol, Fat32File { first_cluster: 128, size: 1000 });
    let read = c.next_request().unwrap();
    assert_eq!((read.lba, read.len), (1, 514));
    let mut buffer = vec![0u8; 4096];
    buffer[512..516].copy_from_slice(&129u32.to_le_bytes());
    c.feed(Some(&buffer));
    assert_eq!((c.cluster, c.run), (129, 2));
    let large = Fat32Volume { bytes_per_sector: 4095, device_block_size: 4095, ..vol };
    assert!(large.can_read_entry(1023));
    assert!(!large.can_read_entry(2047));
}
