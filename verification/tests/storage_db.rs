use std::collections::HashMap;

use hermit_llm::storage::append::append_memory_db;
use hermit_llm::storage::disk::{sectors_for_bytes, sectors_for_u64, DiskRequest};
use hermit_llm::storage::ensure::ensure_memory_db;
use hermit_llm::storage::erase::erase_memory_db;
use hermit_llm::storage::layout::{
    memory_db_map_entry_location, memory_db_read_header, memory_db_read_map_entry,
    memory_db_read_map_header, memory_db_write_header, memory_db_write_map_entry,
    memory_db_write_map_header, MemoryDbHeader, MemoryDbMapEntry,
};
use hermit_llm::storage::opening::{memory_db_data_end, recover_entry, Recovery, RecoveryStep};
use hermit_llm::storage::read::read_memory_db;

struct Disk {
    sectors: HashMap<u64, Vec<u8>>,
    fail_at: Option<u64>,
}

impl Disk {
    fn new() -> Disk {
        Disk { sectors: HashMap::new(), fail_at: None }
    }

    fn sector(&self, lba: u64) -> Vec<u8> {
        self.sectors.get(&lba).cloned().unwrap_or(vec![0; 512])
    }

    fn perform(&mut self, request: DiskRequest) -> Option<Option<Vec<u8>>> {
        match request {
            DiskRequest::Read { lba } => {
                if self.fail_at == Some(lba) {
                    return Some(None);
                }
                Some(Some(self.sector(lba)))
            }
            DiskRequest::ReadMany { lba, count } => {
                let mut out = Vec::new();
                for i in 0..count as u64 {
                    out.extend_from_slice(&self.sector(lba + i));
                }
                Some(Some(out))
            }
            DiskRequest::Write { lba, data } => {
                if self.fail_at == Some(lba) {
                    return Some(None);
                }
                for (i, chunk) in data.chunks(512).enumerate() {
                    self.sectors.insert(lba + i as u64, chunk.to_vec());
                }
                Some(Some(Vec::new()))
            }
            DiskRequest::Done => None,
        }
    }
}

const DB: u64 = 4096;
const CAPACITY: Option<u64> = Some(1_000_000);

fn ensure(disk: &mut Disk) -> Result<(), ()> {
    let mut op = ensure_memory_db(DB, 2056, 4095, CAPACITY, None);
    while let Some(reply) = disk.perform(op.next_request()) {
        op.feed(reply.as_deref());
    }
    op.outcome().unwrap()
}

fn append(disk: &mut Disk, data: &[u8]) -> Result<usize, ()> {
    let mut op = append_memory_db(Some(DB), CAPACITY, data);
    while let Some(reply) = disk.perform(op.next_request()) {
        op.feed(reply.as_deref());
    }
    op.outcome().unwrap()
}

fn read(disk: &mut Disk, room: usize) -> Result<Vec<u8>, ()> {
    let mut op = read_memory_db(Some(DB), CAPACITY, room);
    while let Some(reply) = disk.perform(op.next_request()) {
        op.feed(reply.as_deref());
    }
    op.outcome().unwrap()
}

fn erase(disk: &mut Disk) -> Result<(), ()> {
    let mut op = erase_memory_db(Some(DB), CAPACITY);
    while let Some(reply) = disk.perform(op.next_request()) {
        op.feed(reply.as_deref());
    }
    op.outcome().unwrap()
}

#[test]
fn sectors_are_counted() {
    assert_eq!(sectors_for_bytes(0), 0);
    assert_eq!(sectors_for_bytes(1), 1);
    assert_eq!(sectors_for_bytes(512), 1);
    assert_eq!(sectors_for_u64(513), 2);
}

#[test]
fn what_is_appended_is_read() {
    let mut disk = Disk::new();
    assert_eq!(ensure(&mut disk), Ok(()));
    assert_eq!(append(&mut disk, b"first"), Ok(5));
    assert_eq!(append(&mut disk, &vec![b'x'; 700]), Ok(700));
    let mut expected = b"first".to_vec();
    expected.extend_from_slice(&vec![b'x'; 700]);
    assert_eq!(read(&mut disk, 65536), Ok(expected));
    assert_eq!(disk.sector(DB + 33)[..5], *b"first");
    assert_eq!(disk.sector(DB)[..8], *b"MEMDB002");
}

#[test]
fn reading_stops_where_the_room_ends() {
    let mut disk = Disk::new();
    ensure(&mut disk).unwrap();
    append(&mut disk, b"abcdef").unwrap();
    append(&mut disk, b"ghi").unwrap();
    assert_eq!(read(&mut disk, 4), Ok(b"abcd".to_vec()));
    assert_eq!(read(&mut disk, 0), Ok(Vec::new()));
}

#[test]
fn erasing_empties_the_database() {
    let mut disk = Disk::new();
    ensure(&mut disk).unwrap();
    append(&mut disk, b"secret words").unwrap();
    assert_eq!(erase(&mut disk), Ok(()));
    assert_eq!(read(&mut disk, 100), Ok(Vec::new()));
    assert_eq!(disk.sector(DB + 33), vec![0; 512]);
    assert_eq!(append(&mut disk, b"new"), Ok(3));
    assert_eq!(read(&mut disk, 100), Ok(b"new".to_vec()));
}

#[test]
fn setting_up_again_keeps_what_is_there() {
    let mut disk = Disk::new();
    ensure(&mut disk).unwrap();
    append(&mut disk, b"kept").unwrap();
    assert_eq!(ensure(&mut disk), Ok(()));
    assert_eq!(read(&mut disk, 100), Ok(b"kept".to_vec()));
}

#[test]
fn many_payloads_are_read_in_order() {
    let mut disk = Disk::new();
    ensure(&mut disk).unwrap();
    let mut all = Vec::new();
    for i in 0..40u8 {
        let payload = vec![i; usize::from(i) * 37];
        assert_eq!(append(&mut disk, &payload), Ok(payload.len()));
        all.extend_from_slice(&payload);
    }
    assert_eq!(read(&mut disk, 100_000), Ok(all.clone()));
    assert_eq!(read(&mut disk, 777), Ok(all[..777].to_vec()));
    assert_eq!(ensure(&mut disk), Ok(()));
    assert_eq!(read(&mut disk, 100_000), Ok(all));
}

#[test]
fn erasing_keeps_the_places() {
    let mut disk = Disk::new();
    ensure(&mut disk).unwrap();
    append(&mut disk, b"words").unwrap();
    // The map is damaged: it lists more than there is.
    disk.sectors.insert(DB + 2, vec![0xff; 512]);
    let before = memory_db_read_header(&disk.sector(DB)).unwrap();
    assert_eq!(erase(&mut disk), Ok(()));
    let after = memory_db_read_header(&disk.sector(DB)).unwrap();
    assert_eq!(after.data_lba, before.data_lba);
    assert_eq!(after.model_start_lba, before.model_start_lba);
    assert_eq!(after.model_last_lba, before.model_last_lba);
    assert_eq!((after.next_append_lba, after.map_entries_used), (before.data_lba, 0));
    assert_eq!(memory_db_read_map_header(&disk.sector(DB + 1)), Ok((16, 0)));
    assert_eq!(disk.sector(DB + 2), vec![0; 512]);
    assert_eq!(read(&mut disk, 100), Ok(Vec::new()));
}

#[test]
fn setting_up_writes_only_header_and_map() {
    for seed in [0u8, 0x5a, 0xff] {
        let mut op = ensure_memory_db(DB, 2056, 4095, CAPACITY, None);
        loop {
            match op.next_request() {
                DiskRequest::Read { .. } => op.feed(Some(&[seed; 512])),
                DiskRequest::Write { lba, data } => {
                    assert!((DB..DB + 33).contains(&lba));
                    assert_eq!(data.len(), 512);
                    op.feed(Some(&[]));
                }
                _ => break,
            }
        }
    }
}

#[test]
fn a_payload_without_room_is_refused() {
    let mut disk = Disk::new();
    ensure(&mut disk).unwrap();
    append(&mut disk, b"kept").unwrap();
    let mut op = append_memory_db(Some(DB), Some(DB + 34), &vec![b'x'; 1500]);
    while let Some(reply) = disk.perform(op.next_request()) {
        op.feed(reply.as_deref());
    }
    assert_eq!(op.outcome(), Some(Err(())));
    assert_eq!(read(&mut disk, 64), Ok(b"kept".to_vec()));
}

#[test]
fn errors_of_the_disk_are_reported() {
    let mut disk = Disk::new();
    ensure(&mut disk).unwrap();
    disk.fail_at = Some(DB);
    assert_eq!(append(&mut disk, b"x"), Err(()));
    assert_eq!(read(&mut disk, 10), Err(()));
    assert_eq!(erase(&mut disk), Err(()));
    disk.fail_at = Some(DB + 33);
    assert_eq!(append(&mut disk, b"x"), Err(()));
}

#[test]
fn nothing_is_appended_to_a_disk_without_a_database() {
    let op = append_memory_db(None, CAPACITY, b"x");
    assert!(matches!(op.next_request(), DiskRequest::Done));
    assert_eq!(op.outcome(), Some(Err(())));
    let op = read_memory_db(None, CAPACITY, 10);
    assert_eq!(op.outcome().map(|r| r.is_err()), Some(true));
    let op = erase_memory_db(None, CAPACITY);
    assert_eq!(op.outcome(), Some(Err(())));
}

fn header() -> MemoryDbHeader {
    MemoryDbHeader {
        version: 2,
        sector_size: 512,
        header_lba: DB,
        data_lba: DB + 33,
        total_sectors: 131_072,
        next_append_lba: DB + 40,
        last_ssd_lba: 999_999,
        model_start_lba: 2056,
        model_last_lba: 4095,
        map_lba: DB + 1,
        map_entries_used: 3,
        map_sectors: 32,
    }
}

#[test]
fn headers_and_entries_round_trip() {
    let s = memory_db_write_header(&header());
    assert_eq!(s.len(), 512);
    let h = memory_db_read_header(&s).unwrap();
    assert_eq!(h.next_append_lba, DB + 40);
    assert_eq!(h.map_entries_used, 3);
    let mut bad = s.clone();
    bad[0] = b'X';
    assert!(memory_db_read_header(&bad).is_none());

    let m = memory_db_write_map_header(7);
    assert_eq!(memory_db_read_map_header(&m), Ok((16, 7)));
    assert_eq!(&m[..4], b"DMAP");
    assert_eq!(memory_db_read_map_header(&vec![0; 512]), Err(()));

    let mut sector = vec![0u8; 512];
    let e = MemoryDbMapEntry { start_lba: 5000, payload_bytes: 77, flags: 1 };
    memory_db_write_map_entry(&mut sector, 32, e);
    let back = memory_db_read_map_entry(&sector, 32);
    assert_eq!((back.start_lba, back.payload_bytes, back.flags), (5000, 77, 1));
    assert_eq!(memory_db_map_entry_location(0), Ok((0, 0)));
    assert_eq!(memory_db_map_entry_location(32), Ok((1, 0)));
    assert_eq!(memory_db_map_entry_location(33), Ok((1, 16)));
    assert_eq!(memory_db_map_entry_location(991), Ok((30, 496)));
    assert_eq!(memory_db_map_entry_location(992), Err(()));
}

#[test]
fn the_map_tells_how_far_was_written() {
    let h = header();
    assert_eq!(memory_db_data_end(&h), DB + 33 + 131_072);
    let r = Recovery { mapped: 2, cursor: h.data_lba, recovered: 0 };
    let e = MemoryDbMapEntry { start_lba: h.data_lba, payload_bytes: 1000, flags: 1 };
    match recover_entry(&h, r, &e) {
        RecoveryStep::More(next) => {
            assert_eq!(next.recovered, 1);
            assert_eq!(next.cursor, h.data_lba + 2);
        }
        _ => panic!("the entry counts"),
    }
    let gap = MemoryDbMapEntry { start_lba: h.data_lba + 1, payload_bytes: 1000, flags: 1 };
    assert!(matches!(recover_entry(&h, r, &gap), RecoveryStep::Over(_)));
}
