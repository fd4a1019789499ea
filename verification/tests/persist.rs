use std::collections::HashMap;

use hermit_llm::shell::session::{load_memory_db_history, RamShell, ShellRequest, ShellTurn};
use hermit_llm::storage::append::append_memory_db;
use hermit_llm::storage::disk::DiskRequest;
use hermit_llm::storage::ensure::ensure_memory_db;
use hermit_llm::storage::erase::erase_memory_db;
use hermit_llm::storage::read::read_memory_db;

const DB: u64 = 10_000;
const CAPACITY: Option<u64> = Some(2_000_000);

fn perform(disk: &mut HashMap<u64, Vec<u8>>, request: DiskRequest) -> Option<Vec<u8>> {
    match request {
        DiskRequest::Read { lba } => Some(disk.get(&lba).cloned().unwrap_or(vec![0; 512])),
        DiskRequest::ReadMany { lba, count } => {
            let mut out = Vec::new();
            for i in 0..count as u64 {
                out.extend_from_slice(&disk.get(&(lba + i)).cloned().unwrap_or(vec![0; 512]));
            }
            Some(out)
        }
        DiskRequest::Write { lba, data } => {
            for (i, chunk) in data.chunks(512).enumerate() {
                disk.insert(lba + i as u64, chunk.to_vec());
            }
            Some(Vec::new())
        }
        DiskRequest::Done => None,
    }
}

fn set_up(disk: &mut HashMap<u64, Vec<u8>>) {
    let mut op = ensure_memory_db(DB, 2056, 9_999, CAPACITY, None);
    while let Some(reply) = perform(disk, op.next_request()) {
        op.feed(Some(&reply));
    }
    assert!(op.outcome() == Some(Ok(())));
}

fn store(disk: &mut HashMap<u64, Vec<u8>>, data: &[u8]) {
    let mut op = append_memory_db(Some(DB), CAPACITY, data);
    while let Some(reply) = perform(disk, op.next_request()) {
        op.feed(Some(&reply));
    }
    assert!(op.outcome() == Some(Ok(data.len())));
}

fn start(disk: &mut HashMap<u64, Vec<u8>>) -> RamShell {
    let mut op = read_memory_db(Some(DB), CAPACITY, 4096);
    while let Some(reply) = perform(disk, op.next_request()) {
        op.feed(Some(&reply));
    }
    let log = op.outcome().unwrap().unwrap();
    let history = load_memory_db_history(log.len() as i32, &log);
    RamShell::new(history).0
}

fn enter(shell: &mut RamShell, text: &str) -> ShellTurn {
    for b in text.bytes() {
        shell.on_byte(b);
    }
    shell.on_byte(b'\n')
}

fn tell(shell: &mut RamShell, question: &str, answer: &str) {
    let turn = enter(shell, question);
    assert!(matches!(turn.request, ShellRequest::RunModel { .. }));
    let mut generated = answer.as_bytes().to_vec();
    generated.push(0);
    shell.on_generated(false, 0, &generated);
}

fn leave(disk: &mut HashMap<u64, Vec<u8>>, shell: &mut RamShell) {
    match enter(shell, "exit").request {
        ShellRequest::Store { data } => store(disk, &data),
        _ => panic!("the session is stored"),
    }
    shell.on_stored(0);
}

#[test]
fn memory_survives_restarts() {
    let mut disk = HashMap::new();
    set_up(&mut disk);

    let mut shell = start(&mut disk);
    assert!(shell.history.is_empty());
    tell(&mut shell, "prompt my codename is fox", "noted");
    tell(&mut shell, "I like green tea", "good");
    leave(&mut disk, &mut shell);

    let mut shell = start(&mut disk);
    assert_eq!(shell.history.len(), 2);
    assert_eq!(shell.history[0].question, b"my codename is fox".to_vec());
    assert_eq!(shell.history[1].answer, b"good".to_vec());
    enter(&mut shell, "forget tea");
    assert_eq!(shell.history.len(), 1);
    enter(&mut shell, "prompt");
    leave(&mut disk, &mut shell);

    let shell = start(&mut disk);
    assert_eq!(shell.history.len(), 1);
    assert_eq!(shell.history[0].answer, b"noted".to_vec());
}

#[test]
fn erased_memory_stays_away() {
    let mut disk = HashMap::new();
    set_up(&mut disk);
    let mut shell = start(&mut disk);
    tell(&mut shell, "prompt my codename is fox", "noted");
    leave(&mut disk, &mut shell);
    assert_eq!(start(&mut disk).history.len(), 1);

    let mut op = erase_memory_db(Some(DB), CAPACITY);
    while let Some(reply) = perform(&mut disk, op.next_request()) {
        op.feed(Some(&reply));
    }
    assert!(op.outcome() == Some(Ok(())));
    assert!(start(&mut disk).history.is_empty());
}

/// A reply of the right length whose contents are of no use.
fn noise(request: DiskRequest, seed: u8) -> Option<Vec<u8>> {
    match request {
        DiskRequest::Read { .. } => Some(vec![seed; 512]),
        DiskRequest::ReadMany { count, .. } => Some(vec![seed; count as usize * 512]),
        DiskRequest::Write { .. } => Some(Vec::new()),
        DiskRequest::Done => None,
    }
}

#[test]
fn a_disk_of_noise_holds_nothing_up() {
    for seed in [0u8, 0x41, 0xff] {
        let mut steps = 0;
        let mut op = ensure_memory_db(DB, 2056, 9_999, CAPACITY, None);
        while let Some(reply) = noise(op.next_request(), seed) {
            op.feed(Some(&reply));
            steps += 1;
        }
        assert!(op.outcome() == Some(Err(())));
        assert_eq!(steps, 2 + 32 + 3);

        let mut op = append_memory_db(Some(DB), CAPACITY, b"abc");
        let reply = noise(op.next_request(), seed).unwrap();
        op.feed(Some(&reply));
        assert!(op.outcome() == Some(Err(())));

        let mut op = read_memory_db(Some(DB), CAPACITY, 64);
        let reply = noise(op.next_request(), seed).unwrap();
        op.feed(Some(&reply));
        assert!(op.outcome() == Some(Err(())));

        let mut op = erase_memory_db(Some(DB), CAPACITY);
        let reply = noise(op.next_request(), seed).unwrap();
        op.feed(Some(&reply));
        assert!(op.outcome() == Some(Err(())));
    }
}

#[test]
fn appending_takes_as_many_steps_as_it_needs() {
    let mut disk = HashMap::new();
    set_up(&mut disk);
    store(&mut disk, b"first");
    let mut op = append_memory_db(Some(DB), CAPACITY, &vec![7u8; 1300]);
    let mut steps = 0;
    while let Some(reply) = perform(&mut disk, op.next_request()) {
        op.feed(Some(&reply));
        steps += 1;
    }
    // The header, the map's header and an entry; two whole sectors and the rest; the entry's
    // sector in and out; the two headers.
    assert_eq!(steps, 3 + 2 + 2 + 2);
    assert!(op.outcome() == Some(Ok(1300)));
}
