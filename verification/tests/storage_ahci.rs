use hermit_llm::storage::ahci::{
    describe_disk, identify_command, poll, read_identify_capacity, read_sectors, transfer_command,
    write_sectors, IdentifyDevice, IdentifyPhase, PollStep, RegRequest, StartPort, StopPort,
};
use hermit_llm::storage::enumerate::{ahci_device_type, enumerate_controller, AhciDevice};

#[test]
fn a_transfer_names_its_sectors() {
    let c = transfer_command(0x0605_0403_0201, 0x0102, true, 0x1_2000_0000, 0x2_3000_0000);
    assert_eq!(c.header.cfl_flags, 0x45);
    assert_eq!((c.header.ctba, c.header.ctbau), (0x2000_0000, 1));
    assert_eq!((c.prdt.dba, c.prdt.dbau), (0x3000_0000, 2));
    assert_eq!(c.prdt.dbc_flags, 0x102 * 512 - 1);
    assert_eq!(
        c.cfis[..14],
        [0x27, 0x80, 0x35, 0, 1, 2, 3, 0x40, 4, 5, 6, 0, 2, 1]
    );
    let r = transfer_command(7, 1, false, 0, 0);
    assert_eq!(r.cfis[2], 0x25);
    assert_eq!(r.header.cfl_flags, 5);
    let i = identify_command(0x1000, 0x2000);
    assert_eq!(i.cfis[2], 0xec);
    assert_eq!(i.prdt.dbc_flags, 511);
}

fn obey(fis: &[u8], disk: &mut Vec<u8>, memory: &mut Vec<u8>) {
    let first = usize::from(fis[4]) + 256 * usize::from(fis[5]);
    let count = usize::from(fis[12]) + 256 * usize::from(fis[13]);
    let range = first * 512..(first + count) * 512;
    match fis[2] {
        0x35 => disk[range].copy_from_slice(&memory[..count * 512]),
        0x25 => *memory = disk[range].to_vec(),
        _ => panic!("no transfer"),
    }
}

#[test]
fn what_a_transfer_wrote_is_read_back() {
    let mut disk = vec![0xee; 512 * 512];
    let mut source: Vec<u8> = (0..1024).map(|i: u32| (i % 251) as u8).collect();
    let written = source.clone();
    obey(&transfer_command(300, 2, true, 0, 0).cfis, &mut disk, &mut source);
    assert_eq!(source, written);
    let mut target = Vec::new();
    obey(&transfer_command(300, 2, false, 0, 0).cfis, &mut disk, &mut target);
    assert_eq!(target, written);
    obey(&transfer_command(299, 1, false, 0, 0).cfis, &mut disk, &mut target);
    assert_eq!(target, vec![0xee; 512]);
    obey(&transfer_command(302, 1, false, 0, 0).cfis, &mut disk, &mut target);
    assert_eq!(target, vec![0xee; 512]);
}

#[test]
fn a_register_is_polled_until_clear() {
    assert!(matches!(poll(0, 0x88, 3), PollStep::Ready));
    assert!(matches!(poll(0x80, 0x88, 3), PollStep::Again(2)));
    assert!(matches!(poll(0x80, 0x88, 0), PollStep::TimedOut));
}

#[test]
fn a_read_runs_to_its_end() {
    assert!(read_sectors(None, 0, 1).is_err());
    assert!(write_sectors(None, 0, 1).is_err());
    let mut t = match read_sectors(Some(2), 100, 4) {
        Ok(t) => t,
        Err(()) => panic!("a port is there"),
    };
    assert_eq!(t.outcome(), None);
    let mut issued = false;
    let mut polls = 0;
    loop {
        match t.next_request() {
            RegRequest::Read { reg: 14 } => {
                polls += 1;
                t.feed(if polls < 3 { 1 } else { 0 });
            }
            RegRequest::Issue => {
                issued = true;
                t.feed(0);
            }
            RegRequest::Done => break,
            _ => t.feed(0),
        }
    }
    assert!(issued);
    assert_eq!(polls, 3);
    assert_eq!(t.outcome(), Some(Ok(())));
}

#[test]
fn a_task_file_error_fails_a_write() {
    let mut t = match write_sectors(Some(0), 100, 4) {
        Ok(t) => t,
        Err(()) => panic!("a port is there"),
    };
    loop {
        match t.next_request() {
            RegRequest::Read { reg: 14 } => t.feed(1),
            RegRequest::Read { reg: 4 } => t.feed(0x4000_0000),
            RegRequest::Done => break,
            _ => t.feed(0),
        }
    }
    assert_eq!(t.outcome(), Some(Err(())));
}

#[test]
fn a_busy_port_times_out() {
    let mut t = match read_sectors(Some(0), 0, 1) {
        Ok(t) => t,
        Err(()) => panic!("a port is there"),
    };
    while !matches!(t.next_request(), RegRequest::Done) {
        t.feed(0xffff_ffff);
    }
    assert_eq!(t.outcome(), Some(Err(())));
}

#[test]
fn ports_are_stopped_and_started() {
    let mut stop = StopPort::stop_port();
    stop.feed(0xc011);
    assert!(matches!(stop.next_request(), RegRequest::Write { reg: 6, value: 0xc000 }));
    stop.feed(0);
    stop.feed(0);
    assert!(matches!(stop.next_request(), RegRequest::Done));
    assert!(!stop.timed_out);

    let mut start = StartPort::start_port();
    start.feed(0);
    start.feed(6);
    assert!(matches!(start.next_request(), RegRequest::Write { reg: 6, value: 0x16 }));
    start.feed(0);
    assert!(matches!(start.next_request(), RegRequest::Write { reg: 6, value: 0x17 }));
    start.feed(0);
    assert!(matches!(start.next_request(), RegRequest::Done));

    let mut stuck = StopPort::stop_port();
    while !matches!(stuck.next_request(), RegRequest::Done) {
        stuck.feed(0xc000);
    }
    assert!(stuck.timed_out);
}

#[test]
fn a_disk_describes_itself() {
    let mut id = IdentifyDevice::identify_device();
    while !matches!(id.next_request(), RegRequest::Done) {
        id.feed(0);
    }
    assert!(id.phase == IdentifyPhase::Answered);
    let mut words = [0u16; 256];
    words[10] = 0x5331;
    words[27] = 0x5353;
    words[28] = 0x4420;
    words[60] = 0x1234;
    words[61] = 1;
    let d = describe_disk(&words);
    assert_eq!(d.serial[..3], *b"S1.");
    assert_eq!(d.model[..4], *b"SSD ");
    assert_eq!(d.model.len(), 40);
    assert_eq!(d.capacity_sectors, 0x1_1234);
    words[83] = 0x400;
    words[100] = 5;
    words[102] = 1;
    assert_eq!(read_identify_capacity(&words), 0x1_0000_0005);
}

#[test]
fn signatures_name_devices() {
    assert!(matches!(ahci_device_type(0x101), AhciDevice::Sata));
    assert!(matches!(ahci_device_type(0xeb14_0101), AhciDevice::Satapi));
    assert!(matches!(ahci_device_type(0xc33c_0101), AhciDevice::EnclosureBridge));
    assert!(matches!(ahci_device_type(0x9669_0101), AhciDevice::PortMultiplier));
    assert!(matches!(ahci_device_type(0), AhciDevice::Unknown));
}

#[test]
fn every_port_is_looked_at() {
    let mut op = enumerate_controller();
    let mut found = Vec::new();
    loop {
        if let Some((port, kind)) = op.found() {
            found.push((port, matches!(kind, AhciDevice::Sata), op.is_model_disk()));
            op.feed(0);
            continue;
        }
        match op.next_request() {
            RegRequest::Read { reg: 3 } => op.feed(0b1_0110),
            RegRequest::Read { reg } if reg >= 64 => {
                let port = (reg - 64) / 32;
                match reg % 32 {
                    10 => op.feed(if port == 1 { 0 } else { 3 }),
                    9 => op.feed(0x101),
                    _ => op.feed(0),
                }
            }
            RegRequest::Done => break,
            _ => op.feed(0),
        }
    }
    assert_eq!(found, vec![(2, true, true), (4, true, false)]);
}
