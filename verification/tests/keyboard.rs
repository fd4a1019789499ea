use hermit_llm::keyboard::keyboard::{Poll, PollRequest, Ps2Keyboard, BUFFER_LEN};
use hermit_llm::keyboard::keys::{decode_set1, decode_set2, KeyState};
use hermit_llm::keyboard::probe::{Probe, ProbeRequest};

#[test]
fn keys_have_meanings() {
    assert_eq!(decode_set1(0x1e, false, false, false), Some(b'a'));
    assert_eq!(decode_set1(0x1e, true, false, false), Some(b'A'));
    assert_eq!(decode_set1(0x1e, true, false, true), Some(b'a'));
    assert_eq!(decode_set1(0x02, true, false, false), Some(b'!'));
    assert_eq!(decode_set1(0x2e, false, true, false), Some(3));
    assert_eq!(decode_set1(0x7f, false, false, false), None);
    assert_eq!(decode_set2(0x1c, false, false, false), Some(b'a'));
}

#[test]
fn releases_type_nothing() {
    let mut k = KeyState::new();
    assert_eq!(k.decode(0x1e), Some(b'a'));
    assert_eq!(k.decode(0x9e), None);
    assert_eq!(k.decode(0x2a), None);
    assert_eq!(k.decode(0x1e), Some(b'A'));
    assert_eq!(k.decode(0xaa), None);
    assert_eq!(k.decode(0xe0), None);
    assert_eq!(k.decode(0x1c), Some(10));
    assert_eq!(k.decode(0xf0), None);
    assert!(k.scan_set2);
    assert_eq!(k.decode(0x1c), None);
    assert_eq!(k.decode(0x1c), Some(b'a'));
}

#[test]
fn typed_bytes_wait_in_order() {
    let mut k = Ps2Keyboard::new();
    assert!(!k.available() && !k.polling_enabled());
    for c in [0x23, 0x17, 0x9e, 0x39] {
        k.take_scancode(c);
    }
    assert!(k.available());
    assert_eq!(k.read(2), b"hi");
    assert_eq!(k.pop(), Some(b' '));
    assert_eq!(k.pop(), None);
    for i in 0..200 {
        k.push(i as u8);
    }
    let got = k.read(1000);
    assert_eq!(got.len(), BUFFER_LEN - 1);
    assert_eq!(got[0], 0);
    assert_eq!(got[BUFFER_LEN - 2], (BUFFER_LEN - 2) as u8);
    k.keys.left_shift = true;
    k.restart();
    assert!(!k.keys.left_shift);
}

fn probe(answer: u8) -> (bool, Vec<u8>) {
    let mut p = Probe::probe_and_enable();
    let mut sent = Vec::new();
    let mut full = false;
    loop {
        match p.next_request() {
            ProbeRequest::ReadStatus => p.feed(if full { 1 } else { 0 }),
            ProbeRequest::ReadData => {
                full = false;
                p.feed(answer);
            }
            ProbeRequest::WriteCommand(_) => p.feed(0),
            ProbeRequest::WriteData(b) => {
                sent.push(b);
                full = true;
                p.feed(0);
            }
            ProbeRequest::Restart => p.feed(0),
            ProbeRequest::Done => break,
        }
    }
    (p.outcome().unwrap(), sent)
}

#[test]
fn a_keyboard_is_there_when_it_acknowledges() {
    let (present, sent) = probe(0xfa);
    assert!(present);
    assert_eq!(sent[sent.len() - 1], 0xf4);
    assert!(!probe(0xfe).0);
}

#[test]
fn waiting_scan_codes_are_taken_in() {
    let mut k = Ps2Keyboard::new();
    assert_eq!(Poll::poll(&k).next_request(), PollRequest::Done);
    k.present = true;
    let mut p = Poll::poll(&k);
    assert_eq!(p.next_request(), PollRequest::ReadStatus);
    p.feed(&mut k, 0x1d);
    assert_eq!(p.next_request(), PollRequest::ReadData);
    p.feed(&mut k, 0x1e);
    assert_eq!(k.read(8), vec![b'a']);
    assert_eq!(p.next_request(), PollRequest::ReadStatus);
    p.feed(&mut k, 0x1c);
    assert_eq!(p.next_request(), PollRequest::Done);

    let mut p = Poll::poll(&k);
    let mut taken = 0;
    while p.next_request() != PollRequest::Done {
        if p.next_request() == PollRequest::ReadData {
            taken += 1;
        }
        p.feed(&mut k, 0x1f);
    }
    assert_eq!(taken, 32);
    assert_eq!(k.read(64), vec![b's'; 32]);
}

#[test]
fn both_sets_type_the_same_bytes_and_each_once() {
    for modifiers in 0..8u8 {
        let (shift, ctrl, caps) = (modifiers & 1 != 0, modifiers & 2 != 0, modifiers & 4 != 0);
        let mut first: Vec<u8> = (0..=255).filter_map(|c| decode_set1(c, shift, ctrl, caps)).collect();
        let mut second: Vec<u8> =
            (0..=255).filter_map(|c| decode_set2(c, shift, ctrl, caps)).collect();
        first.sort();
        second.sort();
        assert_eq!(first, second);
        let count = first.len();
        first.dedup();
        assert_eq!((first.len(), count), (52, 52));
    }
    assert_eq!(decode_set1(0x1e, true, false, true), Some(b'a'));
    assert_eq!(decode_set1(0x1e, false, false, true), Some(b'A'));
    assert_eq!(decode_set1(0x02, false, false, true), Some(b'1'));
    assert_eq!(decode_set1(0x2e, true, true, false), Some(3));
    assert_eq!(decode_set1(0x3a, false, false, false), None);
}
