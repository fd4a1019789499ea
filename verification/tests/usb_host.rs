use hermit_llm::usb::command::{WaitCommand, WaitReply, WaitRequest};
use hermit_llm::usb::context::{EndpointContext, InputContext, SlotContext};
use hermit_llm::usb::dma::{buffer_layout, buffer_range, can_give_back, can_lay_out};
use hermit_llm::usb::err::UsbError;
use hermit_llm::usb::init::{InitHost, InitParams};
use hermit_llm::usb::port::{
    clear_port_change_bits, port_connected, port_reg_base, port_speed, power_on_port, PortRequest,
    ResetPort,
};
use hermit_llm::usb::trb::{
    address_device, configure_endpoint, disable_slot, enable_slot_with_type, event_type_name,
    EventFilter, PendingEvents, Trb,
};
use hermit_llm::usb::walk::{CapabilityWalk, RegisterRequest};
use hermit_llm::usb::xhci::{HostReply, HostRequest, HostTable, NewController, XhciCtrl};

fn event(ty: u32, code: u32, slot: u32, endpoint: u32) -> Trb {
    Trb { param: 7, status: code << 24, control: ty << 10 | slot << 24 | endpoint << 16 }
}

#[test]
fn blocks_are_taken_apart() {
    let e = Trb { param: 1, status: 0x0d00_0123, control: 0x0503_8000 };
    assert_eq!(e.trb_type(), 32);
    assert_eq!(e.completion_code(), 13);
    assert_eq!(e.slot_id(), 5);
    assert_eq!(e.endpoint_id(), 3);
    assert_eq!(e.transfer_length(), 0x123);
    assert_eq!(enable_slot_with_type(2).control, 9 << 10 | 2 << 16);
    assert_eq!(disable_slot(4).control, 10 << 10 | 4 << 24);
    let a = address_device(4, 0x1000);
    assert_eq!((a.param, a.control), (0x1000, 11 << 10 | 4 << 24));
    assert_eq!(configure_endpoint(4, 0x1000).control, 12 << 10 | 4 << 24);
    assert_ne!(event_type_name(32), event_type_name(33));
}

#[test]
fn foreign_events_wait_for_their_owner() {
    let mut pending = PendingEvents::new();
    let f = EventFilter { slot_id: 1, endpoint_id: 3 };
    let test = |e: &Trb| f.matches_event(e);
    assert_eq!(pending.offer(event(33, 1, 1, 0), &test), None);
    assert_eq!(pending.offer(event(32, 1, 2, 3), &test), None);
    assert_eq!(pending.offer(event(32, 1, 1, 3), &test), Some(event(32, 1, 1, 3)));
    pending.push_pending_event(event(32, 13, 1, 3));
    assert_eq!(pending.take_matching(&test), Some(event(32, 13, 1, 3)));
    assert_eq!(pending.take_matching(&test), None);
    assert_eq!(pending.poll_event(), Some(event(33, 1, 1, 0)));
    assert_eq!(pending.poll_event(), Some(event(32, 1, 2, 3)));
    assert_eq!(pending.poll_event(), None);
}

#[test]
fn contexts_hold_their_fields() {
    let s = SlotContext::new(0, 3, 5, 2);
    assert_eq!((s.dw0, s.dw1), (3 << 20 | 5 << 27, 2 << 16));
    let e = EndpointContext::new(6, 512, 0, 4, 0x1_0000_2000);
    assert_eq!(e.dw0, 4 << 16);
    assert_eq!(e.dw1, 3 << 1 | 6 << 3 | 512 << 16);
    assert_eq!((e.tr_dequeue_lo, e.tr_dequeue_hi, e.dw4), (0x2001, 1, 8));
    let mut input = InputContext::zeroed();
    input.slot = s;
    input.endpoints[2] = e;
    let words = input.words();
    assert_eq!(words.len(), 33 * 8);
    assert_eq!(words[8], s.dw0);
    assert_eq!(words[8 * (2 + 2) + 1], e.dw1);
}

#[test]
fn ports_are_reset() {
    assert_eq!(port_reg_base(0x20, 2), 0x20 + 0x400 + 0x20);
    assert_eq!(port_speed(3 << 10), 3);
    assert!(port_connected(1) && !port_connected(2));
    assert_eq!(power_on_port(0x200), None);
    assert!(power_on_port(0).is_some());
    assert_eq!(clear_port_change_bits(0x201), None);
    assert!(clear_port_change_bits(0x20_0201).is_some());
    let mut r = ResetPort::reset_port();
    let mut writes = Vec::new();
    let mut portsc = 0x201u32;
    loop {
        match r.next_request() {
            PortRequest::Read => r.feed(portsc),
            PortRequest::Write { value } => {
                writes.push(value);
                if value & 0x10 != 0 {
                    portsc = 0x20_0203;
                }
                r.feed(0);
            }
            PortRequest::Done => break,
        }
    }
    assert!(matches!(r.outcome(), Some(Ok(()))));
    assert_eq!(writes, vec![0x210, 0x20_0200]);
}

#[test]
fn a_port_that_never_resets_times_out() {
    let mut r = ResetPort::reset_port();
    while !matches!(r.next_request(), PortRequest::Done) {
        r.feed(0x201);
    }
    assert!(matches!(r.outcome(), Some(Err(UsbError::Timeout(_)))));
}

fn registers(offset: u64) -> u32 {
    match offset {
        0x40 => 0x0501_0401,
        0x50 => 0x0300_0402,
        0x54 => 0x2042_5355,
        0x58 => 0x0000_0201,
        0x5c => 5,
        0x60 => 2,
        _ => 0,
    }
}

#[test]
fn capabilities_are_walked() {
    let mut w = CapabilityWalk::new(0x40);
    let mut polls = 0;
    let mut writes = Vec::new();
    loop {
        match w.next_request() {
            RegisterRequest::Read { offset } => {
                if offset == 0x40 {
                    polls += 1;
                }
                w.feed(if polls > 3 && offset == 0x40 { 0x0500_0401 } else { registers(offset) });
            }
            RegisterRequest::Write { offset, value } => {
                writes.push((offset, value));
                w.feed(0);
            }
            RegisterRequest::WriteWide { .. } => unreachable!(),
            RegisterRequest::Done => break,
        }
    }
    assert_eq!(writes, vec![(0x40, 0x0501_0401), (0x44, 0xe000_0000)]);
    assert_eq!(w.protocols.len(), 1);
    assert_eq!(w.protocols[0].compatible_port_offset, 1);
    assert_eq!(w.protocols[0].compatible_port_count, 2);
    assert_eq!(w.protocols[0].slot_type, 5);
}

#[test]
fn the_host_is_started() {
    let params = InitParams {
        op_offset: 0x20,
        int_offset: 0x620,
        max_slots: 8,
        dcbaa: 0x1000,
        command_ring: 0x2000,
        event_table: 0x3000,
        event_ring: 0x4000,
    };
    let mut h = InitHost::new(params);
    let mut wide = Vec::new();
    let mut running = true;
    loop {
        match h.next_request() {
            RegisterRequest::Read { offset: 0x20 } => h.feed(if running { 1 } else { 0 }),
            RegisterRequest::Read { .. } => h.feed(if running { 0 } else { 1 }),
            RegisterRequest::Write { offset, value } => {
                if offset == 0x20 {
                    running = value & 1 != 0;
                }
                h.feed(0);
            }
            RegisterRequest::WriteWide { offset, address } => {
                wide.push((offset, address));
                h.feed(0);
            }
            RegisterRequest::Done => break,
        }
    }
    assert!(matches!(h.outcome(), Some(Ok(()))));
    assert_eq!(
        wide,
        vec![(0x50, 0x1000), (0x38, 0x2001), (0x630, 0x3000), (0x638, 0x4000)]
    );
}

#[test]
fn a_host_that_never_halts_times_out() {
    let params = InitParams {
        op_offset: 0x20,
        int_offset: 0x620,
        max_slots: 8,
        dcbaa: 0,
        command_ring: 0,
        event_table: 0,
        event_ring: 0,
    };
    let mut h = InitHost::new(params);
    h.feed(1);
    while h.outcome().is_none() {
        h.feed(0);
    }
    assert!(matches!(h.outcome(), Some(Err(UsbError::Timeout(_)))));
}

fn controller() -> Result<XhciCtrl, UsbError> {
    let mut n = NewController::new(4096);
    let mut pads = Vec::new();
    let mut running = false;
    loop {
        let reply = match n.next_request() {
            HostRequest::MapMmio { .. } => HostReply::Mapped(true),
            HostRequest::UnmapMmio { .. } => HostReply::Acknowledged,
            HostRequest::ReadByte { .. } => HostReply::Value(0x20),
            HostRequest::Registers(RegisterRequest::Read { offset }) => HostReply::Value(
                match offset {
                    0x04 => 0x0400_0008,
                    0x08 => 2 << 27,
                    0x14 => 0x800,
                    0x18 => 0x600,
                    0x10 => 0x50 / 4 << 16,
                    0x20 => 0,
                    0x24 => {
                        if running {
                            0
                        } else {
                            1
                        }
                    }
                    _ => registers(offset),
                },
            ),
            HostRequest::Registers(RegisterRequest::Write { offset, value }) => {
                if offset == 0x20 {
                    running = value & 1 != 0;
                }
                HostReply::Acknowledged
            }
            HostRequest::Registers(_) => HostReply::Acknowledged,
            HostRequest::Allocate { size, align } => {
                assert_eq!(size % 8, 0);
                assert!(align == 64 || align == 4096);
                HostReply::Memory(Ok(0x10_0000))
            }
            HostRequest::SetEntry { table, index, value } => {
                pads.push((matches!(table, HostTable::Scratchpad), index, value));
                HostReply::Acknowledged
            }
            HostRequest::CommandRing { .. } => HostReply::Memory(Ok(0x2000)),
            HostRequest::EventRing { .. } => HostReply::EventRing(Ok((0x3000, 0x4000))),
            HostRequest::Done => break,
        };
        n.feed(reply);
    }
    assert_eq!(
        pads,
        vec![(true, 0, 0x10_0000), (true, 1, 0x10_1000), (false, 0, 0x10_0000)]
    );
    n.finish().unwrap()
}

#[test]
fn a_controller_comes_up() {
    let c = match controller() {
        Ok(c) => c,
        Err(_) => panic!("the controller comes up"),
    };
    assert_eq!(c.max_slots(), 8);
    assert_eq!(c.max_ports(), 4);
    assert_eq!(c.slot_type_for_port(0), 5);
    assert_eq!(c.slot_type_for_port(3), 0);
    assert_eq!(c.op_register(4), 0x24);
    assert_eq!(c.doorbell(2), 0x808);
    assert_eq!(c.ring_doorbell(2, 3), (0x808, 3));
    assert_eq!(c.update_erdp(0x4010), (0x638, 0x4018));
    assert_eq!(c.enable_slot_for_port(1), enable_slot_with_type(5));
    assert_eq!(c.enable_slot(), enable_slot_with_type(0));
    assert_eq!(c.disable_slot(3), disable_slot(3));
    assert_eq!(c.port_status(1), port_reg_base(0x20, 1));
    assert_eq!(c.stop_command(0x0000_0005), 4);
    assert!(c.has_halted(0x11) && !c.has_halted(0x10));
}

#[test]
fn a_controller_without_memory_fails() {
    let mut n = NewController::new(4096);
    n.feed(HostReply::Mapped(false));
    assert!(matches!(n.finish(), Some(Err(UsbError::MapFail))));
}

#[test]
fn events_are_kept_by_the_controller() {
    let mut c = match controller() {
        Ok(c) => c,
        Err(_) => panic!("the controller comes up"),
    };
    let f = EventFilter { slot_id: 1, endpoint_id: 3 };
    let fresh = vec![event(32, 1, 2, 3), event(32, 1, 1, 3), event(32, 1, 1, 3)];
    let (got, used) = c.poll_transfer_event(&fresh, &f);
    assert_eq!(got, Some(event(32, 1, 1, 3)));
    assert_eq!(used, 2);
    c.push_pending_event(event(34, 1, 0, 0));
    let ring = vec![event(33, 1, 1, 0)];
    assert_eq!(c.poll_event(&ring), (Some(event(32, 1, 2, 3)), 0));
    assert_eq!(c.poll_event(&ring), (Some(event(34, 1, 0, 0)), 0));
    assert_eq!(c.poll_event(&ring), (Some(event(33, 1, 1, 0)), 1));
    assert_eq!(c.poll_event(&Vec::new()), (None, 0));
    assert_eq!((c.max_ports(), c.max_slots()), (4, 8));
}

#[test]
fn any_test_picks_its_first_event() {
    let mut c = match controller() {
        Ok(c) => c,
        Err(_) => panic!("the controller comes up"),
    };
    let ring = vec![event(32, 1, 2, 3), event(33, 1, 1, 0), event(34, 1, 0, 0)];
    let (got, used) = c.poll_event_matching(&ring, |e| e.trb_type() >= 33);
    assert_eq!((got, used), (Some(event(33, 1, 1, 0)), 2));
    let (got, used) = c.poll_event_matching(&ring[2..].to_vec(), |e| e.trb_type() == 32);
    assert_eq!((got, used), (Some(event(32, 1, 2, 3)), 0));
    let (got, used) = c.poll_event_matching(&ring[2..].to_vec(), |_| false);
    assert_eq!((got, used), (None, 1));
    assert_eq!(c.poll_event(&Vec::new()), (Some(event(34, 1, 0, 0)), 0));

    c.push_pending_event(event(34, 1, 0, 0));
    assert_eq!(c.poll(&ring), 3);
    assert_eq!(c.poll_event(&Vec::new()), (None, 0));
}

#[test]
fn commands_are_waited_for() {
    let mut w = WaitCommand::wait_command();
    w.feed(WaitReply::Event(None));
    assert!(matches!(w.next_request(), WaitRequest::Dequeue));
    w.feed(WaitReply::Event(Some(event(34, 1, 0, 0))));
    assert!(matches!(w.next_request(), WaitRequest::UpdateDequeue));
    w.feed(WaitReply::Acknowledged);
    w.feed(WaitReply::Event(Some(event(33, 1, 6, 0))));
    w.feed(WaitReply::Acknowledged);
    match w.outcome() {
        Some(Ok(e)) => assert_eq!(e.slot_id(), 6),
        _ => panic!("the command completed"),
    }
    let mut w = WaitCommand::wait_command();
    w.feed(WaitReply::Event(Some(event(33, 5, 6, 0))));
    w.feed(WaitReply::Acknowledged);
    assert!(matches!(w.outcome(), Some(Err(UsbError::CmdFail(5)))));
}

#[test]
fn a_command_without_answer_times_out() {
    let mut w = WaitCommand::wait_command();
    while w.outcome().is_none() {
        match w.next_request() {
            WaitRequest::ReadOp { .. } => w.feed(WaitReply::Value(0)),
            WaitRequest::Dequeue => w.feed(WaitReply::Event(None)),
            _ => w.feed(WaitReply::Acknowledged),
        }
    }
    assert!(matches!(w.outcome(), Some(Err(UsbError::Timeout(_)))));
}

#[test]
fn buffers_are_whole_pages() {
    assert_eq!(buffer_layout(100, 64), Some((4096, 4096)));
    assert_eq!(buffer_layout(5000, 64), Some((0x1_0000, 0x1_0000)));
    assert_eq!(buffer_range(0x1000, 100, 64), Some((0x1000, 0x2000)));
    assert_eq!(buffer_range(0x1001, 100, 64), None);
    assert_eq!(buffer_layout(u64::MAX - 0xffff, 64), None);
    assert!(can_lay_out(u64::MAX - 0xffff, 64) && !can_lay_out(u64::MAX - 0xfffe, 64));
    assert!(can_lay_out(1, 0) && can_lay_out(1, 0x2000) && !can_lay_out(1, 0x3000));
    assert!(can_give_back(0x1000, 100, 64) && !can_give_back(u64::MAX - 0xfff, 5000, 64));
}
