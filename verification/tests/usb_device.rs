use hermit_llm::usb::config::{ConfigFetch, ConfigRequest};
use hermit_llm::usb::context::InputContext;
use hermit_llm::usb::control::{ControlReply, ControlRequest, ControlTransfer};
use hermit_llm::usb::device::{
    xhci_endpoint_type, xhci_interval, DeviceReply, DeviceRequest, NewDevice, UsbDevice,
};
use hermit_llm::usb::err::UsbError;
use hermit_llm::usb::r8152::{
    bulk_endpoints, copy_received_packet, poll_rx_packet, read_aligned, read_byte,
    read_packet_len, read_reg_block, read_word, rx_buffer_len, sent_len, write_byte, write_dword,
    write_packet, write_reg_block, write_word, RxOutcome,
};
use hermit_llm::usb::r8152_setup::{AdapterRequest, AdapterSetup, Rtl8152Device};
use hermit_llm::usb::setup::{parse_device_desc, EndpointDesc, SetupPacket};
use hermit_llm::usb::transfer::{device_context_index, queue_transfer, TransferWait};
use hermit_llm::usb::trb::Trb;

fn transfer_event(param: u64, code: u32, residual: u32) -> Trb {
    Trb { param, status: code << 24 | residual, control: 32 << 10 | 1 << 24 | 1 << 16 }
}

#[test]
fn setup_packets_are_eight_bytes() {
    let s = SetupPacket::get_descriptor(2, 1, 0x1234);
    assert_eq!(s.bits().to_le_bytes(), [0x80, 6, 1, 2, 0, 0, 0x34, 0x12]);
    assert_eq!(SetupPacket::set_configuration(3).bits(), 0x0003_0900);
    let c = SetupPacket::clear_endpoint_feature(0, 0x81);
    assert_eq!(c.bits().to_le_bytes(), [2, 1, 0, 0, 0x81, 0, 0, 0]);
    let d = parse_device_desc(&[
        18, 1, 0, 3, 0, 0, 0, 9, 0xda, 0x0b, 0x53, 0x81, 0, 0, 0, 0, 0, 2,
    ]);
    assert_eq!((d.vendor_id, d.product_id), (0x0bda, 0x8153));
    assert_eq!((d.max_packet_size, d.num_configurations), (9, 2));
    let e = EndpointDesc { address: 0x83, attributes: 2, max_packet_size: 512, interval: 0 };
    assert!(e.is_in());
    assert_eq!((e.number(), e.transfer_type()), (3, 2));
}

fn run_control(t: &mut ControlTransfer, data_code: u32, status_code: u32) -> Vec<Trb> {
    let mut queued = Vec::new();
    let mut events = vec![
        transfer_event(0x999, 1, 0),
        transfer_event(0x1010, data_code, 2),
        transfer_event(0x1020, status_code, 0),
    ]
    .into_iter();
    loop {
        let reply = match t.next_request() {
            ControlRequest::Allocate { size, .. } => {
                assert_eq!(size, 18);
                ControlReply::Memory(Ok(0x8000))
            }
            ControlRequest::Enqueue(trb) => {
                queued.push(trb);
                ControlReply::Address(0x1000 + 16 * (queued.len() as u64 - 1))
            }
            ControlRequest::Poll(f) => {
                assert_eq!((f.slot_id, f.endpoint_id), (1, 1));
                ControlReply::Event(events.next())
            }
            ControlRequest::CopyBack { len } => {
                assert_eq!(len, 16);
                ControlReply::Acknowledged
            }
            ControlRequest::Done => break,
            _ => ControlReply::Acknowledged,
        };
        t.feed(reply);
    }
    queued
}

#[test]
fn a_control_transfer_has_three_stages() {
    let mut t = ControlTransfer::control_transfer(1, SetupPacket::get_descriptor(1, 0, 18), 18);
    let queued = run_control(&mut t, 13, 1);
    assert_eq!(queued.len(), 3);
    assert_eq!(queued[0].control, 2 << 10 | 0x40 | 3 << 16);
    assert_eq!(queued[1].param, 0x8000);
    assert_eq!(queued[1].control, 3 << 10 | 1 << 16 | 0x20);
    assert_eq!(queued[2].control, 4 << 10 | 0x20);
    assert!(matches!(t.outcome(), Some(Ok(16))));
}

#[test]
fn control_transfers_fail() {
    let setup = SetupPacket::get_descriptor(1, 0, 18);
    let mut t = ControlTransfer::control_transfer(1, setup, 18);
    run_control(&mut t, 6, 1);
    assert!(matches!(t.outcome(), Some(Err(UsbError::Stall))));
    let mut t = ControlTransfer::control_transfer(1, setup, 18);
    run_control(&mut t, 1, 4);
    assert!(matches!(t.outcome(), Some(Err(UsbError::XferFail(4)))));
    let mut t = ControlTransfer::control_transfer(1, setup, 18);
    run_control(&mut t, 0, 0);
    assert!(matches!(t.outcome(), Some(Err(UsbError::Timeout(_)))));
    let mut t = ControlTransfer::control_transfer(1, setup, 18);
    t.feed(ControlReply::Memory(Err(UsbError::OoRam)));
    assert!(matches!(t.outcome(), Some(Err(UsbError::OoRam))));
}

#[test]
fn configurations_are_fetched_whole() {
    let mut c = ConfigFetch::get_config_descriptor(0);
    let head = [9, 2, 12, 0, 1, 1, 0, 0x80, 50];
    c.feed(Err(UsbError::Stall), &head);
    let mut cleared = 0;
    loop {
        match c.next_request() {
            ConfigRequest::Transfer { len: 0, .. } => {
                cleared += 1;
                c.feed(Ok(0), &[]);
            }
            ConfigRequest::Transfer { len: 9, .. } => c.feed(Ok(9), &head),
            ConfigRequest::Transfer { len, setup } => {
                assert_eq!((len, setup.length), (12, 12));
                let mut whole = head.to_vec();
                whole.extend_from_slice(&[3, 4, 5]);
                c.feed(Ok(12), &whole);
            }
            ConfigRequest::Settle => c.feed(Ok(0), &[]),
            ConfigRequest::Done => break,
        }
    }
    assert_eq!(cleared, 2);
    match c.finish() {
        Some(Ok(data)) => assert_eq!(data, vec![9, 2, 12, 0, 1, 1, 0, 0x80, 50, 3, 4, 5]),
        _ => panic!("the descriptor is there"),
    }
}

#[test]
fn bad_configurations_are_given_up() {
    let mut c = ConfigFetch::get_config_descriptor(0);
    loop {
        match c.next_request() {
            ConfigRequest::Transfer { .. } => c.feed(Ok(9), &[0; 9]),
            ConfigRequest::Settle => c.feed(Ok(0), &[]),
            ConfigRequest::Done => break,
        }
    }
    assert!(matches!(c.finish(), Some(Err(UsbError::InvalidDescriptor))));
    let mut c = ConfigFetch::get_config_descriptor(0);
    c.feed(Err(UsbError::OoRam), &[0; 9]);
    assert!(matches!(c.finish(), Some(Err(UsbError::OoRam))));
}

#[test]
fn transfers_stop_at_boundaries() {
    assert_eq!(device_context_index(1, true), 3);
    let blocks = queue_transfer(0x1_fff0, 0x30);
    assert_eq!(blocks.len(), 2);
    assert_eq!((blocks[0].param, blocks[0].status & 0x1_ffff), (0x1_fff0, 0x10));
    assert_eq!((blocks[1].param, blocks[1].status & 0x1_ffff), (0x2_0000, 0x20));
    assert_eq!(blocks[0].control & 0x30, 0x10);
    assert_eq!(blocks[1].control & 0x30, 0x20);
    assert_eq!(queue_transfer(0x1000, 0)[0].control, 1 << 10 | 0x20);
}

#[test]
fn transfers_are_waited_for() {
    let mut w = TransferWait::wait_transfer_event(1, 3, 100);
    w.feed(None);
    w.feed(Some(transfer_event(0, 13, 40)));
    assert!(matches!(w.result, Some(Ok(60))));
    let mut w = TransferWait::wait_transfer_event(1, 3, 100);
    w.feed(Some(transfer_event(0, 6, 0)));
    assert!(matches!(w.result, Some(Err(UsbError::Stall))));
    let mut w = TransferWait::wait_transfer_event(1, 3, 100);
    w.feed(Some(transfer_event(0, 4, 0)));
    assert!(matches!(w.result, Some(Err(UsbError::XferFail(4)))));
    let mut w = TransferWait::wait_transfer_event(1, 3, 100);
    while w.result.is_none() {
        w.feed(None);
    }
    assert!(matches!(w.result, Some(Err(UsbError::Timeout(_)))));
}

fn device(speed: u32) -> (UsbDevice, bool, InputContext) {
    let mut n = NewDevice::new(2, 0);
    let mut was_reset = false;
    let mut input = InputContext::zeroed();
    let mut next = 0x1000;
    loop {
        let reply = match n.next_request() {
            DeviceRequest::Command(_) => DeviceReply::Command(Ok(Trb {
                param: 0,
                status: 1 << 24,
                control: 33 << 10 | 4 << 24,
            })),
            DeviceRequest::ReadPort => DeviceReply::Value(speed << 10 | 0x2_0203),
            DeviceRequest::ResetPort => {
                was_reset = true;
                DeviceReply::Reset(Ok(()))
            }
            DeviceRequest::Allocate { .. } | DeviceRequest::Ring { .. } => {
                next += 0x1000;
                DeviceReply::Memory(Ok(next))
            }
            DeviceRequest::WriteInput => {
                input = n.input();
                DeviceReply::Acknowledged
            }
            DeviceRequest::SetContext { slot, address } => {
                assert_eq!((slot, address), (4, 0x2000));
                DeviceReply::Acknowledged
            }
            DeviceRequest::Done => break,
            _ => DeviceReply::Acknowledged,
        };
        n.feed(reply);
    }
    match n.finish() {
        Some(Ok(d)) => (d, was_reset, input),
        _ => panic!("the device comes up"),
    }
}

#[test]
fn a_device_gets_an_address() {
    let (d, was_reset, input) = device(3);
    assert!(was_reset);
    assert_eq!((d.slot_id(), d.port(), d.speed()), (4, 2, 3));
    assert_eq!(input.input_control[1], 3);
    assert_eq!(input.slot.dw1, 3 << 16);
    assert_eq!(input.endpoints[0].dw1 >> 16, 64);
    assert_eq!(input.endpoints[0].tr_dequeue_lo, 0x4001);
    let (d, was_reset, input) = device(4);
    assert!(!was_reset);
    assert_eq!(d.speed(), 4);
    assert_eq!(input.endpoints[0].dw1 >> 16, 512);
}

#[test]
fn a_device_that_cannot_be_enabled_fails() {
    let mut n = NewDevice::new(2, 0);
    n.feed(DeviceReply::Command(Err(UsbError::CmdFail(9))));
    assert!(matches!(n.finish(), Some(Err(UsbError::CmdFail(9)))));
}

#[test]
fn endpoints_are_configured() {
    let (mut d, _, _) = device(3);
    assert!(d.queue_transfer(1, true, 0x1000, 10).is_err());
    let ep = EndpointDesc { address: 0x81, attributes: 2, max_packet_size: 512, interval: 1 };
    let trb = d.configure_endpoint(&ep, 0x9000);
    assert_eq!(trb.control, 12 << 10 | 4 << 24);
    assert_eq!(trb.param, 0x3000);
    assert_eq!(d.input.slot.dw0 >> 27, 3);
    assert_eq!(d.input.endpoints[2].tr_dequeue_lo, 0x9001);
    match d.queue_transfer(1, true, 0x1000, 10) {
        Ok((blocks, target)) => {
            assert_eq!(blocks.len(), 1);
            assert_eq!(target, 3);
        }
        Err(_) => panic!("the endpoint is configured"),
    }
    assert_eq!(xhci_endpoint_type(2, true), 6);
    assert_eq!(xhci_endpoint_type(3, false), 3);
    assert_eq!(xhci_endpoint_type(0, false), 4);
    assert_eq!(xhci_interval(3, 4), 3);
    assert_eq!(xhci_interval(1, 8), 6);
    assert_eq!(d.bulk_transfer(1, true, 10).filter.endpoint_id, 3);
    assert_eq!(d.set_configuration(1).setup, SetupPacket::set_configuration(1));
    assert_eq!(d.get_device_descriptor().data_len, 18);
}

#[test]
fn adapter_registers_are_addressed_by_four() {
    assert_eq!(read_reg_block(0x100, 0xc000, 8).bits().to_le_bytes(), [
        0xc0, 5, 0, 0xc0, 0, 1, 8, 0
    ]);
    assert_eq!(write_reg_block(0x100, 0xc010, 0xff).index, 0x1ff);
    assert_eq!(read_aligned(0x100, 0xe813).value, 0xe810);
    let (s, data) = write_word(0, 0xd406, 0x1234);
    assert_eq!((s.value, s.index), (0xd404, 0xcc));
    assert_eq!(data, vec![0, 0, 0x34, 0x12]);
    let (s, data) = write_byte(0x100, 0xe813, 0x0c);
    assert_eq!((s.value, s.index), (0xe810, 0x188));
    assert_eq!(data, vec![0, 0, 0, 0x0c]);
    let (_, data) = write_dword(0x100, 0xc010, 0x1234_5678);
    assert_eq!(data, vec![0x78, 0x56, 0x34, 0x12]);
    assert_eq!(read_word(0xd406, &[1, 2, 3, 4]), 0x403);
    assert_eq!(read_byte(0xe813, &[1, 2, 3, 4]), 4);
}

#[test]
fn packets_carry_descriptors() {
    match write_packet(&[1, 2, 3]) {
        Ok(buf) => assert_eq!(buf, vec![3, 0, 0, 0xc0, 0, 0, 0, 0, 1, 2, 3]),
        Err(_) => panic!("short enough"),
    }
    assert!(matches!(write_packet(&vec![0; 0x4_0000]), Err(UsbError::NotSupported)));
    assert_eq!(sent_len(11), 3);
    assert_eq!(sent_len(3), 0);
    let mut buf = vec![0u8; 24];
    buf[0] = 7;
    buf.extend_from_slice(&[1, 2, 3, 9, 9, 9, 9]);
    match copy_received_packet(&buf, 31, 100) {
        Ok(p) => assert_eq!(p, vec![1, 2, 3]),
        Err(_) => panic!("a whole packet"),
    }
    assert!(matches!(copy_received_packet(&buf, 23, 100), Err(UsbError::InvalidDescriptor)));
    assert!(matches!(
        poll_rx_packet(&transfer_event(0, 13, 2017), 2048),
        RxOutcome::Received(31)
    ));
    assert!(matches!(
        poll_rx_packet(&transfer_event(0, 6, 0), 2048),
        RxOutcome::Failed(UsbError::Stall)
    ));
    assert!(matches!(
        poll_rx_packet(&transfer_event(0, 4, 0), 2048),
        RxOutcome::Failed(UsbError::XferFail(4))
    ));
    assert_eq!(rx_buffer_len(1536), 2048);
    assert_eq!(read_packet_len(100), 1560);
    assert_eq!(read_packet_len(2000), 2024);
    assert_eq!(rx_buffer_len(0x2_0000_0000), 0x2_0000_001c);
    assert_eq!(rx_buffer_len(u64::MAX - 28), u64::MAX);
    assert_eq!(read_packet_len(u64::MAX - 24), u64::MAX);
}

const EP_IN: EndpointDesc =
    EndpointDesc { address: 0x81, attributes: 2, max_packet_size: 512, interval: 0 };
const EP_OUT: EndpointDesc =
    EndpointDesc { address: 0x02, attributes: 2, max_packet_size: 512, interval: 0 };
const EP_INT: EndpointDesc =
    EndpointDesc { address: 0x83, attributes: 3, max_packet_size: 2, interval: 8 };

fn adapter(cr: u8) -> (Result<Rtl8152Device, UsbError>, Vec<Vec<u8>>) {
    let mut a = match AdapterSetup::from_endpoints(&[EP_INT, EP_OUT, EP_IN]) {
        Ok(a) => a,
        Err(_) => panic!("both endpoints are there"),
    };
    let mut written = Vec::new();
    loop {
        match a.next_request() {
            AdapterRequest::Configure(_) => a.feed(Ok(()), &[]),
            AdapterRequest::Read { len: 8, .. } => a.feed(Ok(()), &[2, 3, 4, 5, 6, 7, 0, 0]),
            AdapterRequest::Read { setup, .. } if setup.value == 0xe810 => {
                a.feed(Ok(()), &[0, 0, 0, cr])
            }
            AdapterRequest::Read { .. } => a.feed(Ok(()), &[0x10, 0, 0xff, 0xff]),
            AdapterRequest::Write { data, .. } => {
                written.push(data);
                a.feed(Ok(()), &[]);
            }
            AdapterRequest::Settle => a.feed(Ok(()), &[]),
            AdapterRequest::Done => break,
        }
    }
    (a.finish().unwrap(), written)
}

#[test]
fn an_adapter_comes_up() {
    let (d, written) = adapter(0x04);
    let d = match d {
        Ok(d) => d,
        Err(_) => panic!("the adapter can send"),
    };
    assert_eq!(d.mac_address(), [2, 3, 4, 5, 6, 7]);
    assert_eq!((d.rx_endpoint(), d.tx_endpoint()), (1, 2));
    assert_eq!(d.rx_events(4).endpoint_id, 3);
    assert_eq!(
        written,
        vec![vec![0x1f, 0, 0xff, 0xff], vec![0, 0, 0x6f, 0xff], vec![0, 0, 0, 0x0c]]
    );
    assert!(matches!(d.write_packet(&[1]), Ok(b) if b.len() == 9));
}

#[test]
fn an_adapter_that_cannot_send_fails() {
    assert!(matches!(adapter(0x08).0, Err(UsbError::XferFail(0x08))));
    assert!(AdapterSetup::from_endpoints(&[EP_INT, EP_OUT]).is_err());
    assert!(bulk_endpoints(&[EP_IN]).is_err());
    match bulk_endpoints(&[EP_OUT, EP_IN]) {
        Ok((i, o)) => {
            assert_eq!((i.address, o.address), (0x81, 0x02));
        }
        Err(_) => panic!("both are there"),
    }
}
