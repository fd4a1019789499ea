use hermit_llm::loader::{
    format_name, framebuffer_args, kernel_memory, model_range, rsdp, stack_address, PixelFormat,
    Placement, TableKind,
};
use hermit_llm::net::dhcp::{handle_event, update_ip_addrs, Cidr, DhcpEvent, NetAction};
use hermit_llm::net::dns::{get_query_result, QueryOutcome, QueryResult};
use hermit_llm::net::icmp::{Af, IcmpEndpoint, ListenEndpoint, Socket as IcmpSocket};
use hermit_llm::net::ipv4::{make_packet, take_payload, Checksum};
use hermit_llm::net::port::{get_ephemeral_port, start_endpoint, wakeup_time};
use hermit_llm::net::raw::Socket as RawSocket;
use hermit_llm::net::rtl8152::{PollRx, RxPoll, RxQueue, RxRequest};
use hermit_llm::net::rtl8169::{
    NicRequest, NicSetup, RTL8169Driver, RTL8169Error, RTL8169RxToken, RTL8169TxToken, Reg,
};
use hermit_llm::net::socket::{
    poll_events, IpAddress, IpEndpoint, PollOutcome, Settings, SocketError, SocketOption, Timeout,
};
use hermit_llm::pci::bar::Bar;
use hermit_llm::pci::describe::{HeaderType, PciDevice};

#[test]
fn ports_go_round() {
    assert_eq!(start_endpoint(0), 49152);
    assert_eq!(start_endpoint(16385), 49153);
    let mut next = 65534;
    assert_eq!(get_ephemeral_port(&mut next), 65534);
    assert_eq!(get_ephemeral_port(&mut next), 65535);
    assert_eq!(get_ephemeral_port(&mut next), 49152);
    assert_eq!(wakeup_time(100, Some(20)), Some(120));
    assert_eq!(wakeup_time(100, None), None);
}

#[test]
fn a_lease_configures_the_interface() {
    let address = Cidr { address: 0x0a00_0202, prefix: 24 };
    let acts = handle_event(
        DhcpEvent::Configured { address, router: Some(0x0a00_0201), dns_servers: vec![8] },
        None,
        true,
    );
    assert_eq!(acts.len(), 4);
    assert!(matches!(acts[0], NetAction::SetAddress(c) if c.address == 0x0a00_0202));
    assert!(matches!(acts[1], NetAction::AddDefaultRoute(0x0a00_0201)));
    assert!(matches!(acts[2], NetAction::RemoveDns));
    assert!(matches!(&acts[3], NetAction::AddDns(s) if *s == vec![8]));
    let lost = handle_event(DhcpEvent::Deconfigured, Some(0x0a00_0202), false);
    assert!(matches!(lost[0], NetAction::SetAddress(c) if c.address == 0));
    assert!(matches!(lost[1], NetAction::RemoveDefaultRoute));
    assert!(handle_event(DhcpEvent::Deconfigured, Some(0), true).is_empty());
    let mut addrs = Vec::new();
    assert!(update_ip_addrs(&mut addrs, address, true, 2));
    assert_eq!(addrs[0].prefix, 24);
    assert!(update_ip_addrs(&mut addrs, Cidr { address: 0, prefix: 0 }, false, 2));
    assert_eq!((addrs.len(), addrs[0].address), (1, 0));
    let mut none = Vec::new();
    assert!(!update_ip_addrs(&mut none, address, true, 0));
}

#[test]
fn queries_have_outcomes() {
    assert!(matches!(
        get_query_result(QueryResult::Addresses(vec![1, 2])),
        QueryOutcome::Ready(a) if a == vec![1, 2]
    ));
    assert!(matches!(get_query_result(QueryResult::Pending), QueryOutcome::Pending));
    assert!(matches!(get_query_result(QueryResult::Failed), QueryOutcome::NoEntry));
}

#[test]
fn packets_have_headers_with_checksums() {
    let p = make_packet([10, 0, 2, 15], [10, 0, 2, 2], 1, Checksum::Both, &[0xaa, 0xbb]);
    assert_eq!(
        p,
        vec![
            0x45, 0, 0, 22, 0, 0, 0x40, 0, 64, 1, 0x22, 0xd7, 10, 0, 2, 15, 10, 0, 2, 2, 0xaa, 0xbb
        ]
    );
    assert_eq!(make_packet([10, 0, 2, 15], [10, 0, 2, 2], 1, Checksum::Tx, &[0xaa, 0xbb]), p);
    for card in [Checksum::Rx, Checksum::Neither] {
        let open = make_packet([10, 0, 2, 15], [10, 0, 2, 2], 1, card, &[0xaa, 0xbb]);
        assert_eq!(open[10..12], [0, 0]);
        assert_eq!((&open[..10], &open[12..]), (&p[..10], &p[12..]));
    }
    let (payload, from) = take_payload(&p, 100).unwrap();
    assert_eq!(payload, vec![0xaa, 0xbb]);
    assert_eq!(from, [10, 0, 2, 15]);
    assert_eq!(take_payload(&p, 1).unwrap().0, vec![0xaa]);
    assert!(take_payload(&p[..19], 100).is_none());
    let mut short = p.clone();
    short[3] = 100;
    assert!(take_payload(&short, 100).is_none());
}

#[test]
fn raw_sockets_carry_packets() {
    let s = RawSocket::new(1, 1);
    let p = match s.sendto(Some(0x0a00_020f), Checksum::Both, IpAddress::V4(0x0a00_0202), &[7, 8]) {
        Ok(p) => p,
        Err(_) => panic!("an address of the right kind"),
    };
    assert_eq!(p[12..20], [10, 0, 2, 15, 10, 0, 2, 2]);
    let (data, from) = s.recvfrom(&p, 10).unwrap();
    assert_eq!((data, from), (vec![7, 8], 0x0a00_020f));
    assert!(matches!(s.sendto(None, Checksum::Both, IpAddress::V6(1), &[]), Err(SocketError::Inval)));
    assert!(matches!(s.write(&[1]), Err(SocketError::Inval)));
    assert!(s.recvfrom(&[], 10).is_none());
    assert!(matches!(s.poll(true, false, 4), PollOutcome::Ready(4)));
}

#[test]
fn sockets_tell_when_they_are_ready() {
    assert!(matches!(poll_events(false, true, true, 1), PollOutcome::Ready(0x20)));
    assert!(matches!(poll_events(true, true, true, 5), PollOutcome::Ready(5)));
    assert!(matches!(
        poll_events(true, false, false, 1),
        PollOutcome::Pending { on_recv: true, on_send: false }
    ));
    let mut s = Settings::new();
    assert_eq!(s.status_flags(), 0);
    s.set_status_flags(0o4000);
    assert_eq!(s.status_flags(), 0o4000);
    let t = Some(Timeout { secs: 2, nanos: 5 });
    assert!(s.setsockopt(SocketOption::ReadTimeout(t)).is_ok());
    assert!(matches!(
        s.getsockopt(SocketOption::ReadTimeout(None)),
        Ok(SocketOption::ReadTimeout(Some(Timeout { secs: 2, nanos: 5 })))
    ));
    assert!(matches!(
        s.getsockopt(SocketOption::WriteTimeout(None)),
        Ok(SocketOption::WriteTimeout(None))
    ));
    assert!(s.getsockopt(SocketOption::Other).is_err());
    assert!(matches!(s.setsockopt(SocketOption::Other), Err(SocketError::Inval)));
}

#[test]
fn icmp_sockets_are_bound_and_connected() {
    let mut s = IcmpSocket::new(3, Af::Inet);
    assert!(matches!(s.write_target(), Err(SocketError::Inval)));
    assert!(matches!(
        s.bind(ListenEndpoint { addr: None, port: 9 }),
        IcmpEndpoint::Ident(9)
    ));
    assert_eq!(s.local_endpoint.port, 9);
    assert!(matches!(
        s.bind(ListenEndpoint { addr: Some(IpAddress::V4(5)), port: 0 }),
        IcmpEndpoint::Unspecified
    ));
    assert!(matches!(s.local_endpoint.addr, IpAddress::V4(5)));
    s.connect(IpEndpoint { addr: IpAddress::V4(7), port: 1 });
    assert!(matches!(s.write_target(), Ok(e) if e.port == 1));
    assert!(matches!(s.poll(true, false, true, 1), PollOutcome::Ready(1)));
}

fn nic(irq_line: u8, bar: Option<Bar>) -> PciDevice {
    PciDevice {
        bus: 0,
        device: 3,
        header_type: HeaderType::Endpoint,
        vendor_id: 0x10ec,
        device_id: 0x8168,
        class_id: 2,
        subclass_id: 0,
        interface: 0,
        irq_pin: 1,
        irq_line,
        bars: vec![Some(Bar::Io { port: 0x100 }), None, bar, None, None, None],
    }
}

const MEMORY: Option<Bar> =
    Some(Bar::Memory32 { address: 0xfe00_0000, size: 0x1000, prefetchable: false });

fn run_nic(mac: [u8; 6], stuck: bool) -> Result<RTL8169Driver, RTL8169Error> {
    let mut n = match NicSetup::init_device(&nic(11, MEMORY)) {
        Ok(n) => n,
        Err(e) => return Err(e),
    };
    loop {
        match n.next_request() {
            NicRequest::MapBar { slot } => {
                assert_eq!(slot, 2);
                n.feed(0);
            }
            NicRequest::Read(Reg::Mac(i)) => n.feed(mac[i as usize]),
            NicRequest::Read(_) => n.feed(if stuck { 0x10 } else { 0 }),
            NicRequest::Done => break,
            _ => n.feed(0),
        }
    }
    n.finish(1500).unwrap()
}

#[test]
fn a_network_card_comes_up() {
    match run_nic([1, 2, 3, 4, 5, 6], false) {
        Ok(d) => {
            assert_eq!(d.mac, [1, 2, 3, 4, 5, 6]);
            assert_eq!((d.irq, d.mtu), (11, 1500));
        }
        Err(_) => panic!("the card comes up"),
    }
    assert!(matches!(run_nic([0; 6], false), Err(RTL8169Error::InitFailed)));
    assert!(matches!(run_nic([1; 6], true), Err(RTL8169Error::ResetFailed)));
    assert!(matches!(NicSetup::init_device(&nic(255, MEMORY)), Err(RTL8169Error::Unknown)));
    assert!(matches!(NicSetup::init_device(&nic(11, None)), Err(RTL8169Error::Unknown)));
    assert_eq!(RTL8169Error::ResetFailed.message(), "reset failed");
    assert_eq!(RTL8169RxToken.frame(), Vec::<u8>::new());
    assert_eq!(RTL8169TxToken.buffer(3), vec![0, 0, 0]);
}

#[test]
fn frames_keep_their_order() {
    let mut q = RxQueue::new();
    assert!(!q.receive() && !q.has_packet());
    q.push(vec![1]);
    q.push(vec![2]);
    assert!(q.receive() && q.receive() && !q.receive());
    assert_eq!(q.consume(), vec![1]);
    q.release();
    assert!(q.receive());
    assert_eq!(q.consume(), vec![2]);
    assert!(!q.has_packet());
}

#[test]
fn receiving_is_armed_again() {
    let mut p = PollRx::poll_rx(true, 2048);
    assert!(matches!(p.next_request(), RxRequest::Poll));
    p.polled(RxPoll::Over);
    assert!(matches!(p.next_request(), RxRequest::Free));
    p.freed();
    assert!(matches!(p.next_request(), RxRequest::Arm { len: 2048 }));
    p.armed(true);
    p.polled(RxPoll::Waiting);
    assert!(matches!(p.next_request(), RxRequest::Done));
    assert!(p.armed);
}

#[test]
fn the_kernel_gets_memory() {
    let m = kernel_memory(0x10_0001, Some(0x20_0000));
    assert!(matches!(m.placement, Placement::At(0x20_0000)));
    assert_eq!((m.size, m.pages), (0x10_9000, 0x109));
    assert!(matches!(kernel_memory(1, None).placement, Placement::Anywhere));
    assert_eq!(stack_address(0x10_0123), 0x11_0000);
    assert_eq!(format_name(PixelFormat::Rgb), Some("r8g8b8x8"));
    assert_eq!(format_name(PixelFormat::Bgr), Some("b8g8r8x8"));
    assert_eq!(format_name(PixelFormat::BltOnly), None);
    assert_eq!(
        rsdp(&[(TableKind::Other, 1), (TableKind::Acpi, 2), (TableKind::Acpi2, 3)]),
        Some(3)
    );
    assert_eq!(rsdp(&[(TableKind::Acpi, 2)]), Some(2));
    assert_eq!(rsdp(&[]), None);
    assert_eq!(framebuffer_args(Some((5, 6))), (5, 6));
    assert_eq!(framebuffer_args(None), (0, 0));
    assert_eq!(model_range(0x1000, 9), Some((0x1000, 9)));
    assert_eq!(model_range(0, 9), None);
    assert_eq!(model_range(9, 0), None);
}
