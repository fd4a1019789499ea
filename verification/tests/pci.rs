use hermit_llm::pci::bar::{get_irq, memory_map_bar, register_base, set_bar, Bar};
use hermit_llm::pci::describe::{
    choose_names, describe, describe_with, BarMapping, HeaderType, Names, PciDevice,
};
use hermit_llm::pci::error::PciError;
use hermit_llm::pci::init::{boot_device_discovery, init, NetworkDriver, PciAction};
use hermit_llm::pci::irq::InterruptHandlers;

fn device(vendor_id: u16, device_id: u16, class: (u8, u8, u8), irq_line: u8) -> PciDevice {
    PciDevice {
        bus: 0,
        device: 0x1f,
        header_type: HeaderType::Endpoint,
        vendor_id,
        device_id,
        class_id: class.0,
        subclass_id: class.1,
        interface: class.2,
        irq_pin: 1,
        irq_line,
        bars: vec![None, None, None, None, None, None],
    }
}

const M32: Bar = Bar::Memory32 { address: 0xfe00_0000, size: 0x1000, prefetchable: false };
const M64: Bar = Bar::Memory64 { base: 0x1_0000_0000, length: 0x4000, prefetchable: true };

#[test]
fn base_addresses_become_register_values() {
    assert_eq!(set_bar(&Bar::Io { port: 0x3f8 }), 0x3f9);
    assert_eq!(set_bar(&M32), 0xfe00_0000);
    assert_eq!(set_bar(&M64), 0x1_0000_000c);
    assert_eq!(memory_map_bar(Some(M64)), Some((0x1_0000_0000, 0x4000)));
    assert_eq!(memory_map_bar(Some(Bar::Io { port: 1 })), None);
    let empty = Bar::Memory32 { address: 0, size: 16, prefetchable: false };
    assert_eq!(memory_map_bar(Some(empty)), Some((0, 16)));
    assert_eq!(memory_map_bar(None), None);
    assert_eq!(register_base(&M32), Some(0xfe00_0000));
    assert_eq!(register_base(&Bar::Io { port: 1 }), None);
    assert_eq!(get_irq(1, 11), Some(11));
    assert_eq!(get_irq(0, 11), None);
    assert_eq!(get_irq(1, 255), None);
    assert_eq!(get_irq(1, 20), None);
}

#[test]
fn only_endpoints_have_registers() {
    let mut d = device(0x8086, 0x9d2f, (12, 3, 0x30), 11);
    d.bars[0] = Some(M64);
    assert!(d.get_bar(0).is_some());
    assert!(d.get_bar(6).is_none());
    let mapping = BarMapping { address: 0x1_0000_0000, size: 0x4000, no_cache: true };
    assert_eq!(d.memory_map_bar(0, true), Some(mapping));
    assert_eq!(d.memory_map_bar(0, false).map(|m| m.no_cache), Some(false));
    d.bars[1] = Some(Bar::Io { port: 0x3f8 });
    d.bars[2] = Some(Bar::Memory32 { address: 0, size: 16, prefetchable: false });
    assert_eq!(d.memory_map_bar(1, true), None);
    assert_eq!(d.memory_map_bar(2, true).map(|m| (m.address, m.size)), Some((0, 16)));
    assert_eq!(d.memory_map_bar(3, true), None);
    assert_eq!(d.get_irq(), Some(11));
    assert_eq!(d.id(), (0x8086, 0x9d2f));
    d.header_type = HeaderType::PciPciBridge;
    assert!(d.get_bar(0).is_none());
    assert_eq!(d.get_irq(), None);
}

#[test]
fn devices_are_described() {
    let mut d = device(0x8086, 0x9d2f, (12, 3, 0x30), 11);
    d.bars[0] = Some(M64);
    d.bars[1] = Some(M32);
    d.bars[2] = Some(Bar::Io { port: 0x60 });
    let names = Names { class: "C", vendor: "V", device: "D" };
    assert_eq!(
        describe_with(&d, &names),
        "00:1F C [0C03]: V D [8086:9D2F], IRQ 11, \
         BAR0 Memory64 { address: 0x100000000, size: 0x4000, prefetchable: true }, \
         BAR2 IO { port: 0x60 }"
    );
    let n = choose_names(None, None, None);
    assert_eq!((n.class, n.vendor, n.device), ("Unknown Class", "Unknown Vendor", "Unknown Device"));
    let n = choose_names(Some("sub"), Some("class"), Some(("v", "d")));
    assert_eq!((n.class, n.vendor, n.device), ("sub", "v", "d"));
    assert_eq!(choose_names(None, Some("class"), None).class, "class");
}

#[test]
fn names_come_from_the_tables() {
    let d = device(0x8086, 0x9d2f, (12, 3, 0x30), 0);
    let text = describe(&d);
    assert!(text.starts_with("00:1F USB controller [0C03]: Intel Corporation "));
    assert!(text.contains("Sunrise Point-LP USB 3.0 xHCI Controller [8086:9D2F]"));
    let unknown = describe(&device(0xffff, 0xfffe, (0x7f, 0x7f, 0), 0));
    assert_eq!(
        unknown,
        "00:1F Unknown Class [7F7F]: Unknown Vendor Unknown Device [FFFF:FFFE]"
    );
    let class_only = describe(&device(0xffff, 0xfffe, (0x0c, 0x7f, 0), 0));
    assert!(class_only.starts_with("00:1F Serial bus controller [0C7F]: Unknown Vendor"));
}

#[test]
fn errors_name_the_device() {
    assert_eq!(
        PciError::NoBar(0x10ec).message(),
        "Driver failed to initialize device with id: 0x10ec. Reason: No BAR's found."
    );
    assert_eq!(
        PciError::General(1).message(),
        "Driver failed to initialize device with id: 0x1. Due to unknown reasosn!"
    );
    assert!(PciError::NoCapPtr(2).message().ends_with("Capabilities pointer found."));
    assert!(PciError::NoVirtioCaps(2).message().ends_with("Virtio capabilities were found."));
}

#[test]
fn handlers_are_grouped_by_line() {
    let h = InterruptHandlers::get_interrupt_handlers(
        &[(11, 1), (5, 2), (11, 3)],
        Some((4, 7)),
        Some((11, 9)),
    );
    assert_eq!(h.handlers(11), vec![1, 3, 9]);
    assert_eq!(h.handlers(5), vec![2]);
    assert_eq!(h.handlers(4), vec![7]);
    assert_eq!(h.handlers(3), Vec::<u32>::new());
}

#[test]
fn drivers_are_started_in_order() {
    let mut usb = device(0x1033, 0x0194, (0x0c, 3, 0x30), 11);
    usb.bars[0] = Some(M64);
    let devices = vec![
        usb,
        device(0x8086, 0x9d03, (1, 6, 1), 10),
        device(0x10ec, 0x8168, (2, 0, 0), 9),
    ];
    let plan = init(NetworkDriver::Rtl8169, &devices);
    let order: Vec<usize> = plan
        .iter()
        .map(|a| match a {
            PciAction::Network { index } => *index,
            PciAction::Storage { index } => *index,
            PciAction::Usb { index, .. } => *index,
            PciAction::Write { index, .. } => *index,
            PciAction::SetBits { index, .. } => *index,
        })
        .collect();
    assert_eq!(order[0], 2);
    assert_eq!(order[1], 1);
    assert_eq!(order[order.len() - 1], 0);
    assert!(matches!(plan[0], PciAction::Network { index: 2 }));
    assert!(matches!(plan[1], PciAction::Storage { index: 1 }));
    assert!(matches!(plan[plan.len() - 1], PciAction::Usb { index: 0, .. }));
    assert_eq!(boot_device_discovery(&devices), (true, false));
    assert!(init(NetworkDriver::Other, &Vec::new()).is_empty());
}
