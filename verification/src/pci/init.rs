//! Which drivers take which functions, and in what order.

use vstd::prelude::*;

use crate::pci::bar;
use crate::pci::describe::HeaderType;
use crate::pci::describe::PciDevice;

verus! {

pub const VENDOR_REALTEK: u16 = 0x10ec;

pub const VENDOR_INTEL: u16 = 0x8086;

/// The network driver that is built in.
#[derive(Clone, Copy, Debug, PartialEq, Eq, Structural)]
pub enum NetworkDriver {
    Rtl8169,
    Rtl8139,
    /// One that is not on the PCI bus, or none.
    Other,
}

/// What is to be done.
#[derive(Clone, Copy, Debug, PartialEq, Eq, Structural)]
pub enum PciAction {
    /// Initialize a network device.
    Network { index: usize },
    /// Look for disks on a storage controller.
    Storage { index: usize },
    /// Write a word of a function's configuration.
    Write { index: usize, offset: u16, value: u32 },
    /// Set bits of a word of a function's configuration.
    SetBits { index: usize, offset: u16, bits: u32 },
    /// Bring up a USB host controller.
    Usb { index: usize, irq: u8 },
}

/// The interrupt line of messages, where there is no other.
pub const MSI_IRQ: u8 = 192;

/// Whether a function is a network device of the driver that is built in.
pub open spec fn is_network(driver: NetworkDriver, d: PciDevice) -> bool {
    d.vendor_id == VENDOR_REALTEK && match driver {
        NetworkDriver::Rtl8169 => d.device_id == 0x8161 || d.device_id == 0x8167 || d.device_id
            == 0x8168 || d.device_id == 0x8169,
        NetworkDriver::Rtl8139 => d.device_id == 0x8138 || d.device_id == 0x8139,
        NetworkDriver::Other => false,
    }
}

/// Whether a function is an AHCI storage controller.
pub open spec fn is_ahci(d: PciDevice) -> bool {
    d.class_id == 0x01 && d.subclass_id == 0x06 && d.interface == 0x01
}

/// Whether a function is an xHCI USB host controller.
pub open spec fn is_xhci(d: PciDevice) -> bool {
    d.class_id == 0x0c && d.subclass_id == 0x03 && d.interface == 0x30
}

/// Whether a function is a controller on whose bus a keyboard may be.
pub open spec fn is_serial_io(d: PciDevice) -> bool {
    d.class_id == 0x0c && (d.subclass_id == 0x05 || d.subclass_id == 0x80)
}

/// Whether a function is one of the controllers whose ports are switched twice.
pub open spec fn is_sunrise_point(d: PciDevice) -> bool {
    d.vendor_id == VENDOR_INTEL && (d.device_id == 0x9d2f || d.device_id == 0xa12f)
}

/// Routing all ports to the controller, and waking it up.
pub open spec fn port_switch(index: usize) -> Seq<PciAction> {
    seq![
        PciAction::Write { index, offset: 0xd0, value: 0xffff_ffff },
        PciAction::Write { index, offset: 0xd8, value: 0xffff_ffff },
        PciAction::Write { index, offset: 0x38, value: 0xffff_ffff },
        PciAction::Write { index, offset: 0x74, value: 0 },
    ]
}

/// Turning message interrupts on.
pub open spec fn msi_setup(index: usize) -> Seq<PciAction> {
    seq![
        PciAction::Write { index, offset: 0x84, value: 0xfee0_0000 },
        PciAction::Write { index, offset: 0x88, value: 0xe0 },
        PciAction::SetBits { index, offset: 0x80, bits: 0x1_0000 },
    ]
}

/// The line on which a function interrupts; only endpoints do.
pub open spec fn irq_line_of(d: PciDevice) -> Option<u8> {
    if d.header_type == HeaderType::Endpoint {
        bar::irq_of(d.irq_pin, d.irq_line)
    } else {
        None
    }
}

/// What is done with a USB host controller.
pub open spec fn usb_actions(index: usize, d: PciDevice) -> Seq<PciAction> {
    (if is_sunrise_point(d) {
        port_switch(index)
    } else {
        Seq::empty()
    }) + (if d.vendor_id == VENDOR_INTEL {
        port_switch(index)
    } else {
        Seq::empty()
    }) + match irq_line_of(d) {
        Some(irq) => seq![PciAction::Usb { index, irq }],
        None => msi_setup(index) + seq![PciAction::Usb { index, irq: MSI_IRQ }],
    }
}

/// One round through the functions.
#[derive(Clone, Copy, Debug, PartialEq, Eq, Structural)]
pub enum Round {
    Network(NetworkDriver),
    Storage,
    Usb,
}

/// What a round does with a function.
pub open spec fn round_actions(round: Round, index: usize, d: PciDevice) -> Seq<PciAction> {
    match round {
        Round::Network(driver) => if is_network(driver, d) {
            seq![PciAction::Network { index }]
        } else {
            Seq::empty()
        },
        Round::Storage => if is_ahci(d) {
            seq![PciAction::Storage { index }]
        } else {
            Seq::empty()
        },
        Round::Usb => if is_xhci(d) {
            usb_actions(index, d)
        } else {
            Seq::empty()
        },
    }
}

/// What a round does with the first `n` functions.
pub open spec fn round_plan(round: Round, devices: Seq<PciDevice>, n: int) -> Seq<PciAction>
    decreases n,
{
    if n <= 0 {
        Seq::empty()
    } else {
        round_plan(round, devices, n - 1) + round_actions(round, (n - 1) as usize, devices[n - 1])
    }
}

/// What is done with all functions: the network first, then storage, so that disks are known
/// before USB devices are looked at.
pub open spec fn init_plan(driver: NetworkDriver, devices: Seq<PciDevice>) -> Seq<PciAction> {
    round_plan(Round::Network(driver), devices, devices.len() as int) + round_plan(
        Round::Storage,
        devices,
        devices.len() as int,
    ) + round_plan(Round::Usb, devices, devices.len() as int)
}

fn push_port_switch(out: &mut Vec<PciAction>, index: usize)
    ensures
        final(out)@ == old(out)@ + port_switch(index),
{
    out.push(PciAction::Write { index, offset: 0xd0, value: 0xffff_ffff });
    out.push(PciAction::Write { index, offset: 0xd8, value: 0xffff_ffff });
    out.push(PciAction::Write { index, offset: 0x38, value: 0xffff_ffff });
    out.push(PciAction::Write { index, offset: 0x74, value: 0 });
    assert(out@ =~= old(out)@ + port_switch(index));
}

fn push_usb_actions(out: &mut Vec<PciAction>, index: usize, d: &PciDevice)
    ensures
        final(out)@ == old(out)@ + usb_actions(index, *d),
{
    if d.vendor_id == VENDOR_INTEL && (d.device_id == 0x9d2f || d.device_id == 0xa12f) {
        push_port_switch(out, index);
    }
    if d.vendor_id == VENDOR_INTEL {
        push_port_switch(out, index);
    }
    match d.get_irq() {
        Some(irq) => {
            out.push(PciAction::Usb { index, irq });
        },
        None => {
            out.push(PciAction::Write { index, offset: 0x84, value: 0xfee0_0000 });
            out.push(PciAction::Write { index, offset: 0x88, value: 0xe0 });
            out.push(PciAction::SetBits { index, offset: 0x80, bits: 0x1_0000 });
            out.push(PciAction::Usb { index, irq: MSI_IRQ });
        },
    }
    assert(out@ =~= old(out)@ + usb_actions(index, *d));
}

fn push_round_actions(out: &mut Vec<PciAction>, round: Round, index: usize, d: &PciDevice)
    ensures
        final(out)@ == old(out)@ + round_actions(round, index, *d),
{
    match round {
        Round::Network(driver) => {
            let id: u16 = d.device_id;
            let taken: bool = match driver {
                NetworkDriver::Rtl8169 => id == 0x8161 || id == 0x8167 || id == 0x8168 || id
                    == 0x8169,
                NetworkDriver::Rtl8139 => id == 0x8138 || id == 0x8139,
                NetworkDriver::Other => false,
            };
            if d.vendor_id == VENDOR_REALTEK && taken {
                out.push(PciAction::Network { index });
            }
        },
        Round::Storage => {
            if d.class_id == 0x01 && d.subclass_id == 0x06 && d.interface == 0x01 {
                out.push(PciAction::Storage { index });
            }
        },
        Round::Usb => {
            if d.class_id == 0x0c && d.subclass_id == 0x03 && d.interface == 0x30 {
                push_usb_actions(out, index, d);
            }
        },
    }
    assert(out@ =~= old(out)@ + round_actions(round, index, *d));
}

fn push_round(out: &mut Vec<PciAction>, round: Round, devices: &Vec<PciDevice>)
    ensures
        final(out)@ == old(out)@ + round_plan(round, devices@, devices@.len() as int),
{
    let mut i: usize = 0;
    assert(out@ =~= old(out)@ + round_plan(round, devices@, 0));
    while i < devices.len()
        invariant
            i <= devices.len(),
            out@ == old(out)@ + round_plan(round, devices@, i as int),
        decreases devices.len() - i,
    {
        push_round_actions(out, round, i, &devices[i]);
        i = i + 1;
        assert(out@ =~= old(out)@ + round_plan(round, devices@, i as int));
    }
}

/// Decides what is done with all functions on the bus.
pub fn init(driver: NetworkDriver, devices: &Vec<PciDevice>) -> (r: Vec<PciAction>)
    ensures
        r@ == init_plan(driver, devices@),
{
    let mut out: Vec<PciAction> = Vec::new();
    push_round(&mut out, Round::Network(driver), devices);
    push_round(&mut out, Round::Storage, devices);
    push_round(&mut out, Round::Usb, devices);
    assert(out@ =~= init_plan(driver, devices@));
    out
}

/// The line on which a controller is brought up.
pub open spec fn usb_irq(d: PciDevice) -> u8 {
    match irq_line_of(d) {
        Some(irq) => irq,
        None => MSI_IRQ,
    }
}

proof fn lemma_usb_is_last(index: usize, d: PciDevice)
    ensures
        usb_actions(index, d).len() > 0,
        usb_actions(index, d).last() == usb_action(index, usb_irq(d)),
{
}

proof fn lemma_usb_in_round(devices: Seq<PciDevice>, n: int, k: int)
    requires
        0 <= k < n <= devices.len(),
        devices.len() <= usize::MAX,
        is_xhci(devices[k]),
    ensures
        round_plan(Round::Usb, devices, n).contains(usb_action(k as usize, usb_irq(devices[k]))),
    decreases n,
{
    let goal = usb_action(k as usize, usb_irq(devices[k]));
    let before = round_plan(Round::Usb, devices, n - 1);
    let here = round_actions(Round::Usb, (n - 1) as usize, devices[n - 1]);
    let all = round_plan(Round::Usb, devices, n);
    assert(all == before + here);
    if k == n - 1 {
        lemma_usb_is_last(k as usize, devices[k]);
        assert(here == usb_actions(k as usize, devices[k]));
        assert(all[before.len() + here.len() - 1] == goal);
    } else {
        lemma_usb_in_round(devices, n - 1, k);
        let i = choose|i: int| 0 <= i < before.len() && before[i] == goal;
        assert(all[i] == goal);
    }
}

/// Bringing up a controller.
pub open spec fn usb_action(index: usize, irq: u8) -> PciAction {
    PciAction::Usb { index, irq }
}

proof fn lemma_storage_round(devices: Seq<PciDevice>, n: int)
    requires
        0 <= n <= devices.len(),
    ensures
        forall|i: int|
            0 <= i < round_plan(Round::Storage, devices, n).len() ==> (#[trigger] round_plan(
                Round::Storage,
                devices,
                n,
            )[i]) is Storage,
    decreases n,
{
    if n > 0 {
        lemma_storage_round(devices, n - 1);
    }
}

proof fn lemma_usb_round(devices: Seq<PciDevice>, n: int)
    requires
        0 <= n <= devices.len(),
    ensures
        forall|i: int|
            0 <= i < round_plan(Round::Usb, devices, n).len() ==> (#[trigger] round_plan(
                Round::Usb,
                devices,
                n,
            )[i]) !is Storage,
    decreases n,
{
    if n > 0 {
        lemma_usb_round(devices, n - 1);
    }
}

proof fn lemma_network_round(driver: NetworkDriver, devices: Seq<PciDevice>, n: int)
    requires
        0 <= n <= devices.len(),
    ensures
        forall|i: int|
            0 <= i < round_plan(Round::Network(driver), devices, n).len() ==> (
            #[trigger] round_plan(Round::Network(driver), devices, n)[i]) is Network,
    decreases n,
{
    if n > 0 {
        lemma_network_round(driver, devices, n - 1);
    }
}

/// Every USB host controller is brought up, on its own interrupt line or that of messages.
pub proof fn law_every_usb_controller_is_taken(driver: NetworkDriver, devices: Seq<PciDevice>, k: int)
    requires
        0 <= k < devices.len() <= usize::MAX,
        is_xhci(devices[k]),
    ensures
        init_plan(driver, devices).contains(usb_action(k as usize, usb_irq(devices[k]))),
{
    let n = devices.len() as int;
    lemma_usb_in_round(devices, n, k);
    let goal = usb_action(k as usize, usb_irq(devices[k]));
    let a = round_plan(Round::Network(driver), devices, n);
    let b = round_plan(Round::Storage, devices, n);
    let c = round_plan(Round::Usb, devices, n);
    let i = choose|i: int| 0 <= i < c.len() && c[i] == goal;
    assert(init_plan(driver, devices)[a.len() + b.len() + i] == goal);
}

/// Storage comes before USB: a disk that is looked at is looked at before any host controller
/// is brought up.
pub proof fn law_storage_comes_before_usb(
    driver: NetworkDriver,
    devices: Seq<PciDevice>,
    i: int,
    j: int,
)
    requires
        0 <= i < init_plan(driver, devices).len(),
        0 <= j < init_plan(driver, devices).len(),
        init_plan(driver, devices)[i] is Storage,
        init_plan(driver, devices)[j] is Usb,
    ensures
        i < j,
{
    let n = devices.len() as int;
    lemma_network_round(driver, devices, n);
    lemma_storage_round(devices, n);
    lemma_usb_round(devices, n);
    let a = round_plan(Round::Network(driver), devices, n);
    let b = round_plan(Round::Storage, devices, n);
    let c = round_plan(Round::Usb, devices, n);
    let p = init_plan(driver, devices);
    if i >= a.len() + b.len() {
        assert(p[i] == c[i - a.len() - b.len()]);
    }
    if j < a.len() {
        assert(p[j] == a[j]);
    } else if j < a.len() + b.len() {
        assert(p[j] == b[j - a.len()]);
    }
}

/// What a look at the bus finds: a USB host controller, and a controller on whose bus a
/// keyboard may be.
pub fn boot_device_discovery(devices: &Vec<PciDevice>) -> (r: (bool, bool))
    ensures
        r.0 == exists|i: int| 0 <= i < devices@.len() && is_xhci(#[trigger] devices@[i]),
        r.1 == exists|i: int| 0 <= i < devices@.len() && is_serial_io(#[trigger] devices@[i]),
{
    let mut found_xhci = false;
    let mut found_serial_io = false;
    let mut i: usize = 0;
    while i < devices.len()
        invariant
            i <= devices.len(),
            found_xhci == exists|k: int| 0 <= k < i && is_xhci(#[trigger] devices@[k]),
            found_serial_io == exists|k: int| 0 <= k < i && is_serial_io(#[trigger] devices@[k]),
        decreases devices.len() - i,
    {
        let d = &devices[i];
        if d.class_id == 0x0c && d.subclass_id == 0x03 && d.interface == 0x30 {
            assert(is_xhci(devices@[i as int]));
            found_xhci = true;
        } else if d.class_id == 0x0c && (d.subclass_id == 0x05 || d.subclass_id == 0x80) {
            assert(is_serial_io(devices@[i as int]));
            found_serial_io = true;
        }
        i = i + 1;
    }
    (found_xhci, found_serial_io)
}

} // verus!
