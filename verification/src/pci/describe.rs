//! What a function on the bus is, in words.

use vstd::prelude::*;
use vstd::string::*;

use crate::pci::bar;
use crate::pci::bar::Bar;
use crate::pci::names;
use crate::pci::text;

verus! {

/// How many base address registers a function has.
pub const MAX_BARS: u8 = 6;

/// The kind of a function's header.
#[derive(Clone, Copy, Debug, PartialEq, Eq, Structural)]
pub enum HeaderType {
    Endpoint,
    PciPciBridge,
    CardBusBridge,
    Unknown(u8),
}

/// A function on the bus.
pub struct PciDevice {
    pub bus: u8,
    pub device: u8,
    pub header_type: HeaderType,
    pub vendor_id: u16,
    pub device_id: u16,
    pub class_id: u8,
    pub subclass_id: u8,
    pub interface: u8,
    pub irq_pin: u8,
    pub irq_line: u8,
    /// What each base address register holds, if anything.
    pub bars: Vec<Option<Bar>>,
}

/// Memory to map.
#[derive(Clone, Copy, Debug, PartialEq, Eq, Structural)]
pub struct BarMapping {
    pub address: u64,
    pub size: u64,
    /// Whether the mapping bypasses the caches.
    pub no_cache: bool,
}

impl PciDevice {
    pub open spec fn wf(self) -> bool {
        self.bars@.len() == MAX_BARS
    }

    /// The base address register `slot`; only endpoints have any.
    pub open spec fn bar(self, slot: u8) -> Option<Bar> {
        if self.header_type == HeaderType::Endpoint && slot < MAX_BARS {
            self.bars@[slot as int]
        } else {
            None
        }
    }

    /// Returns the bar at bar-register `slot`; only endpoints have any.
    pub fn get_bar(&self, slot: u8) -> (r: Option<Bar>)
        requires
            self.wf(),
        ensures
            r == self.bar(slot),
    {
        match self.header_type {
            HeaderType::Endpoint => if slot < MAX_BARS {
                self.bars[slot as usize]
            } else {
                None
            },
            _ => None,
        }
    }

    /// Which memory to map for a base address register, and whether past the caches. There is
    /// none where there is no such register, or it is one of ports.
    pub fn memory_map_bar(&self, index: u8, no_cache: bool) -> (r: Option<BarMapping>)
        requires
            self.wf(),
        ensures
            r is None <==> self.bar(index) is None || self.bar(index)->0 is Io,
            r matches Some(m) ==> bar::mapped_memory(self.bar(index)) == Some((m.address, m.size))
                && m.no_cache == no_cache,
    {
        match bar::memory_map_bar(self.get_bar(index)) {
            Some((address, size)) => Some(BarMapping { address, size, no_cache }),
            None => None,
        }
    }

    /// The line on which the function interrupts; only endpoints do.
    pub fn get_irq(&self) -> (r: Option<u8>)
        ensures
            r == (if self.header_type == HeaderType::Endpoint {
                bar::irq_of(self.irq_pin, self.irq_line)
            } else {
                None
            }),
    {
        match self.header_type {
            HeaderType::Endpoint => bar::get_irq(self.irq_pin, self.irq_line),
            _ => None,
        }
    }

    /// Who made the function, and what it is.
    pub fn id(&self) -> (r: (u16, u16))
        ensures
            r == (self.vendor_id, self.device_id),
    {
        (self.vendor_id, self.device_id)
    }
}

/// The names that a description uses.
pub struct Names {
    pub class: &'static str,
    pub vendor: &'static str,
    pub device: &'static str,
}

/// The name of a class: that of the subclass if it has one, and else that of the class.
pub open spec fn chosen_class(subclass: Option<Seq<char>>, class: Option<Seq<char>>) -> Seq<char> {
    match subclass {
        Some(n) => n,
        None => match class {
            Some(n) => n,
            None => "Unknown Class"@,
        },
    }
}

/// The names of the vendor and the device.
pub open spec fn chosen_device(names: Option<(Seq<char>, Seq<char>)>) -> (Seq<char>, Seq<char>) {
    match names {
        Some(n) => n,
        None => ("Unknown Vendor"@, "Unknown Device"@),
    }
}

/// Picks the names, given what the database says.
pub fn choose_names(
    subclass: Option<&'static str>,
    class: Option<&'static str>,
    device: Option<(&'static str, &'static str)>,
) -> (r: Names)
    ensures
        r.class@ == chosen_class(names::text_of(subclass), names::text_of(class)),
        r.vendor@ == chosen_device(names::texts_of(device)).0,
        r.device@ == chosen_device(names::texts_of(device)).1,
{
    let class = match subclass {
        Some(n) => n,
        None => match class {
            Some(n) => n,
            None => "Unknown Class",
        },
    };
    match device {
        Some((vendor, device)) => Names { class, vendor, device },
        None => Names { class, vendor: "Unknown Vendor", device: "Unknown Device" },
    }
}

/// A truth value, as text.
pub open spec fn bool_text(b: bool) -> Seq<char> {
    if b {
        "true"@
    } else {
        "false"@
    }
}

/// A memory register, as text.
pub open spec fn memory_text(kind: Seq<char>, address: int, size: int, prefetchable: bool) -> Seq<
    char,
> {
    kind + "0x"@ + text::in_base(address, 16) + ", size: "@ + "0x"@ + text::in_base(size, 16)
        + ", prefetchable: "@ + bool_text(prefetchable) + " }"@
}

/// A base address register, as text.
pub open spec fn bar_text(slot: int, bar: Bar) -> Seq<char> {
    ", BAR"@ + text::in_base(slot, 10) + match bar {
        Bar::Memory64 { base, length, prefetchable } => memory_text(
            " Memory64 { address: "@,
            base as int,
            length as int,
            prefetchable,
        ),
        Bar::Memory32 { address, size, prefetchable } => memory_text(
            " Memory32 { address: "@,
            address as int,
            size as int,
            prefetchable,
        ),
        Bar::Io { port } => " IO { port: "@ + "0x"@ + text::in_base(port as int, 16) + " }"@,
    }
}

/// The base address registers from `slot` on, as text. One of 64-bit addresses takes up two.
pub open spec fn bars_text(bars: Seq<Option<Bar>>, slot: int) -> Seq<char>
    decreases bars.len() + 1 - slot,
{
    if slot >= bars.len() {
        Seq::empty()
    } else {
        match bars[slot] {
            Some(bar) => bar_text(slot, bar) + bars_text(
                bars,
                slot + if bar is Memory64 {
                    2int
                } else {
                    1
                },
            ),
            None => bars_text(bars, slot + 1),
        }
    }
}

/// The kind of a header, as text.
pub open spec fn header_text(h: HeaderType) -> Seq<char> {
    match h {
        HeaderType::Endpoint => "Endpoint"@,
        HeaderType::PciPciBridge => "PciPciBridge"@,
        HeaderType::CardBusBridge => "CardBusBridge"@,
        HeaderType::Unknown(n) => "Unknown("@ + text::in_base(n as int, 10) + ")"@,
    }
}

/// Where a function is, as text.
pub open spec fn place_text(d: PciDevice) -> Seq<char> {
    text::padded_hex(d.bus as int, 2) + ":"@ + text::padded_hex(d.device as int, 2) + " "@
}

/// Who made a function and what it is, as text.
pub open spec fn id_text(d: PciDevice) -> Seq<char> {
    " ["@ + text::padded_hex(d.vendor_id as int, 4) + ":"@ + text::padded_hex(
        d.device_id as int,
        4,
    ) + "]"@
}

/// The interrupt line of a function, as text, if it has one.
pub open spec fn line_text(line: u8) -> Seq<char> {
    if line != 0 && line != 255 {
        ", IRQ "@ + text::in_base(line as int, 10)
    } else {
        Seq::empty()
    }
}

/// The description of a function, with the names that are used.
pub open spec fn description(
    d: PciDevice,
    class: Seq<char>,
    vendor: Seq<char>,
    device: Seq<char>,
) -> Seq<char> {
    if d.header_type == HeaderType::Endpoint {
        place_text(d) + class + " ["@ + text::padded_hex(d.class_id as int, 2) + text::padded_hex(
            d.subclass_id as int,
            2,
        ) + "]: "@ + vendor + " "@ + device + id_text(d) + line_text(d.irq_line) + bars_text(
            d.bars@,
            0,
        )
    } else {
        place_text(d) + header_text(d.header_type) + id_text(d)
    }
}

fn push_bool(out: &mut String, b: bool)
    ensures
        final(out)@ == old(out)@ + bool_text(b),
{
    if b {
        out.append("true");
    } else {
        out.append("false");
    }
}

fn push_memory(out: &mut String, kind: &'static str, address: u64, size: u64, prefetchable: bool)
    ensures
        final(out)@ == old(out)@ + memory_text(
            kind@,
            address as int,
            size as int,
            prefetchable,
        ),
{
    out.append(kind);
    text::push_hex(out, address);
    out.append(", size: ");
    text::push_hex(out, size);
    out.append(", prefetchable: ");
    push_bool(out, prefetchable);
    out.append(" }");
    assert(out@ =~= old(out)@ + memory_text(kind@, address as int, size as int, prefetchable));
}

fn push_bar(out: &mut String, slot: usize, bar: &Bar)
    ensures
        final(out)@ == old(out)@ + bar_text(slot as int, *bar),
{
    out.append(", BAR");
    text::push_decimal(out, slot as u64);
    match *bar {
        Bar::Memory64 { base, length, prefetchable } => {
            push_memory(out, " Memory64 { address: ", base, length, prefetchable);
        },
        Bar::Memory32 { address, size, prefetchable } => {
            push_memory(
                out,
                " Memory32 { address: ",
                address as u64,
                size as u64,
                prefetchable,
            );
        },
        Bar::Io { port } => {
            out.append(" IO { port: ");
            text::push_hex(out, port as u64);
            out.append(" }");
        },
    }
    assert(out@ =~= old(out)@ + bar_text(slot as int, *bar));
}

fn push_bars(out: &mut String, bars: &Vec<Option<Bar>>)
    requires
        bars@.len() == MAX_BARS,
    ensures
        final(out)@ == old(out)@ + bars_text(bars@, 0),
{
    let mut slot: usize = 0;
    while slot < bars.len()
        invariant
            slot <= bars.len() + 1,
            bars@.len() == MAX_BARS,
            out@ + bars_text(bars@, slot as int) == old(out)@ + bars_text(bars@, 0),
        decreases bars.len() + 1 - slot,
    {
        let ghost before = out@;
        match bars[slot] {
            Some(bar) => {
                push_bar(out, slot, &bar);
                let step: usize = match bar {
                    Bar::Memory64 { base: _, length: _, prefetchable: _ } => 2,
                    _ => 1,
                };
                assert(out@ + bars_text(bars@, slot + step) =~= before + bars_text(
                    bars@,
                    slot as int,
                ));
                slot = slot + step;
            },
            None => {
                slot = slot + 1;
            },
        }
    }
    assert(out@ =~= old(out)@ + bars_text(bars@, 0));
}

fn push_place(out: &mut String, d: &PciDevice)
    ensures
        final(out)@ == old(out)@ + place_text(*d),
{
    text::push_padded_hex(out, d.bus as u64, 2);
    out.append(":");
    text::push_padded_hex(out, d.device as u64, 2);
    out.append(" ");
    assert(out@ =~= old(out)@ + place_text(*d));
}

fn push_id(out: &mut String, d: &PciDevice)
    ensures
        final(out)@ == old(out)@ + id_text(*d),
{
    out.append(" [");
    text::push_padded_hex(out, d.vendor_id as u64, 4);
    out.append(":");
    text::push_padded_hex(out, d.device_id as u64, 4);
    out.append("]");
    assert(out@ =~= old(out)@ + id_text(*d));
}

fn push_header(out: &mut String, h: &HeaderType)
    ensures
        final(out)@ == old(out)@ + header_text(*h),
{
    match *h {
        HeaderType::Endpoint => out.append("Endpoint"),
        HeaderType::PciPciBridge => out.append("PciPciBridge"),
        HeaderType::CardBusBridge => out.append("CardBusBridge"),
        HeaderType::Unknown(n) => {
            out.append("Unknown(");
            text::push_decimal(out, n as u64);
            out.append(")");
            assert(out@ =~= old(out)@ + header_text(*h));
        },
    }
}

/// Describes a function with given names.
pub fn describe_with(d: &PciDevice, names: &Names) -> (r: String)
    requires
        d.wf(),
    ensures
        r@ == description(*d, names.class@, names.vendor@, names.device@),
{
    let mut out = String::new();
    push_place(&mut out, d);
    match d.header_type {
        HeaderType::Endpoint => {
            out.append(names.class);
            out.append(" [");
            text::push_padded_hex(&mut out, d.class_id as u64, 2);
            text::push_padded_hex(&mut out, d.subclass_id as u64, 2);
            out.append("]: ");
            out.append(names.vendor);
            out.append(" ");
            out.append(names.device);
            push_id(&mut out, d);
            if d.irq_line != 0 && d.irq_line != 255 {
                out.append(", IRQ ");
                text::push_decimal(&mut out, d.irq_line as u64);
            }
            push_bars(&mut out, &d.bars);
        },
        _ => {
            push_header(&mut out, &d.header_type);
            push_id(&mut out, d);
        },
    }
    assert(out@ =~= description(*d, names.class@, names.vendor@, names.device@));
    out
}

/// Describes a function, with the names that the database of PCI identifiers has.
pub fn describe(d: &PciDevice) -> (r: String)
    requires
        d.wf(),
    ensures
        r@ == description(
            *d,
            chosen_class(
                names::subclass_name_of(d.class_id, d.subclass_id),
                names::class_name_of(d.class_id),
            ),
            chosen_device(names::device_names_of(d.vendor_id, d.device_id)).0,
            chosen_device(names::device_names_of(d.vendor_id, d.device_id)).1,
        ),
{
    let names = choose_names(
        names::subclass_name(d.class_id, d.subclass_id),
        names::class_name(d.class_id),
        names::device_names(d.vendor_id, d.device_id),
    );
    describe_with(d, &names)
}

} // verus!
