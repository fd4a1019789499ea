//! What the PCI bus does, in plain numbers and characters.

use vstd::prelude::*;

use crate::pci::bar;
use crate::pci::bar::Bar;
use crate::pci::describe;
use crate::pci::describe::HeaderType;
use crate::pci::describe::PciDevice;
use crate::pci::error;
use crate::pci::error::PciError;
use crate::pci::init;
use crate::pci::init::NetworkDriver;
use crate::pci::init::PciAction;
use crate::pci::init::Round;
use crate::pci::text;

verus! {

/// What a digit stands for; nothing else is one.
pub open spec fn digit_value(c: char) -> int {
    if 48 <= c as int <= 57 {
        c as int - 48
    } else if 65 <= c as int <= 70 {
        c as int - 55
    } else if 97 <= c as int <= 102 {
        c as int - 87
    } else {
        -1
    }
}

/// The number that digits stand for, the first being the highest.
pub open spec fn number(s: Seq<char>, base: int) -> int
    decreases s.len(),
{
    if s.len() == 0 {
        0
    } else {
        number(s.drop_last(), base) * base + digit_value(s.last())
    }
}

/// Whether all of a text is digits of a base, without small letters.
pub open spec fn all_digits(s: Seq<char>, base: int) -> bool {
    forall|i: int|
        #![trigger s[i]]
        0 <= i < s.len() ==> 0 <= digit_value(s[i]) < base && (s[i] as int) < 97
}

/// Whether all of a text is digits of a base, without capital letters.
pub open spec fn all_small_digits(s: Seq<char>, base: int) -> bool {
    forall|i: int|
        #![trigger s[i]]
        0 <= i < s.len() ==> 0 <= digit_value(s[i]) < base && !(65 <= s[i] as int <= 90)
}

/// The capital hexadecimal digit of a number below sixteen.
pub open spec fn hex_char(d: int) -> char {
    if d < 10 {
        (48 + d) as char
    } else {
        (55 + d) as char
    }
}

/// A byte in two digits.
pub open spec fn hex2(n: int) -> Seq<char> {
    seq![hex_char(n / 16), hex_char(n % 16)]
}

/// Two bytes in four digits.
pub open spec fn hex4(n: int) -> Seq<char> {
    seq![hex_char(n / 4096), hex_char(n / 256 % 16), hex_char(n / 16 % 16), hex_char(n % 16)]
}

proof fn lemma_digit(d: int)
    requires
        0 <= d < 16,
    ensures
        text::digit(d).len() == 1,
        text::digit(d)[0] == hex_char(d),
        text::digit(d) == seq![hex_char(d)],
        digit_value(hex_char(d)) == d,
        (hex_char(d) as int) < 97,
        error::small_digit(d).len() == 1,
        digit_value(error::small_digit(d)[0]) == d,
        !(65 <= error::small_digit(d)[0] as int <= 90),
{
    reveal_strlit("0");
    reveal_strlit("1");
    reveal_strlit("2");
    reveal_strlit("3");
    reveal_strlit("4");
    reveal_strlit("5");
    reveal_strlit("6");
    reveal_strlit("7");
    reveal_strlit("8");
    reveal_strlit("9");
    reveal_strlit("A");
    reveal_strlit("B");
    reveal_strlit("C");
    reveal_strlit("D");
    reveal_strlit("E");
    reveal_strlit("F");
    reveal_strlit("a");
    reveal_strlit("b");
    reveal_strlit("c");
    reveal_strlit("d");
    reveal_strlit("e");
    reveal_strlit("f");
    assert(text::digit(d) =~= seq![hex_char(d)]);
}

/// A number is written as the digits that stand for it, without a zero in front.
pub proof fn law_number_is_written(n: int, base: int)
    requires
        0 <= n,
        2 <= base <= 16,
    ensures
        number(text::in_base(n, base), base) == n,
        all_digits(text::in_base(n, base), base),
        text::in_base(n, base).len() >= 1,
        n > 0 ==> text::in_base(n, base)[0] != '0',
        n < base ==> text::in_base(n, base).len() == 1,
    decreases n,
{
    let s = text::in_base(n, base);
    if n < base {
        lemma_digit(n);
        assert(s.drop_last() =~= Seq::<char>::empty());
        assert(number(s.drop_last(), base) == 0);
    } else {
        assert(0 < n / base < n && 0 <= n % base < base && n / base * base + n % base == n)
            by (nonlinear_arith)
            requires
                n >= base,
                base >= 2,
        ;
        law_number_is_written(n / base, base);
        lemma_digit(n % base);
        assert(s.drop_last() =~= text::in_base(n / base, base));
        assert(s[0] == text::in_base(n / base, base)[0]);
        assert forall|i: int| #![trigger s[i]] 0 <= i < s.len() implies 0 <= digit_value(s[i])
            < base && (s[i] as int) < 97 by {
            if i < s.len() - 1 {
                assert(s[i] == text::in_base(n / base, base)[i]);
            }
        }
    }
}

/// In small letters it is written as the digits that stand for it as well.
pub proof fn law_number_is_written_small(n: int)
    requires
        0 <= n,
    ensures
        number(error::small_hex(n), 16) == n,
        all_small_digits(error::small_hex(n), 16),
        error::small_hex(n).len() >= 1,
        n > 0 ==> error::small_hex(n)[0] != '0',
        n < 16 ==> error::small_hex(n).len() == 1,
    decreases n,
{
    let s = error::small_hex(n);
    if n < 16 {
        lemma_digit(n);
        assert(s.drop_last() =~= Seq::<char>::empty());
        assert(number(s.drop_last(), 16) == 0);
    } else {
        law_number_is_written_small(n / 16);
        lemma_digit(n % 16);
        assert(s.drop_last() =~= error::small_hex(n / 16));
        assert(s[0] == error::small_hex(n / 16)[0]);
        assert forall|i: int| #![trigger s[i]] 0 <= i < s.len() implies 0 <= digit_value(s[i])
            < 16 && !(65 <= s[i] as int <= 90) by {
            if i < s.len() - 1 {
                assert(s[i] == error::small_hex(n / 16)[i]);
            }
        }
    }
}

proof fn lemma_padded(n: int)
    requires
        0 <= n,
    ensures
        n < 256 ==> text::padded_hex(n, 2) == hex2(n),
        n < 65536 ==> text::padded_hex(n, 4) == hex4(n),
{
    reveal_with_fuel(text::padded_hex, 5);
    lemma_digit(n % 16);
    lemma_digit(n / 16 % 16);
    lemma_digit(n / 16 / 16 % 16);
    lemma_digit(n / 16 / 16 / 16 % 16);
    if n < 256 {
        assert(n / 16 % 16 == n / 16);
        assert(text::padded_hex(n, 2) =~= hex2(n));
    }
    if n < 65536 {
        assert(n / 16 / 16 == n / 256);
        assert(n / 16 / 16 / 16 == n / 4096);
        assert(text::padded_hex(n, 4) =~= hex4(n));
    }
}

/// A function is described by where it is, what it is and who made it: its bus and device,
/// the name of its class with the class's two numbers, the names of vendor and device, and
/// their numbers. An interrupt line is told where there is one, and then the base address
/// registers. Of a bridge the kind of its header is told in place of names.
pub proof fn law_function_is_described(
    d: PciDevice,
    class: Seq<char>,
    vendor: Seq<char>,
    device: Seq<char>,
)
    ensures
        d.header_type is Endpoint ==> describe::description(d, class, vendor, device) == hex2(
            d.bus as int,
        ) + ":"@ + hex2(d.device as int) + " "@ + class + " ["@ + hex2(d.class_id as int) + hex2(
            d.subclass_id as int,
        ) + "]: "@ + vendor + " "@ + device + " ["@ + hex4(d.vendor_id as int) + ":"@ + hex4(
            d.device_id as int,
        ) + "]"@ + (if d.irq_line == 0 || d.irq_line == 255 {
            Seq::empty()
        } else {
            ", IRQ "@ + text::in_base(d.irq_line as int, 10)
        }) + describe::bars_text(d.bars@, 0),
        d.header_type !is Endpoint ==> describe::description(d, class, vendor, device) == hex2(
            d.bus as int,
        ) + ":"@ + hex2(d.device as int) + " "@ + (match d.header_type {
            HeaderType::Endpoint => Seq::empty(),
            HeaderType::PciPciBridge => "PciPciBridge"@,
            HeaderType::CardBusBridge => "CardBusBridge"@,
            HeaderType::Unknown(n) => "Unknown("@ + text::in_base(n as int, 10) + ")"@,
        }) + " ["@ + hex4(d.vendor_id as int) + ":"@ + hex4(d.device_id as int) + "]"@,
{
    lemma_padded(d.bus as int);
    lemma_padded(d.device as int);
    lemma_padded(d.class_id as int);
    lemma_padded(d.subclass_id as int);
    lemma_padded(d.vendor_id as int);
    lemma_padded(d.device_id as int);
    let v = hex4(d.vendor_id as int);
    let p = hex4(d.device_id as int);
    let place = hex2(d.bus as int) + ":"@ + hex2(d.device as int) + " "@;
    lemma_joined(
        place + class + " ["@ + hex2(d.class_id as int) + hex2(d.subclass_id as int) + "]: "@
            + vendor + " "@ + device,
        v,
        p,
    );
    lemma_joined(place + describe::header_text(d.header_type), v, p);
}

proof fn lemma_joined(x: Seq<char>, v: Seq<char>, p: Seq<char>)
    ensures
        x + (" ["@ + v + ":"@ + p + "]"@) == x + " ["@ + v + ":"@ + p + "]"@,
{
    assert(x + (" ["@ + v + ":"@ + p + "]"@) =~= x + " ["@ + v + ":"@ + p + "]"@);
}

/// The registers are told in their order: each that holds something, with its number and what
/// it holds. What stands behind a register of 64-bit addresses is its other half, and is not
/// told on its own.
#[verifier::rlimit(40)]
pub proof fn law_registers_are_described(bars: Seq<Option<Bar>>, slot: int)
    requires
        0 <= slot < bars.len() <= 10,
    ensures
        bars[slot] is None ==> describe::bars_text(bars, slot) == describe::bars_text(
            bars,
            slot + 1,
        ),
        bars[slot] matches Some(Bar::Io { port }) ==> describe::bars_text(bars, slot) == ", BAR"@
            + seq![(48 + slot) as char] + " IO { port: 0x"@ + text::in_base(port as int, 16)
            + " }"@ + describe::bars_text(bars, slot + 1),
        bars[slot] matches Some(Bar::Memory32 { address, size, prefetchable })
            ==> describe::bars_text(bars, slot) == ", BAR"@ + seq![(48 + slot) as char]
            + " Memory32 { address: 0x"@ + text::in_base(address as int, 16) + ", size: 0x"@
            + text::in_base(size as int, 16) + ", prefetchable: "@ + (if prefetchable {
            "true"@
        } else {
            "false"@
        }) + " }"@ + describe::bars_text(bars, slot + 1),
        bars[slot] matches Some(Bar::Memory64 { base, length, prefetchable })
            ==> describe::bars_text(bars, slot) == ", BAR"@ + seq![(48 + slot) as char]
            + " Memory64 { address: 0x"@ + text::in_base(base as int, 16) + ", size: 0x"@
            + text::in_base(length as int, 16) + ", prefetchable: "@ + (if prefetchable {
            "true"@
        } else {
            "false"@
        }) + " }"@ + describe::bars_text(bars, slot + 2),
        forall|end: int| bars.len() <= end ==> #[trigger] describe::bars_text(bars, end) == Seq::<
            char,
        >::empty(),
{
    reveal_strlit("0x");
    reveal_strlit(", size: ");
    reveal_strlit(", size: 0x");
    reveal_strlit(" IO { port: ");
    reveal_strlit(" IO { port: 0x");
    reveal_strlit(" Memory32 { address: ");
    reveal_strlit(" Memory32 { address: 0x");
    reveal_strlit(" Memory64 { address: ");
    reveal_strlit(" Memory64 { address: 0x");
    assert(", size: "@ + "0x"@ =~= ", size: 0x"@);
    assert(" IO { port: "@ + "0x"@ =~= " IO { port: 0x"@);
    assert(" Memory32 { address: "@ + "0x"@ =~= " Memory32 { address: 0x"@);
    assert(" Memory64 { address: "@ + "0x"@ =~= " Memory64 { address: 0x"@);
    lemma_digit(slot);
    assert(text::in_base(slot, 10) =~= seq![(48 + slot) as char]);
    let all = describe::bars_text(bars, slot);
    match bars[slot] {
        None => {},
        Some(Bar::Io { port }) => {
            assert(all =~= ", BAR"@ + seq![(48 + slot) as char] + (" IO { port: "@ + "0x"@)
                + text::in_base(port as int, 16) + " }"@ + describe::bars_text(bars, slot + 1));
        },
        Some(Bar::Memory32 { address, size, prefetchable }) => {
            assert(all =~= ", BAR"@ + seq![(48 + slot) as char] + (" Memory32 { address: "@
                + "0x"@) + text::in_base(address as int, 16) + (", size: "@ + "0x"@)
                + text::in_base(size as int, 16) + ", prefetchable: "@ + (if prefetchable {
                "true"@
            } else {
                "false"@
            }) + " }"@ + describe::bars_text(bars, slot + 1));
        },
        Some(Bar::Memory64 { base, length, prefetchable }) => {
            assert(all =~= ", BAR"@ + seq![(48 + slot) as char] + (" Memory64 { address: "@
                + "0x"@) + text::in_base(base as int, 16) + (", size: "@ + "0x"@)
                + text::in_base(length as int, 16) + ", prefetchable: "@ + (if prefetchable {
                "true"@
            } else {
                "false"@
            }) + " }"@ + describe::bars_text(bars, slot + 2));
        },
    }
}

/// The line on which an endpoint interrupts: it has one of four pins, and one of the sixteen
/// lines or line 254.
pub open spec fn own_line(d: PciDevice) -> bool {
    d.header_type is Endpoint && 0 < d.irq_pin < 5 && (d.irq_line < 16 || d.irq_line == 254)
}

/// A line is that of the function where the function has one of its own.
pub proof fn law_interrupt_line(pin: u8, line: u8)
    ensures
        bar::irq_of(pin, line) is Some <==> 0 < pin < 5 && (line < 16 || line == 254),
        bar::irq_of(pin, line) matches Some(l) ==> l == line,
{
}

proof fn lemma_round_contains(round: Round, devices: Seq<PciDevice>, n: int, a: PciAction)
    requires
        0 <= n <= devices.len(),
    ensures
        init::round_plan(round, devices, n).contains(a) <==> exists|k: int|
            0 <= k < n && #[trigger] init::round_actions(
                round,
                k as usize,
                devices[k],
            ).contains(a),
    decreases n,
{
    if n > 0 {
        lemma_round_contains(round, devices, n - 1, a);
        let before = init::round_plan(round, devices, n - 1);
        let here = init::round_actions(round, (n - 1) as usize, devices[n - 1]);
        let all = init::round_plan(round, devices, n);
        assert(all == before + here);
        if before.contains(a) {
            let i = choose|i: int| 0 <= i < before.len() && before[i] == a;
            assert(all[i] == a);
        }
        if here.contains(a) {
            let i = choose|i: int| 0 <= i < here.len() && here[i] == a;
            assert(all[before.len() + i] == a);
            assert(init::round_actions(
                round,
                (n - 1) as usize,
                devices[n - 1],
            ).contains(a));
        }
        if all.contains(a) {
            let i = choose|i: int| 0 <= i < all.len() && all[i] == a;
            if i < before.len() {
                assert(before[i] == a);
                assert(before.contains(a));
            } else {
                assert(here[i - before.len()] == a);
                assert(here.contains(a));
            }
        }
    }
}

proof fn lemma_plan_contains(driver: NetworkDriver, devices: Seq<PciDevice>, a: PciAction)
    ensures
        init::init_plan(driver, devices).contains(a) <==> exists|k: int|
            0 <= k < devices.len() && (init::round_actions(
                Round::Network(driver),
                k as usize,
                #[trigger] devices[k],
            ).contains(a) || init::round_actions(Round::Storage, k as usize, devices[k]).contains(
                a,
            ) || init::round_actions(Round::Usb, k as usize, devices[k]).contains(a)),
{
    let n = devices.len() as int;
    lemma_round_contains(Round::Network(driver), devices, n, a);
    lemma_round_contains(Round::Storage, devices, n, a);
    lemma_round_contains(Round::Usb, devices, n, a);
    let x = init::round_plan(Round::Network(driver), devices, n);
    let y = init::round_plan(Round::Storage, devices, n);
    let z = init::round_plan(Round::Usb, devices, n);
    let all = init::init_plan(driver, devices);
    assert(all == x + y + z);
    if x.contains(a) {
        let i = choose|i: int| 0 <= i < x.len() && x[i] == a;
        assert(all[i] == a);
    }
    if y.contains(a) {
        let i = choose|i: int| 0 <= i < y.len() && y[i] == a;
        assert(all[x.len() + i] == a);
    }
    if z.contains(a) {
        let i = choose|i: int| 0 <= i < z.len() && z[i] == a;
        assert(all[x.len() + y.len() + i] == a);
    }
    if all.contains(a) {
        let i = choose|i: int| 0 <= i < all.len() && all[i] == a;
        if i < x.len() {
            assert(x[i] == a);
            assert(x.contains(a));
        } else if i < x.len() + y.len() {
            assert(y[i - x.len()] == a);
            assert(y.contains(a));
        } else {
            assert(z[i - x.len() - y.len()] == a);
            assert(z.contains(a));
        }
    }
}

/// Which functions are network devices of the driver that is built in.
pub open spec fn network_card(driver: NetworkDriver, d: PciDevice) -> bool {
    d.vendor_id == 0x10ec && match driver {
        NetworkDriver::Rtl8169 => d.device_id == 0x8161 || (0x8167 <= d.device_id <= 0x8169),
        NetworkDriver::Rtl8139 => 0x8138 <= d.device_id <= 0x8139,
        NetworkDriver::Other => false,
    }
}

proof fn lemma_usb_only(index: usize, d: PciDevice, i: int)
    requires
        0 <= i < init::usb_actions(index, d).len(),
    ensures
        init::usb_actions(index, d)[i] matches PciAction::Usb { index: at, irq } ==> at == index
            && irq == (if own_line(d) {
            d.irq_line
        } else {
            192
        }),
        init::usb_actions(index, d)[i] !is Network,
        init::usb_actions(index, d)[i] !is Storage,
{
}

/// A driver takes a function exactly where it can drive it: the network driver the cards of
/// its maker that it knows, the storage driver controllers of its class, and the USB driver
/// host controllers of its class, on the line that they interrupt on or that of messages.
pub proof fn law_drivers_take_functions(driver: NetworkDriver, devices: Seq<PciDevice>, k: int)
    requires
        0 <= k < devices.len() <= usize::MAX,
    ensures
        init::init_plan(driver, devices).contains(PciAction::Network { index: k as usize })
            <==> network_card(driver, devices[k]),
        init::init_plan(driver, devices).contains(PciAction::Storage { index: k as usize }) <==> (
        devices[k].class_id == 1 && devices[k].subclass_id == 6 && devices[k].interface == 1),
        init::init_plan(driver, devices).contains(
            (PciAction::Usb {
                index: k as usize,
                irq: if own_line(devices[k]) {
                    devices[k].irq_line
                } else {
                    192
                },
            }),
        ) <==> (devices[k].class_id == 12 && devices[k].subclass_id == 3 && devices[k].interface
            == 48),
{
    let d = devices[k];
    let a = PciAction::Network { index: k as usize };
    let b = PciAction::Storage { index: k as usize };
    let c = PciAction::Usb {
        index: k as usize,
        irq: if own_line(d) {
            d.irq_line
        } else {
            192
        },
    };
    lemma_plan_contains(driver, devices, a);
    lemma_plan_contains(driver, devices, b);
    lemma_plan_contains(driver, devices, c);
    if network_card(driver, d) {
        assert(init::round_actions(Round::Network(driver), k as usize, d)[0] == a);
        assert(init::round_actions(Round::Network(driver), k as usize, d).contains(a));
    }
    if d.class_id == 1 && d.subclass_id == 6 && d.interface == 1 {
        assert(init::round_actions(Round::Storage, k as usize, d)[0] == b);
        assert(init::round_actions(Round::Storage, k as usize, d).contains(b));
    }
    if d.class_id == 12 && d.subclass_id == 3 && d.interface == 48 {
        let s = init::usb_actions(k as usize, d);
        assert(s.last() == c);
        assert(s[s.len() - 1] == c);
        assert(init::round_actions(Round::Usb, k as usize, d).contains(c));
    }
    assert forall|j: int| #![trigger devices[j]] 0 <= j < devices.len() implies {
        &&& init::round_actions(Round::Network(driver), j as usize, devices[j]).contains(a) ==> j
            == k && network_card(driver, d)
        &&& !init::round_actions(Round::Storage, j as usize, devices[j]).contains(a)
        &&& !init::round_actions(Round::Usb, j as usize, devices[j]).contains(a)
        &&& !init::round_actions(Round::Network(driver), j as usize, devices[j]).contains(b)
        &&& init::round_actions(Round::Storage, j as usize, devices[j]).contains(b) ==> j == k
            && d.class_id == 1 && d.subclass_id == 6 && d.interface == 1
        &&& !init::round_actions(Round::Usb, j as usize, devices[j]).contains(b)
        &&& !init::round_actions(Round::Network(driver), j as usize, devices[j]).contains(c)
        &&& !init::round_actions(Round::Storage, j as usize, devices[j]).contains(c)
        &&& init::round_actions(Round::Usb, j as usize, devices[j]).contains(c) ==> j == k
            && d.class_id == 12 && d.subclass_id == 3 && d.interface == 48
    } by {
        let s = init::round_actions(Round::Usb, j as usize, devices[j]);
        assert forall|i: int| #![trigger s[i]] 0 <= i < s.len() implies s[i] != a && s[i] != b && (
        s[i] == c ==> j == k) by {
            lemma_usb_only(j as usize, devices[j], i);
        }
    }
}

/// What is written to a host controller before it is brought up: all its ports are routed to
/// it and it is woken where Intel made it, twice on two of them; and messages are switched on
/// at the first processor where it has no line of its own.
pub proof fn law_host_controller_is_prepared(index: usize, d: PciDevice)
    ensures
        ({
            let ports = seq![
                PciAction::Write { index, offset: 0xd0, value: 0xffff_ffff },
                PciAction::Write { index, offset: 0xd8, value: 0xffff_ffff },
                PciAction::Write { index, offset: 0x38, value: 0xffff_ffff },
                PciAction::Write { index, offset: 0x74, value: 0 },
            ];
            let messages = seq![
                PciAction::Write { index, offset: 0x84, value: 0xfee0_0000 },
                PciAction::Write { index, offset: 0x88, value: 224 },
                PciAction::SetBits { index, offset: 0x80, bits: 65536 },
            ];
            let routed = if d.vendor_id != 0x8086 {
                Seq::empty()
            } else if d.device_id == 0x9d2f || d.device_id == 0xa12f {
                ports + ports
            } else {
                ports
            };
            init::usb_actions(index, d) == (if own_line(d) {
                routed + seq![PciAction::Usb { index, irq: d.irq_line }]
            } else {
                routed + messages + seq![PciAction::Usb { index, irq: 192 }]
            })
        }),
{
    let ports = init::port_switch(index);
    assert(Seq::<PciAction>::empty() + ports =~= ports);
    assert(Seq::<PciAction>::empty() + Seq::<PciAction>::empty() =~= Seq::<PciAction>::empty());
    let messages = init::msi_setup(index);
    let last = seq![PciAction::Usb { index, irq: 192 }];
    assert(ports + ports + (messages + last) =~= ports + ports + messages + last);
    assert(ports + (messages + last) =~= ports + messages + last);
    assert(Seq::<PciAction>::empty() + (messages + last) =~= Seq::<PciAction>::empty() + messages
        + last);
}

/// On which controllers a keyboard may be, and which are USB host controllers.
pub proof fn law_controllers_are_known(d: PciDevice)
    ensures
        init::is_xhci(d) <==> d.class_id == 12 && d.subclass_id == 3 && d.interface == 48,
        init::is_serial_io(d) <==> d.class_id == 12 && (d.subclass_id == 5 || d.subclass_id == 128),
{
}

/// A name is that of the database: of the subclass before that of the class.
pub proof fn law_names_are_chosen(
    subclass: Option<Seq<char>>,
    class: Option<Seq<char>>,
    device: Option<(Seq<char>, Seq<char>)>,
)
    ensures
        subclass matches Some(n) ==> describe::chosen_class(subclass, class) == n,
        subclass is None && class is Some ==> describe::chosen_class(subclass, class) == class->0,
        subclass is None && class is None ==> describe::chosen_class(subclass, class)
            == "Unknown Class"@,
        device matches Some(n) ==> describe::chosen_device(device) == n,
        device is None ==> describe::chosen_device(device) == ("Unknown Vendor"@, "Unknown Device"@),
{
}

/// An endpoint's registers are those that it has, up to the sixth, and nothing else has any.
pub proof fn law_endpoints_have_registers(d: PciDevice, slot: u8)
    requires
        d.bars@.len() == 6,
    ensures
        slot < 6 && d.header_type is Endpoint ==> d.bar(slot) == d.bars@[slot as int],
        slot >= 6 || d.header_type !is Endpoint ==> d.bar(slot) is None,
        d.bar(slot) matches Some(Bar::Memory32 { address, size, prefetchable })
            ==> bar::mapped_memory(d.bar(slot)) == Some((address as u64, size as u64)),
        d.bar(slot) matches Some(Bar::Memory64 { base, length, prefetchable })
            ==> bar::mapped_memory(d.bar(slot)) == Some((base, length)),
        d.bar(slot) is None || d.bar(slot)->0 is Io ==> bar::mapped_memory(d.bar(slot)) is None,
{
}

/// An error names the device by its number, in small hexadecimal letters, and the reason.
pub proof fn law_errors_are_told(id: u16)
    ensures
        PciError::General(id).parts() == (id, ". Due to unknown reasosn!"@),
        PciError::NoBar(id).parts() == (id, ". Reason: No BAR's found."@),
        PciError::NoCapPtr(id).parts() == (id, ". Reason: No Capabilities pointer found."@),
        PciError::NoVirtioCaps(id).parts() == (
            id,
            ". Reason: No Virtio capabilities were found."@,
        ),
{
}

} // verus!
