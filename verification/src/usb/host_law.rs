//! What bringing a controller up finds out, and what it sets up in memory.

use vstd::prelude::*;

use crate::usb::dma;
use crate::usb::init::InitHost;
use crate::usb::init::InitParams;
use crate::usb::walk;
use crate::usb::walk::RegisterRequest;
use crate::usb::walk::Walk;
use crate::usb::walk::WalkPhase;
use crate::usb::xhci;
use crate::usb::xhci::HostPhase;
use crate::usb::xhci::HostReply;
use crate::usb::xhci::HostRequest;
use crate::usb::xhci::HostSetup;
use crate::usb::xhci::HostTable;
use crate::usb::walk::SupportedProtocol;

verus! {

/// The protocols that the capabilities from `at` on describe, in their order: no more than 64
/// capabilities, in the first 4096 bytes of the registers and behind the first 64. The next one
/// is as many words on as the second byte of a capability says.
pub open spec fn protocols_at(regs: spec_fn(int) -> u32, at: int, steps: int) -> Seq<SupportedProtocol>
    decreases 64 - steps,
{
    if at < 64 || at + 4 > 4096 || steps >= 64 {
        Seq::empty()
    } else {
        protocol_here(regs, at) + protocols_behind(regs, at, steps + 1)
    }
}

/// The protocols that the capabilities behind the one at `at` describe.
pub open spec fn protocols_behind(regs: spec_fn(int) -> u32, at: int, steps: int) -> Seq<
    SupportedProtocol,
>
    decreases 64 - steps,
    when steps <= 64
{
    let next = regs(at) as int / 256 % 256 * 4;
    if next == 0 || steps >= 64 {
        Seq::empty()
    } else if at + next < 64 || at + next + 4 > 4096 {
        Seq::empty()
    } else {
        protocol_here(regs, at + next) + protocols_behind(regs, at + next, steps + 1)
    }
}

/// The protocol that the capability at `at` describes, if it is one that does: its type is 2, and
/// it has ports. Its third word has the first port and their number, its fourth the slot type.
pub open spec fn protocol_here(regs: spec_fn(int) -> u32, at: int) -> Seq<SupportedProtocol> {
    let p = regs(at + 8) as int;
    if regs(at) % 256 == 2 && p % 256 != 0 && p / 256 % 256 != 0 {
        seq![
            SupportedProtocol {
                compatible_port_offset: (p % 256) as u8,
                compatible_port_count: (p / 256 % 256) as u8,
                slot_type: (regs(at + 12) as int % 32) as u8,
            },
        ]
    } else {
        Seq::empty()
    }
}

/// Answers to each request in turn: registers hold what they hold, but for the ownership of the
/// controller, which changes.
pub open spec fn is_walk(regs: spec_fn(int) -> u32, ms: Seq<Walk>, values: Seq<u32>) -> bool {
    &&& ms.len() == values.len() + 1
    &&& forall|i: int|
        0 <= i < values.len() ==> {
            &&& ms[i + 1] == #[trigger] ms[i].after(values[i])
            &&& ms[i].phase != WalkPhase::Release ==> (ms[i].request()
                matches RegisterRequest::Read { offset } ==> values[i] == regs(offset as int))
        }
}

spec fn goes_on(regs: spec_fn(int) -> u32, m: Walk) -> Seq<SupportedProtocol> {
    match m.phase {
        WalkPhase::Capability => protocol_here(regs, m.offset) + protocols_behind(
            regs,
            m.offset,
            m.steps,
        ),
        WalkPhase::ProtocolName | WalkPhase::ProtocolPorts | WalkPhase::ProtocolSlot =>
            protocol_here(regs, m.offset) + protocols_behind(regs, m.offset, m.steps),
        WalkPhase::Done => Seq::empty(),
        _ => protocols_behind(regs, m.offset, m.steps),
    }
}

proof fn lemma_walk(regs: spec_fn(int) -> u32, ms: Seq<Walk>, values: Seq<u32>, n: int)
    requires
        is_walk(regs, ms, values),
        ms[0].steps <= 64,
        ms[0].phase == WalkPhase::Capability || ms[0].phase == WalkPhase::Done,
        ms[0].phase == WalkPhase::Capability ==> 64 <= ms[0].offset && ms[0].offset + 4 <= 4096
            && 0 <= ms[0].steps,
        0 <= n <= values.len(),
    ensures
        ms[n].protocols + goes_on(regs, ms[n]) == ms[0].protocols + goes_on(regs, ms[0]),
        ms[n].steps <= 64,
        ms[n].phase != WalkPhase::Done ==> 64 <= ms[n].offset && ms[n].offset + 4 <= 4096 && 0
            <= ms[n].steps,
        ms[n].phase != WalkPhase::Done && ms[n].phase != WalkPhase::Capability ==> ms[n].cap
            == regs(ms[n].offset),
        ms[n].phase == WalkPhase::Claim || ms[n].phase == WalkPhase::Release || ms[n].phase
            == WalkPhase::ClearSmi ==> ms[n].cap % 256 == 1,
        ms[n].phase == WalkPhase::ProtocolName || ms[n].phase == WalkPhase::ProtocolPorts
            || ms[n].phase == WalkPhase::ProtocolSlot ==> ms[n].cap % 256 == 2,
        ms[n].phase == WalkPhase::ProtocolSlot ==> ms[n].ports == regs(ms[n].offset + 8),
    decreases n,
{
    if n > 0 {
        lemma_walk(regs, ms, values, n - 1);
        let m = ms[n - 1];
        let v = values[n - 1];
        assert(ms[n - 1 + 1] == m.after(v));
        let none: Seq<SupportedProtocol> = Seq::empty();
        let here = protocol_here(regs, m.offset);
        let behind = protocols_behind(regs, m.offset, m.steps);
        assert(none + behind =~= behind);
        assert((m.protocols + here) + behind =~= m.protocols + (here + behind));
        assert(m.protocols + none =~= m.protocols);
        if m.phase == WalkPhase::ProtocolSlot {
            let p = walk::protocol_of(m.ports, v);
            if p.compatible_port_offset != 0 && p.compatible_port_count != 0 {
                assert(m.protocols.push(p) =~= m.protocols + here);
            }
            assert((m.protocols + here) + none =~= m.protocols + here);
        }
        assert(here + none =~= here);
        assert(behind + none =~= behind);
    }
}

/// The protocols of a controller's ports that are found are those that its capabilities
/// describe.
pub proof fn law_protocols_are_found(
    regs: spec_fn(int) -> u32,
    ms: Seq<Walk>,
    values: Seq<u32>,
    at: int,
)
    requires
        ms.len() > 0,
        is_walk(regs, ms, values),
        ms[0] == Walk::begin(at),
        ms.last().phase == WalkPhase::Done,
    ensures
        ms.last().protocols == protocols_at(regs, at, 0),
{
    lemma_walk(regs, ms, values, values.len() as int);
    let none: Seq<SupportedProtocol> = Seq::empty();
    assert(none + goes_on(regs, ms[0]) =~= goes_on(regs, ms[0]));
    assert(ms.last().protocols + none =~= ms.last().protocols);
    assert(ms[0].protocols + none =~= none);
}

/// The firmware is made to give a controller up: its owner is set, its release waited for as long
/// as 250000 looks, and its interrupts are cleared. Of all capabilities nothing else is written.
pub proof fn law_firmware_gives_up(m: Walk, v: u32)
    requires
        0 <= m.offset < 4096,
    ensures
        (m.request() is Write) == (m.phase == WalkPhase::Claim || m.phase == WalkPhase::ClearSmi),
        !(m.request() is WriteWide),
        m.phase == WalkPhase::Claim ==> (m.request() matches RegisterRequest::Write { offset, value }
            && offset == m.offset && value == m.cap - m.cap / 0x100_0000 % 2 * 0x100_0000
            + 0x100_0000),
        m.phase == WalkPhase::ClearSmi ==> m.request() == (RegisterRequest::Write {
            offset: (m.offset + 4) as u64,
            value: 0xe000_0000,
        }),
        m.phase == WalkPhase::Capability && v % 256 == 1 ==> m.after(v).phase == WalkPhase::Claim,
        m.phase == WalkPhase::Claim ==> m.after(v).phase == WalkPhase::Release,
        m.phase == WalkPhase::Release ==> m.request() == (RegisterRequest::Read {
            offset: m.offset as u64,
        }) && m.after(v).phase == (if v / 0x1_0000 % 2 == 1 && m.polls < 250_000 {
            WalkPhase::Release
        } else {
            WalkPhase::ClearSmi
        }),
{
    let c = m.cap;
    assert(c | 0x100_0000 == c - c / 0x100_0000 % 2 * 0x100_0000 + 0x100_0000 && (v & 0x1_0000
        != 0) == (v / 0x1_0000 % 2 == 1)) by (bit_vector);
}

/// The slot type of a port is that of the first protocol that has the port among its own, and
/// zero where none has.
pub proof fn law_slot_type_of_port(ps: Seq<SupportedProtocol>, port: int, k: int)
    requires
        0 <= port < 255,
        0 <= k <= ps.len(),
        forall|j: int|
            0 <= j < k ==> !((#[trigger] ps[j]).compatible_port_offset <= port < ps[j].compatible_port_offset
                + ps[j].compatible_port_count),
        k < ps.len() ==> ps[k].compatible_port_offset <= port < ps[k].compatible_port_offset
            + ps[k].compatible_port_count,
    ensures
        xhci::slot_type_of(ps, port, 0) == if k < ps.len() {
            ps[k].slot_type as int
        } else {
            0
        },
{
    lemma_slot_type(ps, port, k, 0);
}

proof fn lemma_slot_type(ps: Seq<SupportedProtocol>, port: int, k: int, from: int)
    requires
        0 <= port < 255,
        0 <= from <= k <= ps.len(),
        forall|j: int|
            0 <= j < k ==> !((#[trigger] ps[j]).compatible_port_offset <= port < ps[j].compatible_port_offset
                + ps[j].compatible_port_count),
        k < ps.len() ==> ps[k].compatible_port_offset <= port < ps[k].compatible_port_offset
            + ps[k].compatible_port_count,
    ensures
        xhci::slot_type_of(ps, port, from) == if k < ps.len() {
            ps[k].slot_type as int
        } else {
            0
        },
    decreases k - from,
{
    if from < k {
        assert(!xhci::covers(ps[from], port));
        lemma_slot_type(ps, port, k, from + 1);
    }
}

/// The first seven steps: the registers are mapped, and seven of them tell how long the
/// capability registers are, how many slots and ports there are, how many scratchpad buffers are
/// wanted, and where the other registers and the first capability stand.
pub proof fn law_host_is_asked(
    page: u64,
    cap: u32,
    hcs1: u32,
    hcs2: u32,
    db: u32,
    rts: u32,
    hcc: u32,
)
    ensures
        ({
            let m0 = HostSetup::begin(page);
            let m1 = m0.after(HostReply::Mapped(true));
            let m2 = m1.after(HostReply::Value(cap));
            let m3 = m2.after(HostReply::Value(hcs1));
            let m4 = m3.after(HostReply::Value(hcs2));
            let m5 = m4.after(HostReply::Value(db));
            let m6 = m5.after(HostReply::Value(rts));
            let m7 = m6.after(HostReply::Value(hcc));
            let p = m7.params;
            &&& m0.request() == HostRequest::MapMmio { size: 4096 }
            &&& m1.request() == HostRequest::ReadByte { offset: 0 }
            &&& m2.request() == HostRequest::Registers(RegisterRequest::Read { offset: 4 })
            &&& m3.request() == HostRequest::Registers(RegisterRequest::Read { offset: 8 })
            &&& m4.request() == HostRequest::Registers(RegisterRequest::Read { offset: 0x14 })
            &&& m5.request() == HostRequest::Registers(RegisterRequest::Read { offset: 0x18 })
            &&& m6.request() == HostRequest::Registers(RegisterRequest::Read { offset: 0x10 })
            &&& m7.walk == Walk::begin(hcc as int / 65536 * 4)
            &&& p.cap_length == cap % 256
            &&& p.slots() == hcs1 % 256
            &&& p.ports() == hcs1 as int / 0x100_0000
            &&& p.pads() == hcs2 as int / 0x800_0000 + 32 * (hcs2 as int / 0x20_0000 % 32)
            &&& p.db_offset == db && p.rts_offset == rts && p.page_size == page
            &&& p.register_bytes() >= 0x1_0000
            &&& p.register_bytes() >= rts + 0x40
            &&& p.register_bytes() >= db + 4 * (hcs1 % 256 + 1)
            &&& p.register_bytes() == 0x1_0000 || p.register_bytes() == rts + 0x40
                || p.register_bytes() == db + 4 * (hcs1 % 256 + 1)
        }),
{
}

/// The rest of it: the registers are mapped again, all of them; there is a table of a context for
/// each slot and one more; scratchpad buffers, where there are any, of a page each, are listed in
/// a table of their own, which the first entry of the other names; and there are rings of 256
/// blocks, for commands and for events.
pub proof fn law_host_is_set_up(
    m: HostSetup,
    contexts: u64,
    array: u64,
    buffers: u64,
    ring: u64,
    table: u64,
    events: u64,
)
    requires
        m.phase == HostPhase::Unmap,
        m.params.pads() * m.params.page_size <= u64::MAX,
    ensures
        ({
            let n = m.params.pads();
            let m1 = m.after(HostReply::Acknowledged);
            let m2 = m1.after(HostReply::Mapped(true));
            let m3 = m2.after(HostReply::Memory(Ok(contexts)));
            let m4 = m3.after(HostReply::Memory(Ok(array)));
            let m5 = m4.after(HostReply::Memory(Ok(buffers)));
            &&& m.request() == HostRequest::UnmapMmio { size: 4096 }
            &&& m1.request() == (HostRequest::MapMmio { size: m.params.register_bytes() as u64 })
            &&& m2.request() == (HostRequest::Allocate {
                size: (8 * (m.params.slots() + 1)) as u64,
                align: 64,
            })
            &&& m3.params.dcbaa == contexts
            &&& n == 0 ==> m3.request() == HostRequest::CommandRing { entries: 256 }
            &&& n > 0 ==> {
                &&& m3.request() == (HostRequest::Allocate { size: (8 * n) as u64, align: 64 })
                &&& m4.request() == (HostRequest::Allocate {
                    size: (n * m.params.page_size) as u64,
                    align: m.params.page_size,
                })
                &&& m5.request() == HostRequest::SetEntry {
                    table: HostTable::Scratchpad,
                    index: 0,
                    value: buffers,
                }
                &&& m5.params.pad_array == array && m5.params.pad_buffers == buffers
                    && m5.params.dcbaa == contexts
            }
        }),
        ({
            let c = m.enters(HostPhase::CommandRing);
            let e = c.after(HostReply::Memory(Ok(ring)));
            let i = e.after(HostReply::EventRing(Ok((table, events))));
            &&& c.request() == HostRequest::CommandRing { entries: 256 }
            &&& e.request() == HostRequest::EventRing { entries: 256 }
            &&& i.init == InitHost::begin(
                InitParams {
                    op_offset: m.params.cap_length as u64,
                    int_offset: (m.params.rts_offset + 0x20) as u64,
                    max_slots: m.params.slots() as u8,
                    dcbaa: m.params.dcbaa,
                    command_ring: ring,
                    event_table: table,
                    event_ring: events,
                },
            )
            &&& i.request() == HostRequest::Registers(i.init.request())
        }),
{
}

/// Each scratchpad buffer is listed, one page behind the other, and their table then named.
pub proof fn law_scratchpad_is_listed(m: HostSetup)
    requires
        m.phase == HostPhase::PadEntry,
        0 <= m.pad < m.params.pads(),
    ensures
        m.request() == (HostRequest::SetEntry {
            table: HostTable::Scratchpad,
            index: m.pad as u64,
            value: (m.params.pad_buffers + m.pad * m.params.page_size) as u64,
        }),
        ({
            let next = m.after(HostReply::Acknowledged);
            if m.pad + 1 < m.params.pads() {
                next == (HostSetup { pad: m.pad + 1, ..m })
            } else {
                &&& next.request() == (HostRequest::SetEntry {
                    table: HostTable::Contexts,
                    index: 0,
                    value: m.params.pad_array,
                })
                &&& next.after(HostReply::Acknowledged).phase == HostPhase::CommandRing
                &&& next.after(HostReply::Acknowledged).params == m.params
            }
        }),
{
}

/// A buffer for the bus is aligned as was asked for, to 4096 at least and to 65536 where it has
/// more than 4096 bytes, and has the fewest bytes that are a multiple of that and not fewer than
/// were asked for.
pub proof fn law_buffers_are_laid_out(size: int, align: int)
    requires
        0 <= size,
        0 < align,
    ensures
        ({
            let a = dma::dma_align(size, align);
            let n = dma::dma_size(size, align);
            &&& a >= align && a >= 4096 && (size > 4096 ==> a >= 65536)
            &&& a == align || a == if size > 4096 {
                65536int
            } else {
                4096
            }
            &&& n >= size && n < size + a && n % a == 0
        }),
{
    crate::align::lemma_rounded_up(size, dma::dma_align(size, align));
}

} // verus!
