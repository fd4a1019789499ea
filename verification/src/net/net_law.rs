//! What packets, sockets and cards are told, number by number.

use vstd::prelude::*;

use crate::net::dhcp;
use crate::net::dhcp::Act;
use crate::net::dhcp::Cidr;
use crate::net::dhcp::Event;
use crate::net::icmp;
use crate::net::icmp::Af;
use crate::net::ipv4;
use crate::net::ipv4::Checksum;
use crate::net::port;
use crate::net::raw;
use crate::net::rtl8152::PollRx;
use crate::net::rtl8152::RxPoll;
use crate::net::rtl8152::RxRequest;
use crate::net::rtl8169;
use crate::net::rtl8169::Nic;
use crate::net::rtl8169::NicPhase;
use crate::net::rtl8169::NicRequest;
use crate::net::rtl8169::Reg;
use crate::net::socket;
use crate::net::socket::IpAddress;
use crate::net::socket::PollOutcome;
use crate::net::socket::Settings;
use crate::net::socket::SocketOption;

verus! {

/// An interface: its address, its route, and the servers that its socket for names asks.
pub struct Interface {
    pub address: Cidr,
    pub route: Option<u32>,
    pub servers: Option<Seq<u32>>,
    /// How often a socket was made where there was one, or given up where there was none.
    pub clashes: int,
}

/// An interface after an action.
pub open spec fn acted(i: Interface, a: Act) -> Interface {
    match a {
        Act::SetAddress(c) => Interface { address: c, ..i },
        Act::AddDefaultRoute(r) => Interface { route: Some(r), ..i },
        Act::RemoveDefaultRoute => Interface { route: None, ..i },
        Act::RemoveDns => Interface {
            servers: None,
            clashes: if i.servers is Some {
                i.clashes
            } else {
                i.clashes + 1
            },
            ..i
        },
        Act::AddDns(s) => Interface {
            servers: Some(s),
            clashes: if i.servers is None {
                i.clashes
            } else {
                i.clashes + 1
            },
            ..i
        },
    }
}

/// An interface after actions, one after the other.
pub open spec fn acted_all(i: Interface, acts: Seq<Act>) -> Interface
    decreases acts.len(),
{
    if acts.len() == 0 {
        i
    } else {
        acted(acted_all(i, acts.drop_last()), acts.last())
    }
}

proof fn lemma_acted(i: Interface, acts: Seq<Act>, a: Act)
    ensures
        acted_all(i, acts.push(a)) == acted(acted_all(i, acts), a),
{
    assert(acts.push(a).drop_last() =~= acts);
}

/// An interface that is configured has the address and the route that it was given, and asks the
/// servers that it was given, or those before where it was given none. One that loses its
/// configuration has nothing of it left. There is never a second socket for names.
pub proof fn law_interface_is_configured(
    i: Interface,
    address: Cidr,
    router: Option<u32>,
    servers: Seq<u32>,
)
    requires
        i.clashes == 0,
    ensures
        ({
            let event = Event::Configured { address, router, dns_servers: servers };
            let r = acted_all(
                i,
                dhcp::actions_for(event, Some(i.address.address), i.servers is Some),
            );
            &&& r.address == address
            &&& r.route == router
            &&& r.servers == if servers.len() > 0 {
                Some(servers)
            } else {
                i.servers
            }
            &&& r.clashes == 0
        }),
        ({
            let r = acted_all(
                i,
                dhcp::actions_for(
                    Event::Deconfigured,
                    Some(i.address.address),
                    i.servers is Some,
                ),
            );
            if i.address.address == 0 {
                r == i
            } else {
                &&& r.address.address == 0 && r.address.prefix == 0
                &&& r.route is None && r.servers is None && r.clashes == 0
            }
        }),
{
    let none: Seq<Act> = Seq::empty();
    assert(acted_all(i, none) == i);
    let route = match router {
        Some(r) => Act::AddDefaultRoute(r),
        None => Act::RemoveDefaultRoute,
    };
    let a1 = none.push(Act::SetAddress(address));
    let a2 = a1.push(route);
    lemma_acted(i, none, Act::SetAddress(address));
    lemma_acted(i, a1, route);
    lemma_acted(i, a2, Act::RemoveDns);
    lemma_acted(i, a2, Act::AddDns(servers));
    lemma_acted(i, a2.push(Act::RemoveDns), Act::AddDns(servers));
    let event = Event::Configured { address, router, dns_servers: servers };
    let all = dhcp::actions_for(event, Some(i.address.address), i.servers is Some);
    if servers.len() > 0 {
        if i.servers is Some {
            assert(all =~= a2.push(Act::RemoveDns).push(Act::AddDns(servers)));
        } else {
            assert(all =~= a2.push(Act::AddDns(servers)));
        }
    } else {
        assert(all =~= a2);
    }
    let gone = Act::SetAddress(Cidr { address: 0, prefix: 0 });
    let b1 = none.push(gone);
    let b2 = b1.push(Act::RemoveDefaultRoute);
    lemma_acted(i, none, gone);
    lemma_acted(i, b1, Act::RemoveDefaultRoute);
    lemma_acted(i, b2, Act::RemoveDns);
    let lost = dhcp::actions_for(Event::Deconfigured, Some(i.address.address), i.servers is Some);
    if i.address.address != 0 {
        if i.servers is Some {
            assert(lost =~= b2.push(Act::RemoveDns));
        } else {
            assert(lost =~= b2);
        }
    } else {
        assert(lost =~= none);
    }
}

/// The first address of an interface is replaced; where it has none, one is added by a
/// configuration, as far as there is room. The others stay.
pub proof fn law_first_address_is_replaced(addrs: Seq<Cidr>, c: Cidr, configured: bool, room: int, k: int)
    ensures
        ({
            let r = dhcp::addresses_after(addrs, c, configured, room);
            &&& addrs.len() > 0 ==> r.len() == addrs.len() && r[0] == c && (1 <= k < addrs.len()
                ==> r[k] == addrs[k])
            &&& addrs.len() == 0 && configured && room > 0 ==> r == seq![c]
            &&& addrs.len() == 0 && !(configured && room > 0) ==> r.len() == 0
        }),
{
    assert(addrs.len() == 0 ==> addrs.push(c) =~= seq![c]);
}

/// Ports go from 49152 to 65535 and round again.
pub proof fn law_ports_are_ephemeral(p: u16)
    requires
        49152 <= p,
    ensures
        49152 <= port::port_after(p),
        p < 65535 ==> port::port_after(p) == p + 1,
        p == 65535 ==> port::port_after(p) == 49152,
{
}

/// The sum of the words of a header.
pub open spec fn word_sum(p: Seq<u8>, words: int) -> int
    decreases words,
{
    if words <= 0 {
        0
    } else {
        word_sum(p, words - 1) + 256 * p[2 * words - 2] + p[2 * words - 1]
    }
}

/// A packet is a header of twenty bytes and its payload: version four, no options, its length, not
/// to be fragmented, 64 hops, its protocol, its checksum and its addresses. The checksum makes
/// the words of the header add up to a multiple of 65535, where software fills it in, and is
/// zero else.
pub proof fn law_packet_bytes(src: Seq<u8>, dst: Seq<u8>, protocol: u8, checksum: Checksum, payload: Seq<u8>)
    requires
        src.len() == 4,
        dst.len() == 4,
        payload.len() <= 65515,
    ensures
        ({
            let p = ipv4::packet_of(src, dst, protocol, checksum, payload);
            &&& p.len() == 20 + payload.len()
            &&& p[0] == 4 * 16 + 5 && p[1] == 0
            &&& 256 * p[2] + p[3] == 20 + payload.len()
            &&& p[4] == 0 && p[5] == 0 && p[6] == 64 && p[7] == 0
            &&& p[8] == 64 && p[9] == protocol
            &&& p[12] == src[0] && p[13] == src[1] && p[14] == src[2] && p[15] == src[3]
            &&& p[16] == dst[0] && p[17] == dst[1] && p[18] == dst[2] && p[19] == dst[3]
            &&& p.skip(20) == payload
            &&& if checksum == Checksum::Both || checksum == Checksum::Tx {
                word_sum(p, 10) % 65535 == 0
            } else {
                p[10] == 0 && p[11] == 0
            }
        }),
{
    let p = ipv4::packet_of(src, dst, protocol, checksum, payload);
    assert(p.skip(20) =~= payload);
    let total = 20 + payload.len();
    let h = ipv4::header_of(src, dst, protocol, 64, payload.len() as int, checksum.fills());
    assert(forall|k: int| 0 <= k < 20 ==> p[k] == h[k]);
    assert(p[2] == (total / 256) as u8 && p[3] == (total % 256) as u8);
    if checksum.fills() {
        let sum = 0x4500 + total + 0x4000 + (64 * 256 + protocol) + (src[0] * 256 + src[1]) + (src[2]
            * 256 + src[3]) + (dst[0] * 256 + dst[1]) + (dst[2] * 256 + dst[3]);
        let f = sum / 65536 + sum % 65536;
        let g = f / 65536 + f % 65536;
        let c = 65535 - g;
        assert(0 <= g <= 65535);
        assert(p[10] == (c / 256) as u8 && p[11] == (c % 256) as u8);
        assert(256 * p[10] + p[11] == c);
        reveal_with_fuel(word_sum, 11);
        assert(word_sum(p, 10) == sum + c);
        assert(sum == f + 65535 * (sum / 65536));
        assert(f == g + 65535 * (f / 65536));
        let n = 1 + sum / 65536 + f / 65536;
        assert(sum + c == 65535 * n);
        vstd::arithmetic::div_mod::lemma_mod_multiples_basic(n, 65535);
    }
}

/// What is taken out of bytes that are a packet stands behind its header, whose length is four
/// times the lower half of the first byte, as far as there is room. Bytes are a packet where its
/// header is whole and within the packet, and the packet within the bytes.
pub proof fn law_payload_bytes(p: Seq<u8>, room: int, i: int)
    requires
        0 <= room,
    ensures
        ipv4::is_packet(p) == (p.len() >= 20 && p[0] as int % 16 * 4 <= 256 * p[2] + p[3] && 256
            * p[2] + p[3] <= p.len()),
        ipv4::is_packet(p) ==> ({
            let h = p[0] as int % 16 * 4;
            let q = ipv4::payload_of(p, room);
            &&& q.len() == if p.len() - h < room {
                p.len() - h
            } else {
                room
            }
            &&& 0 <= i < q.len() ==> q[i] == p[h + i]
        }),
{
}

/// An address is four bytes, the highest first.
pub proof fn law_address_bytes(a: u32, s: Seq<u8>)
    requires
        s.len() == 4,
    ensures
        raw::octets_of(a).len() == 4,
        ((raw::octets_of(a)[0] * 256 + raw::octets_of(a)[1]) * 256 + raw::octets_of(a)[2]) * 256
            + raw::octets_of(a)[3] == a,
        raw::address_of(s) == ((s[0] * 256 + s[1]) * 256 + s[2]) * 256 + s[3],
{
}

/// Bit `k` of a number.
pub open spec fn bit(v: u16, k: u16) -> bool {
    (v >> k) & 1 == 1
}

/// A poll finds those of the events asked for that there are: bits 2, 8 and 9 where the socket can
/// send, bits 0, 6 and 7 where it can receive. Where there are none it waits for what was asked
/// for; a socket that is closed is invalid, bit 5.
pub proof fn law_polls_find_events(event: u16, can_send: bool, can_recv: bool, k: u16)
    requires
        k < 16,
    ensures
        bit(event & socket::ready_for(can_send, can_recv), k) == (bit(event, k) && (can_send && (k
            == 2 || k == 8 || k == 9) || can_recv && (k == 0 || k == 6 || k == 7))),
        socket::outcome_of(event, 32) == PollOutcome::Ready(32),
        ({
            let found = event & socket::ready_for(can_send, can_recv);
            found != 0 ==> socket::outcome_of(event, found) == PollOutcome::Ready(found)
        }),
        socket::outcome_of(event, 0) == (PollOutcome::Pending {
            on_recv: bit(event, 0) || bit(event, 6) || bit(event, 7),
            on_send: bit(event, 2) || bit(event, 8) || bit(event, 9),
        }),
{
    let s: u16 = if can_send {
        0x0304
    } else {
        0
    };
    let r: u16 = if can_recv {
        0x00c1
    } else {
        0
    };
    assert(((event & (s | r)) >> k) & 1 == 1 <==> (event >> k) & 1 == 1 && (s == 0x0304 && (k == 2
        || k == 8 || k == 9) || r == 0x00c1 && (k == 0 || k == 6 || k == 7))) by (bit_vector)
        requires
            k < 16,
            s == 0 || s == 0x0304,
            r == 0 || r == 0x00c1,
    ;
    assert((event & 0x00c1 != 0) == ((event >> 0u16) & 1 == 1 || (event >> 6u16) & 1 == 1 || (event
        >> 7u16) & 1 == 1) && (event & 0x0304 != 0) == ((event >> 2u16) & 1 == 1 || (event >> 8u16)
        & 1 == 1 || (event >> 9u16) & 1 == 1)) by (bit_vector);
}

/// A receiving transfer that is under way is looked at; where it is over its buffer is given up
/// and a new one begun, and looked at again; one that cannot be begun is tried once more.
pub proof fn law_receiving_goes_on(len: u64, ok: bool)
    ensures
        ({
            let m = PollRx::begin(true, len);
            let f = m.after_poll(RxPoll::Over);
            let a = f.after_free();
            &&& m.request() == RxRequest::Poll
            &&& f.request() == RxRequest::Free
            &&& a.request() == RxRequest::Arm { len }
            &&& !a.armed
            &&& a.after_arm(true).request() == RxRequest::Poll && a.after_arm(true).armed
            &&& a.after_arm(false).request() == RxRequest::Arm { len }
            &&& a.after_arm(false).after_arm(ok).request() == RxRequest::Done
            &&& a.after_arm(false).after_arm(ok).armed == ok
            &&& m.after_poll(RxPoll::Waiting).request() == RxRequest::Done
            &&& m.after_poll(RxPoll::Waiting).armed
        }),
        ({
            let m = PollRx::begin(false, len);
            &&& m.request() == RxRequest::Arm { len }
            &&& m.after_arm(ok).request() == RxRequest::Done && m.after_arm(ok).armed == ok
        }),
{
}

/// The first register of memory.
pub proof fn law_first_memory_register(bars: Seq<Option<crate::pci::bar::Bar>>, from: int)
    requires
        0 <= from <= bars.len(),
    ensures
        ({
            let k = rtl8169::first_memory(bars, from);
            &&& from <= k <= bars.len()
            &&& k < bars.len() ==> bars[k] is Some && !(bars[k]->0 is Io)
            &&& forall|j: int| from <= j < k ==> (#[trigger] bars[j] is None || bars[j]->0 is Io)
        }),
    decreases bars.len() - from,
{
    if from < bars.len() && !rtl8169::is_memory(bars[from]) {
        law_first_memory_register(bars, from + 1);
    }
}

/// A card is mapped and told to use the bus; its address is read, byte by byte; it is reset, and
/// once it has done so its interrupts are masked and cleared, and it is told to receive and send.
pub proof fn law_card_is_brought_up(slot: u8, irq: u8, b0: u8, b1: u8, b2: u8, b3: u8, b4: u8, b5: u8, v: u8)
    requires
        b0 != 0 || b1 != 0 || b2 != 0 || b3 != 0 || b4 != 0 || b5 != 0,
        v / 16 % 2 == 0,
    ensures
        ({
            let m0 = Nic::begin(slot, irq);
            let m1 = m0.after(0);
            let m2 = m1.after(0);
            let m3 = m2.after(b0);
            let m4 = m3.after(b1);
            let m5 = m4.after(b2);
            let m6 = m5.after(b3);
            let m7 = m6.after(b4);
            let m8 = m7.after(b5);
            let m9 = m8.after(0);
            let ma = m9.after(v);
            let mb = ma.after(0);
            let mc = mb.after(0);
            let md = mc.after(0);
            &&& m0.request() == NicRequest::MapBar { slot }
            &&& m1.request() == NicRequest::EnableBus
            &&& m2.request() == NicRequest::Read(Reg::Mac(0))
            &&& m3.request() == NicRequest::Read(Reg::Mac(1))
            &&& m4.request() == NicRequest::Read(Reg::Mac(2))
            &&& m5.request() == NicRequest::Read(Reg::Mac(3))
            &&& m6.request() == NicRequest::Read(Reg::Mac(4))
            &&& m7.request() == NicRequest::Read(Reg::Mac(5))
            &&& m8.request() == NicRequest::Write(Reg::Command, 16)
            &&& m9.request() == NicRequest::Read(Reg::Command)
            &&& ma.request() == NicRequest::Write(Reg::InterruptMask, 0)
            &&& mb.request() == NicRequest::Write(Reg::InterruptStatus, 0xffff)
            &&& mc.request() == NicRequest::Write(Reg::Command, 12)
            &&& md.phase == NicPhase::Done
            &&& md.mac == seq![b0, b1, b2, b3, b4, b5]
            &&& md.irq == irq
        }),
{
    assert(v / 16 % 2 == 0 ==> v & 0x10 == 0) by (bit_vector);
    let none = seq![0u8, 0, 0, 0, 0, 0];
    let mac = none.update(0, b0).update(1, b1).update(2, b2).update(3, b3).update(4, b4).update(
        5,
        b5,
    );
    assert(mac =~= seq![b0, b1, b2, b3, b4, b5]);
    assert(mac != none) by {
        assert(mac[0] == b0 && mac[1] == b1 && mac[2] == b2 && mac[3] == b3 && mac[4] == b4
            && mac[5] == b5);
    }
}

/// A card without an address is not used, and its reset is waited for 100000 times.
pub proof fn law_card_is_waited_for(m: Nic, v: u8)
    requires
        m.mac.len() == 6,
    ensures
        m.phase == NicPhase::ReadMac && m.index == 5 && m.mac.update(5, v) == seq![
            0u8,
            0,
            0,
            0,
            0,
            0,
        ] ==> m.after(v).phase == NicPhase::Failed,
        m.phase == NicPhase::WaitReset && v / 16 % 2 == 1 && m.spins > 0 ==> m.after(v) == (Nic {
            spins: m.spins - 1,
            ..m
        }),
        m.phase == NicPhase::WaitReset && m.spins == 0 ==> m.after(v).phase == NicPhase::Failed,
        Nic::begin(0, 0).spins == 100_000,
{
    assert(v / 16 % 2 == 1 ==> v & 0x10 != 0) by (bit_vector);
}

/// A new socket waits in its calls, as long as it takes; one for control messages is bound to
/// no address of its family.
pub proof fn law_new_sockets(opt: SocketOption)
    ensures
        !Settings::initial().nonblocking,
        Settings::initial().read_timeout is None,
        Settings::initial().write_timeout is None,
        icmp::any_address(Af::Inet) == IpAddress::V4(0),
        icmp::any_address(Af::Inet6) == IpAddress::V6(0),
        opt == SocketOption::Other <==> Settings::initial().option_of(opt) is Err,
{
}

} // verus!
