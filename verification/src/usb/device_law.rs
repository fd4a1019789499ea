//! What the controller and a device are told, word by word.

use vstd::prelude::*;
use vstd::arithmetic::power2;

use crate::usb::context;
use crate::usb::context::EndpointContext;
use crate::usb::context::InputContext;
use crate::usb::device;
use crate::usb::device::NewDevice;
use crate::usb::setup::EndpointDesc;
use crate::usb::transfer;

verus! {

/// The type in an endpoint's context is the transfer type of the endpoint, and four more where
/// data comes in; for a control endpoint it is four. So endpoints other than control endpoints
/// that differ in transfer type or direction have different types.
pub proof fn law_endpoint_type_tells_kind_and_direction(a: u8, b: u8, a_in: bool, b_in: bool)
    requires
        a < 4,
        b < 4,
    ensures
        a > 0 ==> device::endpoint_type(a, a_in) == a + (if a_in {
            4int
        } else {
            0
        }),
        device::endpoint_type(0, a_in) == 4,
        a > 0 && b > 0 && device::endpoint_type(a, a_in) == device::endpoint_type(b, b_in) ==> a
            == b && a_in == b_in,
{
}

/// The interval of an endpoint is an exponent of units of 125 microseconds: that of a fast
/// device is one less than the device says, that of another the least with which the interval
/// is no shorter than the milliseconds that it says.
pub proof fn law_interval_is_no_shorter(speed: u8, interval: u8)
    requires
        1 <= interval,
    ensures
        speed >= 3 ==> device::interval_of(speed, interval) == interval - 1,
        speed < 3 ==> {
            let n = device::interval_of(speed, interval) as nat;
            &&& n >= 3
            &&& power2::pow2(n) >= 8 * interval
            &&& n > 3 ==> power2::pow2((n - 1) as nat) < 8 * interval
        },
{
    power2::lemma2_to64();
}

/// A packet of the control endpoint has 64 bytes at high speed, 512 at super speed and 8 else.
pub proof fn law_control_packet_follows_speed(speed: u8)
    ensures
        speed == 3 ==> device::control_packet(speed) == 64,
        speed == 4 ==> device::control_packet(speed) == 512,
        speed != 3 && speed != 4 ==> device::control_packet(speed) == 8,
{
}

/// Setting an endpoint up tells the controller of that endpoint and of the slot, and of nothing
/// else: its context is the one of its number and direction, and says its type, its packet
/// size, its interval and where its ring is. The contexts of other endpoints stay.
pub proof fn law_endpoint_is_described(
    before: InputContext,
    after: InputContext,
    speed: u8,
    ep: EndpointDesc,
    ring: u64,
)
    requires
        device::endpoint_added(before, after, speed, ep, ring),
        ep.address % 16 > 0,
        ring % 2 == 0,
    ensures
        ({
            let n = 2 * (ep.address as int % 16) + ep.address as int / 128;
            let c = after.endpoints@[n - 1];
            &&& after.input_control@[0] == 0
            &&& after.input_control@[1] == power2::pow2(n as nat) + 1
            &&& forall|i: int|
                2 <= i < 8 ==> #[trigger] after.input_control@[i] == before.input_control@[i]
            &&& forall|i: int|
                0 <= i < 31 && i != n - 1 ==> #[trigger] after.endpoints@[i]
                    == before.endpoints@[i]
            &&& c.dw1 as int / 8 % 8 == (if ep.attributes % 4 == 0 {
                4
            } else {
                ep.attributes as int % 4 + ep.address as int / 128 * 4
            })
            &&& c.dw1 as int / 0x1_0000 == ep.max_packet_size
            &&& c.dw1 as int / 2 % 4 == 3
            &&& c.dw0 as int / 0x1_0000 == device::interval_of(speed, ep.interval)
            &&& c.tr_dequeue_hi * 0x1_0000_0000 + c.tr_dequeue_lo == ring + 1
            &&& after.slot.dw0 as int / 0x800_0000 >= n
            &&& after.slot.dw0 as int / 0x800_0000 >= before.slot.dw0 as int / 0x800_0000
            &&& after.slot.dw0 % 0x800_0000 == before.slot.dw0 % 0x800_0000
            &&& after.slot.dw1 == before.slot.dw1
        }),
{
    let n = transfer::context_index(ep.num(), ep.inward());
    assert(ep.address as int / 128 == if ep.inward() {
        1int
    } else {
        0
    });
    assert(n == 2 * (ep.address as int % 16) + ep.address as int / 128);
    assert(0 < n < 32);
    context::law_endpoint_context_fields(
        device::endpoint_type(ep.kind(), ep.inward()),
        ep.max_packet_size,
        0,
        device::interval_of(speed, ep.interval),
        ring,
    );
    device::law_context_entries_grow(before.slot, n as u32);
    let k = n as u32;
    let bit = 1u32 << k;
    power2::lemma2_to64();
    if n < 31 {
        power2::lemma_pow2_strictly_increases(n as nat, 31);
    }
    vstd::bits::lemma_u32_shl_is_mul(1, k);
    assert(bit == power2::pow2(n as nat));
    power2::lemma_pow2_unfold(n as nat);
    assert(bit % 2 == 0);
    assert(bit % 2 == 0 ==> bit | 1 == bit + 1) by (bit_vector);
    let x = before.slot.dw0;
    let y = after.slot.dw0;
    vstd::bits::lemma_u32_shr_is_div(x, 27);
    vstd::bits::lemma_u32_shr_is_div(y, 27);
    assert(power2::pow2(27) == 0x800_0000);
}

/// A new device is described by its speed and its port, counted from one, and by its control
/// endpoint, of which there is one context: type 4, the packet size of its speed, its ring.
pub proof fn law_new_device_is_described(m: NewDevice)
    requires
        m.port < 255,
        m.speed < 16,
        m.control_ring % 2 == 0,
    ensures
        m.slot_context().dw0 == m.speed * 0x10_0000 + 0x800_0000,
        m.slot_context().dw1 == (m.port + 1) * 65536,
        m.slot_context().dw2 == 0 && m.slot_context().dw3 == 0,
        ({
            let c = m.control_context();
            &&& c.dw0 == 0
            &&& c.dw1 == 6 + 4 * 8 + device::control_packet(m.speed) * 65536
            &&& c.tr_dequeue_hi * 0x1_0000_0000 + c.tr_dequeue_lo == m.control_ring + 1
        }),
{
    let speed = m.speed;
    let port = (m.port + 1) as u8;
    let packet = device::control_packet(m.speed);
    let none: u8 = 0;
    assert(speed < 16 ==> (0u32 & 0xfffff) | ((speed as u32) << 20u32) | ((1u8 as u32) << 27u32)
        == speed * 0x10_0000 + 0x800_0000 && (port as u32) << 16u32 == port * 65536 && (3u32
        << 1u32) | ((4u8 as u32) << 3u32) | ((0u8 as u32) << 8u32) | ((packet as u32) << 16u32) == 6
        + 32 + packet * 65536 && (0u8 as u32) << 16u32 == 0) by (bit_vector);
    context::law_endpoint_context_fields(4, packet, 0, 0, m.control_ring);
}

/// A context stands in memory as the controller reads it: eight words of flags, eight of the
/// slot, and eight of each endpoint, in their order.
pub proof fn law_contexts_stand_in_order(c: InputContext, k: int, j: int)
    requires
        0 <= k < 31,
        0 <= j < 8,
    ensures
        c.words_of().len() == 264,
        c.words_of()[j] == c.input_control@[j],
        c.words_of()[8] == c.slot.dw0,
        c.words_of()[9] == c.slot.dw1,
        c.words_of()[10] == c.slot.dw2,
        c.words_of()[11] == c.slot.dw3,
        c.words_of()[16 + 8 * k] == c.endpoints@[k].dw0,
        c.words_of()[17 + 8 * k] == c.endpoints@[k].dw1,
        c.words_of()[18 + 8 * k] == c.endpoints@[k].tr_dequeue_lo,
        c.words_of()[19 + 8 * k] == c.endpoints@[k].tr_dequeue_hi,
        c.words_of()[20 + 8 * k] == c.endpoints@[k].dw4,
{
    lemma_endpoint_words(c.endpoints@, k);
}

proof fn lemma_endpoint_words(es: Seq<EndpointContext>, k: int)
    requires
        0 <= k < es.len(),
    ensures
        context::endpoint_words(es).len() == 8 * es.len(),
        context::endpoint_words(es)[8 * k] == es[k].dw0,
        context::endpoint_words(es)[8 * k + 1] == es[k].dw1,
        context::endpoint_words(es)[8 * k + 2] == es[k].tr_dequeue_lo,
        context::endpoint_words(es)[8 * k + 3] == es[k].tr_dequeue_hi,
        context::endpoint_words(es)[8 * k + 4] == es[k].dw4,
    decreases es.len(),
{
    lemma_endpoint_len(es.drop_last());
    if k < es.len() - 1 {
        lemma_endpoint_words(es.drop_last(), k);
    }
}

proof fn lemma_endpoint_len(es: Seq<EndpointContext>)
    ensures
        context::endpoint_words(es).len() == 8 * es.len(),
    decreases es.len(),
{
    if es.len() > 0 {
        lemma_endpoint_len(es.drop_last());
    }
}

} // verus!
