//! What bringing a network adapter up does to its registers, and what its frames are made of.

use vstd::prelude::*;

use crate::bytes;
use crate::usb::err::UsbError;
use crate::usb::r8152;
use crate::usb::r8152::RxOutcome;
use crate::usb::r8152_setup::AdapterAsk;
use crate::usb::r8152_setup::AdapterPhase;
use crate::usb::r8152_setup::Bringup;
use crate::usb::setup::EndpointDesc;
use crate::usb::setup::SetupPacket;
use crate::usb::trb::Trb;

verus! {

/// The registers of an adapter, in two banks of bytes.
pub struct Registers {
    pub usb: spec_fn(int) -> u8,
    pub pla: spec_fn(int) -> u8,
}

/// A register of the bank that a request names.
pub open spec fn in_bank(r: Registers, index: int, at: int) -> u8 {
    if index / 256 == 1 {
        (r.pla)(at)
    } else {
        (r.usb)(at)
    }
}

/// Whether a request names a bank.
pub open spec fn names_bank(s: SetupPacket) -> bool {
    s.request == 5 && s.index < 512
}

/// Whether byte `i` of four is written.
pub open spec fn writes_byte(s: SetupPacket, i: int) -> bool {
    let e = s.index as int % 256;
    if i == 0 {
        e % 2 == 1
    } else if i == 1 {
        e / 2 % 2 == 1
    } else if i == 2 {
        e / 4 % 2 == 1
    } else {
        i == 3 && e / 8 % 2 == 1
    }
}

/// The bank after a write.
pub open spec fn bank_after(bank: spec_fn(int) -> u8, s: SetupPacket, data: Seq<u8>) -> spec_fn(
    int,
) -> u8 {
    |at: int|
        if s.value <= at < s.value + 4 && writes_byte(s, at - s.value) {
            data[at - s.value]
        } else {
            bank(at)
        }
}

/// The registers after a request.
pub open spec fn after_request(r: Registers, ask: AdapterAsk) -> Registers {
    match ask {
        AdapterAsk::Write { setup, data } => if setup.request_type == 64 && names_bank(setup)
            && setup.length == 4 && data.len() == 4 {
            if setup.index as int / 256 == 1 {
                Registers { pla: bank_after(r.pla, setup, data), ..r }
            } else {
                Registers { usb: bank_after(r.usb, setup, data), ..r }
            }
        } else {
            r
        },
        _ => r,
    }
}

/// Whether what was read is what the registers hold.
pub open spec fn tells(r: Registers, ask: AdapterAsk, data: Seq<u8>) -> bool {
    ask matches AdapterAsk::Read { setup, len } ==> {
        &&& data.len() == len
        &&& setup.request_type == 192 && names_bank(setup) && setup.length == len ==> forall|i: int|
            0 <= i < len ==> #[trigger] data[i] == in_bank(r, setup.index as int, setup.value + i)
    }
}

/// Answers to each request in turn, none of which fails.
pub open spec fn is_bringup(ms: Seq<Bringup>, rs: Seq<Registers>, data: Seq<Seq<u8>>) -> bool {
    &&& ms.len() == data.len() + 1
    &&& rs.len() == data.len() + 1
    &&& forall|i: int|
        0 <= i < data.len() ==> {
            &&& ms[i + 1] == #[trigger] ms[i].after(Ok(()), data[i])
            &&& rs[i + 1] == after_request(rs[i], ms[i].request())
            &&& tells(rs[i], ms[i].request(), data[i])
        }
}

/// How far the registers have come: receiving is switched on, then the control register set, then
/// receiver and sender enabled.
spec fn changed(r: Registers, r0: Registers, receive: bool, control: bool, enable: bool) -> bool {
    &&& forall|at: int|
        #[trigger] (r.pla)(at) == if at == 0xc010 && receive {
            (r0.pla)(at) - (r0.pla)(at) as int % 16 + 15
        } else if at == 0xe813 && enable {
            (r0.pla)(at) - (r0.pla)(at) as int / 4 % 4 * 4 + 12
        } else {
            (r0.pla)(at) as int
        }
    &&& forall|at: int|
        #[trigger] (r.usb)(at) == if at == 0xd406 && control {
            (r0.usb)(at) - (r0.usb)(at) as int / 16 % 2 * 16 - (r0.usb)(at) as int / 128 * 128
        } else {
            (r0.usb)(at) as int
        }
}

proof fn lemma_bits(v: u32, w: u16, b: u8)
    ensures
        v | 0xf == v - v % 16 + 15,
        w & 0xff6f == w - w / 16 % 2 * 16 - w / 128 % 2 * 128,
        b | 0x0c == b - b / 4 % 4 * 4 + 12,
        (b & 4 == 0) == (b / 4 % 2 == 0),
        0x0100u16 | 0xffu16 == 0x01ff,
        0x0000u16 | 0xccu16 == 0x00cc,
        0x0100u16 | 0x88u16 == 0x0188,
{
    assert(v | 0xf == v - v % 16 + 15 && w & 0xff6f == w - w / 16 % 2 * 16 - w / 128 % 2 * 128 && b
        | 0x0c == b - b / 4 % 4 * 4 + 12 && (b & 4 == 0) == (b / 4 % 2 == 0) && 0x0100u16 | 0xffu16
        == 0x01ff && 0x0000u16 | 0xccu16 == 0x00cc && 0x0100u16 | 0x88u16 == 0x0188)
        by (bit_vector);
}

spec fn brought(m: Bringup, r: Registers, r0: Registers) -> bool {
    let mac = forall|i: int| 0 <= i < 6 ==> #[trigger] m.mac[i] == (r0.pla)(0xc000 + i);
    let rx = m.receive == (r0.pla)(0xc010) + 256 * ((r0.pla)(0xc011) + 256 * ((r0.pla)(0xc012) + 256
        * (r0.pla)(0xc013)));
    match m.phase {
        AdapterPhase::ConfigureIn | AdapterPhase::ConfigureOut | AdapterPhase::ReadMac => changed(
            r,
            r0,
            false,
            false,
            false,
        ),
        AdapterPhase::ReadState | AdapterPhase::ReadReceive => mac && m.mac.len() == 6 && changed(
            r,
            r0,
            false,
            false,
            false,
        ),
        AdapterPhase::WriteReceive => mac && m.mac.len() == 6 && rx && changed(
            r,
            r0,
            false,
            false,
            false,
        ),
        AdapterPhase::ReadControl => mac && m.mac.len() == 6 && changed(r, r0, true, false, false),
        AdapterPhase::WriteControl => mac && m.mac.len() == 6 && changed(r, r0, true, false, false)
            && m.control == (r0.usb)(0xd406) + 256 * (r0.usb)(0xd407),
        AdapterPhase::BeforeEnable | AdapterPhase::ReadEnable => mac && m.mac.len() == 6 && changed(
            r,
            r0,
            true,
            true,
            false,
        ),
        AdapterPhase::WriteEnable => mac && m.mac.len() == 6 && changed(r, r0, true, true, false)
            && m.enable == (r0.pla)(0xe813),
        AdapterPhase::Failed => true,
        _ => mac && m.mac.len() == 6 && changed(r, r0, true, true, true),
    }
}

#[verifier::rlimit(60)]
proof fn lemma_step(m: Bringup, r: Registers, r0: Registers, data: Seq<u8>)
    requires
        brought(m, r, r0),
        tells(r, m.request(), data),
    ensures
        brought(m.after(Ok(()), data), after_request(r, m.request()), r0),
{
    lemma_bits(m.receive, m.control, m.enable);
    let r2 = after_request(r, m.request());
    match m.phase {
        AdapterPhase::WriteReceive => {
            reveal(bytes::le32_bytes);
            let v = m.receive | 0xf;
            let d = bytes::le32_bytes(v as int);
            let b0 = (r0.pla)(0xc010) as int;
            assert(v == m.receive - m.receive % 16 + 15);
            assert(v % 256 == b0 - b0 % 16 + 15);
            assert(v as int / 256 == m.receive as int / 256);
            assert(d[0] == v % 256);
            assert(d[1] == v as int / 256 % 256);
            assert(d[2] == v as int / 65536 % 256);
            assert(d[3] == v as int / 0x100_0000);
            assert(d[1] == (r0.pla)(0xc011) && d[2] == (r0.pla)(0xc012) && d[3] == (r0.pla)(
                0xc013,
            ));
        },
        AdapterPhase::ReadControl => {
            assert(data[2] == (r.usb)(0xd404int + 2));
            assert(data[3] == (r.usb)(0xd404int + 3));
        },
        AdapterPhase::WriteControl => {
            let w = m.control & 0xff6f;
            let lo = (r0.usb)(0xd406) as int;
            let hi = (r0.usb)(0xd407) as int;
            assert(m.control == lo + 256 * hi);
            assert(w == m.control - m.control / 16 % 2 * 16 - m.control / 128 % 2 * 128);
            assert(m.control as int / 16 % 2 == lo / 16 % 2);
            assert(m.control as int / 128 % 2 == lo / 128);
            assert(w % 256 == lo - lo / 16 % 2 * 16 - lo / 128 * 128);
            assert(w as int / 256 == hi);
        },
        AdapterPhase::ReadEnable => {
            assert(data[3] == (r.pla)(0xe810int + 3));
        },
        AdapterPhase::ReadReceive => {
            assert(data[0] == (r.pla)(0xc010int + 0));
            assert(data[1] == (r.pla)(0xc010int + 1));
            assert(data[2] == (r.pla)(0xc010int + 2));
            assert(data[3] == (r.pla)(0xc010int + 3));
        },
        AdapterPhase::ReadMac => {
            assert forall|i: int| 0 <= i < 6 implies #[trigger] data.take(6)[i] == (r0.pla)(
                0xc000 + i,
            ) by {
                assert(data[i] == (r.pla)(0xc000 + i));
            }
        },
        _ => {},
    }
}

proof fn lemma_bringup(ms: Seq<Bringup>, rs: Seq<Registers>, data: Seq<Seq<u8>>, n: int)
    requires
        is_bringup(ms, rs, data),
        ms[0].phase == AdapterPhase::ConfigureIn,
        0 <= n <= data.len(),
    ensures
        brought(ms[n], rs[n], rs[0]),
    decreases n,
{
    if n > 0 {
        lemma_bringup(ms, rs, data, n - 1);
        assert(ms[n - 1 + 1] == ms[n - 1].after(Ok(()), data[n - 1]));
        lemma_step(ms[n - 1], rs[n - 1], rs[0], data[n - 1]);
    }
}

/// An adapter that is up has been told to receive all kinds of frames, to leave its own power
/// saving, and to receive and send; no other bits of its registers were changed. Its address is
/// the one in its registers.
pub proof fn law_adapter_is_switched_on(
    ms: Seq<Bringup>,
    rs: Seq<Registers>,
    data: Seq<Seq<u8>>,
    at: int,
)
    requires
        ms.len() > 0,
        is_bringup(ms, rs, data),
        ms[0].phase == AdapterPhase::ConfigureIn,
        ms.last().phase == AdapterPhase::Done,
    ensures
        ({
            let p = (rs[0].pla)(at) as int;
            let u = (rs[0].usb)(at) as int;
            &&& (rs.last().pla)(at) == if at == 0xc010 {
                p - p % 16 + 15
            } else if at == 0xe813 {
                p - p / 4 % 4 * 4 + 12
            } else {
                p
            }
            &&& (rs.last().usb)(at) == if at == 0xd406 {
                u - u / 16 % 2 * 16 - u / 128 * 128
            } else {
                u
            }
        }),
        ms.last().mac.len() == 6,
        0 <= at < 6 ==> ms.last().mac[at] == (rs[0].pla)(0xc000 + at),
{
    lemma_bringup(ms, rs, data, data.len() as int);
}

/// Both endpoints are set up before anything else is asked for, and an adapter that cannot send
/// after a while is given up. Whatever fails ends it.
pub proof fn law_adapter_steps(m: Bringup, ep_in: EndpointDesc, ep_out: EndpointDesc, e: UsbError, data: Seq<u8>)
    requires
        data.len() == 4,
    ensures
        ({
            let a = Bringup::begin(ep_in, ep_out);
            let b = a.after(Ok(()), data);
            &&& a.request() == AdapterAsk::Configure(ep_in)
            &&& b.request() == AdapterAsk::Configure(ep_out)
        }),
        m.phase == AdapterPhase::DelayedReadBack ==> (m.after(Ok(()), data).phase
            == AdapterPhase::Done) == (data[3] as int / 4 % 2 == 1),
        m.phase != AdapterPhase::Done && m.phase != AdapterPhase::Failed && m.phase
            != AdapterPhase::Settle ==> m.after(Err(e), data).phase == AdapterPhase::Failed
            && m.after(Err(e), data).error == Some(e),
{
    lemma_bits(0, 0, data[3]);
}

/// The endpoints of an adapter are the first for bulk transfers each way.
pub proof fn law_first_bulk_endpoint(eps: Seq<EndpointDesc>, inward: bool, from: int)
    requires
        0 <= from <= eps.len(),
    ensures
        ({
            let k = r8152::first_bulk(eps, inward, from);
            &&& from <= k <= eps.len()
            &&& k < eps.len() ==> eps[k].attributes % 4 == 2 && (eps[k].address >= 128) == inward
            &&& forall|j: int|
                from <= j < k ==> !((#[trigger] eps[j]).attributes % 4 == 2 && (eps[j].address
                    >= 128) == inward)
        }),
    decreases eps.len() - from,
{
    if from < eps.len() && !(eps[from].kind() == 2 && eps[from].inward() == inward) {
        law_first_bulk_endpoint(eps, inward, from + 1);
    }
}

/// A frame goes out behind eight bytes: its length with the two highest bits set, and zeros.
pub proof fn law_frames_go_out(packet: Seq<u8>)
    requires
        packet.len() <= 0x3_ffff,
    ensures
        ({
            let f = r8152::sent_frame(packet);
            &&& f.len() == packet.len() + 8
            &&& f[0] + 256 * (f[1] + 256 * (f[2] + 256 * f[3])) == 0xc000_0000 + packet.len()
            &&& f[4] == 0 && f[5] == 0 && f[6] == 0 && f[7] == 0
            &&& forall|i: int| 0 <= i < packet.len() ==> #[trigger] f[8 + i] == packet[i]
        }),
{
    bytes::lemma_le_lengths();
    let f = r8152::sent_frame(packet);
    let n = (0xc000_0000 + packet.len()) as u32;
    let none: Seq<u8> = Seq::empty();
    bytes::lemma_le32_in(f, none, n, f.skip(4));
    assert(bytes::le32(f, 0) == n);
    reveal(bytes::le32_bytes);
}

/// A frame that came in has as many bytes as the lower 15 bits of its first word say, without the
/// four of its checksum; they stand behind 24 bytes, as far as they came and as there is room.
pub proof fn law_frames_come_in(buf: Seq<u8>, transferred: int, room: int)
    requires
        buf.len() >= 24,
        24 <= transferred,
        0 <= room,
    ensures
        ({
            let frame = (buf[0] + 256 * buf[1]) % 0x8000;
            let n = r8152::payload_len(buf, transferred, room);
            &&& n <= room && n <= transferred - 24 && n <= (if frame > 4 {
                frame - 4
            } else {
                0
            })
            &&& n == room || n == transferred - 24 || n == (if frame > 4 {
                frame - 4
            } else {
                0
            })
        }),
{
    let low = buf[0] + 256 * buf[1];
    let high = buf[2] + 256 * buf[3];
    assert(bytes::le32(buf, 0) == low + 0x1_0000 * high);
    assert((low + 0x1_0000 * high) % 0x8000 == low % 0x8000);
}

/// What the end of a receiving transfer means: as many bytes as were asked for less what was
/// left, where it ended well.
pub proof fn law_receiving_ends(e: Trb, requested: u64)
    ensures
        ({
            let code = e.status as int / 0x100_0000;
            let left = e.status as int % 0x100_0000;
            r8152::rx_outcome_of(e, requested) == if code == 1 || code == 13 {
                RxOutcome::Received(
                    if requested > left {
                        (requested - left) as u64
                    } else {
                        0
                    },
                )
            } else if code == 6 {
                RxOutcome::Failed(UsbError::Stall)
            } else {
                RxOutcome::Failed(UsbError::XferFail(code as u8))
            }
        }),
{
}

} // verus!
