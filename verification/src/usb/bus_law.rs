//! What goes over the bus and to the controller, number by number.

use vstd::prelude::*;

use crate::usb::command::WaitCommand;
use crate::usb::command::WaitPhase;
use crate::usb::command::WaitReply;
use crate::usb::command::WaitRequest;
use crate::usb::config::ConfigPhase;
use crate::usb::config::ConfigRequest;
use crate::usb::config::Fetch;
use crate::usb::control::ControlPhase;
use crate::usb::control::ControlReply;
use crate::usb::control::ControlRequest;
use crate::usb::control::ControlTransfer;
use crate::usb::device::DevicePhase;
use crate::usb::device::DeviceReply;
use crate::usb::device::DeviceRequest;
use crate::usb::device::NewDevice;
use crate::usb::err::UsbError;
use crate::usb::init::InitHost;
use crate::usb::init::InitParams;
use crate::usb::init::InitPhase;
use crate::usb::port;
use crate::usb::port::PortRequest;
use crate::usb::port::ResetPhase;
use crate::usb::port::ResetPort;
use crate::usb::setup;
use crate::usb::setup::SetupPacket;
use crate::usb::transfer;
use crate::usb::transfer::TransferWait;
use crate::usb::trb;
use crate::usb::trb::EventFilter;
use crate::usb::trb::Trb;
use crate::usb::walk::RegisterRequest;

verus! {

/// The number that the eight bytes of a request are: its type, what is requested, and three
/// numbers of two bytes.
pub open spec fn eight_bytes(ty: int, request: int, value: int, index: int, length: int) -> int {
    ty + 256 * (request + 256 * (value + 65536 * (index + 65536 * length)))
}

/// The requests to the control endpoint are those that the bus defines.
pub proof fn law_requests_of_the_bus(ty: u8, index: u8, length: u16, config: u8, ep: u16)
    ensures
        SetupPacket::descriptor(ty, index, length).bits_of() == eight_bytes(
            128,
            6,
            index + 256 * ty,
            0,
            length as int,
        ),
        SetupPacket::configuration(config).bits_of() == eight_bytes(0, 9, config as int, 0, 0),
        SetupPacket::cleared_feature(0, ep).bits_of() == eight_bytes(2, 1, 0, ep as int, 0),
        SetupPacket::descriptor(ty, index, length).is_in(),
        !SetupPacket::configuration(config).is_in(),
        !SetupPacket::cleared_feature(0, ep).is_in(),
        SetupPacket::descriptor(ty, index, length).length == length,
        SetupPacket::configuration(config).length == 0,
        SetupPacket::cleared_feature(0, ep).length == 0,
{
}

/// A request's bytes hold its fields, and its type says which way the data goes.
pub proof fn law_request_bytes(s: SetupPacket)
    ensures
        s.bits_of() == eight_bytes(
            s.request_type as int,
            s.request as int,
            s.value as int,
            s.index as int,
            s.length as int,
        ),
        s.is_in() == (s.request_type as int / 128 == 1),
{
}

/// The commands to the controller.
pub proof fn law_commands_of_the_controller(slot: u8, kind: u8, context: u64)
    ensures
        trb::enable_slot(kind) == (Trb {
            param: 0,
            status: 0,
            control: (9 * 1024 + kind as int % 32 * 65536) as u32,
        }),
        trb::command(trb::TRB_DISABLE_SLOT, slot, 0) == (Trb {
            param: 0,
            status: 0,
            control: (10 * 1024 + slot * 0x100_0000) as u32,
        }),
        trb::command(trb::TRB_ADDRESS_DEVICE, slot, context) == (Trb {
            param: context,
            status: 0,
            control: (11 * 1024 + slot * 0x100_0000) as u32,
        }),
        trb::command(trb::TRB_CONFIGURE_ENDPOINT, slot, context) == (Trb {
            param: context,
            status: 0,
            control: (12 * 1024 + slot * 0x100_0000) as u32,
        }),
{
}

/// The fields of an event: its type in bits 10 to 15 of its last word, the endpoint in bits 16 to
/// 20, the slot in the upper eight; how it ended in the upper eight bits of the word before, and
/// what was left in the lower 24. An event is of a transfer where its type is 32 and its slot
/// and endpoint are those of the transfer.
pub proof fn law_fields_of_events(t: Trb, f: EventFilter)
    ensures
        t.ty() == t.control as int / 1024 % 64,
        t.endpoint() == t.control as int / 65536 % 32,
        t.slot() == t.control as int / 0x100_0000,
        t.code() == t.status as int / 0x100_0000,
        t.residual() == t.status as int % 0x100_0000,
        f.accepts(t) == (t.control as int / 1024 % 64 == 32 && t.control as int / 0x100_0000
            == f.slot_id && t.control as int / 65536 % 32 == f.endpoint_id),
{
}

/// The transfer ended well, if short.
pub open spec fn ended_well(e: Trb) -> bool {
    e.status as int / 0x100_0000 == 1 || e.status as int / 0x100_0000 == 13
}

/// What was left of a transfer.
pub open spec fn left_of(e: Trb) -> int {
    e.status as int % 0x100_0000
}

/// What was transferred of `n` bytes.
pub open spec fn moved(n: int, e: Trb) -> int {
    if n > left_of(e) {
        n - left_of(e)
    } else {
        0
    }
}

/// A request with data from the device: a buffer for the data, the three blocks with their
/// directions, the doorbell of the control endpoint, and events. Once data and status have
/// ended well, as many bytes as came are copied back, the buffer is given up, and their number
/// is the result.
pub proof fn law_data_comes_in(
    slot: u8,
    s: SetupPacket,
    len: u64,
    buffer: u64,
    a0: u64,
    a1: u64,
    a2: u64,
    e1: Trb,
    e2: Trb,
)
    requires
        s.request_type >= 128,
        s.length > 0,
        len > 0,
        a1 != a2,
        e1.param == a1,
        e2.param == a2,
        ended_well(e1),
        ended_well(e2),
    ensures
        ({
            let m0 = ControlTransfer::begin(slot, s, len);
            let m1 = m0.after(ControlReply::Memory(Ok(buffer)));
            let m2 = m1.after(ControlReply::Address(a0));
            let m3 = m2.after(ControlReply::Address(a1));
            let m4 = m3.after(ControlReply::Address(a2));
            let m5 = m4.after(ControlReply::Acknowledged);
            let m6 = m5.after(ControlReply::Event(Some(e1)));
            let m7 = m6.after(ControlReply::Event(Some(e2)));
            let m8 = m7.after(ControlReply::Acknowledged);
            let m9 = m8.after(ControlReply::Acknowledged);
            let n = moved(s.length as int, e1);
            &&& m0.request() == ControlRequest::Allocate { size: len, align: 64 }
            &&& m1.request() == ControlRequest::Enqueue(
                Trb {
                    param: s.bits_of() as u64,
                    status: 8,
                    control: (2 * 1024 + 64 + 3 * 65536) as u32,
                },
            )
            &&& m2.request() == ControlRequest::Enqueue(
                Trb {
                    param: buffer,
                    status: s.length as u32,
                    control: (3 * 1024 + 65536 + 32) as u32,
                },
            )
            &&& m3.request() == ControlRequest::Enqueue(
                Trb { param: 0, status: 0, control: (4 * 1024 + 32) as u32 },
            )
            &&& m4.request() == ControlRequest::RingDoorbell { slot, target: 1 }
            &&& m5.request() == ControlRequest::Poll(EventFilter { slot_id: slot, endpoint_id: 1 })
            &&& m6.request() == m5.request()
            &&& m7.request() == (ControlRequest::CopyBack {
                len: if n < len {
                    n as u64
                } else {
                    len
                },
            })
            &&& m8.request() == ControlRequest::Free
            &&& m9.request() == ControlRequest::Done
            &&& m9.result == Ok::<u64, UsbError>(n as u64)
        }),
{
}

/// A request with data for the device: the data is copied into the buffer before anything is
/// handed over, and nothing is copied back.
pub proof fn law_data_goes_out(
    slot: u8,
    s: SetupPacket,
    len: u64,
    buffer: u64,
    a0: u64,
    a1: u64,
    a2: u64,
    e1: Trb,
    e2: Trb,
)
    requires
        s.request_type < 128,
        s.length > 0,
        len > 0,
        a1 != a2,
        e1.param == a1,
        e2.param == a2,
        ended_well(e1),
        ended_well(e2),
    ensures
        ({
            let m0 = ControlTransfer::begin(slot, s, len);
            let mf = m0.after(ControlReply::Memory(Ok(buffer)));
            let m1 = mf.after(ControlReply::Acknowledged);
            let m2 = m1.after(ControlReply::Address(a0));
            let m3 = m2.after(ControlReply::Address(a1));
            let m4 = m3.after(ControlReply::Address(a2));
            let m5 = m4.after(ControlReply::Acknowledged);
            let m6 = m5.after(ControlReply::Event(Some(e1)));
            let m7 = m6.after(ControlReply::Event(Some(e2)));
            let m8 = m7.after(ControlReply::Acknowledged);
            &&& m0.request() == ControlRequest::Allocate { size: len, align: 64 }
            &&& mf.request() == ControlRequest::Fill
            &&& m1.request() == ControlRequest::Enqueue(
                Trb {
                    param: s.bits_of() as u64,
                    status: 8,
                    control: (2 * 1024 + 64 + 2 * 65536) as u32,
                },
            )
            &&& m2.request() == ControlRequest::Enqueue(
                Trb { param: buffer, status: s.length as u32, control: (3 * 1024 + 32) as u32 },
            )
            &&& m3.request() == ControlRequest::Enqueue(
                Trb { param: 0, status: 0, control: (4 * 1024 + 65536 + 32) as u32 },
            )
            &&& m4.request() == ControlRequest::RingDoorbell { slot, target: 1 }
            &&& m5.request() == ControlRequest::Poll(EventFilter { slot_id: slot, endpoint_id: 1 })
            &&& m7.request() == ControlRequest::Free
            &&& m8.request() == ControlRequest::Done
            &&& m8.result == Ok::<u64, UsbError>(moved(s.length as int, e1) as u64)
        }),
{
}

/// A request without data has two blocks, no buffer, and the result zero.
pub proof fn law_no_data(slot: u8, s: SetupPacket, a0: u64, a1: u64, e: Trb)
    requires
        e.param == a1,
        ended_well(e),
    ensures
        ({
            let m1 = ControlTransfer::begin(slot, s, 0);
            let m2 = m1.after(ControlReply::Address(a0));
            let m3 = m2.after(ControlReply::Address(a1));
            let m4 = m3.after(ControlReply::Acknowledged);
            let m5 = m4.after(ControlReply::Event(Some(e)));
            &&& m1.request() == ControlRequest::Enqueue(
                Trb { param: s.bits_of() as u64, status: 8, control: (2 * 1024 + 64) as u32 },
            )
            &&& m2.request() == ControlRequest::Enqueue(
                Trb { param: 0, status: 0, control: (4 * 1024 + 65536 + 32) as u32 },
            )
            &&& m3.request() == ControlRequest::RingDoorbell { slot, target: 1 }
            &&& m4.request() == ControlRequest::Poll(EventFilter { slot_id: slot, endpoint_id: 1 })
            &&& m5.request() == ControlRequest::Done
            &&& m5.result == Ok::<u64, UsbError>(0)
        }),
{
}

/// A transfer that ends badly fails, by a stall or with the code that the event gives, and its
/// buffer is given up; one without memory fails; events of other blocks do not end it, nor do
/// ones without a code.
pub proof fn law_bad_ends(m: ControlTransfer, e: Trb, error: UsbError)
    requires
        m.phase == ControlPhase::Poll,
        m.polls < 249_999,
    ensures
        ({
            let mine = m.data_address == Some(e.param) || e.param == m.status_address;
            let code = e.status as int / 0x100_0000;
            let r = m.after(ControlReply::Event(Some(e)));
            let over = if m.data_len > 0 {
                ControlRequest::Free
            } else {
                ControlRequest::Done
            };
            &&& mine && code == 6 ==> r.result == Err::<u64, UsbError>(UsbError::Stall)
                && r.request() == over
            &&& mine && code != 0 && code != 1 && code != 6 && code != 13 ==> r.result == Err::<
                u64,
                UsbError,
            >(UsbError::XferFail(code as u8)) && r.request() == over
            &&& !mine || code == 0 ==> r == (ControlTransfer { polls: (m.polls + 1) as u32, ..m })
            &&& m.after(ControlReply::Event(None)) == (ControlTransfer {
                polls: (m.polls + 1) as u32,
                ..m
            })
        }),
        (ControlTransfer { phase: ControlPhase::Allocate, ..m }).after(
            ControlReply::Memory(Err(error)),
        ).result == Err::<u64, UsbError>(error),
        (ControlTransfer { phase: ControlPhase::Allocate, ..m }).after(
            ControlReply::Memory(Err(error)),
        ).request() == ControlRequest::Done,
{
}

/// The blocks of a transfer on an endpoint cover its bytes from the first to the last, each in
/// one piece of 64 KiB, and are normal ones: each but the last is chained to the next and heeds
/// a short packet, the last one interrupts. They say how many packets of 512 bytes are still to
/// come, up to 31.
pub proof fn law_blocks_of_transfers(phys: int, len: int, i: int)
    requires
        0 <= phys,
        0 < len,
        phys + len <= u64::MAX,
        0 <= i < transfer::transfer_blocks(phys, len).len(),
    ensures
        ({
            let b = transfer::transfer_blocks(phys, len);
            let n = b[i].status as int % 0x2_0000;
            let rest = phys + len - b[i].param - n;
            &&& b[0].param == phys
            &&& n > 0
            &&& b[i].param as int / 65536 == (b[i].param + n - 1) / 65536
            &&& b[i].control == if i + 1 == b.len() {
                1024int + 32
            } else {
                1024int + 16 + 4
            }
            &&& i + 1 < b.len() ==> b[i + 1].param == b[i].param + n
            &&& i + 1 == b.len() ==> rest == 0
            &&& b[i].status as int / 0x2_0000 == if rest > 30 * 512 {
                31
            } else {
                (rest + 511) / 512
            }
        }),
        transfer::transfer_blocks(phys, 0) == seq![
            Trb { param: phys as u64, status: 0, control: (1024 + 32) as u32 },
        ],
{
    transfer::law_blocks_cover_transfer(phys, len);
    lemma_packets(phys, len, i);
}

proof fn lemma_packets(phys: int, len: int, i: int)
    requires
        0 <= phys,
        0 < len,
        phys + len <= u64::MAX,
        0 <= i < transfer::blocks_from(phys, len).len(),
    ensures
        ({
            let b = transfer::blocks_from(phys, len);
            let n = b[i].status as int % 0x2_0000;
            let rest = phys + len - b[i].param - n;
            b[i].status as int / 0x2_0000 == if rest > 30 * 512 {
                31
            } else {
                (rest + 511) / 512
            }
        }),
    decreases len,
{
    let c = transfer::chunk_of(phys, len);
    let b = transfer::blocks_from(phys, len);
    let t = transfer::block_at(phys, len);
    let left = len - c;
    let v = c + transfer::td_size_of(left) * 0x2_0000;
    assert(0 < c <= 0x1_0000);
    assert(t.status == v);
    assert(v % 0x2_0000 == c && v / 0x2_0000 == transfer::td_size_of(left));
    let rest = transfer::blocks_from(phys + c, left);
    assert(b == seq![t] + rest);
    if i > 0 {
        assert(b[i] == rest[i - 1]);
        lemma_packets(phys + c, left, i - 1);
    } else {
        assert(b[0] == t);
    }
}

/// A wait for a transfer ends with the number of bytes moved where it ended well, with a stall or
/// the code where it did not, and after 250000 looks in vain.
pub proof fn law_waits_for_transfers(w: TransferWait, e: Trb)
    requires
        w.result is None,
        w.polls < 250_000,
    ensures
        ({
            let code = e.status as int / 0x100_0000;
            let r = w.after(Some(e));
            &&& code == 1 || code == 13 ==> r.result == Some(
                Ok::<u64, UsbError>(moved(w.requested as int, e) as u64),
            )
            &&& code == 6 ==> r.result == Some(Err::<u64, UsbError>(UsbError::Stall))
            &&& code != 0 && code != 1 && code != 6 && code != 13 ==> r.result == Some(
                Err::<u64, UsbError>(UsbError::XferFail(code as u8)),
            )
            &&& code == 0 ==> r == w.after(None)
            &&& w.polls < 249_999 ==> w.after(None) == (TransferWait {
                polls: (w.polls + 1) as u32,
                ..w
            })
            &&& w.polls == 249_999 ==> w.after(None).result matches Some(Err(UsbError::Timeout(_)))
        }),
{
}

/// A command is over with the first event of type 33, well where its code is 1; the controller's
/// status is looked at every 100000 rounds, and a host system error ends the wait. In every
/// round the next event is taken, and the controller told so.
pub proof fn law_waits_for_commands(w: WaitCommand, e: Trb, v: u32)
    requires
        1 <= w.round <= 250_000,
    ensures
        ({
            let ty = e.control as int / 1024 % 64;
            let code = e.status as int / 0x100_0000;
            let d = WaitCommand { phase: WaitPhase::Dequeue, ..w };
            let u = d.after(WaitReply::Event(Some(e)));
            let r = u.after(WaitReply::Acknowledged);
            let idle = d.after(WaitReply::Event(None));
            &&& d.request() == WaitRequest::Dequeue
            &&& u.request() == WaitRequest::UpdateDequeue
            &&& ty == 33 && code == 1 ==> r.phase == WaitPhase::Done && r.event == e
            &&& ty == 33 && code != 1 ==> r.phase == WaitPhase::Failed && r.error == Some(
                UsbError::CmdFail(code as u8),
            )
            &&& ty != 33 ==> r.round == w.round + 1 && r.phase == idle.phase
            &&& idle.round == w.round + 1
            &&& idle.request() == (if (w.round + 1) % 100_000 == 0 || w.round == 250_000 {
                WaitRequest::ReadOp { register: 4 }
            } else {
                WaitRequest::Dequeue
            })
        }),
        ({
            let h = WaitCommand { phase: WaitPhase::Health, ..w };
            &&& v / 4 % 2 == 1 ==> h.after(WaitReply::Value(v)).phase == WaitPhase::Failed
            &&& v / 4 % 2 == 0 ==> h.after(WaitReply::Value(v)).request() == WaitRequest::Dequeue
        }),
        WaitCommand::begin().request() == WaitRequest::Dequeue,
        WaitCommand::begin().round == 1,
{
    assert((v & 4 != 0) == (v / 4 % 2 == 1)) by (bit_vector);
}

/// The descriptor of a configuration is fetched in two requests: nine bytes, of which the first
/// two are 9 and 2 and the next two the whole length, and then as many as that.
pub proof fn law_configuration_is_fetched(index: u8, head: Seq<u8>, all: Seq<u8>, n: u64, k: u64)
    requires
        head.len() == 9,
        n >= 9,
        head[0] == 9,
        head[1] == 2,
        head[2] + 256 * head[3] >= 9,
        k >= head[2] + 256 * head[3],
    ensures
        ({
            let total = (head[2] + 256 * head[3]) as u16;
            let m0 = Fetch::begin(index);
            let m1 = m0.after(Ok(n), head);
            let m2 = m1.after(Ok(k), all);
            &&& m0.request() matches ConfigRequest::Transfer { setup, len } && len == 9
                && setup.bits_of() == eight_bytes(128, 6, index + 512, 0, 9)
            &&& m1.request() matches ConfigRequest::Transfer { setup, len } && len == total
                && setup.bits_of() == eight_bytes(128, 6, index + 512, 0, total as int)
            &&& m2.request() == ConfigRequest::Done
            &&& m2.phase == ConfigPhase::Done
            &&& m2.data == all
            &&& m0.cycle == 1 && m0.attempt == 1 && m1.cycle == 1 && m1.attempt == 1
        }),
{
}

/// An answer that is too short or is no descriptor is asked for again from the beginning, three
/// times in all; a stall is cleared both ways and the request repeated, three times too. Any
/// other failure ends the fetch.
pub proof fn law_fetch_is_repeated(f: Fetch, head: Seq<u8>, n: u64, error: UsbError)
    requires
        head.len() == 9,
        1 <= f.cycle <= 3,
        1 <= f.attempt <= 3,
    ensures
        f.phase == ConfigPhase::Short && !(n >= 9 && head[0] == 9 && head[1] == 2 && head[2] + 256
            * head[3] >= 9) ==> ({
            let w = f.after(Ok(n), head);
            let again = w.after(Ok(0), head);
            &&& w.request() == ConfigRequest::Settle
            &&& f.cycle < 3 ==> again.phase == ConfigPhase::Short && again.cycle == f.cycle + 1
                && again.attempt == 1
            &&& f.cycle == 3 ==> again.phase == ConfigPhase::Failed && again.error == Some(
                UsbError::InvalidDescriptor,
            )
        }),
        (f.phase == ConfigPhase::Short || f.phase == ConfigPhase::Full) && !(error is Stall) ==> {
            let w = f.after(Err(error), head);
            w.phase == ConfigPhase::Failed && w.error == Some(error)
        },
        f.phase == ConfigPhase::Short || f.phase == ConfigPhase::Full ==> ({
            let c1 = f.after(Err(UsbError::Stall), head);
            let c2 = c1.after(Ok(0), head);
            let c3 = c2.after(Ok(0), head);
            let again = c3.after(Ok(0), head);
            &&& c1.request() matches ConfigRequest::Transfer { setup, len } && len == 0
                && setup.bits_of() == eight_bytes(2, 1, 0, 0, 0)
            &&& c2.request() matches ConfigRequest::Transfer { setup, len } && len == 0
                && setup.bits_of() == eight_bytes(2, 1, 0, 128, 0)
            &&& c3.request() == ConfigRequest::Settle
            &&& f.attempt < 3 ==> again.phase == f.phase && again.attempt == f.attempt + 1
                && again.total_len == f.total_len
            &&& f.attempt == 3 ==> again.phase == ConfigPhase::Failed && again.error == Some(
                UsbError::Stall,
            )
        }),
{
}

/// The fields of a device descriptor.
pub proof fn law_device_descriptor(s: Seq<u8>)
    requires
        s.len() >= 18,
    ensures
        ({
            let d = setup::device_desc_of(s);
            &&& d.class == s[4] && d.subclass == s[5] && d.protocol == s[6]
            &&& d.max_packet_size == s[7]
            &&& d.vendor_id == s[8] + 256 * s[9]
            &&& d.product_id == s[10] + 256 * s[11]
            &&& d.num_configurations == s[17]
        }),
{
}

/// What the controller was told, and what it said.
pub struct Host {
    /// What was written to registers since the controller was reset.
    pub registers: Map<int, int>,
    pub reset: bool,
    /// Whether the controller was last seen to stand still, to have ended its reset, and to be
    /// ready.
    pub halted: bool,
    pub cleared: bool,
    pub ready: bool,
    /// How many writes came too early: a reset of a controller that runs, or anything before the
    /// reset was over.
    pub early: int,
}

/// What an access to the registers does. The operational ones begin at `op`.
pub open spec fn accessed(h: Host, op: int, request: RegisterRequest, value: u32) -> Host {
    match request {
        RegisterRequest::Read { offset } => if offset == op {
            Host { halted: h.halted || value % 2 == 0, cleared: value / 2 % 2 == 0, ..h }
        } else if offset == op + 4 {
            Host { halted: value % 2 == 1, ready: value / 2048 % 2 == 0, ..h }
        } else {
            h
        },
        RegisterRequest::Write { offset, value: v } => if offset == op && v / 2 % 2 == 1 {
            Host {
                registers: Map::empty(),
                reset: true,
                cleared: false,
                ready: false,
                early: if h.halted {
                    h.early
                } else {
                    h.early + 1
                },
                ..h
            }
        } else {
            told(h, offset as int, v as int)
        },
        RegisterRequest::WriteWide { offset, address } => told(h, offset as int, address as int),
        RegisterRequest::Done => h,
    }
}

/// A value was written to a register.
pub open spec fn told(h: Host, offset: int, value: int) -> Host {
    Host {
        registers: h.registers.insert(offset, value),
        early: if h.reset && !(h.cleared && h.ready) {
            h.early + 1
        } else {
            h.early
        },
        ..h
    }
}

/// Answers to each request in turn.
pub open spec fn is_start(ms: Seq<InitHost>, hs: Seq<Host>, values: Seq<u32>, op: int) -> bool {
    &&& ms.len() == values.len() + 1
    &&& hs.len() == values.len() + 1
    &&& forall|i: int|
        0 <= i < values.len() ==> {
            &&& ms[i].request() != RegisterRequest::Done
            &&& ms[i + 1] == #[trigger] ms[i].after(values[i])
            &&& hs[i + 1] == accessed(hs[i], op, ms[i].request(), values[i])
        }
}

/// What a controller that runs was told.
pub open spec fn told_all(p: InitParams, n: int) -> Map<int, int> {
    let op = p.op_offset as int;
    let at = p.int_offset as int;
    let m0 = Map::<int, int>::empty();
    let m1 = if n >= 1 {
        m0.insert(op + 0x38, p.max_slots as int)
    } else {
        m0
    };
    let m2 = if n >= 2 {
        m1.insert(op + 0x30, p.dcbaa as int)
    } else {
        m1
    };
    let m3 = if n >= 3 {
        m2.insert(op + 0x18, p.command_ring + 1)
    } else {
        m2
    };
    let m4 = if n >= 4 {
        m3.insert(at + 8, 1)
    } else {
        m3
    };
    let m5 = if n >= 5 {
        m4.insert(at + 0x10, p.event_table as int)
    } else {
        m4
    };
    let m6 = if n >= 6 {
        m5.insert(at + 0x18, p.event_ring as int)
    } else {
        m5
    };
    if n >= 7 {
        m6.insert(op, 5)
    } else {
        m6
    }
}

spec fn start_stage(m: InitHost) -> int {
    match m.phase {
        InitPhase::ContextArray => 1,
        InitPhase::CommandRing => 2,
        InitPhase::TableSize => 3,
        InitPhase::TableBase => 4,
        InitPhase::DequeuePointer => 5,
        InitPhase::Run => 6,
        InitPhase::WaitRunning => 7,
        InitPhase::Done => 7,
        _ => 0,
    }
}

proof fn lemma_register_bits(v: u32, ring: u64)
    ensures
        (v & 1 != 0) == (v % 2 == 1),
        (v & 1 == 0) == (v % 2 == 0),
        (v & 2 == 0) == (v / 2 % 2 == 0),
        (v & 0x800 == 0) == (v / 2048 % 2 == 0),
        v & 0xffff_fffe == v - v % 2,
        ring % 2 == 0 ==> ring | 1 == ring + 1,
{
    assert((v & 1 != 0) == (v % 2 == 1) && (v & 1 == 0) == (v % 2 == 0) && (v & 2 == 0) == (v / 2
        % 2 == 0) && (v & 0x800 == 0) == (v / 2048 % 2 == 0) && v & 0xffff_fffe == v - v % 2)
        by (bit_vector);
    assert(ring % 2 == 0 ==> ring | 1 == ring + 1) by (bit_vector);
}

proof fn lemma_start(ms: Seq<InitHost>, hs: Seq<Host>, values: Seq<u32>, p: InitParams, n: int)
    requires
        is_start(ms, hs, values, p.op_offset as int),
        ms[0] == InitHost::begin(p),
        p.wf(),
        p.command_ring % 2 == 0,
        hs[0].early == 0,
        !hs[0].reset,
        !hs[0].halted,
        values.len() > 0 ==> values[0] / 2 % 2 == 0,
        0 <= n <= values.len(),
    ensures
        ms[n].params == p,
        hs[n].early == 0,
        match ms[n].phase {
            InitPhase::ReadCommand => !hs[n].reset && !hs[n].halted && n == 0,
            InitPhase::Stop => !hs[n].reset && n == 1 && ms[n].command == values[0],
            InitPhase::WaitHalted => !hs[n].reset,
            InitPhase::Reset => !hs[n].reset && hs[n].halted,
            InitPhase::WaitReset => hs[n].reset && hs[n].registers == Map::<int, int>::empty(),
            InitPhase::WaitReady => hs[n].reset && hs[n].registers == Map::<int, int>::empty()
                && hs[n].cleared,
            InitPhase::Failed => true,
            InitPhase::Done => hs[n].reset && hs[n].registers == told_all(p, 7) && !hs[n].halted,
            _ => hs[n].reset && (ms[n].phase != InitPhase::WaitRunning ==> hs[n].cleared
                && hs[n].ready) && hs[n].registers == told_all(p, start_stage(ms[n])),
        },
    decreases n,
{
    if n > 0 {
        lemma_start(ms, hs, values, p, n - 1);
        let m = ms[n - 1];
        let v = values[n - 1];
        assert(ms[n - 1 + 1] == m.after(v));
        lemma_register_bits(v, p.command_ring);
        lemma_register_bits(m.command, p.command_ring);
        assert(v % 2 == 1 && v / 2 % 2 == 0 ==> (v - v % 2) / 2 % 2 == 0);
        assert(m.command / 2 % 2 == 0 ==> (m.command - m.command % 2) / 2 % 2 == 0);
    }
}

/// A controller that was started, and was not in a reset already, was reset first, when it stood
/// still, and told of nothing until that was over; since then it has been told how many slots
/// to use, where its tables and rings are, and to run with interrupts, each in its register. It
/// was then seen to run.
pub proof fn law_controller_is_started(
    ms: Seq<InitHost>,
    hs: Seq<Host>,
    values: Seq<u32>,
    p: InitParams,
)
    requires
        ms.len() > 0,
        is_start(ms, hs, values, p.op_offset as int),
        ms[0] == InitHost::begin(p),
        p.wf(),
        p.command_ring % 2 == 0,
        hs[0].early == 0,
        !hs[0].reset,
        !hs[0].halted,
        values.len() > 0 ==> values[0] / 2 % 2 == 0,
        ms.last().phase == InitPhase::Done,
    ensures
        hs.last().reset,
        hs.last().early == 0,
        !hs.last().halted,
        hs.last().registers == told_all(p, 7),
{
    lemma_start(ms, hs, values, p, values.len() as int);
}

/// Each of the waits for the controller is given up after 250001 looks in vain.
pub proof fn law_controller_is_waited_for(m: InitHost, v: u32)
    requires
        m.phase == InitPhase::WaitHalted || m.phase == InitPhase::WaitReset || m.phase
            == InitPhase::WaitReady || m.phase == InitPhase::WaitRunning,
    ensures
        ({
            let seen = match m.phase {
                InitPhase::WaitHalted => v % 2 == 1,
                InitPhase::WaitReset => v / 2 % 2 == 0,
                InitPhase::WaitReady => v / 2048 % 2 == 0,
                _ => v % 2 == 0,
            };
            let r = m.after(v);
            &&& seen ==> r.polls == 0 && r.phase != m.phase && r.phase != InitPhase::Failed
            &&& !seen && m.polls < 250_000 ==> r == (InitHost { polls: (m.polls + 1) as u32, ..m })
            &&& !seen && m.polls >= 250_000 ==> r.phase == InitPhase::Failed && (r.error
                matches Some(UsbError::Timeout(_)))
        }),
{
    lemma_register_bits(v, 0);
}

/// Where the register of a port is, and the speed that it tells of.
pub proof fn law_port_register(cap_length: u8, port: u8, v: u32)
    ensures
        port::register_of(cap_length, port) == cap_length + 1024 + 16 * port,
        port::speed_of(v) == v as int / 1024 % 16,
        port::acknowledged(v) == (if v as int / 0x2_0000 % 128 == 0 {
            None
        } else {
            Some((v as int / 512 % 2 * 512 + v as int / 0x2_0000 % 128 * 0x2_0000) as u32)
        }),
        port::powered(v) == (if v as int / 512 % 2 == 1 {
            None
        } else {
            Some((512 + v as int / 0x2_0000 % 128 * 0x2_0000) as u32)
        }),
{
    assert((v & 0xfe_0000 != 0) == (v / 0x2_0000 % 128 != 0) && (v & 0x200) | (v & 0xfe_0000) == v
        / 512 % 2 * 512 + v / 0x2_0000 % 128 * 0x2_0000 && 0x200 | (v & 0xfe_0000) == 512 + v
        / 0x2_0000 % 128 * 0x2_0000 && (v & 0x200 != 0) == (v / 512 % 2 == 1)) by (bit_vector);
}

/// What was done to a port.
pub struct Port {
    /// Whether it was told to reset, was seen to have done so, and was told that this was seen.
    pub told: bool,
    pub seen: bool,
    pub confirmed: bool,
    /// The value that was last read.
    pub last: u32,
    /// How many writes did not leave the power as it was last read, but for switching it on.
    pub odd: int,
}

/// What an access to a port's register does.
pub open spec fn port_accessed(p: Port, request: PortRequest, value: u32) -> Port {
    match request {
        PortRequest::Read => Port { seen: p.seen || p.told && value / 0x20_0000 % 2 == 1, last: value, ..p },
        PortRequest::Write { value: v } => {
            let q = Port {
                odd: if v / 512 % 2 == p.last / 512 % 2 || v / 512 % 2 == 1 {
                    p.odd
                } else {
                    p.odd + 1
                },
                ..p
            };
            if v / 16 % 2 == 1 {
                Port { told: true, seen: false, confirmed: false, ..q }
            } else if v / 0x20_0000 % 2 == 1 && p.seen {
                Port { confirmed: true, ..q }
            } else {
                q
            }
        },
        PortRequest::Done => p,
    }
}

/// Answers to each request in turn.
pub open spec fn is_reset(ms: Seq<ResetPort>, ps: Seq<Port>, values: Seq<u32>) -> bool {
    &&& ms.len() == values.len() + 1
    &&& ps.len() == values.len() + 1
    &&& forall|i: int|
        0 <= i < values.len() ==> {
            &&& ms[i + 1] == #[trigger] ms[i].after(values[i])
            &&& ps[i + 1] == port_accessed(ps[i], ms[i].request(), values[i])
        }
}

proof fn lemma_port_bits(v: u32)
    ensures
        (v & 0x200 == 0) == (v / 512 % 2 == 0),
        (v & 0x20_0000 != 0) == (v / 0x20_0000 % 2 == 1),
        (v & 1 == 0) == (v % 2 == 0),
        (v & 2 != 0) == (v / 2 % 2 == 1),
        ({
            let w = (v & 0x200) | 0x10;
            w / 512 % 2 == v / 512 % 2 && w / 16 % 2 == 1
        }),
        ({
            let w = (v & 0x200) | 0x20_0000;
            w / 512 % 2 == v / 512 % 2 && w / 16 % 2 == 0 && w / 0x20_0000 % 2 == 1
        }),
        ({
            let w = 0x200u32 | (v & 0xfe_0000);
            w / 512 % 2 == 1 && w / 16 % 2 == 0
        }),
{
    assert((v & 0x200 == 0) == (v / 512 % 2 == 0) && (v & 0x20_0000 != 0) == (v / 0x20_0000 % 2
        == 1) && (v & 1 == 0) == (v % 2 == 0) && (v & 2 != 0) == (v / 2 % 2 == 1) && ((v & 0x200)
        | 0x10) / 512 % 2 == v / 512 % 2 && ((v & 0x200) | 0x10) / 16 % 2 == 1 && ((v & 0x200)
        | 0x20_0000) / 512 % 2 == v / 512 % 2 && ((v & 0x200) | 0x20_0000) / 16 % 2 == 0 && ((v
        & 0x200) | 0x20_0000) / 0x20_0000 % 2 == 1 && (0x200u32 | (v & 0xfe_0000)) / 512 % 2 == 1
        && (0x200u32 | (v & 0xfe_0000)) / 16 % 2 == 0) by (bit_vector);
}

proof fn lemma_reset(ms: Seq<ResetPort>, ps: Seq<Port>, values: Seq<u32>, n: int)
    requires
        is_reset(ms, ps, values),
        ms[0] == ResetPort::begin(),
        ps[0].odd == 0,
        !ps[0].told,
        !ps[0].seen,
        !ps[0].confirmed,
        0 <= n <= values.len(),
    ensures
        ps[n].odd == 0,
        match ms[n].phase {
            ResetPhase::Power => !ps[n].told && ms[n].portsc == ps[n].last,
            ResetPhase::Reset => !ps[n].told && ms[n].portsc == ps[n].last,
            ResetPhase::WaitReset => ps[n].told && !ps[n].confirmed,
            ResetPhase::Acknowledge => ps[n].told && ps[n].seen && ms[n].portsc == ps[n].last,
            ResetPhase::WaitEnabled => ps[n].told && ps[n].seen && ps[n].confirmed,
            ResetPhase::Done => ps[n].told && ps[n].seen && ps[n].confirmed,
            ResetPhase::TimedOut => ps[n].told,
            _ => !ps[n].told,
        },
    decreases n,
{
    if n > 0 {
        lemma_reset(ms, ps, values, n - 1);
        let m = ms[n - 1];
        assert(ms[n - 1 + 1] == m.after(values[n - 1]));
        lemma_port_bits(values[n - 1]);
        lemma_port_bits(m.portsc);
        lemma_port_bits(ps[n - 1].last);
    }
}

/// A port that was reset was told so, was seen to have done it, and was then told that this was
/// seen; its power was left on or switched on.
pub proof fn law_port_is_reset(ms: Seq<ResetPort>, ps: Seq<Port>, values: Seq<u32>)
    requires
        ms.len() > 0,
        is_reset(ms, ps, values),
        ms[0] == ResetPort::begin(),
        ps[0].odd == 0,
        !ps[0].told,
        !ps[0].seen,
        !ps[0].confirmed,
        ms.last().phase == ResetPhase::Done,
    ensures
        ps.last().told && ps.last().seen && ps.last().confirmed,
        ps.last().odd == 0,
{
    lemma_reset(ms, ps, values, values.len() as int);
}

/// A port without power gets it before its reset; the end of a reset is looked for 250000 times,
/// and its device is then waited for until it is enabled or gone.
pub proof fn law_port_is_waited_for(m: ResetPort, v: u32)
    requires
        m.polls <= 250_000,
    ensures
        m.phase == ResetPhase::CheckPower || m.phase == ResetPhase::ReadForPower ==> m.after(v).phase
            == (if v / 512 % 2 == 1 {
            ResetPhase::ReadForReset
        } else if m.phase == ResetPhase::CheckPower {
            ResetPhase::ReadForPower
        } else {
            ResetPhase::Power
        }),
        m.phase == ResetPhase::Power ==> (m.request() matches PortRequest::Write { value } && value
            / 512 % 2 == 1),
        m.phase == ResetPhase::WaitReset ==> m.after(v).phase == (if v / 0x20_0000 % 2 == 1 {
            ResetPhase::Acknowledge
        } else if m.polls < 249_999 {
            ResetPhase::WaitReset
        } else {
            ResetPhase::TimedOut
        }),
        m.phase == ResetPhase::WaitEnabled ==> m.after(v).phase == (if v % 2 == 0 || v / 2 % 2 == 1
            || m.polls >= 250_000 {
            ResetPhase::Done
        } else {
            ResetPhase::WaitEnabled
        }),
{
    lemma_port_bits(v);
    lemma_port_bits(m.portsc);
}

/// A new device gets a slot, is reset unless its speed is 4, and its changes are acknowledged; it
/// gets contexts of 1024 and 1088 bytes and a ring of 256 blocks, the controller is told of its
/// context, and then to address it.
pub proof fn law_device_gets_its_address(
    p: u8,
    kind: u8,
    event: Trb,
    first: u32,
    second: u32,
    third: u32,
    device: u64,
    input: u64,
    ring: u64,
)
    requires
        p < 255,
        first as int / 1024 % 16 != 4,
        third as int / 0x2_0000 % 128 == 0,
    ensures
        ({
            let slot = (event.control as int / 0x100_0000) as u8;
            let m0 = NewDevice::begin(p, kind);
            let m1 = m0.after(DeviceReply::Command(Ok(event)));
            let m2 = m1.after(DeviceReply::Value(first));
            let m3 = m2.after(DeviceReply::Reset(Ok(())));
            let m4 = m3.after(DeviceReply::Value(second));
            let m5 = m4.after(DeviceReply::Value(third));
            let m6 = m5.after(DeviceReply::Acknowledged);
            let m7 = m6.after(DeviceReply::Memory(Ok(device)));
            let m8 = m7.after(DeviceReply::Memory(Ok(input)));
            let m9 = m8.after(DeviceReply::Memory(Ok(ring)));
            let ma = m9.after(DeviceReply::Acknowledged);
            let mb = ma.after(DeviceReply::Acknowledged);
            let mc = mb.after(DeviceReply::Command(Ok(event)));
            &&& m0.request() == DeviceRequest::Command(
                Trb {
                    param: 0,
                    status: 0,
                    control: (9 * 1024 + kind as int % 32 * 65536) as u32,
                },
            )
            &&& m1.request() == DeviceRequest::ReadPort
            &&& m2.request() == DeviceRequest::ResetPort
            &&& m3.request() == DeviceRequest::ReadPort
            &&& m4.request() == DeviceRequest::ReadPort
            &&& m5.request() == DeviceRequest::Settle
            &&& m6.request() == DeviceRequest::Allocate { size: 1024, align: 64 }
            &&& m7.request() == DeviceRequest::Allocate { size: 1088, align: 64 }
            &&& m8.request() == DeviceRequest::Ring { entries: 256 }
            &&& m9.request() == DeviceRequest::WriteInput
            &&& ma.request() == DeviceRequest::SetContext { slot, address: device }
            &&& mb.request() == DeviceRequest::Command(
                Trb {
                    param: input,
                    status: 0,
                    control: (11 * 1024 + slot * 0x100_0000) as u32,
                },
            )
            &&& mc.phase == DevicePhase::Done
            &&& mc.slot_id == slot && mc.port == p
            &&& mc.speed == second as int / 1024 % 16
            &&& mc.device_context == device && mc.input_context == input
            &&& mc.control_ring == ring
        }),
{
    law_port_register(0, 0, third);
}

/// A device of the highest speed is not reset; changes of its port are acknowledged as read. What
/// fails ends it all with the reason.
pub proof fn law_device_steps(m: NewDevice, v: u32, e: UsbError)
    ensures
        m.phase == DevicePhase::FirstSpeed ==> m.after(DeviceReply::Value(v)).speed == v as int
            / 1024 % 16 && m.after(DeviceReply::Value(v)).request() == (if v as int / 1024 % 16
            == 4 {
            DeviceRequest::ReadPort
        } else {
            DeviceRequest::ResetPort
        }),
        m.phase == DevicePhase::ReadChanges && v as int / 0x2_0000 % 128 != 0 ==> m.after(
            DeviceReply::Value(v),
        ).request() == (DeviceRequest::WritePort {
            value: (v as int / 512 % 2 * 512 + v as int / 0x2_0000 % 128 * 0x2_0000) as u32,
        }),
        m.phase == DevicePhase::ClearChanges ==> m.after(DeviceReply::Acknowledged).request()
            == DeviceRequest::Settle,
        m.phase == DevicePhase::EnableSlot || m.phase == DevicePhase::Address ==> m.after(
            DeviceReply::Command(Err(e)),
        ).error == Some(e) && m.after(DeviceReply::Command(Err(e))).request()
            == DeviceRequest::Done,
        m.phase == DevicePhase::Reset ==> m.after(DeviceReply::Reset(Err(e))).error == Some(e)
            && m.after(DeviceReply::Reset(Err(e))).request() == DeviceRequest::Done,
        m.phase == DevicePhase::DeviceContext || m.phase == DevicePhase::InputContext || m.phase
            == DevicePhase::ControlRing ==> m.after(DeviceReply::Memory(Err(e))).error == Some(e)
            && m.after(DeviceReply::Memory(Err(e))).request() == DeviceRequest::Done,
{
    law_port_register(0, 0, v);
}

} // verus!
