//! What a disk with a memory database on it looks like, and how its partitions and ports are
//! found.

use vstd::prelude::*;

use crate::bytes;
use crate::storage::ahci::RegRequest;
use crate::storage::contents;
use crate::storage::disk;
use crate::storage::enumerate;
use crate::storage::enumerate::AhciDevice;
use crate::storage::enumerate::EnumOp;
use crate::storage::enumerate::EnumPhase;
use crate::storage::format_law;
use crate::storage::gpt;
use crate::storage::opening;

verus! {

/// The first sector of payload `i`: behind the header, the map and the payloads before it.
pub open spec fn first_sector(db: int, es: Seq<Seq<u8>>, i: int) -> int
    decreases i,
{
    if i <= 0 {
        db + 33
    } else {
        first_sector(db, es, i - 1) + (es[i - 1].len() + 511) / 512
    }
}

/// Payload `i` is listed in the map, and stands where the map says.
pub open spec fn is_listed(d: spec_fn(int) -> Seq<u8>, db: int, es: Seq<Seq<u8>>, i: int) -> bool {
    let map = d(db + 2 + i / 32);
    let at = 16 * (i % 32);
    let first = first_sector(db, es, i);
    &&& es[i].len() > 0
    &&& format_law::num8(map, at) == first
    &&& format_law::num4(map, at + 8) == es[i].len()
    &&& format_law::num4(map, at + 12) % 2 == 1
    &&& forall|k: int| 0 <= k < es[i].len() ==> d(first + k / 512)[k % 512] == #[trigger] es[i][k]
}

/// A disk has a database with the payloads `es` at sector `db`: the header there, the head of
/// the map behind it, 31 sectors of map entries, and the payloads from the 33rd sector on.
pub open spec fn has_database(d: spec_fn(int) -> Seq<u8>, db: int, es: Seq<Seq<u8>>) -> bool {
    let h = d(db);
    let m = d(db + 1);
    &&& forall|i: int| (#[trigger] d(i)).len() == 512
    &&& format_law::is_database(h)
    &&& format_law::num4(h, 8) == 2
    &&& format_law::num4(h, 12) == 512
    &&& format_law::num8(h, 16) == db
    &&& format_law::num8(h, 24) == db + 33
    &&& format_law::num8(h, 32) == 131_072
    &&& format_law::num8(h, 72) == db + 1
    &&& format_law::num8(h, 88) == 32
    &&& format_law::is_map(m)
    &&& format_law::num4(m, 4) == 1
    &&& format_law::num4(m, 8) == 16
    &&& format_law::num4(m, 12) == 992
    &&& format_law::num8(m, 16) == es.len() <= 992
    &&& forall|i: int| 0 <= i < es.len() ==> #[trigger] is_listed(d, db, es, i)
    &&& first_sector(db, es, es.len() as int) <= db + 33 + 131_072
    &&& first_sector(db, es, es.len() as int) <= u64::MAX
}

proof fn lemma_first_sector(db: int, es: Seq<Seq<u8>>, i: int)
    ensures
        first_sector(db, es, i) == contents::start_of(db, es, i),
    decreases i,
{
    if i > 0 {
        lemma_first_sector(db, es, i - 1);
    }
}

/// A database holds payloads where the disk has them, byte for byte. What appending, reading,
/// erasing and setting up a database do is said of what it holds, and so of these bytes.
pub proof fn law_database_is_on_disk(d: spec_fn(int) -> Seq<u8>, db: u64, es: Seq<Seq<u8>>)
    requires
        db <= u64::MAX - 131_072,
    ensures
        contents::holds(d, db, es) == has_database(d, db as int, es),
{
    let b = db as int;
    lemma_first_sector(b, es, es.len() as int);
    if disk::is_disk(d) {
        let h0 = opening::blank_header();
        format_law::law_header_sector(h0, d(b));
        format_law::law_map_sector(0, d(b + 1));
        assert forall|i: int| 0 <= i < es.len() implies #[trigger] contents::lists(d, b, es, i)
            == is_listed(d, b, es, i) by {
            lemma_first_sector(b, es, i);
            let map = d(b + 2 + i / 32);
            let at = 16 * (i % 32);
            assert(bytes::le64(map, at) == format_law::num8(map, at));
            assert(bytes::le32(map, at + 8) == format_law::num4(map, at + 8));
            assert(bytes::le32(map, at + 12) == format_law::num4(map, at + 12));
            assert(i % 32 * 16 == at);
        }
        if contents::holds(d, db, es) {
            assert forall|i: int| 0 <= i < es.len() implies #[trigger] is_listed(d, b, es, i) by {
                assert(contents::lists(d, b, es, i));
            }
        }
        if has_database(d, b, es) {
            assert forall|i: int| 0 <= i < es.len() implies #[trigger] contents::lists(
                d,
                b,
                es,
                i,
            ) by {
                assert(is_listed(d, b, es, i));
            }
        }
    } else if has_database(d, b, es) {
        assert(disk::is_disk(d));
    }
}

/// Whether entry `i` of the partition table is in use and stands within one sector.
pub open spec fn is_used(d: spec_fn(int) -> Seq<u8>, i: int) -> bool {
    let size = format_law::num4(d(1), 84);
    let first = format_law::num8(d(1), 72);
    let at = i * size % 512;
    let s = d((first + i * size / 512) % 0x1_0000_0000_0000_0000);
    at + size <= 512 && exists|k: int| at <= k < at + 16 && #[trigger] s[k] != 0
}

/// Whether the second sector of a disk begins with `EFI PART` and names entries that fit into a
/// sector.
pub open spec fn has_partitions(d: spec_fn(int) -> Seq<u8>) -> bool {
    format_law::has8(d(1), 0, 69, 70, 73, 32, 80, 65, 82, 84) && 0 < format_law::num4(d(1), 84)
        <= 512
}

/// What is found in a partition table is the first sector of its first entry that is in use, as
/// bytes 32 to 39 of the entry say; nothing is where there is no table or no such entry.
pub proof fn law_first_partition(d: spec_fn(int) -> Seq<u8>, found: Option<u64>)
    requires
        disk::is_disk(d),
        gpt::starts_first_partition(d, found),
    ensures
        match found {
            Some(lba) => has_partitions(d) && exists|i: int|
                0 <= i < format_law::num4(d(1), 80) && #[trigger] is_used(d, i) && (forall|j: int|
                    0 <= j < i ==> !#[trigger] is_used(d, j)) && lba == format_law::num8(
                    d((format_law::num8(d(1), 72) + i * format_law::num4(d(1), 84) / 512)
                        % 0x1_0000_0000_0000_0000),
                    i * format_law::num4(d(1), 84) % 512 + 32,
                ),
            None => has_partitions(d) ==> forall|i: int|
                0 <= i < format_law::num4(d(1), 80) ==> !#[trigger] is_used(d, i),
        },
{
    let h = d(1);
    assert(bytes::le32(h, 84) == format_law::num4(h, 84));
    assert(bytes::le32(h, 80) == format_law::num4(h, 80));
    assert(bytes::le64(h, 72) == format_law::num8(h, 72));
    let sig = h.subrange(0, 8);
    assert(forall|k: int| 0 <= k < 8 ==> sig[k] == h[k]);
    let want = gpt::GPT_SIGNATURE@;
    if format_law::has8(h, 0, 69, 70, 73, 32, 80, 65, 82, 84) {
        assert(sig =~= want);
    } else if sig == want {
        assert(sig[0] == 69 && sig[1] == 70 && sig[2] == 73 && sig[3] == 32);
        assert(sig[4] == 80 && sig[5] == 65 && sig[6] == 82 && sig[7] == 84);
    }
    assert forall|i: int| #[trigger] gpt::is_partition(d, i) == is_used(d, i) by {}
    if let Some(lba) = found {
        let i = choose|i: int| #[trigger]
            gpt::is_first_partition(d, i) && lba == bytes::le64(
                gpt::entry_sector(d, i),
                gpt::entry_at(d, i) + 32,
            );
        assert(gpt::is_partition(d, i));
        assert(is_used(d, i));
        assert forall|j: int| 0 <= j < i implies !#[trigger] is_used(d, j) by {
            assert(!gpt::is_partition(d, j));
        }
    } else if has_partitions(d) {
        assert forall|i: int| 0 <= i < format_law::num4(d(1), 80) implies !#[trigger] is_used(d, i) by {
            assert(!gpt::is_partition(d, i));
        }
    }
}

/// The name of a partition has a character for each two bytes, up to the first that are zero;
/// what is no character by itself is a question mark.
pub proof fn law_partition_name(raw: Seq<u8>, i: int)
    requires
        0 <= i,
        2 * i + 2 <= raw.len(),
        forall|k: int| 0 <= k <= i ==> raw[2 * k] + 256 * #[trigger] raw[2 * k + 1] != 0,
    ensures
        gpt::name_points(raw).len() > i,
        gpt::name_points(raw)[i] == (if 0xd800 <= raw[2 * i] + 256 * raw[2 * i + 1] <= 0xdfff {
            63
        } else {
            raw[2 * i] + 256 * raw[2 * i + 1]
        }),
    decreases i,
{
    let first: int = 0;
    assert(raw[2 * first] + 256 * raw[2 * first + 1] != 0);
    let rest = raw.subrange(2, raw.len() as int);
    if i > 0 {
        assert forall|k: int| 0 <= k <= i - 1 implies rest[2 * k] + 256 * #[trigger] rest[2 * k + 1]
            != 0 by {
            assert(raw[2 * (k + 1)] + 256 * raw[2 * (k + 1) + 1] != 0);
        }
        law_partition_name(rest, i - 1);
        assert(gpt::name_points(raw)[i] == gpt::name_points(rest)[i - 1]);
    }
}

/// The name of a partition ends at the first two bytes that are zero, or with the field.
pub proof fn law_partition_name_ends(raw: Seq<u8>, n: int)
    requires
        0 <= n,
        2 * n <= raw.len(),
        2 * n + 2 > raw.len() || raw[2 * n] == 0 && raw[2 * n + 1] == 0,
    ensures
        gpt::name_points(raw).len() <= n,
    decreases n,
{
    if n > 0 && raw.len() >= 2 && bytes::le16(raw, 0) != 0 {
        let rest = raw.subrange(2, raw.len() as int);
        if 2 * n + 2 <= raw.len() {
            assert(rest[2 * (n - 1)] == raw[2 * n] && rest[2 * (n - 1) + 1] == raw[2 * n + 1]);
        }
        law_partition_name_ends(rest, n - 1);
    }
}

/// What the registers of a controller and its ports say.
pub struct Controller {
    /// Which ports there are, one bit for each.
    pub ports: u32,
    /// The status of a port.
    pub status: spec_fn(int) -> u32,
    /// The signature of the device on a port.
    pub signature: spec_fn(int) -> u32,
}

/// Whether there is a port.
pub open spec fn has_port(c: Controller, p: int) -> bool {
    c.ports & (1u32 << (p as u32)) != 0
}

/// The kind of device that a signature is of.
pub open spec fn kind_of(sig: u32) -> AhciDevice {
    if sig == 0x101 || sig == 0x101_0101 {
        AhciDevice::Sata
    } else if sig == 0xeb14_0101 {
        AhciDevice::Satapi
    } else if sig == 0xc33c_0101 {
        AhciDevice::EnclosureBridge
    } else if sig == 0x9669_0101 {
        AhciDevice::PortMultiplier
    } else {
        AhciDevice::Unknown
    }
}

/// Whether a value is what a controller's register holds.
pub open spec fn is_value(c: Controller, request: RegRequest, value: u32) -> bool {
    match request {
        RegRequest::Read { reg } => if reg == 3 {
            value == c.ports
        } else if reg >= 64 && reg % 32 == 10 {
            value == (c.status)((reg - 64) / 32)
        } else if reg >= 64 && reg % 32 == 9 {
            value == (c.signature)((reg - 64) / 32)
        } else {
            true
        },
        _ => true,
    }
}

/// Answers to each request in turn.
pub open spec fn is_enumeration(c: Controller, ms: Seq<EnumOp>, values: Seq<u32>) -> bool {
    &&& ms.len() == values.len() + 1
    &&& ms[0] == EnumOp::begin()
    &&& forall|i: int|
        0 <= i < values.len() ==> {
            &&& ms[i + 1] == #[trigger] ms[i].after(values[i])
            &&& is_value(c, ms[i].request(), values[i])
        }
}

/// A device was found on a port.
pub open spec fn was_found(ms: Seq<EnumOp>, p: int, kind: AhciDevice, n: int) -> bool {
    exists|i: int|
        0 <= i < n && #[trigger] ms[i].phase == EnumPhase::Found && ms[i].port == p && ms[i].kind
            == kind
}

/// Whether there is a device on a port.
pub open spec fn has_device(c: Controller, p: int) -> bool {
    has_port(c, p) && (c.status)(p) % 16 == 3
}

/// All ports below `p` were looked at.
spec fn looked_at(c: Controller, ms: Seq<EnumOp>, p: int, n: int) -> bool {
    &&& forall|q: int|
        0 <= q < p && #[trigger] has_device(c, q) ==> was_found(
            ms,
            q,
            kind_of((c.signature)(q)),
            n,
        )
    &&& forall|i: int|
        0 <= i < n && #[trigger] ms[i].phase == EnumPhase::Found ==> 0 <= ms[i].port < p
            && has_device(c, ms[i].port as int) && ms[i].kind == kind_of(
            (c.signature)(ms[i].port as int),
        )
}

proof fn lemma_next_port(c: Controller, p: int)
    requires
        0 <= p <= 32,
    ensures
        p <= enumerate::next_port(c.ports, p) <= 32,
        forall|q: int| p <= q < enumerate::next_port(c.ports, p) ==> !#[trigger] has_port(c, q),
        enumerate::next_port(c.ports, p) < 32 ==> has_port(c, enumerate::next_port(c.ports, p)),
    decreases 32 - p,
{
    if p < 32 && c.ports & (1u32 << (p as u32)) == 0 {
        lemma_next_port(c, p + 1);
    }
}

proof fn lemma_looked(c: Controller, ms: Seq<EnumOp>, p: int, n: int, to: int)
    requires
        0 < n < ms.len(),
        looked_at(c, ms, p, n - 1),
        ms[n - 1].phase != EnumPhase::Found,
        p <= to,
        forall|q: int| p <= q < to ==> !#[trigger] has_device(c, q),
    ensures
        looked_at(c, ms, to, n),
{
    assert forall|q: int| 0 <= q < to && #[trigger] has_device(c, q) implies was_found(
        ms,
        q,
        kind_of((c.signature)(q)),
        n,
    ) by {
        assert(was_found(ms, q, kind_of((c.signature)(q)), n - 1));
        let i = choose|i: int|
            0 <= i < n - 1 && #[trigger] ms[i].phase == EnumPhase::Found && ms[i].port == q
                && ms[i].kind == kind_of((c.signature)(q));
        assert(ms[i].phase == EnumPhase::Found);
    }
}

proof fn lemma_enumeration(c: Controller, ms: Seq<EnumOp>, values: Seq<u32>, n: int)
    requires
        is_enumeration(c, ms, values),
        0 <= n <= values.len(),
    ensures
        match ms[n].phase {
            EnumPhase::EnableRead | EnumPhase::EnableWrite | EnumPhase::ResetRead
            | EnumPhase::ResetWrite | EnumPhase::ResetPoll | EnumPhase::ResetWait
            | EnumPhase::ReenableRead | EnumPhase::ReenableWrite | EnumPhase::ReadPorts =>
                looked_at(c, ms, 0, n),
            EnumPhase::Done => looked_at(c, ms, 32, n),
            _ => {
                &&& ms[n].ports == c.ports
                &&& ms[n].port < 32
                &&& has_port(c, ms[n].port as int)
                &&& looked_at(c, ms, ms[n].port as int, n)
                &&& ms[n].phase == EnumPhase::Found || ms[n].phase == EnumPhase::Signature
                    || ms[n].phase == EnumPhase::SignatureWait || ms[n].phase
                    == EnumPhase::ReceiveRead || ms[n].phase == EnumPhase::ReceiveWrite
                    || ms[n].phase == EnumPhase::StartWrite ==> (c.status)(ms[n].port as int) % 16
                    == 3
                &&& ms[n].phase == EnumPhase::Found ==> ms[n].kind == kind_of(
                    (c.signature)(ms[n].port as int),
                )
            },
        },
    decreases n,
{
    if n > 0 {
        lemma_enumeration(c, ms, values, n - 1);
        let m = ms[n - 1];
        let v = values[n - 1];
        assert(ms[n - 1 + 1] == m.after(v));
        let p = m.port as int;
        if m.phase != EnumPhase::Done && m.phase != EnumPhase::Found {
            let from = if m.phase == EnumPhase::ReadPorts {
                0
            } else {
                p + 1
            };
            let start = if m.phase == EnumPhase::Present || m.phase == EnumPhase::SpinRead
                || m.phase == EnumPhase::SpinWrite || m.phase == EnumPhase::Detect || m.phase
                == EnumPhase::DetectWait || m.phase == EnumPhase::ReceiveRead || m.phase
                == EnumPhase::ReceiveWrite || m.phase == EnumPhase::StartWrite || m.phase
                == EnumPhase::Signature || m.phase == EnumPhase::SignatureWait {
                p
            } else {
                0
            };
            lemma_looked(c, ms, start, n, start);
            if m.phase == EnumPhase::ReadPorts || m.after(v).port != m.port || m.after(v).phase
                == EnumPhase::Done {
                lemma_next_port(c, from);
                let to = enumerate::next_port(c.ports, from);
                assert forall|q: int| start <= q < to implies !#[trigger] has_device(c, q) by {
                    if q >= from {
                        assert(!has_port(c, q));
                    }
                }
                lemma_looked(c, ms, start, n, to);
            }
        } else if m.phase == EnumPhase::Found {
            lemma_next_port(c, p + 1);
            let to = enumerate::next_port(c.ports, p + 1);
            assert forall|q: int| 0 <= q < to && #[trigger] has_device(c, q) implies was_found(
                ms,
                q,
                kind_of((c.signature)(q)),
                n,
            ) by {
                if q < p {
                    let i = choose|i: int|
                        0 <= i < n - 1 && #[trigger] ms[i].phase == EnumPhase::Found && ms[i].port
                            == q && ms[i].kind == kind_of((c.signature)(q));
                    assert(ms[i].phase == EnumPhase::Found);
                } else if q == p {
                    assert(ms[n - 1].phase == EnumPhase::Found);
                } else {
                    assert(!has_port(c, q));
                }
            }
        } else {
            lemma_looked(c, ms, 32, n, 32);
        }
    }
}

/// Bringing a controller up finds the device on each port that there is and that has one, tells
/// what kind it is, and finds no others.
pub proof fn law_all_devices_are_found(c: Controller, ms: Seq<EnumOp>, values: Seq<u32>, p: int)
    requires
        is_enumeration(c, ms, values),
        ms.last().phase == EnumPhase::Done,
        0 <= p < 32,
    ensures
        has_device(c, p) ==> was_found(
            ms,
            p,
            kind_of((c.signature)(p)),
            values.len() as int,
        ),
        !has_device(c, p) ==> forall|k: AhciDevice|
            !#[trigger] was_found(ms, p, k, values.len() as int),
{
    lemma_enumeration(c, ms, values, values.len() as int);
    if !has_device(c, p) {
        assert forall|k: AhciDevice| !#[trigger] was_found(ms, p, k, values.len() as int) by {
            if was_found(ms, p, k, values.len() as int) {
                let i = choose|i: int|
                    0 <= i < values.len() && #[trigger] ms[i].phase == EnumPhase::Found
                        && ms[i].port == p && ms[i].kind == k;
                assert(has_device(c, ms[i].port as int));
            }
        }
    }
}

/// The controller is switched to its own mode, reset and switched again; a port whose device
/// answers is spun up, and its receiver and then its command list are switched on. Nothing else
/// is written.
pub proof fn law_controller_is_brought_up(m: EnumOp)
    requires
        m.port < 32,
    ensures
        ({
            let v = m.value;
            let r = 64 + 32 * m.port + 6;
            match m.request() {
                RegRequest::Write { reg, value } => match m.phase {
                    EnumPhase::EnableWrite | EnumPhase::ReenableWrite => reg == 1 && value == v
                        % 0x8000_0000 + 0x8000_0000,
                    EnumPhase::ResetWrite => reg == 1 && value == v - v % 2 + 1,
                    EnumPhase::SpinWrite => reg == r && value == v - v / 2 % 4 * 2 + 6,
                    EnumPhase::ReceiveWrite => reg == r && value == v - v / 16 % 2 * 16 + 16,
                    EnumPhase::StartWrite => reg == r && value == v - v / 16 % 2 * 16 - v % 2 + 17,
                    _ => false,
                },
                RegRequest::Delay { us } => us == 1000,
                RegRequest::Read { reg } => match m.phase {
                    EnumPhase::EnableRead | EnumPhase::ResetRead | EnumPhase::ResetPoll
                    | EnumPhase::ReenableRead => reg == 1,
                    EnumPhase::ReadPorts => reg == 3,
                    EnumPhase::SpinRead | EnumPhase::ReceiveRead => reg == r,
                    EnumPhase::Present | EnumPhase::Detect => reg == r + 4,
                    EnumPhase::Signature => reg == r + 3,
                    _ => false,
                },
                RegRequest::Issue => false,
                RegRequest::Done => m.phase == EnumPhase::Found || m.phase == EnumPhase::Done,
            }
        }),
{
    let v = m.value;
    assert(v | 0x8000_0000 == v % 0x8000_0000 + 0x8000_0000 && v | 1 == v - v % 2 + 1 && v | 6 == v
        - v / 2 % 4 * 2 + 6 && v | 0x10 == v - v / 16 % 2 * 16 + 16 && (v | 0x10) | 1 == v - v / 16
        % 2 * 16 - v % 2 + 17) by (bit_vector);
}

/// Each step of bringing a controller up follows the one before, and a poll is made again as
/// often as there is patience for: a thousand times for a reset, a hundred for a device to
/// answer, five hundred for its signature, a millisecond apart.
pub proof fn law_controller_is_waited_for(m: EnumOp, v: u32)
    requires
        m.port < 32,
    ensures
        m.phase == EnumPhase::ResetWrite ==> m.after(v).left == 1000 && m.after(v).phase
            == EnumPhase::ResetPoll,
        m.phase == EnumPhase::ResetPoll ==> m.after(v).phase == (if v % 2 == 0 {
            EnumPhase::ReenableRead
        } else {
            EnumPhase::ResetWait
        }),
        m.phase == EnumPhase::SpinWrite ==> m.after(v).left == 100 && m.after(v).phase
            == EnumPhase::Detect,
        m.phase == EnumPhase::StartWrite ==> m.after(v).left == 500 && m.after(v).phase
            == EnumPhase::Signature,
        m.phase == EnumPhase::Detect && v % 16 != 3 && m.left > 0 ==> m.after(v).phase
            == EnumPhase::DetectWait && m.after(v).left == m.left - 1 && m.after(v).port == m.port,
        m.phase == EnumPhase::Signature && kind_of(v) == AhciDevice::Unknown && m.left > 0
            ==> m.after(v).phase == EnumPhase::SignatureWait && m.after(v).left == m.left - 1,
        m.phase == EnumPhase::EnableRead ==> m.after(v).phase == EnumPhase::EnableWrite
            && m.after(v).value == v,
        m.phase == EnumPhase::EnableWrite ==> m.after(v).phase == EnumPhase::ResetRead,
        m.phase == EnumPhase::ResetRead ==> m.after(v).phase == EnumPhase::ResetWrite
            && m.after(v).value == v,
        m.phase == EnumPhase::ReenableRead ==> m.after(v).phase == EnumPhase::ReenableWrite
            && m.after(v).value == v,
        m.phase == EnumPhase::ReenableWrite ==> m.after(v).phase == EnumPhase::ReadPorts,
        m.phase == EnumPhase::Present && v % 16 != 0 ==> m.after(v).phase == EnumPhase::SpinRead,
        m.phase == EnumPhase::SpinRead ==> m.after(v).phase == EnumPhase::SpinWrite && m.after(
            v,
        ).value == v,
        m.phase == EnumPhase::ReceiveRead ==> m.after(v).phase == EnumPhase::ReceiveWrite
            && m.after(v).value == v,
        m.phase == EnumPhase::ReceiveWrite ==> m.after(v).phase == EnumPhase::StartWrite && m.after(
            v,
        ).value == m.value,
{
    assert((v & 1 == 0) == (v % 2 == 0)) by (bit_vector);
}

} // verus!
