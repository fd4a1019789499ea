//! What a port and the disk behind it do while sectors are transferred.

use vstd::prelude::*;

use crate::storage::ahci;
use crate::storage::ahci::CommandHeader;
use crate::storage::ahci::IdentifyDevice;
use crate::storage::ahci::IdentifyPhase;
use crate::storage::ahci::PRDTEntry;
use crate::storage::ahci::RegRequest;
use crate::storage::ahci::SectorTransfer;
use crate::storage::ahci::StartPort;
use crate::storage::ahci::StopPort;
use crate::storage::ahci::TransferPhase;
use crate::storage::transfer_law;

verus! {

/// A command in the first slot of the command list, and where its table stands.
pub struct Slot {
    pub header: CommandHeader,
    pub fis: Seq<u8>,
    pub prdt: PRDTEntry,
    pub table: int,
}

/// A disk, the memory that its port can reach, and the port.
pub struct World {
    /// The bytes of each sector.
    pub disk: spec_fn(int) -> Seq<u8>,
    /// The byte at each address.
    pub memory: spec_fn(int) -> u8,
    /// What the disk says of itself.
    pub description: Seq<u8>,
    pub slot: Option<Slot>,
    /// Whether the port was told to carry out the command, and has not done so yet.
    pub running: bool,
    /// Whether the port was idle when it was last asked, and its errors were cleared since.
    pub idle: bool,
    /// Whether the port's engines were last told to be on.
    pub started: bool,
    pub interrupts_cleared: bool,
    pub errors_cleared: bool,
    /// How many commands the port was told to carry out while it could not.
    pub spoiled: int,
    /// How many commands have been carried out.
    pub done: int,
}

/// The commands that a disk knows are well formed: the table is where the header says, and has
/// a register FIS that is a command, of five words; there is one region of memory.
pub open spec fn is_command(s: Slot) -> bool {
    &&& s.header.ctba + 0x1_0000_0000 * s.header.ctbau == s.table
    &&& s.header.cfl_flags % 32 == 5
    &&& s.header.prdtl == 1
    &&& s.fis.len() >= 20
    &&& s.fis[0] == 0x27
    &&& s.fis[1] >= 128
}

/// How many bytes the region of memory has.
pub open spec fn region_len(s: Slot) -> int {
    s.prdt.dbc_flags % 0x40_0000 + 1
}

/// The memory with bytes put where the region is.
pub open spec fn put(s: Slot, memory: spec_fn(int) -> u8, bytes: spec_fn(int) -> u8) -> spec_fn(
    int,
) -> u8 {
    let at = s.prdt.dba + 0x1_0000_0000 * s.prdt.dbau;
    |x: int|
        if at <= x < at + region_len(s) {
            bytes(x - at)
        } else {
            memory(x)
        }
}

/// What a disk and the memory are once a command has been carried out.
pub open spec fn carried_out(w: World, s: Slot) -> World {
    let first = transfer_law::named_sector(s.fis);
    let count = transfer_law::named_count(s.fis);
    let at = s.prdt.dba + 0x1_0000_0000 * s.prdt.dbau;
    if !is_command(s) {
        w
    } else if s.fis[2] == 0x25 && s.fis[7] / 64 % 2 == 1 && s.header.cfl_flags / 64 % 2 == 0
        && region_len(s) == count * 512 {
        World { memory: put(s, w.memory, |k: int| (w.disk)(first + k / 512)[k % 512]), ..w }
    } else if s.fis[2] == 0x35 && s.fis[7] / 64 % 2 == 1 && s.header.cfl_flags / 64 % 2 == 1
        && region_len(s) == count * 512 {
        World {
            disk: |i: int|
                if first <= i < first + count {
                    Seq::new(512, |k: int| (w.memory)(at + (i - first) * 512 + k))
                } else {
                    (w.disk)(i)
                },
            ..w
        }
    } else if s.fis[2] == 0xec && s.header.cfl_flags / 64 % 2 == 0 && region_len(s) == 512 {
        World { memory: put(s, w.memory, |k: int| w.description[k]), ..w }
    } else {
        w
    }
}

/// What an access to the port's registers does, or putting a command into the slot; `value` is
/// what was read.
pub open spec fn accessed(w: World, request: RegRequest, slot: Slot, value: u32) -> World {
    match request {
        RegRequest::Read { reg } => if reg == 8 {
            World {
                idle: value / 8 % 2 == 0 && value / 128 % 2 == 0,
                interrupts_cleared: false,
                errors_cleared: false,
                ..w
            }
        } else {
            w
        },
        RegRequest::Write { reg, value: v } => if reg == 4 && v == 0xffff_ffff {
            World { interrupts_cleared: true, ..w }
        } else if reg == 12 && v == 0xffff_ffff {
            World { errors_cleared: true, ..w }
        } else if reg == 6 {
            World { started: v % 2 == 1 && v / 16 % 2 == 1, ..w }
        } else if reg == 14 && v % 2 == 1 {
            if w.slot is Some && !w.running {
                World {
                    running: true,
                    spoiled: if w.idle && w.interrupts_cleared && w.errors_cleared {
                        w.spoiled
                    } else {
                        w.spoiled + 1
                    },
                    ..w
                }
            } else {
                World { spoiled: w.spoiled + 1, ..w }
            }
        } else {
            w
        },
        RegRequest::Issue => if w.running {
            World { slot: Some(slot), spoiled: w.spoiled + 1, ..w }
        } else {
            World { slot: Some(slot), ..w }
        },
        _ => w,
    }
}

/// The port has carried out the command that it was told to.
pub open spec fn completed(w: World) -> World {
    if w.running && w.slot is Some {
        World { running: false, done: w.done + 1, ..carried_out(w, w.slot->0) }
    } else {
        w
    }
}

/// A read of the port's commands tells whether one is being carried out.
pub open spec fn tells(w: World, request: RegRequest, value: u32) -> bool {
    request == (RegRequest::Read { reg: 14 }) ==> ((value % 2 == 1) == w.running)
}

/// A port that was not told to do anything.
pub open spec fn at_rest(w: World) -> bool {
    !w.running && w.done == 0 && w.spoiled == 0
}

/// Answers to each request in turn. The port carries out a command whenever it likes.
pub open spec fn is_run(
    ms: Seq<SectorTransfer>,
    ws: Seq<World>,
    values: Seq<u32>,
    slot: Slot,
) -> bool {
    &&& ms.len() == values.len() + 1
    &&& ws.len() == values.len() + 1
    &&& forall|i: int|
        0 <= i < values.len() ==> {
            let after = accessed(ws[i], ms[i].request(), slot, values[i]);
            &&& ms[i + 1] == #[trigger] ms[i].after(values[i])
            &&& ws[i + 1] == after || ws[i + 1] == completed(after)
            &&& tells(ws[i], ms[i].request(), values[i])
        }
}

/// The command that the table and the data are put at `table` and `data` for.
pub open spec fn slot_of(lba: u64, count: u16, is_write: bool, table: u64, data: u64) -> Slot {
    Slot {
        header: ahci::header_of(is_write, table),
        fis: ahci::transfer_fis(lba, count, is_write),
        prdt: ahci::region_of(count, data),
        table: table as int,
    }
}

proof fn lemma_bits(v: u32)
    ensures
        (v & 0x88 == 0) == (v / 8 % 2 == 0 && v / 128 % 2 == 0),
        (v & 1 == 0) == (v % 2 == 0),
        (v & 0x4000_0000 == 0) == (v / 0x4000_0000 % 2 == 0),
{
    assert((v & 0x88 == 0) == (v / 8 % 2 == 0 && v / 128 % 2 == 0) && (v & 1 == 0) == (v % 2 == 0)
        && (v & 0x4000_0000 == 0) == (v / 0x4000_0000 % 2 == 0)) by (bit_vector);
}

/// Where a transfer stands, the port stands too.
spec fn in_step(m: SectorTransfer, w: World, w0: World, slot: Slot) -> bool {
    let fresh = w.disk == w0.disk && w.memory == w0.memory && w.description == w0.description;
    let before = fresh && !w.running && w.done == 0 && w.spoiled == 0;
    match m.phase {
        TransferPhase::Busy => before,
        TransferPhase::BusyWait => before,
        TransferPhase::ClearInterrupts => before && w.idle,
        TransferPhase::ClearErrors => before && w.idle && w.interrupts_cleared,
        TransferPhase::Issue => before && w.idle && w.interrupts_cleared && w.errors_cleared,
        TransferPhase::Start => before && w.idle && w.interrupts_cleared && w.errors_cleared
            && w.slot == Some(slot),
        TransferPhase::Failed => true,
        _ => {
            &&& w.slot == Some(slot)
            &&& w.spoiled == 0
            &&& m.phase == TransferPhase::Done ==> !w.running
            &&& if w.running {
                fresh && w.done == 0
            } else {
                let c = carried_out(w0, slot);
                w.done == 1 && w.disk == c.disk && w.memory == c.memory
            }
        },
    }
}

proof fn lemma_same(a: World, b: World, slot: Slot)
    requires
        a.disk == b.disk,
        a.memory == b.memory,
        a.description == b.description,
    ensures
        carried_out(a, slot).disk == carried_out(b, slot).disk,
        carried_out(a, slot).memory == carried_out(b, slot).memory,
        carried_out(a, slot).slot == a.slot,
        carried_out(a, slot).spoiled == a.spoiled,
        carried_out(a, slot).done == a.done,
{
    assert(carried_out(a, slot).disk =~= carried_out(b, slot).disk);
    assert(carried_out(a, slot).memory =~= carried_out(b, slot).memory);
}

proof fn lemma_in_step(
    ms: Seq<SectorTransfer>,
    ws: Seq<World>,
    values: Seq<u32>,
    slot: Slot,
    n: int,
)
    requires
        is_run(ms, ws, values, slot),
        0 <= n <= values.len(),
        ms[0].phase == TransferPhase::Busy,
        at_rest(ws[0]),
    ensures
        in_step(ms[n], ws[n], ws[0], slot),
        ms[n].is_write == ms[0].is_write,
    decreases n,
{
    if n > 0 {
        lemma_in_step(ms, ws, values, slot, n - 1);
        let m = ms[n - 1];
        let v = values[n - 1];
        assert(ms[n - 1 + 1] == m.after(v));
        lemma_bits(v);
        let after = accessed(ws[n - 1], m.request(), slot, v);
        if m.phase != TransferPhase::Failed && after.running {
            lemma_same(after, ws[0], slot);
        }
    }
}

/// The command of a transfer, carried out, moves the sectors that the transfer is of, and
/// nothing else: a read puts their bytes into the memory, a write takes them from there.
pub proof fn law_command_moves_sectors(
    w: World,
    lba: u64,
    count: u16,
    is_write: bool,
    table: u64,
    data: u64,
)
    requires
        lba < 0x1_0000_0000_0000,
        0 < count <= 8192,
    ensures
        ({
            let c = carried_out(w, slot_of(lba, count, is_write, table, data));
            &&& is_write ==> {
                &&& c.memory == w.memory
                &&& forall|i: int, k: int|
                    lba <= i < lba + count && 0 <= k < 512 ==> #[trigger] (c.disk)(i)[k] == (
                    w.memory)(data + (i - lba) * 512 + k)
                &&& forall|i: int| lba <= i < lba + count ==> (#[trigger] (c.disk)(i)).len() == 512
                &&& forall|i: int|
                    i < lba || i >= lba + count ==> #[trigger] (c.disk)(i) == (w.disk)(i)
            }
            &&& !is_write ==> {
                &&& c.disk == w.disk
                &&& forall|k: int|
                    0 <= k < count * 512 ==> #[trigger] (c.memory)(data + k) == (w.disk)(
                        lba + k / 512,
                    )[k % 512]
                &&& forall|x: int|
                    x < data || x >= data + count * 512 ==> #[trigger] (c.memory)(x) == (w.memory)(x)
            }
        }),
{
    let s = slot_of(lba, count, is_write, table, data);
    ahci::law_transfer_names_sectors(lba, count, is_write);
    assert(s.fis[0] == 0x27 && s.fis[1] == 0x80 && s.fis[7] == 0x40);
    assert(s.prdt.dba + 0x1_0000_0000 * s.prdt.dbau == data);
    assert(is_command(s));
    assert(region_len(s) == count * 512);
    let c = carried_out(w, s);
    if is_write {
        assert forall|i: int, k: int| lba <= i < lba + count && 0 <= k < 512 implies #[trigger] (
        c.disk)(i)[k] == (w.memory)(data + (i - lba) * 512 + k) by {}
    } else {
        assert forall|k: int| 0 <= k < count * 512 implies #[trigger] (c.memory)(data + k) == (
        w.disk)(lba + k / 512)[k % 512] by {}
    }
}

/// A transfer that succeeds has told the port exactly once to carry out its command, when the
/// port was idle and its errors were cleared, and the port has done so: the sectors are where
/// they belong, and all else is as it was.
pub proof fn law_success_moves_sectors(
    ms: Seq<SectorTransfer>,
    ws: Seq<World>,
    values: Seq<u32>,
    lba: u64,
    count: u16,
    is_write: bool,
    table: u64,
    data: u64,
)
    requires
        lba < 0x1_0000_0000_0000,
        0 < count <= 8192,
        ms.len() > 0,
        ms[0] == SectorTransfer::begin(lba, count, is_write),
        at_rest(ws[0]),
        is_run(ms, ws, values, slot_of(lba, count, is_write, table, data)),
        ms.last().phase == TransferPhase::Done,
    ensures
        ws.last().done == 1,
        ws.last().spoiled == 0,
        !ws.last().running,
        is_write ==> {
            &&& ws.last().memory == ws[0].memory
            &&& forall|i: int, k: int|
                lba <= i < lba + count && 0 <= k < 512 ==> #[trigger] (ws.last().disk)(i)[k] == (
                ws[0].memory)(data + (i - lba) * 512 + k)
            &&& forall|i: int|
                i < lba || i >= lba + count ==> #[trigger] (ws.last().disk)(i) == (ws[0].disk)(i)
        },
        !is_write ==> {
            &&& ws.last().disk == ws[0].disk
            &&& forall|k: int|
                0 <= k < count * 512 ==> #[trigger] (ws.last().memory)(data + k) == (ws[0].disk)(
                    lba + k / 512,
                )[k % 512]
            &&& forall|x: int|
                x < data || x >= data + count * 512 ==> #[trigger] (ws.last().memory)(x) == (
                ws[0].memory)(x)
        },
{
    lemma_in_step(
        ms,
        ws,
        values,
        slot_of(lba, count, is_write, table, data),
        values.len() as int,
    );
    law_command_moves_sectors(ws[0], lba, count, is_write, table, data);
}

/// How many of the first `n` requests of a transfer read a register.
pub open spec fn reads(ms: Seq<SectorTransfer>, reg: u32, n: int) -> int
    decreases n,
{
    if n <= 0 {
        0
    } else {
        reads(ms, reg, n - 1) + if ms[n - 1].request() == (RegRequest::Read { reg }) {
            1int
        } else {
            0
        }
    }
}

/// A transfer goes from one state to the next with each answer.
pub open spec fn goes_on(ms: Seq<SectorTransfer>, values: Seq<u32>) -> bool {
    &&& ms.len() == values.len() + 1
    &&& forall|i: int|
        0 <= i < values.len() ==> ms[i + 1] == #[trigger] ms[i].after(values[i])
}

spec fn counted(ms: Seq<SectorTransfer>, values: Seq<u32>, n: int) -> bool {
    let m = ms[n];
    let tries: int = if m.is_write {
        50_000
    } else {
        1_000
    };
    let busy = reads(ms, 8, n);
    let polls = reads(ms, 14, n);
    match m.phase {
        TransferPhase::Busy => busy == 10_000 - m.left && polls == 0,
        TransferPhase::BusyWait => busy == 10_000 - m.left && polls == 0 && m.left < 10_000,
        TransferPhase::Poll => busy <= 10_000 && polls == tries - m.left && m.left <= tries,
        TransferPhase::PollErrors => busy <= 10_000 && polls == tries - m.left && m.left < tries,
        TransferPhase::PollWait => busy <= 10_000 && polls == tries - m.left && m.left < tries,
        TransferPhase::Done => busy <= 10_000 && polls <= tries,
        TransferPhase::Failed => {
            ||| busy == 10_001
            ||| polls == tries + 1
            ||| exists|i: int|
                0 <= i < n && ms[i].request() == (RegRequest::Read { reg: 4 })
                    && #[trigger] values[i] / 0x4000_0000 % 2 == 1
        },
        _ => busy <= 10_000 && polls == 0,
    }
}

proof fn lemma_counted(ms: Seq<SectorTransfer>, values: Seq<u32>, n: int)
    requires
        goes_on(ms, values),
        0 <= n <= values.len(),
        ms[0].phase == TransferPhase::Busy,
        ms[0].left == 10_000,
    ensures
        counted(ms, values, n),
        ms[n].is_write == ms[0].is_write,
        ms[n].phase == TransferPhase::Busy ==> ms[n].left <= 10_000,
    decreases n,
{
    if n > 0 {
        lemma_counted(ms, values, n - 1);
        let m = ms[n - 1];
        let v = values[n - 1];
        assert(ms[n - 1 + 1] == m.after(v));
        lemma_bits(v);
        if m.phase == TransferPhase::PollErrors && ms[n].phase == TransferPhase::Failed {
            assert(values[n - 1] / 0x4000_0000 % 2 == 1);
        }
        if m.phase == TransferPhase::Failed && !(reads(ms, 8, n - 1) == 10_001) {
            assert(reads(ms, 8, n) == reads(ms, 8, n - 1));
            assert(reads(ms, 14, n) == reads(ms, 14, n - 1));
        }
    }
}

/// A transfer fails only if the port raised a task file error, or was still busy when it was
/// asked for the ten thousandth time, or was still at work after a thousand polls for a read
/// and fifty thousand for a write. It waits 10 microseconds between the first, 100 between the
/// second.
pub proof fn law_transfer_is_patient(
    ms: Seq<SectorTransfer>,
    values: Seq<u32>,
    lba: u64,
    count: u16,
    is_write: bool,
)
    requires
        goes_on(ms, values),
        ms[0] == SectorTransfer::begin(lba, count, is_write),
    ensures
        ms.last().phase == TransferPhase::Failed ==> {
            ||| reads(ms, 8, values.len() as int) == 10_001
            ||| reads(ms, 14, values.len() as int) == if is_write {
                50_001int
            } else {
                1_001
            }
            ||| exists|i: int|
                0 <= i < values.len() && ms[i].request() == (RegRequest::Read { reg: 4 })
                    && #[trigger] values[i] / 0x4000_0000 % 2 == 1
        },
        forall|i: int|
            0 <= i < values.len() ==> {
                &&& (#[trigger] ms[i].request() matches RegRequest::Delay { us } ==> us == (if reads(
                    ms,
                    14,
                    i,
                ) == 0 {
                    10int
                } else {
                    100
                }))
            },
{
    lemma_counted(ms, values, values.len() as int);
    assert forall|i: int| 0 <= i < values.len() implies {
        &&& (#[trigger] ms[i].request() matches RegRequest::Delay { us } ==> us == (if reads(
            ms,
            14,
            i,
        ) == 0 {
            10int
        } else {
            100
        }))
    } by {
        lemma_counted(ms, values, i);
    }
}

/// A stop goes from one state to the next with each answer.
pub open spec fn stops(ms: Seq<StopPort>, values: Seq<u32>) -> bool {
    &&& ms.len() == values.len() + 1
    &&& forall|i: int|
        0 <= i < values.len() ==> {
            &&& ms[i].request() != RegRequest::Done
            &&& ms[i + 1] == #[trigger] ms[i].after(values[i])
        }
}

/// A start goes from one state to the next with each answer.
pub open spec fn starts(ms: Seq<StartPort>, values: Seq<u32>) -> bool {
    &&& ms.len() == values.len() + 1
    &&& forall|i: int|
        0 <= i < values.len() ==> {
            &&& ms[i].request() != RegRequest::Done
            &&& ms[i + 1] == #[trigger] ms[i].after(values[i])
        }
}

proof fn lemma_command_bits(v: u32)
    ensures
        (v & 0xffff_fffe) & 0xffff_ffef == v - v % 2 - 16 * (v / 16 % 2),
        v | 0x10 == v - 16 * (v / 16 % 2) + 16,
        (v | 0x10) | 1 == v - 16 * (v / 16 % 2) - v % 2 + 17,
        (v & 0xc000 == 0) == (v / 0x4000 % 4 == 0),
        (v & 0x8000 == 0) == (v / 0x8000 % 2 == 0),
{
    assert((v & 0xffff_fffe) & 0xffff_ffef == v - v % 2 - 16 * (v / 16 % 2) && v | 0x10 == v - 16
        * (v / 16 % 2) + 16 && (v | 0x10) | 1 == v - 16 * (v / 16 % 2) - v % 2 + 17 && (v & 0xc000
        == 0) == (v / 0x4000 % 4 == 0) && (v & 0x8000 == 0) == (v / 0x8000 % 2 == 0))
        by (bit_vector);
}

proof fn lemma_stop(ms: Seq<StopPort>, values: Seq<u32>, n: int)
    requires
        stops(ms, values),
        ms[0] == StopPort::begin(),
        0 <= n <= values.len(),
    ensures
        match ms[n].phase {
            ahci::PortPhase::ReadCommand => n == 0 && ms[n].left == 1000,
            ahci::PortPhase::ClearCommand => n == 1 && ms[n].cmd == values[0] && ms[n].left == 1000,
            ahci::PortPhase::Poll => n >= 2 && n == 2 + 2 * (1000 - ms[n].left),
            ahci::PortPhase::Wait => n >= 2 && n == 1 + 2 * (1000 - ms[n].left),
            ahci::PortPhase::Done => if ms[n].timed_out {
                n == 2003
            } else {
                &&& 3 <= n <= 2002
                &&& values[n - 1] / 0x4000 % 4 == 0
                &&& ms[n - 1].request() == (RegRequest::Read { reg: 6 })
            },
            _ => false,
        },
        ms[n].phase != ahci::PortPhase::Done ==> !ms[n].timed_out,
    decreases n,
{
    if n > 0 {
        lemma_stop(ms, values, n - 1);
        assert(ms[n - 1 + 1] == ms[n - 1].after(values[n - 1]));
        lemma_command_bits(values[n - 1]);
    }
}

/// Stopping a port switches off its command list and its FIS receiver and nothing else, by the
/// one write that it makes; it is over when both are seen to have stopped, or after a thousand
/// waits of 100 microseconds.
pub proof fn law_stop_switches_off(ms: Seq<StopPort>, values: Seq<u32>, i: int)
    requires
        stops(ms, values),
        ms[0] == StopPort::begin(),
        0 <= i < values.len(),
    ensures
        ms[i].request() is Read || ms[i].request() is Write || ms[i].request() is Delay,
        ms[i].request() matches RegRequest::Read { reg } ==> reg == 6,
        ms[i].request() matches RegRequest::Delay { us } ==> us == 100,
        (ms[i].request() is Write) == (i == 1),
        ms[i].request() matches RegRequest::Write { reg, value } ==> reg == 6 && value == values[0]
            - values[0] % 2 - 16 * (values[0] / 16 % 2),
        ms.last().request() == RegRequest::Done ==> if ms.last().timed_out {
            values.len() == 2003
        } else {
            values.len() >= 3 && values.last() / 0x4000 % 4 == 0
        },
{
    assert(ms[i + 1] == ms[i].after(values[i]));
    lemma_stop(ms, values, i);
    lemma_stop(ms, values, values.len() as int);
    lemma_command_bits(values[0]);
}

proof fn lemma_start(ms: Seq<StartPort>, values: Seq<u32>, n: int)
    requires
        starts(ms, values),
        ms[0] == StartPort::begin(),
        0 <= n <= values.len(),
    ensures
        match ms[n].phase {
            ahci::PortPhase::Poll => !ms[n].timed_out && n == 2 * (1000 - ms[n].left),
            ahci::PortPhase::Wait => !ms[n].timed_out && n >= 1 && n == 2 * (1000 - ms[n].left) - 1,
            ahci::PortPhase::ReadCommand => n >= 1 && if ms[n].timed_out {
                n == 2001
            } else {
                values[n - 1] / 0x8000 % 2 == 0
            },
            ahci::PortPhase::SetFisReceive => n >= 2 && ms[n].cmd == values[n - 1] && if ms[n].timed_out {
                n == 2002
            } else {
                values[n - 2] / 0x8000 % 2 == 0
            },
            ahci::PortPhase::SetStart => n >= 3 && ms[n].cmd == values[n - 2] && (ms[n - 1].request()
                matches RegRequest::Write { reg, value } && reg == 6 && value == values[n - 2]
                | 0x10) && if ms[n].timed_out {
                n == 2003
            } else {
                values[n - 3] / 0x8000 % 2 == 0
            },
            ahci::PortPhase::Done => n >= 4 && (ms[n - 2].request() matches RegRequest::Write {
                reg,
                value,
            } && reg == 6 && value == values[n - 3] | 0x10) && (ms[n - 1].request()
                matches RegRequest::Write { reg, value } && reg == 6 && value == (values[n - 3]
                | 0x10) | 1) && if ms[n].timed_out {
                n == 2004
            } else {
                values[n - 4] / 0x8000 % 2 == 0
            },
            _ => false,
        },
    decreases n,
{
    if n > 0 {
        lemma_start(ms, values, n - 1);
        assert(ms[n - 1 + 1] == ms[n - 1].after(values[n - 1]));
        if n > 1 {
            assert(ms[n - 2 + 1] == ms[n - 2].after(values[n - 2]));
        }
        lemma_command_bits(values[n - 1]);
    }
}

/// Starting a port switches on its FIS receiver and then its command list, and nothing else,
/// by the last two writes and no others; before, the command list was seen to be idle, or a
/// thousand waits of 100 microseconds went by.
pub proof fn law_start_switches_on(ms: Seq<StartPort>, values: Seq<u32>)
    requires
        starts(ms, values),
        ms[0] == StartPort::begin(),
        ms.last().request() == RegRequest::Done,
    ensures
        values.len() >= 4,
        ({
            let n = values.len() as int;
            let v = values[n - 3];
            &&& ms[n - 3].request() == (RegRequest::Read { reg: 6 })
            &&& ms[n - 2].request() matches RegRequest::Write { reg, value } && reg == 6 && value
                == v - 16 * (v / 16 % 2) + 16
            &&& ms[n - 1].request() matches RegRequest::Write { reg, value } && reg == 6 && value
                == v - 16 * (v / 16 % 2) - v % 2 + 17
            &&& forall|i: int|
                0 <= i < n - 2 ==> #[trigger] ms[i].request() == (RegRequest::Read { reg: 6 })
                    || ms[i].request() == (RegRequest::Delay { us: 100 })
            &&& if ms.last().timed_out {
                n == 2004
            } else {
                values[n - 4] / 0x8000 % 2 == 0
            }
        }),
{
    let n = values.len() as int;
    lemma_start(ms, values, n);
    lemma_command_bits(values[n - 3]);
    lemma_start(ms, values, n - 1);
    lemma_start(ms, values, n - 2);
    lemma_start(ms, values, n - 3);
    assert(ms[n - 1 + 1] == ms[n - 1].after(values[n - 1]));
    assert(ms[n - 2 + 1] == ms[n - 2].after(values[n - 2]));
    assert(ms[n - 3 + 1] == ms[n - 3].after(values[n - 3]));
    assert forall|i: int| 0 <= i < n - 2 implies #[trigger] ms[i].request() == (RegRequest::Read {
        reg: 6,
    }) || ms[i].request() == (RegRequest::Delay { us: 100 }) by {
        lemma_start(ms, values, i);
        lemma_start(ms, values, i + 1);
        lemma_start(ms, values, i + 2);
        assert(ms[i + 1] == ms[i].after(values[i]));
        assert(ms[i + 1 + 1] == ms[i + 1].after(values[i + 1]));
        assert(ms[i + 2 + 1] == ms[i + 2].after(values[i + 2]));
    }
}

/// Answers to each request of an identification in turn.
pub open spec fn is_identification(
    ms: Seq<IdentifyDevice>,
    ws: Seq<World>,
    values: Seq<u32>,
    slot: Slot,
) -> bool {
    &&& ms.len() == values.len() + 1
    &&& ws.len() == values.len() + 1
    &&& forall|i: int|
        0 <= i < values.len() ==> {
            let after = accessed(ws[i], ms[i].request(), slot, values[i]);
            &&& ms[i].request() != RegRequest::Done
            &&& ms[i + 1] == #[trigger] ms[i].after(values[i])
            &&& ws[i + 1] == after || ws[i + 1] == completed(after)
            &&& tells(ws[i], ms[i].request(), values[i])
        }
}

/// Where an identification stands, the port stands too.
spec fn identified(m: IdentifyDevice, w: World, w0: World, slot: Slot, n: int) -> bool {
    let fresh = w.disk == w0.disk && w.memory == w0.memory && w.description == w0.description;
    let before = fresh && !w.running && w.done == 0;
    match m.phase {
        IdentifyPhase::StartPort => before && m.left == 500 && m.port.phase != ahci::PortPhase::Done
            && m.port.phase != ahci::PortPhase::ClearCommand,
        IdentifyPhase::Issue => before && m.left == 500 && w.started,
        IdentifyPhase::Start => before && m.left == 500 && w.started && w.slot == Some(slot),
        _ => {
            &&& w.slot == Some(slot)
            &&& w.started
            &&& if w.running {
                fresh && w.done == 0
            } else {
                let c = carried_out(w0, slot);
                w.done == 1 && w.disk == c.disk && w.memory == c.memory
            }
        },
    }
}

proof fn lemma_identified(
    ms: Seq<IdentifyDevice>,
    ws: Seq<World>,
    values: Seq<u32>,
    slot: Slot,
    n: int,
)
    requires
        is_identification(ms, ws, values, slot),
        0 <= n <= values.len(),
        ms[0] == IdentifyDevice::begin(),
        at_rest(ws[0]),
    ensures
        identified(ms[n], ws[n], ws[0], slot, n),
        ms[n].phase == IdentifyPhase::Answered && ws[n].running ==> values[n - 1] / 0x4000_0000 % 2
            == 1,
        ms[n].phase == IdentifyPhase::TimedOut ==> ms[n].left == 0,
    decreases n,
{
    if n > 0 {
        lemma_identified(ms, ws, values, slot, n - 1);
        let m = ms[n - 1];
        let v = values[n - 1];
        assert(ms[n - 1 + 1] == m.after(v));
        lemma_bits(v);
        lemma_command_bits(m.port.cmd);
        let after = accessed(ws[n - 1], m.request(), slot, v);
        if after.running {
            lemma_same(after, ws[0], slot);
        }
        assert(carried_out(after, slot).started == after.started);
    }
}

/// The command that the table and the answer are put at `table` and `data` for.
pub open spec fn identify_slot(table: u64, data: u64) -> Slot {
    Slot {
        header: ahci::header_of(false, table),
        fis: ahci::identify_fis(),
        prdt: ahci::region_of(1, data),
        table: table as int,
    }
}

/// An identification that is answered has switched the port on and told it once to carry out
/// its command, and the memory holds what the disk says of itself, unless the port raised a
/// task file error.
pub proof fn law_answer_is_the_description(
    ms: Seq<IdentifyDevice>,
    ws: Seq<World>,
    values: Seq<u32>,
    table: u64,
    data: u64,
)
    requires
        ms.len() > 0,
        is_identification(ms, ws, values, identify_slot(table, data)),
        ms[0] == IdentifyDevice::begin(),
        at_rest(ws[0]),
        ms.last().phase == IdentifyPhase::Answered,
    ensures
        ws.last().started,
        ws.last().disk == ws[0].disk,
        if ws.last().running {
            values.last() / 0x4000_0000 % 2 == 1
        } else {
            &&& ws.last().done == 1
            &&& forall|k: int|
                0 <= k < 512 ==> #[trigger] (ws.last().memory)(data + k) == ws[0].description[k]
            &&& forall|x: int|
                x < data || x >= data + 512 ==> #[trigger] (ws.last().memory)(x) == (ws[0].memory)(x)
        },
{
    let slot = identify_slot(table, data);
    lemma_identified(ms, ws, values, slot, values.len() as int);
    assert(slot.fis[0] == 0x27 && slot.fis[1] == 0x80 && slot.fis[2] == 0xec);
    assert(slot.prdt.dba + 0x1_0000_0000 * slot.prdt.dbau == data);
    assert(is_command(slot) && region_len(slot) == 512);
    let c = carried_out(ws[0], slot);
    assert(ws[0].disk == c.disk);
    assert forall|k: int| 0 <= k < 512 implies #[trigger] (c.memory)(data + k)
        == ws[0].description[k] by {}
}

/// How many of the first `n` requests of an identification poll the port's commands.
pub open spec fn polls(ms: Seq<IdentifyDevice>, n: int) -> int
    decreases n,
{
    if n <= 0 {
        0
    } else {
        polls(ms, n - 1) + if ms[n - 1].request() == (RegRequest::Read { reg: 14 }) {
            1int
        } else {
            0
        }
    }
}

proof fn lemma_polls(
    ms: Seq<IdentifyDevice>,
    ws: Seq<World>,
    values: Seq<u32>,
    slot: Slot,
    n: int,
)
    requires
        is_identification(ms, ws, values, slot),
        0 <= n <= values.len(),
        ms[0] == IdentifyDevice::begin(),
        at_rest(ws[0]),
    ensures
        ms[n].left <= 500,
        match ms[n].phase {
            IdentifyPhase::StartPort => polls(ms, n) == 0 && ms[n].left == 500,
            IdentifyPhase::Issue => polls(ms, n) == 0 && ms[n].left == 500,
            IdentifyPhase::Start => polls(ms, n) == 0 && ms[n].left == 500,
            IdentifyPhase::Poll => polls(ms, n) == 500 - ms[n].left,
            IdentifyPhase::PollErrors => polls(ms, n) == 501 - ms[n].left && ms[n].left > 0,
            IdentifyPhase::PollWait => polls(ms, n) == 501 - ms[n].left && ms[n].left > 0,
            IdentifyPhase::TimedOut => polls(ms, n) == 501,
            _ => true,
        },
    decreases n,
{
    if n > 0 {
        lemma_polls(ms, ws, values, slot, n - 1);
        assert(ms[n - 1 + 1] == ms[n - 1].after(values[n - 1]));
    }
}

/// A disk is given up only when its port is still at work at the five hundred and first look,
/// a millisecond apart.
pub proof fn law_identify_is_patient(
    ms: Seq<IdentifyDevice>,
    ws: Seq<World>,
    values: Seq<u32>,
    slot: Slot,
    i: int,
)
    requires
        is_identification(ms, ws, values, slot),
        ms[0] == IdentifyDevice::begin(),
        at_rest(ws[0]),
        0 <= i < values.len(),
    ensures
        ms.last().phase == IdentifyPhase::TimedOut ==> polls(ms, values.len() as int) == 501,
        ms[i].request() matches RegRequest::Delay { us } ==> polls(ms, i) > 0 ==> us == 1000,
{
    lemma_polls(ms, ws, values, slot, values.len() as int);
    lemma_polls(ms, ws, values, slot, i);
}

/// Whether a byte is shown as it is.
pub open spec fn plain(b: int) -> bool {
    32 <= b < 127
}

/// The text of a disk's description has two characters for each word, the upper byte before
/// the lower; what cannot be shown is shown as a dot.
pub proof fn law_text_of_words(words: Seq<u16>, i: int)
    requires
        0 <= i < words.len(),
    ensures
        ahci::identify_text(words).len() == 2 * words.len(),
        ahci::identify_text(words)[2 * i] == (if plain(words[i] as int / 256) {
            words[i] as int / 256
        } else {
            46
        }),
        ahci::identify_text(words)[2 * i + 1] == (if plain(words[i] as int % 256) {
            words[i] as int % 256
        } else {
            46
        }),
{
    assert((2 * i) / 2 == i && (2 * i) % 2 == 0);
    assert((2 * i + 1) / 2 == i && (2 * i + 1) % 2 == 1);
}

/// A disk's size is in words 100 to 103 of its description where bit 10 of word 83 is set, and
/// in words 60 and 61 else, the lowest word first.
pub proof fn law_capacity_of_words(words: Seq<u16>)
    requires
        words.len() == 256,
    ensures
        ahci::identify_capacity(words) == (if words[83] as int / 1024 % 2 == 1 {
            words[100] + 65536 * (words[101] + 65536 * (words[102] + 65536 * words[103]))
        } else {
            words[60] + 65536 * words[61]
        }),
{
    let f = words[83];
    assert((f & 0x400 != 0) == (f / 1024 % 2 == 1)) by (bit_vector);
}

} // verus!
