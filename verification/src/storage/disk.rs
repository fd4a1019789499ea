//! Disk accesses that an operation asks for, and what they do to a disk.

use vstd::prelude::*;

use crate::bytes;

verus! {

/// The size of a sector in bytes.
pub const SECTOR_SIZE: usize = 512;

/// What an operation asks the disk for.
pub enum DiskRequest {
    /// One sector.
    Read { lba: u64 },
    /// `count` sectors, from `lba` on.
    ReadMany { lba: u64, count: u16 },
    /// Whole sectors, from `lba` on.
    Write { lba: u64, data: Vec<u8> },
    /// Nothing: the operation is over.
    Done,
}

/// What an operation asks the disk for, over byte strings.
pub enum Io {
    Read { lba: int },
    ReadMany { lba: int, count: int },
    Write { lba: int, data: Seq<u8> },
    Done,
}

impl View for DiskRequest {
    type V = Io;

    open spec fn view(&self) -> Io {
        match self {
            DiskRequest::Read { lba } => Io::Read { lba: *lba as int },
            DiskRequest::ReadMany { lba, count } => Io::ReadMany {
                lba: *lba as int,
                count: *count as int,
            },
            DiskRequest::Write { lba, data } => Io::Write { lba: *lba as int, data: data@ },
            DiskRequest::Done => Io::Done,
        }
    }
}

/// The view of a reply: nothing where the access failed; else the sector read, or
/// anything where it was a write.
pub open spec fn reply_of(reply: Option<&[u8]>) -> Option<Seq<u8>> {
    match reply {
        Some(s) => Some(s@),
        None => None,
    }
}

/// A reply that fits the request: sectors that were read have the size of such.
pub open spec fn fits(io: Io, reply: Option<Seq<u8>>) -> bool {
    match (io, reply) {
        (Io::Read { lba }, Some(s)) => s.len() == SECTOR_SIZE,
        (Io::ReadMany { lba, count }, Some(s)) => s.len() == count * SECTOR_SIZE,
        _ => true,
    }
}

/// How many sectors hold `n` bytes.
pub open spec fn sectors(n: int) -> int {
    (n + 511) / 512
}

/// How many sectors hold as many bytes.
pub fn sectors_for_bytes(bytes: usize) -> (r: u64)
    ensures
        r == sectors(bytes as int),
{
    let whole: usize = bytes / SECTOR_SIZE;
    if bytes % SECTOR_SIZE == 0 {
        whole as u64
    } else {
        whole as u64 + 1
    }
}

/// How many sectors hold as many bytes.
pub fn sectors_for_u64(bytes: u64) -> (r: u64)
    ensures
        r == sectors(bytes as int),
{
    let whole: u64 = bytes / 512;
    if bytes % 512 == 0 {
        whole
    } else {
        whole + 1
    }
}

/// `disk` after writing the whole sectors `data` from `lba` on.
pub open spec fn written(disk: spec_fn(int) -> Seq<u8>, lba: int, data: Seq<u8>) -> spec_fn(
    int,
) -> Seq<u8> {
    |i: int|
        if lba <= i < lba + data.len() / 512 {
            data.subrange((i - lba) * 512, (i - lba) * 512 + 512)
        } else {
            disk(i)
        }
}

/// What `count` sectors of a disk hold, from `lba` on.
pub open spec fn span(disk: spec_fn(int) -> Seq<u8>, lba: int, count: int) -> Seq<u8> {
    Seq::new((count * 512) as nat, |k: int| disk(lba + k / 512)[k % 512])
}

/// Every sector has the size of one.
pub open spec fn is_disk(disk: spec_fn(int) -> Seq<u8>) -> bool {
    forall|i: int| (#[trigger] disk(i)).len() == SECTOR_SIZE
}

/// Writing keeps the sectors' size.
pub proof fn lemma_written_is_disk(disk: spec_fn(int) -> Seq<u8>, lba: int, data: Seq<u8>)
    requires
        is_disk(disk),
    ensures
        is_disk(written(disk, lba, data)),
{
}

/// An operation: what it asks for, and what a reply makes of it.
pub trait DiskOp: Sized {
    spec fn request(self) -> Io;

    spec fn after(self, reply: Option<Seq<u8>>) -> Self;
}

/// One access by an operation that is not over, on a disk on which no access fails.
pub open spec fn advanced<M: DiskOp>(m: M, disk: spec_fn(int) -> Seq<u8>) -> (
    M,
    spec_fn(int) -> Seq<u8>,
) {
    match m.request() {
        Io::Read { lba } => (m.after(Some(disk(lba))), disk),
        Io::ReadMany { lba, count } => (m.after(Some(span(disk, lba, count))), disk),
        Io::Write { lba, data } => (m.after(Some(Seq::empty())), written(disk, lba, data)),
        Io::Done => (m, disk),
    }
}

/// `n` accesses by an operation, on a disk on which no access fails.
pub open spec fn run<M: DiskOp>(m: M, disk: spec_fn(int) -> Seq<u8>, n: nat) -> (
    M,
    spec_fn(int) -> Seq<u8>,
)
    decreases n,
{
    if n == 0 {
        (m, disk)
    } else {
        let (m1, d1) = advanced(m, disk);
        run(m1, d1, (n - 1) as nat)
    }
}

/// The operation gets from one state to another, and the disk with it.
pub open spec fn leads_to<M: DiskOp>(
    m: M,
    disk: spec_fn(int) -> Seq<u8>,
    m2: M,
    disk2: spec_fn(int) -> Seq<u8>,
) -> bool {
    exists|n: nat| #[trigger] run(m, disk, n) == (m2, disk2)
}

/// Getting nowhere takes no access.
pub proof fn lemma_leads_to_self<M: DiskOp>(m: M, disk: spec_fn(int) -> Seq<u8>)
    ensures
        leads_to(m, disk, m, disk),
{
    assert(run(m, disk, 0) == (m, disk));
}

/// One access, and on from there.
pub proof fn lemma_leads_by_step<M: DiskOp>(
    m: M,
    disk: spec_fn(int) -> Seq<u8>,
    m1: M,
    d1: spec_fn(int) -> Seq<u8>,
    m2: M,
    d2: spec_fn(int) -> Seq<u8>,
)
    requires
        advanced(m, disk) == (m1, d1),
        leads_to(m1, d1, m2, d2),
    ensures
        leads_to(m, disk, m2, d2),
{
    let n = choose|n: nat| #[trigger] run(m1, d1, n) == (m2, d2);
    assert(run(m, disk, (n + 1) as nat) == run(m1, d1, n));
}

proof fn lemma_run_compose<M: DiskOp>(m: M, disk: spec_fn(int) -> Seq<u8>, a: nat, b: nat)
    ensures
        run(m, disk, a + b) == run(run(m, disk, a).0, run(m, disk, a).1, b),
    decreases a,
{
    if a > 0 {
        let (m1, d1) = advanced(m, disk);
        lemma_run_compose(m1, d1, (a - 1) as nat, b);
        assert((a + b - 1) as nat == (a - 1) as nat + b);
    }
}

/// One stretch after another.
pub proof fn lemma_leads_to_transitive<M: DiskOp>(
    m: M,
    disk: spec_fn(int) -> Seq<u8>,
    m1: M,
    d1: spec_fn(int) -> Seq<u8>,
    m2: M,
    d2: spec_fn(int) -> Seq<u8>,
)
    requires
        leads_to(m, disk, m1, d1),
        leads_to(m1, d1, m2, d2),
    ensures
        leads_to(m, disk, m2, d2),
{
    let a = choose|n: nat| #[trigger] run(m, disk, n) == (m1, d1);
    let b = choose|n: nat| #[trigger] run(m1, d1, n) == (m2, d2);
    lemma_run_compose(m, disk, a, b);
    assert(run(m, disk, a + b) == (m2, d2));
}

proof fn lemma_run_stays<M: DiskOp>(m: M, disk: spec_fn(int) -> Seq<u8>, n: nat)
    requires
        m.request() is Done,
    ensures
        run(m, disk, n) == (m, disk),
    decreases n,
{
    if n > 0 {
        lemma_run_stays(m, disk, (n - 1) as nat);
    }
}

/// An operation comes to one end only.
pub proof fn lemma_one_end<M: DiskOp>(
    m: M,
    disk: spec_fn(int) -> Seq<u8>,
    m1: M,
    d1: spec_fn(int) -> Seq<u8>,
    m2: M,
    d2: spec_fn(int) -> Seq<u8>,
)
    requires
        leads_to(m, disk, m1, d1),
        leads_to(m, disk, m2, d2),
        m1.request() is Done,
        m2.request() is Done,
    ensures
        m1 == m2,
        d1 == d2,
{
    let a = choose|n: nat| #[trigger] run(m, disk, n) == (m1, d1);
    let b = choose|n: nat| #[trigger] run(m, disk, n) == (m2, d2);
    if a <= b {
        lemma_run_compose(m, disk, a, (b - a) as nat);
        lemma_run_stays(m1, d1, (b - a) as nat);
        assert(a + (b - a) as nat == b);
    } else {
        lemma_run_compose(m, disk, b, (a - b) as nat);
        lemma_run_stays(m2, d2, (a - b) as nat);
        assert(b + (a - b) as nat == a);
    }
}

/// `data` is what the disk holds from `lba` on.
pub open spec fn stores(disk: spec_fn(int) -> Seq<u8>, lba: int, data: Seq<u8>) -> bool {
    forall|k: int|
        0 <= k < data.len() ==> disk(lba + k / 512)[k % 512] == #[trigger] data[k]
}

/// `data` filled up with zeros to whole sectors.
pub open spec fn padded(data: Seq<u8>) -> Seq<u8> {
    data + bytes::zeros(sectors(data.len() as int) * 512 - data.len())
}

} // verus!
