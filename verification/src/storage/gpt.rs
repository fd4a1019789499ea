//! Finding the first partition of a disk with a GUID partition table.

use vstd::prelude::*;

use crate::bytes;
use crate::storage::disk;
use crate::storage::disk::DiskOp;
use crate::storage::disk::DiskRequest;
use crate::storage::disk::Io;

verus! {

/// `EFI PART`
pub const GPT_SIGNATURE: [u8; 8] = [0x45, 0x46, 0x49, 0x20, 0x50, 0x41, 0x52, 0x54];

/// The code points of a partition's name: UTF-16 code units up to the first zero, those
/// that stand for no character replaced by a question mark.
pub open spec fn name_points(raw: Seq<u8>) -> Seq<u32>
    decreases raw.len(),
{
    if raw.len() < 2 || bytes::le16(raw, 0) == 0 {
        Seq::empty()
    } else {
        let unit = bytes::le16(raw, 0);
        seq![
            if 0xd800 <= unit <= 0xdfff {
                0x3fu32
            } else {
                unit as u32
            },
        ] + name_points(raw.subrange(2, raw.len() as int))
    }
}

/// Reads the code points of a partition's name.
pub fn gpt_partition_name(raw_name: &[u8]) -> (r: Vec<u32>)
    ensures
        r@ == name_points(raw_name@),
{
    let mut out: Vec<u32> = Vec::new();
    let mut i: usize = 0;
    assert(raw_name@.subrange(0, raw_name@.len() as int) =~= raw_name@);
    assert(out@ + name_points(raw_name@) =~= name_points(raw_name@));
    while raw_name.len() - i >= 2
        invariant_except_break
            i <= raw_name.len(),
            out@ + name_points(raw_name@.subrange(i as int, raw_name@.len() as int))
                == name_points(raw_name@),
        ensures
            out@ == name_points(raw_name@),
        decreases raw_name.len() - i,
    {
        let unit: u16 = bytes::le_u16(raw_name, i);
        let ghost rest = raw_name@.subrange(i as int, raw_name@.len() as int);
        assert(bytes::le16(rest, 0) == unit);
        if unit == 0 {
            assert(out@ + name_points(rest) =~= out@);
            break;
        }
        let point: u32 = if 0xd800 <= unit && unit <= 0xdfff {
            0x3f
        } else {
            unit as u32
        };
        let ghost before = out@;
        out.push(point);
        proof {
            assert(rest.subrange(2, rest.len() as int) =~= raw_name@.subrange(
                i + 2,
                raw_name@.len() as int,
            ));
            assert(before + name_points(rest) =~= out@ + name_points(
                raw_name@.subrange(i + 2, raw_name@.len() as int),
            ));
        }
        i += 2;
        proof {
            let left = raw_name@.subrange(i as int, raw_name@.len() as int);
            if left.len() < 2 {
                assert(out@ + name_points(left) =~= out@);
            }
        }
    }
    out
}

/// How far the search has come.
#[derive(Clone, Copy, PartialEq, Eq, Structural)]
pub enum GptPhase {
    Header,
    Entry,
    Found,
    NotFound,
}

/// Searching the partition table.
#[derive(Clone, Copy, PartialEq, Eq, Structural)]
pub struct GptOp {
    pub phase: GptPhase,
    pub entries_lba: u64,
    pub entry_count: u64,
    pub entry_size: u64,
    pub index: u64,
    pub first_lba: u64,
}

/// Whether entry `index` stands within one sector.
pub open spec fn in_one_sector(index: int, size: int) -> bool {
    index * size % 512 + size <= 512
}

/// The first entry from `index` on that stands within one sector, or `count`.
pub open spec fn next_whole(index: int, size: int, count: int) -> int
    decreases count - index,
{
    if index >= count || in_one_sector(index, size) {
        index
    } else {
        next_whole(index + 1, size, count)
    }
}

/// Whether the type of a partition entry says that it is used.
pub open spec fn entry_used(s: Seq<u8>, at: int) -> bool {
    exists|k: int| at <= k < at + 16 && #[trigger] s[k] != 0
}

impl GptOp {
    pub open spec fn begin() -> GptOp {
        GptOp {
            phase: GptPhase::Header,
            entries_lba: 0,
            entry_count: 0,
            entry_size: 0,
            index: 0,
            first_lba: 0,
        }
    }

    pub open spec fn with_phase(self, phase: GptPhase) -> GptOp {
        GptOp { phase, ..self }
    }

    /// On to the next entry from `index` on.
    pub open spec fn at_entry(self, index: int) -> GptOp {
        let next = next_whole(index, self.entry_size as int, self.entry_count as int);
        GptOp {
            index: next as u64,
            phase: if next < self.entry_count {
                GptPhase::Entry
            } else {
                GptPhase::NotFound
            },
            ..self
        }
    }

    /// Where the entry stands in its sector.
    pub open spec fn offset(self) -> int {
        self.index * self.entry_size % 512
    }

    /// The sector of the entry.
    pub open spec fn lba(self) -> int {
        (self.entries_lba + self.index * self.entry_size / 512) % 0x1_0000_0000_0000_0000
    }

    /// What holds in each phase.
    pub open spec fn wf(self) -> bool {
        self.phase == GptPhase::Entry ==> {
            &&& 16 <= self.entry_size <= 512
            &&& self.index < self.entry_count <= u32::MAX
            &&& in_one_sector(self.index as int, self.entry_size as int)
        }
    }
}

impl DiskOp for GptOp {
    open spec fn request(self) -> Io {
        match self.phase {
            GptPhase::Header => Io::Read { lba: 1 },
            GptPhase::Entry => Io::Read { lba: self.lba() },
            _ => Io::Done,
        }
    }

    open spec fn after(self, reply: Option<Seq<u8>>) -> GptOp {
        match (self.phase, reply) {
            (GptPhase::Header, Some(s)) => {
                let size = bytes::le32(s, 84);
                if s.subrange(0, 8) != GPT_SIGNATURE@ || size == 0 || size > 512 {
                    self.with_phase(GptPhase::NotFound)
                } else {
                    GptOp {
                        entries_lba: bytes::le64(s, 72) as u64,
                        entry_count: bytes::le32(s, 80) as u64,
                        entry_size: size as u64,
                        ..self
                    }.at_entry(0)
                }
            },
            (GptPhase::Entry, Some(s)) => if entry_used(s, self.offset()) {
                GptOp {
                    first_lba: bytes::le64(s, self.offset() + 32) as u64,
                    phase: GptPhase::Found,
                    ..self
                }
            } else {
                self.at_entry(self.index + 1)
            },
            (GptPhase::Found, _) => self,
            _ => self.with_phase(GptPhase::NotFound),
        }
    }
}

/// What the search found, once it is over.
pub open spec fn result_of(m: GptOp) -> Option<Option<u64>> {
    match m.phase {
        GptPhase::Found => Some(Some(m.first_lba)),
        GptPhase::NotFound => Some(None),
        _ => None,
    }
}

/// The size of an entry, by the header of the table.
pub open spec fn entry_size_of(h: Seq<u8>) -> int {
    bytes::le32(h, 84)
}

/// How many entries there are, by the header of the table.
pub open spec fn entry_count_of(h: Seq<u8>) -> int {
    bytes::le32(h, 80)
}

/// Whether a sector is the header of a table whose entries fit in a sector.
pub open spec fn has_table(h: Seq<u8>) -> bool {
    h.subrange(0, 8) == GPT_SIGNATURE@ && 0 < entry_size_of(h) <= 512
}

/// The sector of entry `i`.
pub open spec fn entry_sector(disk: spec_fn(int) -> Seq<u8>, i: int) -> Seq<u8> {
    disk((bytes::le64(disk(1), 72) + i * entry_size_of(disk(1)) / 512) % 0x1_0000_0000_0000_0000)
}

/// Where entry `i` stands in its sector.
pub open spec fn entry_at(disk: spec_fn(int) -> Seq<u8>, i: int) -> int {
    i * entry_size_of(disk(1)) % 512
}

/// Whether entry `i` of the disk's table is a partition: it stands within one sector, and
/// its type is not all zeros.
pub open spec fn is_partition(disk: spec_fn(int) -> Seq<u8>, i: int) -> bool {
    in_one_sector(i, entry_size_of(disk(1))) && entry_used(
        entry_sector(disk, i),
        entry_at(disk, i),
    )
}

/// Whether entry `i` is the first partition of the disk's table.
pub open spec fn is_first_partition(disk: spec_fn(int) -> Seq<u8>, i: int) -> bool {
    &&& 0 <= i < entry_count_of(disk(1))
    &&& is_partition(disk, i)
    &&& forall|j: int| 0 <= j < i ==> !#[trigger] is_partition(disk, j)
}

/// Whether `found` is where the first partition of the disk starts; nothing where the disk
/// has no table, or its table no partition.
pub open spec fn starts_first_partition(
    disk: spec_fn(int) -> Seq<u8>,
    found: Option<u64>,
) -> bool {
    match found {
        Some(lba) => has_table(disk(1)) && exists|i: int| #[trigger]
            is_first_partition(disk, i) && lba == bytes::le64(
                entry_sector(disk, i),
                entry_at(disk, i) + 32,
            ),
        None => has_table(disk(1)) ==> forall|i: int|
            0 <= i < entry_count_of(disk(1)) ==> !#[trigger] is_partition(disk, i),
    }
}

/// Whether what is read of the disk's table stands within its entries: their type, and all
/// of a partition up to its name.
pub open spec fn is_readable(disk: spec_fn(int) -> Seq<u8>) -> bool {
    has_table(disk(1)) ==> {
        &&& entry_size_of(disk(1)) < 16 ==> entry_count_of(disk(1)) == 0
        &&& entry_size_of(disk(1)) < 56 ==> forall|i: int|
            0 <= i < entry_count_of(disk(1)) ==> !#[trigger] is_partition(disk, i)
    }
}

/// Whether what is read of a reply stands within the table's entries: their type, and all of
/// a partition up to its name.
pub open spec fn entries_large_enough(m: GptOp, reply: Option<Seq<u8>>) -> bool {
    match (m.phase, reply) {
        (GptPhase::Header, Some(s)) => has_table(s) && entry_size_of(s) < 16 ==> entry_count_of(s)
            == 0,
        (GptPhase::Entry, Some(s)) => m.entry_size < 56 ==> !entry_used(s, m.offset()),
        _ => true,
    }
}

/// Each of the next `n` replies of the disk is one that can be taken.
pub open spec fn is_taken(m: GptOp, disk: spec_fn(int) -> Seq<u8>, n: nat) -> bool
    decreases n,
{
    n > 0 ==> {
        &&& m.request() matches Io::Read { lba } ==> entries_large_enough(m, Some(disk(lba)))
        &&& is_taken(disk::advanced(m, disk).0, disk, (n - 1) as nat)
    }
}

/// On a disk on which no access fails, the search is over after `n` accesses, each of whose
/// replies it can take, with the first partition of the disk, and leaves the disk as it is.
pub open spec fn finds_in(m: GptOp, disk: spec_fn(int) -> Seq<u8>, n: nat) -> bool {
    let (end, left) = disk::run(m, disk, n);
    &&& is_taken(m, disk, n)
    &&& left == disk
    &&& result_of(end) matches Some(found) && starts_first_partition(disk, found)
}

/// On a disk on which no access fails, the search ends with the first partition of the disk.
pub open spec fn finds_partition(m: GptOp, disk: spec_fn(int) -> Seq<u8>) -> bool {
    exists|n: nat| #[trigger] finds_in(m, disk, n)
}

proof fn lemma_finds_by_step(m: GptOp, disk: spec_fn(int) -> Seq<u8>)
    requires
        m.request() matches Io::Read { lba } && entries_large_enough(m, Some(disk(lba))),
        finds_partition(disk::advanced(m, disk).0, disk),
    ensures
        finds_partition(m, disk),
{
    let m1 = disk::advanced(m, disk).0;
    let n = choose|n: nat| #[trigger] finds_in(m1, disk, n);
    assert(finds_in(m, disk, n + 1));
}

proof fn lemma_next_whole(index: int, size: int, count: int)
    requires
        index <= count,
    ensures
        index <= next_whole(index, size, count) <= count,
        forall|j: int|
            index <= j < next_whole(index, size, count) ==> !#[trigger] in_one_sector(j, size),
        next_whole(index, size, count) < count ==> in_one_sector(
            next_whole(index, size, count),
            size,
        ),
    decreases count - index,
{
    if index < count && !in_one_sector(index, size) {
        lemma_next_whole(index + 1, size, count);
    }
}

proof fn lemma_search(disk: spec_fn(int) -> Seq<u8>, m: GptOp, i: int)
    requires
        has_table(disk(1)),
        is_readable(disk),
        m.entries_lba == bytes::le64(disk(1), 72),
        m.entry_count == entry_count_of(disk(1)),
        m.entry_size == entry_size_of(disk(1)),
        0 <= i <= m.entry_count,
        forall|j: int| 0 <= j < i ==> !#[trigger] is_partition(disk, j),
    ensures
        finds_partition(m.at_entry(i), disk),
    decreases m.entry_count - i,
{
    let size = m.entry_size as int;
    let next = next_whole(i, size, m.entry_count as int);
    lemma_next_whole(i, size, m.entry_count as int);
    let m1 = m.at_entry(i);
    assert forall|j: int| 0 <= j < next implies !#[trigger] is_partition(disk, j) by {
        if j >= i {
            assert(!in_one_sector(j, size));
        }
    }
    if next >= m.entry_count {
        assert(starts_first_partition(disk, None));
        assert(finds_in(m1, disk, 0));
    } else {
        let s = entry_sector(disk, next);
        assert(m1.index == next);
        let m2 = m1.after(Some(s));
        assert(disk::advanced(m1, disk) == (m2, disk));
        if entry_used(s, entry_at(disk, next)) {
            assert(is_first_partition(disk, next));
            assert(starts_first_partition(disk, Some(m2.first_lba)));
            assert(finds_in(m2, disk, 0));
        } else {
            assert(!is_partition(disk, next));
            lemma_search(disk, m1, next + 1);
        }
        lemma_finds_by_step(m1, disk);
    }
}

/// The search ends, with where the first partition starts: the first entry of the table that
/// stands within one sector and is in use. Nothing is found where there is no table, or
/// nothing in it.
pub proof fn law_first_partition_is_found(disk: spec_fn(int) -> Seq<u8>)
    requires
        disk::is_disk(disk),
        is_readable(disk),
    ensures
        finds_partition(GptOp::begin(), disk),
{
    let m = GptOp::begin();
    let h = disk(1);
    let m1 = m.after(Some(h));
    assert(disk::advanced(m, disk) == (m1, disk));
    if has_table(h) {
        let t = GptOp {
            entries_lba: bytes::le64(h, 72) as u64,
            entry_count: bytes::le32(h, 80) as u64,
            entry_size: bytes::le32(h, 84) as u64,
            ..m
        };
        lemma_search(disk, t, 0);
    } else {
        assert(starts_first_partition(disk, None));
        assert(finds_in(m1, disk, 0));
    }
    lemma_finds_by_step(m, disk);
}

/// Begins to search the partition table. Driven over a disk on which no access fails, the
/// search gives where the first partition starts.
pub fn discover_model_partition() -> (r: GptOp)
    ensures
        r == GptOp::begin(),
        r.wf(),
        forall|disk: spec_fn(int) -> Seq<u8>|
            disk::is_disk(disk) && is_readable(disk) ==> #[trigger] finds_partition(r, disk),
        result_of(r.after(None)) == Some(None::<u64>),
{
    proof {
        assert forall|disk: spec_fn(int) -> Seq<u8>|
            disk::is_disk(disk) && is_readable(disk) implies #[trigger] finds_partition(
            GptOp::begin(),
            disk,
        ) by {
            law_first_partition_is_found(disk);
        }
    }
    GptOp {
        phase: GptPhase::Header,
        entries_lba: 0,
        entry_count: 0,
        entry_size: 0,
        index: 0,
        first_lba: 0,
    }
}

fn entry_in_use(s: &[u8], at: usize) -> (r: bool)
    requires
        at + 16 <= s.len(),
    ensures
        r == entry_used(s@, at as int),
{
    let mut k: usize = at;
    while k < at + 16
        invariant
            at <= k <= at + 16 <= s.len(),
            forall|j: int| at <= j < k ==> s@[j] == 0,
        decreases at + 16 - k,
    {
        if s[k] != 0 {
            return true;
        }
        k += 1;
    }
    false
}

impl GptOp {
    fn seek(&mut self, from: u64)
        requires
            old(self).entry_size <= 512,
            old(self).entry_size >= 16 || old(self).entry_count == 0,
            from <= old(self).entry_count <= u32::MAX,
        ensures
            *final(self) == old(self).at_entry(from as int),
            final(self).wf(),
    {
        let size: u64 = self.entry_size;
        let count: u64 = self.entry_count;
        let mut i: u64 = from;
        assert(i * size <= 0xffff_ffff * 512) by (nonlinear_arith)
            requires
                i <= 0xffff_ffff,
                size <= 512,
        ;
        while i < count && i * size % 512 + size > 512
            invariant
                i <= count <= u32::MAX,
                size <= 512,
                i < count ==> i * size <= 0xffff_ffff * 512,
                next_whole(i as int, size as int, count as int) == next_whole(
                    from as int,
                    size as int,
                    count as int,
                ),
            decreases count - i,
        {
            assert((i + 1) * size <= 0xffff_ffff * 512) by (nonlinear_arith)
                requires
                    i + 1 <= 0xffff_ffff,
                    size <= 512,
            ;
            i += 1;
        }
        self.index = i;
        self.phase = if i < count {
            GptPhase::Entry
        } else {
            GptPhase::NotFound
        };
    }

    /// What is needed next.
    pub fn next_request(&self) -> (r: DiskRequest)
        requires
            self.wf(),
        ensures
            r@ == self.request(),
    {
        match self.phase {
            GptPhase::Header => DiskRequest::Read { lba: 1 },
            GptPhase::Entry => {
                proof {
                    assert(self.index * self.entry_size <= 0xffff_ffff * 512) by (nonlinear_arith)
                        requires
                            self.index <= 0xffff_ffff,
                            self.entry_size <= 512,
                    ;
                }
                let at: u64 = self.index * self.entry_size / 512;
                let lba: u64 = self.entries_lba.wrapping_add(at);
                DiskRequest::Read { lba }
            },
            _ => DiskRequest::Done,
        }
    }

    /// Whether a reply is one that can be taken: what is read of it stands within the table's
    /// entries.
    pub fn supports(&self, reply: Option<&[u8]>) -> (r: bool)
        requires
            self.wf(),
            disk::fits(self.request(), disk::reply_of(reply)),
        ensures
            r == entries_large_enough(*self, disk::reply_of(reply)),
    {
        match (self.phase, reply) {
            (GptPhase::Header, Some(s)) => {
                let size: u32 = bytes::le_u32(s, 84);
                !bytes::same_bytes(&s[0..8], GPT_SIGNATURE.as_slice()) || size == 0 || size >= 16
                    || bytes::le_u32(s, 80) == 0
            },
            (GptPhase::Entry, Some(s)) => {
                proof {
                    assert(self.index * self.entry_size <= 0xffff_ffff * 512) by (nonlinear_arith)
                        requires
                            self.index <= 0xffff_ffff,
                            self.entry_size <= 512,
                    ;
                }
                let at: usize = (self.index * self.entry_size % 512) as usize;
                self.entry_size >= 56 || !entry_in_use(s, at)
            },
            _ => true,
        }
    }

    /// Takes a reply.
    pub fn feed(&mut self, reply: Option<&[u8]>)
        requires
            old(self).wf(),
            disk::fits(old(self).request(), disk::reply_of(reply)),
            entries_large_enough(*old(self), disk::reply_of(reply)),
        ensures
            *final(self) == old(self).after(disk::reply_of(reply)),
            final(self).wf(),
    {
        match self.phase {
            GptPhase::Header => match reply {
                Some(s) => {
                    let size: u32 = bytes::le_u32(s, 84);
                    if !bytes::same_bytes(&s[0..8], GPT_SIGNATURE.as_slice()) || size == 0 || size
                        > 512 {
                        self.phase = GptPhase::NotFound;
                    } else {
                        self.entries_lba = bytes::le_u64(s, 72);
                        self.entry_count = bytes::le_u32(s, 80) as u64;
                        self.entry_size = size as u64;
                        self.seek(0);
                    }
                },
                None => {
                    self.phase = GptPhase::NotFound;
                },
            },
            GptPhase::Entry => match reply {
                Some(s) => {
                    proof {
                        assert(self.index * self.entry_size <= 0xffff_ffff * 512) by (nonlinear_arith)
                            requires
                                self.index <= 0xffff_ffff,
                                self.entry_size <= 512,
                        ;
                    }
                    let at: usize = (self.index * self.entry_size % 512) as usize;
                    if entry_in_use(s, at) {
                        self.first_lba = bytes::le_u64(s, at + 32);
                        self.phase = GptPhase::Found;
                    } else {
                        self.seek(self.index + 1);
                    }
                },
                None => {
                    self.phase = GptPhase::NotFound;
                },
            },
            _ => {},
        }
    }

    /// Where the first partition starts, once the search is over.
    pub fn outcome(&self) -> (r: Option<Option<u64>>)
        ensures
            r == result_of(*self),
    {
        match self.phase {
            GptPhase::Found => Some(Some(self.first_lba)),
            GptPhase::NotFound => Some(None),
            _ => None,
        }
    }
}

} // verus!
