//! Reading blocks from a device that sometimes fails: a read is tried again, and then cut
//! in two.

use vstd::prelude::*;

verus! {

/// How often one read is tried.
pub const READ_ATTEMPTS: u32 = 3;

/// A part of a read: blocks of the device, and where their bytes go.
#[derive(Clone, Copy, PartialEq, Eq, Structural)]
pub struct Piece {
    pub lba: u32,
    pub blocks: u16,
    pub offset: usize,
    pub len: usize,
}

/// What a split read asks for.
#[derive(Clone, Copy, PartialEq, Eq, Structural)]
pub enum SplitRequest {
    Read(Piece),
    /// It is over, and worked or did not.
    Done(bool),
}

/// A read that is under way: the parts that are left, the next one last.
pub struct SplitRead {
    pub pieces: Vec<Piece>,
    pub attempt: u32,
    pub failed: bool,
}

/// A read that is under way, over sequences.
pub struct Split {
    pub pieces: Seq<Piece>,
    pub attempt: int,
    pub failed: bool,
}

impl View for SplitRead {
    type V = Split;

    open spec fn view(&self) -> Split {
        Split { pieces: self.pieces@, attempt: self.attempt as int, failed: self.failed }
    }
}

/// How many blocks the first half of a read has.
pub open spec fn first_blocks(p: Piece) -> int {
    p.blocks as int / 2
}

/// How many bytes the first half of a read has.
pub open spec fn first_len(p: Piece) -> int {
    first_blocks(p) * (p.len as int / p.blocks as int)
}

/// The first half of a read.
pub open spec fn first_half(p: Piece) -> Piece {
    Piece { blocks: first_blocks(p) as u16, len: first_len(p) as usize, ..p }
}

/// The second half of a read.
pub open spec fn second_half(p: Piece) -> Piece {
    Piece {
        lba: ((p.lba + first_blocks(p)) % 0x1_0000_0000) as u32,
        blocks: (p.blocks - first_blocks(p)) as u16,
        offset: (p.offset + first_len(p)) as usize,
        len: (p.len - first_len(p)) as usize,
    }
}

impl Split {
    pub open spec fn begin(lba: u32, blocks: u16, len: usize) -> Split {
        Split {
            pieces: seq![Piece { lba, blocks, offset: 0, len }],
            attempt: 0,
            failed: false,
        }
    }

    pub open spec fn request(self) -> SplitRequest {
        if self.failed {
            SplitRequest::Done(false)
        } else if self.pieces.len() == 0 {
            SplitRequest::Done(true)
        } else {
            SplitRequest::Read(self.pieces.last())
        }
    }

    /// What a part that worked, or did not, makes of it.
    pub open spec fn after(self, ok: bool) -> Split {
        if self.failed || self.pieces.len() == 0 {
            self
        } else if ok {
            Split { pieces: self.pieces.drop_last(), attempt: 0, ..self }
        } else if self.attempt + 1 < READ_ATTEMPTS {
            Split { attempt: self.attempt + 1, ..self }
        } else if self.pieces.last().blocks > 1 {
            Split {
                pieces: self.pieces.drop_last().push(second_half(self.pieces.last())).push(
                    first_half(self.pieces.last()),
                ),
                attempt: 0,
                ..self
            }
        } else {
            Split { failed: true, ..self }
        }
    }

    /// Offsets stay inside memory.
    pub open spec fn wf(self) -> bool {
        &&& 0 <= self.attempt < READ_ATTEMPTS
        &&& forall|i: int|
            0 <= i < self.pieces.len() ==> (#[trigger] self.pieces[i]).offset + self.pieces[i].len
                <= usize::MAX
    }
}

proof fn lemma_first_len(p: Piece)
    requires
        p.blocks > 0,
    ensures
        0 <= first_len(p) <= p.len,
{
    let q = p.len as int / p.blocks as int;
    let h = p.blocks as int / 2;
    vstd::arithmetic::div_mod::lemma_fundamental_div_mod(p.len as int, p.blocks as int);
    vstd::arithmetic::div_mod::lemma_div_pos_is_pos(p.len as int, p.blocks as int);
    assert(0 <= h * q <= p.blocks * q) by (nonlinear_arith)
        requires
            0 <= h <= p.blocks,
            0 <= q,
    ;
}

impl SplitRead {
    /// Begins to read `blocks` blocks from `lba` on into a buffer of `len` bytes.
    pub fn read_device_sectors(lba: u32, blocks: u16, len: usize) -> (r: SplitRead)
        ensures
            r@ == Split::begin(lba, blocks, len),
            r@.wf(),
    {
        let pieces: Vec<Piece> = vec![Piece { lba, blocks, offset: 0, len }];
        assert(pieces@ =~= seq![Piece { lba, blocks, offset: 0, len }]);
        SplitRead { pieces, attempt: 0, failed: false }
    }

    /// What is needed next.
    pub fn next_request(&self) -> (r: SplitRequest)
        ensures
            r == self@.request(),
    {
        let n: usize = self.pieces.len();
        if self.failed {
            SplitRequest::Done(false)
        } else if n == 0 {
            SplitRequest::Done(true)
        } else {
            SplitRequest::Read(self.pieces[n - 1])
        }
    }

    /// Takes whether a part worked.
    pub fn feed(&mut self, ok: bool)
        requires
            old(self)@.wf(),
        ensures
            final(self)@ == old(self)@.after(ok),
            final(self)@.wf(),
    {
        let n: usize = self.pieces.len();
        if self.failed || n == 0 {
            return;
        }
        if ok {
            let _ = self.pieces.pop();
            self.attempt = 0;
            return;
        }
        if self.attempt + 1 < READ_ATTEMPTS {
            self.attempt = self.attempt + 1;
            return;
        }
        let p = self.pieces[n - 1];
        if p.blocks <= 1 {
            self.failed = true;
            return;
        }
        proof {
            lemma_first_len(p);
        }
        let half: u16 = p.blocks / 2;
        let each: usize = p.len / p.blocks as usize;
        let bytes: usize = half as usize * each;
        let lba: u64 = (p.lba as u64 + half as u64) % 0x1_0000_0000;
        let first = Piece { lba: p.lba, blocks: half, offset: p.offset, len: bytes };
        let second = Piece {
            lba: lba as u32,
            blocks: p.blocks - half,
            offset: p.offset + bytes,
            len: p.len - bytes,
        };
        let ghost before = self.pieces@;
        let _ = self.pieces.pop();
        self.pieces.push(second);
        self.pieces.push(first);
        self.attempt = 0;
        proof {
            assert(first == first_half(p));
            assert(second == second_half(p));
            assert forall|i: int| 0 <= i < self.pieces@.len() implies (
            #[trigger] self.pieces@[i]).offset + self.pieces@[i].len <= usize::MAX by {
                if i < n - 1 {
                    assert(self.pieces@[i] == before[i]);
                }
            }
        }
    }
}

/// How many blocks the parts from the `i`th on have.
pub open spec fn blocks_left(pieces: Seq<Piece>, i: int) -> int
    decreases i,
{
    if i <= 0 {
        0
    } else {
        blocks_left(pieces, i - 1) + pieces[i - 1].blocks
    }
}

/// Part `p` of a read of `total` blocks of `size` bytes each, from `lba` on, with `left`
/// blocks behind it.
#[verifier::opaque]
pub open spec fn in_place(p: Piece, lba: int, total: int, size: int, left: int) -> bool {
    let before = total - left - p.blocks;
    &&& p.blocks > 0
    &&& p.lba == (lba + before) % 0x1_0000_0000
    &&& p.offset == before * size
    &&& p.len == p.blocks * size
}

/// The parts that are left, one after the other, make up the end of a read of `total`
/// blocks of `size` bytes each from `lba` on.
pub open spec fn covers(m: Split, lba: int, total: int, size: int) -> bool {
    forall|i: int|
        0 <= i < m.pieces.len() ==> in_place(
            #[trigger] m.pieces[i],
            lba,
            total,
            size,
            blocks_left(m.pieces, i),
        )
}

proof fn lemma_blocks_left_prefix(a: Seq<Piece>, b: Seq<Piece>, i: int)
    requires
        0 <= i <= a.len(),
        i <= b.len(),
        forall|k: int| 0 <= k < i ==> a[k] == b[k],
    ensures
        blocks_left(a, i) == blocks_left(b, i),
    decreases i,
{
    if i > 0 {
        lemma_blocks_left_prefix(a, b, i - 1);
    }
}

proof fn lemma_blocks_nonnegative(pieces: Seq<Piece>, i: int)
    ensures
        blocks_left(pieces, i) >= 0,
    decreases i,
{
    if i > 0 {
        lemma_blocks_nonnegative(pieces, i - 1);
    }
}

proof fn lemma_halves_in_place(p: Piece, lba: int, total: int, size: int, left: int)
    requires
        in_place(p, lba, total, size, left),
        p.blocks > 1,
        0 < size,
        total * size <= usize::MAX,
        0 <= lba,
        0 <= left,
        left + p.blocks <= total,
    ensures
        in_place(second_half(p), lba, total, size, left),
        in_place(first_half(p), lba, total, size, left + second_half(p).blocks),
        first_half(p).blocks + second_half(p).blocks == p.blocks,
{
    reveal(in_place);
    let h = first_blocks(p);
    let before = total - left - p.blocks;
    assert(p.len as int / p.blocks as int == size) by {
        vstd::arithmetic::div_mod::lemma_div_multiples_vanish(size, p.blocks as int);
        assert(p.blocks * size == size * p.blocks) by (nonlinear_arith);
    }
    assert(first_len(p) == h * size);
    assert(0 <= h * size <= p.blocks * size) by (nonlinear_arith)
        requires
            0 <= h <= p.blocks,
            0 < size,
    ;
    assert((before + h) * size == before * size + h * size) by (nonlinear_arith);
    assert((p.blocks - h) * size == p.blocks * size - h * size) by (nonlinear_arith);
    assert((before + p.blocks) * size == before * size + p.blocks * size) by (nonlinear_arith);
    assert((before + p.blocks) * size <= total * size) by (nonlinear_arith)
        requires
            before + p.blocks <= total,
            0 < size,
    ;
    assert(((lba + before) % 0x1_0000_0000 + h) % 0x1_0000_0000 == (lba + before + h)
        % 0x1_0000_0000);
}

/// A read asks for its blocks in order, each for its own place: what is asked for next
/// stands right behind what was read, whether parts were tried again or cut in two; and
/// when nothing is left, every block was read.
pub proof fn law_split_read_covers(m: Split, lba: int, total: int, size: int, ok: bool)
    requires
        covers(m, lba, total, size),
        0 < size,
        total * size <= usize::MAX,
        0 <= lba,
        0 <= blocks_left(m.pieces, m.pieces.len() as int) <= total,
    ensures
        covers(m.after(ok), lba, total, size),
        m.request() matches SplitRequest::Read(p) ==> {
            let done = total - blocks_left(m.pieces, m.pieces.len() as int);
            &&& p.offset == done * size
            &&& p.lba == (lba + done) % 0x1_0000_0000
            &&& blocks_left(m.after(ok).pieces, m.after(ok).pieces.len() as int) == if ok {
                total - done - p.blocks
            } else {
                total - done
            }
        },
        m.request() == SplitRequest::Done(true) ==> blocks_left(
            m.pieces,
            m.pieces.len() as int,
        ) == 0,
{
    let next = m.after(ok);
    let n = m.pieces.len() as int;
    if !m.failed && n > 0 {
        let p = m.pieces[n - 1];
        let done = total - blocks_left(m.pieces, n);
        assert(in_place(p, lba, total, size, blocks_left(m.pieces, n - 1)));
        assert(p.offset == done * size && p.lba == (lba + done) % 0x1_0000_0000 && p.blocks > 0)
            by {
            reveal(in_place);
        }
        if ok {
            assert forall|i: int| 0 <= i < next.pieces.len() implies in_place(
                #[trigger] next.pieces[i],
                lba,
                total,
                size,
                blocks_left(next.pieces, i),
            ) by {
                assert(next.pieces[i] == m.pieces[i]);
                lemma_blocks_left_prefix(m.pieces, next.pieces, i);
            }
            lemma_blocks_left_prefix(m.pieces, next.pieces, n - 1);
        } else if m.attempt + 1 >= READ_ATTEMPTS && p.blocks > 1 {
            let a = first_half(p);
            let b = second_half(p);
            let left = blocks_left(m.pieces, n - 1);
            lemma_blocks_nonnegative(m.pieces, n - 1);
            lemma_halves_in_place(p, lba, total, size, left);
            assert(in_place(b, lba, total, size, left));
            assert(in_place(a, lba, total, size, left + b.blocks));
            assert forall|i: int| 0 <= i < next.pieces.len() implies in_place(
                #[trigger] next.pieces[i],
                lba,
                total,
                size,
                blocks_left(next.pieces, i),
            ) by {
                if i < n - 1 {
                    assert(next.pieces[i] == m.pieces[i]);
                    lemma_blocks_left_prefix(m.pieces, next.pieces, i);
                } else {
                    lemma_blocks_left_prefix(m.pieces, next.pieces, n - 1);
                    assert(next.pieces[n - 1] == b);
                    assert(next.pieces[n] == a);
                    assert(blocks_left(next.pieces, n) == left + b.blocks);
                }
            }
            lemma_blocks_left_prefix(m.pieces, next.pieces, n - 1);
            assert(blocks_left(next.pieces, n) == left + b.blocks);
            assert(blocks_left(next.pieces, n + 1) == left + b.blocks + a.blocks);
        }
    }
}

/// A read begins with all of its blocks left.
pub proof fn law_split_read_begins(lba: u32, blocks: u16, size: int)
    requires
        0 < blocks,
        0 < size,
        blocks * size <= usize::MAX,
    ensures
        covers(Split::begin(lba, blocks, (blocks * size) as usize), lba as int, blocks as int, size),
        blocks_left(Split::begin(lba, blocks, (blocks * size) as usize).pieces, 1) == blocks,
{
    reveal(in_place);
    let m = Split::begin(lba, blocks, (blocks * size) as usize);
    assert(0 <= blocks * size) by (nonlinear_arith)
        requires
            0 < blocks,
            0 < size,
    ;
    assert(blocks_left(m.pieces, 0) == 0);
    assert(blocks_left(m.pieces, 1) == blocks);
    assert(0 * size == 0);
}

} // verus!
