//! Reading a model that stands raw on a device.

use vstd::prelude::*;

use crate::ingest::chain;
use crate::ingest::chain::USB_INGEST_PROGRESS_INTERVAL;
use crate::ingest::chain::USB_MAX_READ_BYTES;
use crate::ingest::search::BlockRead;

verus! {

/// How far reading has come.
#[derive(Clone, Copy, PartialEq, Eq, Structural)]
pub enum RawPhase {
    Read,
    Progress,
    Done,
    Failed,
}

/// Reading `size` bytes from block `start_lba` on.
#[derive(Clone, Copy, PartialEq, Eq, Structural)]
pub struct RawIngest {
    pub start_lba: u32,
    pub block_size: u32,
    pub size: u64,
    pub phase: RawPhase,
    pub done: u64,
    pub next_progress: u64,
}

/// How many blocks are read in one go.
pub open spec fn burst_blocks(block_size: int) -> int {
    (if USB_MAX_READ_BYTES <= 0xffff * block_size {
        USB_MAX_READ_BYTES as int
    } else {
        0xffff * block_size
    }) / block_size
}

impl RawIngest {
    pub open spec fn begin(start_lba: u32, block_size: u32, size: u64) -> RawIngest {
        RawIngest {
            start_lba,
            block_size,
            size,
            phase: if size > 0 {
                RawPhase::Read
            } else {
                RawPhase::Done
            },
            done: 0,
            next_progress: USB_INGEST_PROGRESS_INTERVAL,
        }
    }

    /// How many blocks there are.
    pub open spec fn total(self) -> int {
        (self.size + self.block_size - 1) / self.block_size as int
    }

    /// How many blocks are read next.
    pub open spec fn count(self) -> int {
        if self.total() - self.done <= burst_blocks(self.block_size as int) {
            self.total() - self.done
        } else {
            burst_blocks(self.block_size as int)
        }
    }

    /// What is to be read, to `done` blocks into the model's memory.
    pub open spec fn request(self) -> Option<BlockRead> {
        if self.phase == RawPhase::Read {
            Some(
                BlockRead {
                    lba: ((self.start_lba + self.done) % 0x1_0000_0000) as u32,
                    blocks: self.count() as u16,
                    len: (self.count() * self.block_size) as u32,
                },
            )
        } else {
            None
        }
    }

    /// On to the next blocks, if there are more.
    pub open spec fn advanced(self) -> RawIngest {
        RawIngest {
            phase: if self.done < self.total() {
                RawPhase::Read
            } else {
                RawPhase::Done
            },
            ..self
        }
    }

    /// What a read that worked, or did not, makes of it.
    pub open spec fn after(self, ok: bool) -> RawIngest {
        match self.phase {
            RawPhase::Read => if !ok {
                RawIngest { phase: RawPhase::Failed, ..self }
            } else {
                let done = self.done + self.count();
                let bytes = done * self.block_size;
                let next = RawIngest { done: done as u64, ..self };
                if bytes >= self.next_progress || done >= self.total() {
                    RawIngest {
                        next_progress: chain::progress_after(
                            self.next_progress as int,
                            bytes,
                        ) as u64,
                        phase: RawPhase::Progress,
                        ..next
                    }
                } else {
                    next.advanced()
                }
            },
            RawPhase::Progress => self.advanced(),
            _ => self,
        }
    }

    /// What holds in each phase.
    pub open spec fn wf(self) -> bool {
        &&& 0 < self.block_size <= 4096
        &&& self.size <= 0x1_0000_0000
        &&& self.done <= self.total()
        &&& self.next_progress <= 0x1_0000_0000_0000
        &&& self.phase == RawPhase::Read ==> self.done < self.total()
    }
}

/// A burst has at least one block, and no more than a read can count.
pub proof fn lemma_burst(block_size: int)
    requires
        0 < block_size <= 4096,
    ensures
        0 < burst_blocks(block_size) <= 0xffff,
        burst_blocks(block_size) * block_size <= USB_MAX_READ_BYTES,
{
    let b = if USB_MAX_READ_BYTES <= 0xffff * block_size {
        USB_MAX_READ_BYTES as int
    } else {
        0xffff * block_size
    };
    vstd::arithmetic::div_mod::lemma_fundamental_div_mod(b, block_size);
    let q = b / block_size;
    let r = b % block_size;
    assert(b == block_size * q + r);
    assert(q * block_size <= b && 0 < q <= 0xffff) by (nonlinear_arith)
        requires
            b == block_size * q + r,
            0 <= r < block_size,
            block_size <= b,
            b <= 0xffff * block_size,
            0 < block_size,
    ;
}

/// How many blocks a model takes up.
pub proof fn lemma_total(m: RawIngest)
    requires
        0 < m.block_size <= 4096,
        m.size <= 0x1_0000_0000,
    ensures
        0 <= m.total() <= m.size,
        m.size <= m.total() * m.block_size < m.size + m.block_size,
        m.size > 0 ==> m.total() > 0,
{
    let b = m.block_size as int;
    let t = m.total();
    vstd::arithmetic::div_mod::lemma_fundamental_div_mod(m.size + b - 1, b);
    let r = (m.size + b - 1) % b;
    assert(m.size + b - 1 == b * t + r);
    assert(t * b == b * t) by (nonlinear_arith);
    assert(0 <= t <= m.size) by (nonlinear_arith)
        requires
            m.size + b - 1 == b * t + r,
            0 <= r < b,
            0 < b,
            0 <= m.size,
    ;
    if m.size > 0 {
        assert(t > 0) by (nonlinear_arith)
            requires
                m.size + b - 1 == b * t + r,
                0 <= r < b,
                m.size > 0,
        ;
    }
}

impl RawIngest {
    /// Begins to read a raw model.
    pub fn new(start_lba: u32, block_size: u32, size: u64) -> (r: RawIngest)
        requires
            0 < block_size <= 4096,
            size <= 0x1_0000_0000,
        ensures
            r == RawIngest::begin(start_lba, block_size, size),
            r.wf(),
    {
        let r = RawIngest {
            start_lba,
            block_size,
            size,
            phase: if size > 0 {
                RawPhase::Read
            } else {
                RawPhase::Done
            },
            done: 0,
            next_progress: USB_INGEST_PROGRESS_INTERVAL,
        };
        proof {
            lemma_total(r);
        }
        r
    }

    fn total_blocks(&self) -> (r: u64)
        requires
            self.wf(),
        ensures
            r == self.total(),
    {
        (self.size + self.block_size as u64 - 1) / self.block_size as u64
    }

    fn next_count(&self) -> (r: u64)
        requires
            self.wf(),
            self.phase == RawPhase::Read,
        ensures
            r == self.count(),
            0 < r <= 0xffff,
            r * self.block_size <= USB_MAX_READ_BYTES,
    {
        proof {
            lemma_burst(self.block_size as int);
        }
        let cap: u64 = 0xffff * self.block_size as u64;
        let bytes: u64 = if USB_MAX_READ_BYTES <= cap {
            USB_MAX_READ_BYTES
        } else {
            cap
        };
        let burst: u64 = bytes / self.block_size as u64;
        let left: u64 = self.total_blocks() - self.done;
        proof {
            if left <= burst {
                assert(left * self.block_size <= burst * self.block_size) by (nonlinear_arith)
                    requires
                        left <= burst,
                ;
            }
        }
        if left <= burst {
            left
        } else {
            burst
        }
    }

    /// What is to be read next.
    pub fn next_request(&self) -> (r: Option<BlockRead>)
        requires
            self.wf(),
        ensures
            r == self.request(),
    {
        match self.phase {
            RawPhase::Read => {
                proof {
                    lemma_total(*self);
                }
                let count: u64 = self.next_count();
                let lba: u64 = (self.start_lba as u64 + self.done) % 0x1_0000_0000;
                Some(
                    BlockRead {
                        lba: lba as u32,
                        blocks: count as u16,
                        len: (count * self.block_size as u64) as u32,
                    },
                )
            },
            _ => None,
        }
    }

    /// Takes whether a read worked.
    pub fn feed(&mut self, ok: bool)
        requires
            old(self).wf(),
        ensures
            *final(self) == old(self).after(ok),
            final(self).wf(),
    {
        proof {
            lemma_total(*self);
        }
        match self.phase {
            RawPhase::Read => {
                if !ok {
                    self.phase = RawPhase::Failed;
                    return;
                }
                let count: u64 = self.next_count();
                let total: u64 = self.total_blocks();
                let done: u64 = self.done + count;
                assert(0 <= done * self.block_size <= total * self.block_size) by (nonlinear_arith)
                    requires
                        0 <= done <= total,
                ;
                let bytes: u64 = done * self.block_size as u64;
                self.done = done;
                if bytes >= self.next_progress || done >= total {
                    self.next_progress = chain::advance_progress(self.next_progress, bytes);
                    self.phase = RawPhase::Progress;
                } else {
                    self.phase = RawPhase::Read;
                }
            },
            RawPhase::Progress => {
                self.phase = if self.done < self.total_blocks() {
                    RawPhase::Read
                } else {
                    RawPhase::Done
                };
            },
            _ => {},
        }
    }
}

/// Reads that work follow each other without a gap, and the model is complete when the
/// last block is in: every read makes progress, none goes beyond the last block, and the
/// blocks cover the model.
pub proof fn law_raw_ingest_covers(m: RawIngest)
    requires
        m.wf(),
        m.phase == RawPhase::Read,
    ensures
        m.done < m.after(true).done <= m.total(),
        m.request()->0.blocks == m.after(true).done - m.done,
        m.request()->0.len == m.request()->0.blocks * m.block_size,
        m.total() * m.block_size >= m.size,
{
    lemma_burst(m.block_size as int);
    lemma_total(m);
    let c = m.count();
    let burst = burst_blocks(m.block_size as int);
    assert(c * m.block_size <= burst * m.block_size) by (nonlinear_arith)
        requires
            c <= burst,
    ;
    assert(0 <= c * m.block_size) by (nonlinear_arith)
        requires
            0 <= c,
    ;
}

/// How many requests it takes at most until an image is taken in or given up.
pub open spec fn raw_left(m: RawIngest) -> int {
    match m.phase {
        RawPhase::Read => 2 * (m.total() - m.done) + 1,
        RawPhase::Progress => 2 * (m.total() - m.done) + 2,
        _ => 0,
    }
}

/// Taking an image in comes to an end.
pub proof fn law_raw_ingest_ends(m: RawIngest, ok: bool)
    requires
        m.wf(),
        m.phase == RawPhase::Read || m.phase == RawPhase::Progress,
    ensures
        0 <= raw_left(m.after(ok)) < raw_left(m),
{
    if m.phase == RawPhase::Read {
        law_raw_ingest_covers(m);
    }
}

} // verus!
