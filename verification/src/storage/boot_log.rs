//! Dumping the framebuffer to the disk, and reading it back to verify.

use vstd::prelude::*;

use crate::storage::disk;

verus! {

/// Where the dump starts.
pub const BOOT_LOG_LBA: u64 = 1024;

/// How many bytes are written or read at a time.
pub const BOOT_LOG_CHUNK: u64 = 4096;

/// How far the dump has come.
#[derive(Clone, Copy, PartialEq, Eq, Structural)]
pub enum DumpPhase {
    Write,
    Verify,
    Done,
    Failed,
}

/// Dumping `size` bytes of the framebuffer.
#[derive(Clone, Copy, PartialEq, Eq, Structural)]
pub struct DumpOp {
    pub size: u64,
    pub phase: DumpPhase,
    pub offset: u64,
}

/// What the dump asks for: `len` bytes of the framebuffer from `offset` on, written to or
/// read from `count` sectors at `lba`.
#[derive(Clone, Copy, PartialEq, Eq, Structural)]
pub enum DumpRequest {
    Write { lba: u64, count: u16, offset: u64, len: u64 },
    ReadBack { lba: u64, count: u16, offset: u64, len: u64 },
    Done,
}

/// How many bytes come next.
pub open spec fn dump_len(size: int, offset: int) -> int {
    if size - offset <= BOOT_LOG_CHUNK {
        size - offset
    } else {
        BOOT_LOG_CHUNK as int
    }
}

impl DumpOp {
    /// What is asked for.
    pub open spec fn request(self) -> DumpRequest {
        let len = dump_len(self.size as int, self.offset as int);
        let lba = (BOOT_LOG_LBA + self.offset as int / 512) as u64;
        let count = disk::sectors(len) as u16;
        match self.phase {
            DumpPhase::Write => DumpRequest::Write {
                lba,
                count,
                offset: self.offset,
                len: len as u64,
            },
            DumpPhase::Verify => DumpRequest::ReadBack {
                lba,
                count,
                offset: self.offset,
                len: len as u64,
            },
            _ => DumpRequest::Done,
        }
    }

    /// What it makes of an access that worked, or did not: for one that reads back, whether
    /// the bytes were the same too.
    pub open spec fn after(self, ok: bool) -> DumpOp {
        let next = (self.offset + dump_len(self.size as int, self.offset as int)) as u64;
        match self.phase {
            DumpPhase::Write => if !ok {
                DumpOp { phase: DumpPhase::Failed, ..self }
            } else if next < self.size {
                DumpOp { offset: next, ..self }
            } else {
                DumpOp { offset: 0, phase: DumpPhase::Verify, ..self }
            },
            DumpPhase::Verify => if !ok {
                DumpOp { phase: DumpPhase::Failed, ..self }
            } else if next < self.size {
                DumpOp { offset: next, ..self }
            } else {
                DumpOp { offset: next, phase: DumpPhase::Done, ..self }
            },
            _ => self,
        }
    }

    /// While bytes are left, some are left.
    pub open spec fn wf(self) -> bool {
        self.phase == DumpPhase::Write || self.phase == DumpPhase::Verify ==> self.offset
            < self.size
    }
}

/// Begins to dump a framebuffer.
pub fn dump_boot_log(stride: u64, height: u64) -> (r: DumpOp)
    requires
        stride * height <= u64::MAX,
    ensures
        r.size == stride * height,
        r.offset == 0,
        r.phase == (if stride * height == 0 {
            DumpPhase::Done
        } else {
            DumpPhase::Write
        }),
        r.wf(),
{
    let size: u64 = stride * height;
    DumpOp {
        size,
        phase: if size == 0 {
            DumpPhase::Done
        } else {
            DumpPhase::Write
        },
        offset: 0,
    }
}

impl DumpOp {
    fn len(&self) -> (r: u64)
        requires
            self.offset < self.size,
        ensures
            r == dump_len(self.size as int, self.offset as int),
            0 < r <= 4096,
    {
        let left: u64 = self.size - self.offset;
        if left <= BOOT_LOG_CHUNK {
            left
        } else {
            BOOT_LOG_CHUNK
        }
    }

    /// What is needed next.
    pub fn next_request(&self) -> (r: DumpRequest)
        requires
            self.wf(),
        ensures
            r == self.request(),
    {
        match self.phase {
            DumpPhase::Write => {
                let len: u64 = self.len();
                DumpRequest::Write {
                    lba: BOOT_LOG_LBA + self.offset / 512,
                    count: disk::sectors_for_u64(len) as u16,
                    offset: self.offset,
                    len,
                }
            },
            DumpPhase::Verify => {
                let len: u64 = self.len();
                DumpRequest::ReadBack {
                    lba: BOOT_LOG_LBA + self.offset / 512,
                    count: disk::sectors_for_u64(len) as u16,
                    offset: self.offset,
                    len,
                }
            },
            _ => DumpRequest::Done,
        }
    }

    /// Takes the outcome of an access.
    pub fn feed(&mut self, ok: bool)
        requires
            old(self).wf(),
        ensures
            *final(self) == old(self).after(ok),
            final(self).wf(),
    {
        match self.phase {
            DumpPhase::Write => {
                let next: u64 = self.offset + self.len();
                if !ok {
                    self.phase = DumpPhase::Failed;
                } else if next < self.size {
                    self.offset = next;
                } else {
                    self.offset = 0;
                    self.phase = DumpPhase::Verify;
                }
            },
            DumpPhase::Verify => {
                let next: u64 = self.offset + self.len();
                if !ok {
                    self.phase = DumpPhase::Failed;
                } else {
                    self.offset = next;
                    if next >= self.size {
                        self.phase = DumpPhase::Done;
                    }
                }
            },
            _ => {},
        }
    }
}

/// A dump of which every access works writes, and then reads back, every byte once: each
/// access takes up where the one before left off, and the dump ends where the framebuffer
/// does.
pub proof fn law_dump_covers_framebuffer(m: DumpOp)
    requires
        m.wf(),
        m.phase == DumpPhase::Write || m.phase == DumpPhase::Verify,
    ensures
        ({
            let len = dump_len(m.size as int, m.offset as int);
            &&& 0 < len <= m.size - m.offset
            &&& m.after(true).phase == m.phase ==> m.after(true).offset == m.offset + len
            &&& m.after(true).phase != m.phase <==> m.offset + len == m.size
        }),
{
}

} // verus!
