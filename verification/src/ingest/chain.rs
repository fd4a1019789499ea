//! Reading a file into memory along its cluster chain, clusters that follow each other in
//! one go.

use vstd::prelude::*;

use crate::ingest::fat32;
use crate::ingest::fat32::Fat32File;
use crate::ingest::fat32::Fat32Volume;
use crate::ingest::search::BlockRead;
use crate::storage::disk;

verus! {

/// How many bytes are read in one go, as long as clusters follow each other.
pub const USB_MAX_READ_BYTES: u64 = 0x40_0000;

/// After how many bytes progress is reported.
pub const USB_INGEST_PROGRESS_INTERVAL: u64 = 0x2000_0000;

/// How far reading has come.
#[derive(Clone, Copy, PartialEq, Eq, Structural)]
pub enum ChainPhase {
    /// Waiting for the table entry of a cluster.
    Fat,
    /// Waiting for the clusters of a run.
    Data,
    /// Reporting progress.
    Progress,
    Done,
    /// Clusters could not be read.
    ReadError,
    /// The chain could not be read on.
    ChainError,
    /// The chain ended before the file did.
    Truncated,
}

/// Reading a file along its chain.
#[derive(Clone, Copy, PartialEq, Eq, Structural)]
pub struct ChainIngest {
    pub vol: Fat32Volume,
    pub file: Fat32File,
    pub phase: ChainPhase,
    /// The last cluster of the run.
    pub cluster: u32,
    /// How many bytes of the file are in memory.
    pub copied: u64,
    /// The first cluster of the run.
    pub run_start: u32,
    /// How many clusters the run has.
    pub run: u32,
    /// The cluster behind the run, if it could be read.
    pub next: Option<u32>,
    /// When progress is reported next.
    pub next_progress: u64,
}

/// When progress is reported next, given that it was due at `next`.
pub open spec fn progress_after(next: int, done: int) -> int {
    if next <= done {
        (done / USB_INGEST_PROGRESS_INTERVAL as int + 1) * USB_INGEST_PROGRESS_INTERVAL
    } else {
        next
    }
}

/// Finds when progress is reported next.
pub fn advance_progress(next: u64, done: u64) -> (r: u64)
    requires
        done <= 0x1_0000_0000_0000,
    ensures
        r == progress_after(next as int, done as int),
{
    if next <= done {
        (done / USB_INGEST_PROGRESS_INTERVAL + 1) * USB_INGEST_PROGRESS_INTERVAL
    } else {
        next
    }
}

/// Progress is reported next behind what is done, and no later than one interval on.
pub proof fn law_progress_is_ahead(next: int, done: int)
    requires
        0 <= done,
        next <= done + USB_INGEST_PROGRESS_INTERVAL,
    ensures
        done < progress_after(next, done) <= done + USB_INGEST_PROGRESS_INTERVAL,
{
}

impl ChainIngest {
    pub open spec fn begin(vol: Fat32Volume, file: Fat32File) -> ChainIngest {
        ChainIngest {
            vol,
            file,
            phase: ChainPhase::Done,
            cluster: file.first_cluster,
            copied: 0,
            run_start: 0,
            run: 0,
            next: None,
            next_progress: USB_INGEST_PROGRESS_INTERVAL,
        }.next_run()
    }

    pub open spec fn with_phase(self, phase: ChainPhase) -> ChainIngest {
        ChainIngest { phase, ..self }
    }

    /// On to the next run, if the file has more and the chain too.
    pub open spec fn next_run(self) -> ChainIngest {
        if self.copied >= self.file.size {
            self.with_phase(ChainPhase::Done)
        } else if fat32::is_cluster(self.cluster) {
            ChainIngest { run_start: self.cluster, run: 1, phase: ChainPhase::Fat, ..self }
        } else {
            self.with_phase(ChainPhase::Truncated)
        }
    }

    /// The size of the run.
    pub open spec fn run_bytes(self) -> int {
        self.run * self.vol.cluster_bytes()
    }

    /// Whether the cluster behind the run follows it, and belongs to the same read.
    pub open spec fn extends(self, next: Option<u32>) -> bool {
        &&& self.run_bytes() < USB_MAX_READ_BYTES
        &&& next matches Some(n) && n == self.cluster + 1
        &&& self.copied + self.run_bytes() < self.file.size
    }

    /// On to the cluster behind the run.
    pub open spec fn advanced(self) -> ChainIngest {
        if self.copied < self.file.size {
            match self.next {
                Some(n) => ChainIngest { cluster: n, ..self }.next_run(),
                None => self.with_phase(ChainPhase::ChainError),
            }
        } else {
            self.with_phase(ChainPhase::Done)
        }
    }

    /// How many bytes are in memory once the run is.
    pub open spec fn copied_after(self) -> int {
        if self.copied + self.run_bytes() < self.file.size {
            self.copied + self.run_bytes()
        } else {
            self.file.size as int
        }
    }

    /// What is to be read: a sector of the table, or the run.
    pub open spec fn request(self) -> Option<BlockRead> {
        match self.phase {
            ChainPhase::Fat => Some(
                BlockRead {
                    lba: self.vol.fat_lba(self.cluster),
                    blocks: self.vol.device_blocks_per_fs_sector as u16,
                    len: self.vol.bytes_per_sector,
                },
            ),
            ChainPhase::Data => Some(
                BlockRead {
                    lba: self.vol.cluster_lba(self.run_start),
                    blocks: ((self.vol.cluster_blocks() % 0x1_0000 * self.run) % 0x1_0000) as u16,
                    len: self.run_bytes() as u32,
                },
            ),
            _ => None,
        }
    }

    /// What reading the table entry gave: nothing where it failed.
    pub open spec fn after_entry(self, next: Option<u32>) -> ChainIngest {
        if self.extends(next) {
            ChainIngest {
                cluster: (self.cluster + 1) as u32,
                run: (self.run + 1) as u32,
                next,
                ..self
            }
        } else {
            ChainIngest { next, phase: ChainPhase::Data, ..self }
        }
    }

    /// What reading the run gave.
    pub open spec fn after_run(self, ok: bool) -> ChainIngest {
        if !ok {
            self.with_phase(ChainPhase::ReadError)
        } else {
            let copied = self.copied_after();
            if copied >= self.next_progress || copied == self.file.size {
                ChainIngest {
                    copied: copied as u64,
                    next_progress: progress_after(self.next_progress as int, copied) as u64,
                    phase: ChainPhase::Progress,
                    ..self
                }
            } else {
                ChainIngest { copied: copied as u64, ..self }.advanced()
            }
        }
    }

    /// What a reply makes of it.
    pub open spec fn after(self, reply: Option<Seq<u8>>) -> ChainIngest {
        match self.phase {
            ChainPhase::Fat => self.after_entry(
                match reply {
                    Some(s) => Some(
                        fat32::fat_entry_at(s, self.vol.fat_offset(self.cluster)),
                    ),
                    None => None,
                },
            ),
            ChainPhase::Data => self.after_run(reply is Some),
            ChainPhase::Progress => self.advanced(),
            _ => self,
        }
    }

    /// Whether what is read next fits the buffer that it is read into.
    pub open spec fn askable(self) -> bool {
        self.phase == ChainPhase::Fat ==> self.vol.entry_fits_bounce(self.cluster)
    }

    /// Whether a reply fits the request: the buffer that a sector of the table was read into,
    /// or the run.
    pub open spec fn fits(self, reply: Option<Seq<u8>>) -> bool {
        match (self.phase, reply) {
            (ChainPhase::Fat, Some(s)) => self.vol.holds_entry(s, self.cluster),
            (ChainPhase::Data, Some(s)) => s.len() == self.run_bytes(),
            _ => true,
        }
    }

    /// What holds in each phase.
    pub open spec fn wf(self) -> bool {
        &&& self.vol.wf()
        &&& self.copied <= self.file.size
        &&& self.next_progress <= 0x1_0000_0000_0000
        &&& self.phase == ChainPhase::Fat || self.phase == ChainPhase::Data ==> {
            &&& self.copied < self.file.size
            &&& 1 <= self.run
            &&& 2 <= self.run_start
            &&& self.cluster == self.run_start + (self.run - 1)
            &&& (self.run - 1) * self.vol.cluster_bytes() < USB_MAX_READ_BYTES
            &&& self.copied + (self.run - 1) * self.vol.cluster_bytes() < self.file.size
            &&& self.cluster <= 0x1000_0000
        }
    }
}

impl ChainIngest {
    /// What follows of the size of a run.
    pub proof fn lemma_run(self)
        requires
            self.wf(),
            self.phase == ChainPhase::Fat || self.phase == ChainPhase::Data,
        ensures
            0 < self.run_bytes() <= USB_MAX_READ_BYTES + 0xffff * 0xff,
            self.run <= 0x40_0000,
    {
        self.vol.lemma_bounds();
        let cb = self.vol.cluster_bytes();
        let r = self.run as int;
        assert(r * cb == (r - 1) * cb + cb) by (nonlinear_arith);
        assert(r - 1 < USB_MAX_READ_BYTES) by (nonlinear_arith)
            requires
                (r - 1) * cb < USB_MAX_READ_BYTES,
                cb >= 1,
                r >= 1,
        ;
        assert(0 <= (r - 1) * cb) by (nonlinear_arith)
            requires
                r >= 1,
                cb >= 1,
        ;
    }

    /// Begins to read a file.
    pub fn new(vol: Fat32Volume, file: Fat32File) -> (r: ChainIngest)
        requires
            vol.wf(),
        ensures
            r == ChainIngest::begin(vol, file),
            r.wf(),
    {
        let mut r = ChainIngest {
            vol,
            file,
            phase: ChainPhase::Done,
            cluster: file.first_cluster,
            copied: 0,
            run_start: 0,
            run: 0,
            next: None,
            next_progress: USB_INGEST_PROGRESS_INTERVAL,
        };
        r.start_run();
        r
    }

    fn start_run(&mut self)
        requires
            old(self).vol.wf(),
            old(self).copied <= old(self).file.size,
            old(self).next_progress <= 0x1_0000_0000_0000,
        ensures
            *final(self) == old(self).next_run(),
            final(self).wf(),
    {
        if self.copied >= self.file.size as u64 {
            self.phase = ChainPhase::Done;
        } else if fat32::valid_cluster(self.cluster) {
            self.run_start = self.cluster;
            self.run = 1;
            self.phase = ChainPhase::Fat;
        } else {
            self.phase = ChainPhase::Truncated;
        }
    }

    fn advance(&mut self)
        requires
            old(self).vol.wf(),
            old(self).copied <= old(self).file.size,
            old(self).next_progress <= 0x1_0000_0000_0000,
        ensures
            *final(self) == old(self).advanced(),
            final(self).wf(),
    {
        if self.copied < self.file.size as u64 {
            match self.next {
                Some(n) => {
                    self.cluster = n;
                    self.start_run();
                },
                None => {
                    self.phase = ChainPhase::ChainError;
                },
            }
        } else {
            self.phase = ChainPhase::Done;
        }
    }

    /// What is to be read next.
    pub fn next_request(&self) -> (r: Option<BlockRead>)
        requires
            self.wf(),
            self.askable(),
        ensures
            r == self.request(),
    {
        match self.phase {
            ChainPhase::Fat => {
                proof {
                    self.vol.lemma_bounds();
                }
                let (lba, _): (u32, usize) = self.vol.fat_lba_for_cluster(self.cluster);
                Some(
                    BlockRead {
                        lba,
                        blocks: self.vol.device_blocks_per_fs_sector as u16,
                        len: self.vol.bytes_per_sector,
                    },
                )
            },
            ChainPhase::Data => {
                proof {
                    self.lemma_run();
                }
                let len: u32 = self.run * self.vol.bytes_in_cluster();
                Some(
                    BlockRead {
                        lba: self.vol.first_device_lba_of_cluster(self.run_start),
                        blocks: self.vol.blocks_in_clusters(self.run),
                        len,
                    },
                )
            },
            _ => None,
        }
    }

    /// Takes what was read, or nothing where it could not be; anything where progress was
    /// reported.
    pub fn feed(&mut self, reply: Option<&[u8]>)
        requires
            old(self).wf(),
            old(self).fits(disk::reply_of(reply)),
        ensures
            *final(self) == old(self).after(disk::reply_of(reply)),
            final(self).wf(),
    {
        match self.phase {
            ChainPhase::Fat => {
                proof {
                    self.lemma_run();
                }
                let next: Option<u32> = match reply {
                    Some(s) => {
                        let (_, off): (u32, usize) = self.vol.fat_lba_for_cluster(self.cluster);
                        Some(fat32::read_fat_entry(s, off))
                    },
                    None => None,
                };
                let bytes: u64 = self.run as u64 * self.vol.bytes_in_cluster() as u64;
                let follows = match next {
                    Some(n) => n as u64 == self.cluster as u64 + 1,
                    None => false,
                };
                self.next = next;
                if bytes < USB_MAX_READ_BYTES && follows && self.copied + bytes
                    < self.file.size as u64 {
                    self.cluster = self.cluster + 1;
                    self.run = self.run + 1;
                } else {
                    self.phase = ChainPhase::Data;
                }
            },
            ChainPhase::Data => {
                if reply.is_none() {
                    self.phase = ChainPhase::ReadError;
                    return;
                }
                proof {
                    self.lemma_run();
                }
                let bytes: u64 = self.run as u64 * self.vol.bytes_in_cluster() as u64;
                let copied: u64 = if self.copied + bytes < self.file.size as u64 {
                    self.copied + bytes
                } else {
                    self.file.size as u64
                };
                self.copied = copied;
                if copied >= self.next_progress || copied == self.file.size as u64 {
                    self.next_progress = advance_progress(self.next_progress, copied);
                    self.phase = ChainPhase::Progress;
                } else {
                    self.advance();
                }
            },
            ChainPhase::Progress => self.advance(),
            _ => {},
        }
    }
}

/// How many requests it takes at most until a file is taken in or given up.
pub open spec fn chain_left(m: ChainIngest) -> int {
    let rest = m.file.size - m.copied;
    match m.phase {
        ChainPhase::Fat => 4 * rest + 3 - m.run,
        ChainPhase::Data => 4 * rest + 2 - m.run,
        ChainPhase::Progress => 4 * rest + 3,
        _ => 0,
    }
}

/// Whatever is read, even where the chain runs in a circle, taking a file in comes to an end.
pub proof fn law_chain_ends(m: ChainIngest, reply: Option<Seq<u8>>)
    requires
        m.wf(),
        m.phase == ChainPhase::Fat || m.phase == ChainPhase::Data || m.phase
            == ChainPhase::Progress,
    ensures
        0 <= chain_left(m.after(reply)) < chain_left(m),
{
    if m.phase != ChainPhase::Progress {
        let run = m.run as int;
        let size = m.vol.cluster_bytes();
        m.vol.lemma_bounds();
        assert(run <= run * size) by (nonlinear_arith)
            requires
                run >= 1,
                size >= 1,
        ;
        assert(run - 1 <= (run - 1) * size) by (nonlinear_arith)
            requires
                run >= 1,
                size >= 1,
        ;
    }
}

} // verus!
