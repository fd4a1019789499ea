//! Searching the directories of a FAT32 volume for a model.
//!
//! A file whose short name starts with `GGML` and has a GGUF extension is taken at once.
//! Otherwise the directory is gone through to its end, then its subdirectories; if none of
//! them holds a model, the first file with a GGUF name or GGUF contents is taken, and else
//! the largest file of more than a gibibyte.

use vstd::prelude::*;

use crate::ingest::fat32;
use crate::ingest::fat32::Fat32File;
use crate::ingest::fat32::Fat32Volume;

verus! {

/// How many subdirectories of a directory are looked at.
pub const MAX_SUBDIRS: usize = 16;

/// How deep directories are looked at.
pub const MAX_DEPTH: usize = 4;

/// How many clusters of a directory are looked at.
pub const MAX_DIR_CLUSTERS: u32 = 4096;

/// How large a file has to be to be taken for its size.
pub const LARGE_FILE: u32 = 0x4000_0000;

/// A directory that is being gone through.
pub struct DirFrame {
    pub cluster: u32,
    pub seen: u32,
    pub pending_lfn: bool,
    pub first: Option<Fat32File>,
    pub largest: Option<Fat32File>,
    pub subdirs: Vec<u32>,
    pub next_sub: usize,
}

/// A directory that is being gone through, over sequences.
pub struct Frame {
    pub cluster: u32,
    pub seen: u32,
    pub pending_lfn: bool,
    pub first: Option<Fat32File>,
    pub largest: Option<Fat32File>,
    pub subdirs: Seq<u32>,
    pub next_sub: int,
}

impl View for DirFrame {
    type V = Frame;

    open spec fn view(&self) -> Frame {
        Frame {
            cluster: self.cluster,
            seen: self.seen,
            pending_lfn: self.pending_lfn,
            first: self.first,
            largest: self.largest,
            subdirs: self.subdirs@,
            next_sub: self.next_sub as int,
        }
    }
}

/// The file in `a`, or else `b`.
pub open spec fn or_file(a: Option<Fat32File>, b: Fat32File) -> Option<Fat32File> {
    match a {
        Some(f) => Some(f),
        None => Some(b),
    }
}

impl Frame {
    pub open spec fn begin(cluster: u32) -> Frame {
        Frame {
            cluster,
            seen: 0,
            pending_lfn: false,
            first: None,
            largest: None,
            subdirs: Seq::empty(),
            next_sub: 0,
        }
    }

    /// What a directory of which all was seen, subdirectories included, gives.
    pub open spec fn fallback(self) -> Option<Fat32File> {
        match self.first {
            Some(f) => Some(f),
            None => self.largest,
        }
    }

    /// After looking at how a file starts.
    pub open spec fn with_file(self, file: Fat32File, magic: bool) -> Frame {
        Frame {
            first: if magic {
                or_file(self.first, file)
            } else {
                self.first
            },
            largest: if file.size > LARGE_FILE && (match self.largest {
                Some(f) => file.size > f.size,
                None => true,
            }) {
                Some(file)
            } else {
                self.largest
            },
            pending_lfn: false,
            ..self
        }
    }

    /// Files found are files; subdirectories are counted.
    pub open spec fn wf(self) -> bool {
        &&& self.first matches Some(f) ==> f.first_cluster >= 2 && f.size > 0
        &&& self.largest matches Some(f) ==> f.first_cluster >= 2 && f.size > 0
        &&& 0 <= self.next_sub <= self.subdirs.len() <= MAX_SUBDIRS
        &&& self.seen <= MAX_DIR_CLUSTERS
    }
}

/// What going through the entries of a cluster comes upon.
pub enum Scan {
    /// The preferred model.
    Preferred(Fat32File),
    /// A file whose start has to be looked at, in entry `at`.
    Magic { frame: Frame, at: int, file: Fat32File },
    /// The end of the directory.
    EndOfDirectory(Frame),
    /// The end of the cluster.
    Exhausted(Frame),
}

/// Entry `i` of a cluster.
pub open spec fn entry_at(data: Seq<u8>, i: int) -> Seq<u8> {
    data.subrange(32 * i, 32 * i + 32)
}

/// Goes through the entries of a cluster, from entry `i` on.
pub open spec fn scanned(f: Frame, data: Seq<u8>, i: int, deeper: bool) -> Scan
    decreases data.len() - 32 * i,
{
    let e = entry_at(data, i);
    if i < 0 || 32 * i + 32 > data.len() {
        Scan::Exhausted(f)
    } else if e[0] == 0 {
        Scan::EndOfDirectory(f)
    } else if e[11] == 0x0f {
        scanned(
            Frame { pending_lfn: f.pending_lfn || fat32::is_gguf_lfn(e), ..f },
            data,
            i + 1,
            deeper,
        )
    } else {
        match fat32::file_of(e) {
            Some(file) => if fat32::is_preferred_entry(e) {
                Scan::Preferred(file)
            } else {
                Scan::Magic {
                    frame: Frame {
                        first: if fat32::is_gguf_entry(e) || f.pending_lfn {
                            or_file(f.first, file)
                        } else {
                            f.first
                        },
                        ..f
                    },
                    at: i,
                    file,
                }
            },
            None => scanned(
                Frame {
                    subdirs: match fat32::directory_of(e) {
                        Some(c) => if deeper && f.subdirs.len() < MAX_SUBDIRS {
                            f.subdirs.push(c)
                        } else {
                            f.subdirs
                        },
                        None => f.subdirs,
                    },
                    pending_lfn: false,
                    ..f
                },
                data,
                i + 1,
                deeper,
            ),
        }
    }
}

/// How far the search has come.
#[derive(Clone, Copy, PartialEq, Eq, Structural)]
pub enum SearchPhase {
    /// Waiting for a cluster of the innermost directory.
    Cluster,
    /// Waiting for the start of a file.
    Magic,
    /// Waiting for the table entry of a cluster.
    Fat,
    Done,
}

/// Blocks that are read into the first `len` bytes of a buffer.
#[derive(Clone, Copy, PartialEq, Eq, Structural)]
pub struct BlockRead {
    pub lba: u32,
    pub blocks: u16,
    pub len: u32,
}

/// A search through directories, the innermost last.
pub struct FatSearch {
    pub vol: Fat32Volume,
    pub frames: Vec<DirFrame>,
    pub phase: SearchPhase,
    pub data: Vec<u8>,
    pub at: usize,
    pub file: Fat32File,
    pub found: Option<Fat32File>,
}

/// A search through directories, over sequences.
pub struct Search {
    pub vol: Fat32Volume,
    pub frames: Seq<Frame>,
    pub phase: SearchPhase,
    pub data: Seq<u8>,
    pub at: int,
    pub file: Fat32File,
    pub found: Option<Fat32File>,
}

impl View for FatSearch {
    type V = Search;

    open spec fn view(&self) -> Search {
        Search {
            vol: self.vol,
            frames: self.frames@.map_values(|f: DirFrame| f@),
            phase: self.phase,
            data: self.data@,
            at: self.at as int,
            file: self.file,
            found: self.found,
        }
    }
}

/// How many subdirectories are still to be looked at.
pub open spec fn subs_left(frames: Seq<Frame>) -> int
    decreases frames.len(),
{
    if frames.len() == 0 {
        0
    } else {
        let f = frames.last();
        subs_left(frames.drop_last()) + if f.next_sub < f.subdirs.len() {
            f.subdirs.len() - f.next_sub
        } else {
            0
        }
    }
}

proof fn lemma_subs_nonnegative(frames: Seq<Frame>)
    ensures
        subs_left(frames) >= 0,
    decreases frames.len(),
{
    if frames.len() > 0 {
        lemma_subs_nonnegative(frames.drop_last());
    }
}

/// Looking at a subdirectory leaves one less.
pub proof fn lemma_subs_step(frames: Seq<Frame>, f: Frame, child: Frame)
    requires
        frames.len() > 0,
        frames.last().next_sub < frames.last().subdirs.len(),
        f == (Frame { next_sub: frames.last().next_sub + 1, ..frames.last() }),
        child.subdirs.len() == 0,
        child.next_sub == 0,
    ensures
        subs_left(frames.drop_last().push(f).push(child)) == subs_left(frames) - 1,
        subs_left(frames.drop_last()) <= subs_left(frames),
        subs_left(frames) >= 1,
{
    lemma_subs_nonnegative(frames.drop_last());
    let a = frames.drop_last().push(f);
    assert(a.push(child).drop_last() =~= a);
    assert(a.drop_last() =~= frames.drop_last());
    assert(a.push(child).last() == child);
    assert(a.last() == f);
    assert(subs_left(a.push(child)) == subs_left(a));
    assert(subs_left(a) == subs_left(frames.drop_last()) + (f.subdirs.len() - f.next_sub));
}

/// Leaving a directory leaves no more.
pub proof fn lemma_subs_pop(frames: Seq<Frame>)
    requires
        frames.len() > 0,
    ensures
        0 <= subs_left(frames.drop_last()) <= subs_left(frames),
{
    lemma_subs_nonnegative(frames.drop_last());
}

impl Search {
    pub open spec fn begin(vol: Fat32Volume) -> Search {
        Search {
            vol,
            frames: seq![Frame::begin(vol.root_cluster)],
            phase: SearchPhase::Done,
            data: Seq::empty(),
            at: 0,
            file: Fat32File { first_cluster: 0, size: 0 },
            found: None,
        }.entered()
    }

    pub open spec fn with_top(self, f: Frame) -> Search {
        Search { frames: self.frames.drop_last().push(f), ..self }
    }

    pub open spec fn over(self, found: Option<Fat32File>) -> Search {
        Search { phase: SearchPhase::Done, found, ..self }
    }

    /// On to the innermost directory's next cluster, or out of it.
    pub open spec fn entered(self) -> Search {
        let f = self.frames.last();
        if fat32::is_cluster(f.cluster) && f.seen < MAX_DIR_CLUSTERS {
            Search { phase: SearchPhase::Cluster, ..self }
        } else {
            self.descended()
        }
    }

    /// The innermost directory was gone through: on to its next subdirectory, or out of it
    /// with what it gives.
    pub open spec fn descended(self) -> Search
        decreases 2 * subs_left(self.frames) + self.frames.len(),
    {
        if self.frames.len() == 0 {
            self.over(None)
        } else {
            let f = self.frames.last();
            if f.next_sub < f.subdirs.len() && 0 <= f.next_sub && self.frames.len() <= MAX_DEPTH {
                let child = Frame::begin(f.subdirs[f.next_sub]);
                let f2 = Frame { next_sub: f.next_sub + 1, ..f };
                let next = Search {
                    frames: self.frames.drop_last().push(f2).push(child),
                    ..self
                };
                proof {
                    lemma_subs_step(self.frames, f2, child);
                }
                if fat32::is_cluster(child.cluster) {
                    Search { phase: SearchPhase::Cluster, ..next }
                } else {
                    next.descended()
                }
            } else {
                match f.fallback() {
                    Some(file) => self.over(Some(file)),
                    None => {
                        proof {
                            lemma_subs_pop(self.frames);
                        }
                        Search { frames: self.frames.drop_last(), ..self }.descended()
                    },
                }
            }
        }
    }

    /// The innermost directory cannot be read: out of it with nothing.
    pub open spec fn abandoned(self) -> Search {
        Search { frames: self.frames.drop_last(), ..self }.descended()
    }

    /// Whether subdirectories of the innermost directory are looked at.
    pub open spec fn deeper(self) -> bool {
        self.frames.len() <= MAX_DEPTH
    }

    /// What going through entries came upon.
    pub open spec fn with_scan(self, scan: Scan) -> Search {
        match scan {
            Scan::Preferred(file) => Search {
                frames: self.frames.drop_last(),
                ..self
            }.over(Some(file)),
            Scan::Magic { frame, at, file } => Search {
                at,
                file,
                phase: SearchPhase::Magic,
                ..self.with_top(frame)
            },
            Scan::EndOfDirectory(frame) => self.with_top(frame).descended(),
            Scan::Exhausted(frame) => Search { phase: SearchPhase::Fat, ..self.with_top(frame) },
        }
    }

    /// What is to be read.
    pub open spec fn request(self) -> Option<BlockRead> {
        let v = self.vol;
        match self.phase {
            SearchPhase::Cluster => Some(
                BlockRead {
                    lba: v.cluster_lba(self.frames.last().cluster),
                    blocks: (v.cluster_blocks() % 0x1_0000) as u16,
                    len: v.cluster_bytes() as u32,
                },
            ),
            SearchPhase::Magic => Some(
                BlockRead {
                    lba: v.cluster_lba(self.file.first_cluster),
                    blocks: v.device_blocks_per_fs_sector as u16,
                    len: v.bytes_per_sector,
                },
            ),
            SearchPhase::Fat => Some(
                BlockRead {
                    lba: v.fat_lba(self.frames.last().cluster),
                    blocks: v.device_blocks_per_fs_sector as u16,
                    len: v.bytes_per_sector,
                },
            ),
            SearchPhase::Done => None,
        }
    }

    /// What was read, or that it could not be, makes of the search.
    pub open spec fn after(self, reply: Option<Seq<u8>>) -> Search {
        match (self.phase, reply) {
            (SearchPhase::Cluster, Some(data)) => {
                let m = Search { data, ..self };
                m.with_scan(scanned(self.frames.last(), data, 0, self.deeper()))
            },
            (SearchPhase::Cluster, None) => self.abandoned(),
            (SearchPhase::Magic, _) => {
                let magic = reply matches Some(s) && fat32::has_gguf_magic(s);
                self.with_scan(
                    scanned(
                        self.frames.last().with_file(self.file, magic),
                        self.data,
                        self.at + 1,
                        self.deeper(),
                    ),
                )
            },
            (SearchPhase::Fat, Some(s)) => {
                let f = self.frames.last();
                self.with_top(
                    Frame {
                        cluster: fat32::fat_entry_at(s, self.vol.fat_offset(f.cluster)),
                        seen: (f.seen + 1) as u32,
                        ..f
                    },
                ).entered()
            },
            (SearchPhase::Fat, None) => self.abandoned(),
            (SearchPhase::Done, _) => self,
        }
    }

    /// Whether what is read next fits the buffer that it is read into: single sectors are not
    /// read into the buffer of a cluster.
    pub open spec fn askable(self) -> bool {
        &&& self.phase == SearchPhase::Magic ==> self.vol.fits_bounce()
        &&& self.phase == SearchPhase::Fat ==> self.vol.entry_fits_bounce(
            self.frames.last().cluster,
        )
    }

    /// Whether a reply fits the request: a cluster, or the buffer that a single sector was
    /// read into.
    pub open spec fn fits(self, reply: Option<Seq<u8>>) -> bool {
        match (self.phase, reply) {
            (SearchPhase::Cluster, Some(s)) => s.len() == self.vol.cluster_bytes(),
            (SearchPhase::Magic, Some(s)) => s.len() >= self.vol.bytes_per_sector,
            (SearchPhase::Fat, Some(s)) => self.vol.holds_entry(s, self.frames.last().cluster),
            _ => true,
        }
    }

    /// What holds in each phase.
    pub open spec fn wf(self) -> bool {
        &&& self.vol.wf()
        &&& self.frames.len() <= MAX_DEPTH + 1
        &&& forall|i: int| 0 <= i < self.frames.len() ==> (#[trigger] self.frames[i]).wf()
        &&& self.phase != SearchPhase::Done ==> self.frames.len() > 0 && fat32::is_cluster(
            self.frames.last().cluster,
        ) && self.frames.last().seen < MAX_DIR_CLUSTERS
        &&& self.phase != SearchPhase::Done ==> self.found is None
        &&& self.phase == SearchPhase::Magic ==> self.data.len() == self.vol.cluster_bytes() && 0
            <= self.at && 32 * self.at + 32 <= self.data.len() && self.file.first_cluster >= 2
            && self.file.size > 0
        &&& self.found matches Some(f) ==> f.first_cluster >= 2 && f.size > 0
    }
}

/// What going through the entries of a cluster came upon.
pub enum DirScan {
    Preferred(Fat32File),
    Magic { frame: DirFrame, at: usize, file: Fat32File },
    EndOfDirectory(DirFrame),
    Exhausted(DirFrame),
}

impl View for DirScan {
    type V = Scan;

    open spec fn view(&self) -> Scan {
        match self {
            DirScan::Preferred(f) => Scan::Preferred(*f),
            DirScan::Magic { frame, at, file } => Scan::Magic {
                frame: frame@,
                at: *at as int,
                file: *file,
            },
            DirScan::EndOfDirectory(f) => Scan::EndOfDirectory(f@),
            DirScan::Exhausted(f) => Scan::Exhausted(f@),
        }
    }
}

impl DirScan {
    /// The directory that is gone through is in order, and what was found is a file.
    pub open spec fn wf(self, old_cluster: u32, old_seen: u32) -> bool {
        match self {
            DirScan::Preferred(f) => f.first_cluster >= 2 && f.size > 0,
            DirScan::Magic { frame, at, file } => frame@.wf() && file.first_cluster >= 2
                && file.size > 0 && frame.cluster == old_cluster && frame.seen == old_seen,
            DirScan::EndOfDirectory(f) => f@.wf() && f.cluster == old_cluster && f.seen == old_seen,
            DirScan::Exhausted(f) => f@.wf() && f.cluster == old_cluster && f.seen == old_seen,
        }
    }
}

/// Goes through the entries of a cluster, from entry `from` on.
pub fn scan_entries(frame: DirFrame, data: &[u8], from: usize, deeper: bool) -> (r: DirScan)
    requires
        frame@.wf(),
        from <= data.len(),
        data.len() <= 0xffff * 0xff,
    ensures
        r@ == scanned(frame@, data@, from as int, deeper),
        r.wf(frame.cluster, frame.seen),
        r matches DirScan::Magic { frame, at, file } ==> 32 * at + 32 <= data.len(),
{
    let ghost goal = scanned(frame@, data@, from as int, deeper);
    let ghost cluster = frame.cluster;
    let ghost seen = frame.seen;
    let mut f = frame;
    let mut i: usize = from;
    while 32 * i + 32 <= data.len()
        invariant
            i <= 0xffff * 0xff + 1,
            data.len() <= 0xffff * 0xff,
            f@.wf(),
            f.cluster == cluster,
            f.seen == seen,
            goal == scanned(f@, data@, i as int, deeper),
            goal == scanned(frame@, data@, from as int, deeper),
            cluster == frame.cluster,
            seen == frame.seen,
        decreases data.len() - i,
    {
        let e = &data[32 * i..32 * i + 32];
        if e[0] == 0 {
            return DirScan::EndOfDirectory(f);
        }
        if e[11] == 0x0f {
            let is_gguf = fat32::fat32_lfn_entry_has_gguf_suffix(e);
            f.pending_lfn = f.pending_lfn || is_gguf;
            i += 1;
            continue;
        }
        match fat32::fat32_file_from_entry(e) {
            Some(file) => {
                if fat32::fat32_entry_is_preferred_bitnet_gguf(e) {
                    return DirScan::Preferred(file);
                }
                if (fat32::fat32_entry_is_gguf(e) || f.pending_lfn) && f.first.is_none() {
                    f.first = Some(file);
                }
                return DirScan::Magic { frame: f, at: i, file };
            },
            None => {
                match fat32::fat32_directory_from_entry(e) {
                    Some(c) => {
                        if deeper && f.subdirs.len() < MAX_SUBDIRS {
                            f.subdirs.push(c);
                        }
                    },
                    None => {},
                }
                f.pending_lfn = false;
                i += 1;
            },
        }
    }
    DirScan::Exhausted(f)
}

impl FatSearch {
    /// Begins to search a volume.
    pub fn find_gguf_file_in_fat32(vol: Fat32Volume) -> (r: FatSearch)
        requires
            vol.wf(),
        ensures
            r@ == Search::begin(vol),
            r@.wf(),
    {
        let root = DirFrame {
            cluster: vol.root_cluster,
            seen: 0,
            pending_lfn: false,
            first: None,
            largest: None,
            subdirs: Vec::new(),
            next_sub: 0,
        };
        assert(root@.subdirs =~= Seq::empty());
        let frames: Vec<DirFrame> = vec![root];
        let mut r = FatSearch {
            vol,
            frames,
            phase: SearchPhase::Done,
            data: Vec::new(),
            at: 0,
            file: Fat32File { first_cluster: 0, size: 0 },
            found: None,
        };
        assert(r@.frames =~= seq![Frame::begin(vol.root_cluster)]);
        assert(r@.data =~= Seq::empty());
        r.enter();
        r
    }

    fn enter(&mut self)
        requires
            old(self)@.vol.wf(),
            0 < old(self)@.frames.len() <= MAX_DEPTH + 1,
            forall|i: int|
                0 <= i < old(self)@.frames.len() ==> (#[trigger] old(self)@.frames[i]).wf(),
            old(self)@.found is None,
        ensures
            final(self)@ == old(self)@.entered(),
            final(self)@.wf(),
    {
        let n: usize = self.frames.len();
        let f = &self.frames[n - 1];
        assert(self@.frames.last() == self.frames@[n - 1]@);
        if fat32::valid_cluster(f.cluster) && f.seen < MAX_DIR_CLUSTERS {
            self.phase = SearchPhase::Cluster;
        } else {
            self.descend();
        }
    }

    fn push_frame(&mut self, f: DirFrame)
        ensures
            final(self)@ == (Search { frames: old(self)@.frames.push(f@), ..old(self)@ }),
    {
        let ghost before = self.frames@;
        self.frames.push(f);
        assert(self@.frames =~= before.map_values(|f: DirFrame| f@).push(f@));
    }

    fn pop_frame(&mut self) -> (f: DirFrame)
        requires
            old(self)@.frames.len() > 0,
        ensures
            f@ == old(self)@.frames.last(),
            final(self)@ == (Search { frames: old(self)@.frames.drop_last(), ..old(self)@ }),
    {
        let ghost before = self.frames@;
        let n: usize = self.frames.len();
        assert(n == before.len());
        let f = self.frames.remove(n - 1);
        assert(self@.frames =~= before.map_values(|f: DirFrame| f@).drop_last());
        f
    }

    fn descend(&mut self)
        requires
            old(self)@.vol.wf(),
            old(self)@.frames.len() <= MAX_DEPTH + 1,
            forall|i: int|
                0 <= i < old(self)@.frames.len() ==> (#[trigger] old(self)@.frames[i]).wf(),
            old(self)@.found is None,
        ensures
            final(self)@ == old(self)@.descended(),
            final(self)@.wf(),
    {
        let ghost goal = self@.descended();
        loop
            invariant
                self@.vol.wf(),
                self@.frames.len() <= MAX_DEPTH + 1,
                forall|i: int| 0 <= i < self@.frames.len() ==> (#[trigger] self@.frames[i]).wf(),
                self@.found is None,
                goal == self@.descended(),
                goal == old(self)@.descended(),
            decreases 2 * subs_left(self@.frames) + self@.frames.len(),
        {
            let ghost frames = self@.frames;
            let depth: usize = self.frames.len();
            assert(depth == frames.len());
            if depth == 0 {
                self.phase = SearchPhase::Done;
                self.found = None;
                return;
            }
            proof {
                lemma_subs_pop(frames);
            }
            let mut f = self.pop_frame();
            if f.next_sub < f.subdirs.len() && depth <= MAX_DEPTH {
                let cluster: u32 = f.subdirs[f.next_sub];
                f.next_sub = f.next_sub + 1;
                let child = DirFrame {
                    cluster,
                    seen: 0,
                    pending_lfn: false,
                    first: None,
                    largest: None,
                    subdirs: Vec::new(),
                    next_sub: 0,
                };
                assert(child@.subdirs =~= Seq::empty());
                assert(child@ == Frame::begin(cluster));
                proof {
                    lemma_subs_step(frames, f@, child@);
                }
                self.push_frame(f);
                self.push_frame(child);
                if fat32::valid_cluster(cluster) {
                    self.phase = SearchPhase::Cluster;
                    return;
                }
            } else {
                let fallback = match f.first {
                    Some(file) => Some(file),
                    None => f.largest,
                };
                match fallback {
                    Some(file) => {
                        assert(frames.last().wf());
                        assert(frames =~= frames.drop_last().push(f@));
                        self.push_frame(f);
                        self.phase = SearchPhase::Done;
                        self.found = Some(file);
                        return;
                    },
                    None => {},
                }
            }
        }
    }

    fn abandon(&mut self)
        requires
            old(self)@.wf(),
            old(self)@.frames.len() > 0,
            old(self)@.found is None,
        ensures
            final(self)@ == old(self)@.abandoned(),
            final(self)@.wf(),
    {
        let _ = self.pop_frame();
        self.descend();
    }

    fn apply(&mut self, scan: DirScan, Ghost(was): Ghost<Search>)
        requires
            was.wf(),
            was.frames.len() > 0,
            fat32::is_cluster(was.frames.last().cluster),
            was.frames.last().seen < MAX_DIR_CLUSTERS,
            was.found is None,
            old(self)@ == (Search { frames: was.frames.drop_last(), ..was }),
            scan.wf(was.frames.last().cluster, was.frames.last().seen),
            was.data.len() == was.vol.cluster_bytes(),
            scan matches DirScan::Magic { frame, at, file } ==> 32 * at + 32 <= was.data.len(),
        ensures
            final(self)@ == was.with_scan(scan@),
            final(self)@.wf(),
    {
        match scan {
            DirScan::Preferred(file) => {
                self.phase = SearchPhase::Done;
                self.found = Some(file);
            },
            DirScan::Magic { frame, at, file } => {
                self.push_frame(frame);
                self.at = at;
                self.file = file;
                self.phase = SearchPhase::Magic;
            },
            DirScan::EndOfDirectory(frame) => {
                self.push_frame(frame);
                self.descend();
            },
            DirScan::Exhausted(frame) => {
                self.push_frame(frame);
                self.phase = SearchPhase::Fat;
            },
        }
    }
}

impl FatSearch {
    /// What is to be read next.
    pub fn next_request(&self) -> (r: Option<BlockRead>)
        requires
            self@.wf(),
            self@.askable(),
        ensures
            r == self@.request(),
    {
        let n: usize = self.frames.len();
        assert(self@.frames.len() == n);
        match self.phase {
            SearchPhase::Cluster => {
                assert(self@.frames.last() == self.frames@[n - 1]@);
                let lba: u32 = self.vol.first_device_lba_of_cluster(self.frames[n - 1].cluster);
                Some(
                    BlockRead {
                        lba,
                        blocks: self.vol.blocks_in_clusters(1),
                        len: self.vol.bytes_in_cluster(),
                    },
                )
            },
            SearchPhase::Magic => {
                proof {
                    self.vol.lemma_bounds();
                }
                Some(
                    BlockRead {
                        lba: self.vol.first_device_lba_of_cluster(self.file.first_cluster),
                        blocks: self.vol.device_blocks_per_fs_sector as u16,
                        len: self.vol.bytes_per_sector,
                    },
                )
            },
            SearchPhase::Fat => {
                assert(self@.frames.last() == self.frames@[n - 1]@);
                proof {
                    self.vol.lemma_bounds();
                }
                let (lba, _): (u32, usize) = self.vol.fat_lba_for_cluster(
                    self.frames[n - 1].cluster,
                );
                Some(
                    BlockRead {
                        lba,
                        blocks: self.vol.device_blocks_per_fs_sector as u16,
                        len: self.vol.bytes_per_sector,
                    },
                )
            },
            SearchPhase::Done => None,
        }
    }

    /// Takes what was read, or nothing where it could not be. For a single sector that is the
    /// buffer that it was read into.
    pub fn feed(&mut self, reply: Option<&[u8]>)
        requires
            old(self)@.wf(),
            old(self)@.fits(crate::storage::disk::reply_of(reply)),
        ensures
            final(self)@ == old(self)@.after(crate::storage::disk::reply_of(reply)),
            final(self)@.wf(),
    {
        let deeper = self.frames.len() <= MAX_DEPTH;
        assert(self@.frames.len() == self.frames.len());
        proof {
            self.vol.lemma_bounds();
        }
        match self.phase {
            SearchPhase::Cluster => match reply {
                Some(s) => {
                    self.data = crate::bytes::to_vec(s);
                    let ghost was = self@;
                    let f = self.pop_frame();
                    let scan = scan_entries(f, s, 0, deeper);
                    self.apply(scan, Ghost(was));
                },
                None => self.abandon(),
            },
            SearchPhase::Magic => {
                let magic = match reply {
                    Some(s) => fat32::starts_as_gguf(s),
                    None => false,
                };
                let ghost was = self@;
                let mut f = self.pop_frame();
                let file = self.file;
                if magic && f.first.is_none() {
                    f.first = Some(file);
                }
                let larger = match f.largest {
                    Some(other) => file.size > other.size,
                    None => true,
                };
                if file.size > LARGE_FILE && larger {
                    f.largest = Some(file);
                }
                f.pending_lfn = false;
                assert(f@ == was.frames.last().with_file(was.file, magic));
                let scan = scan_entries(f, self.data.as_slice(), self.at + 1, deeper);
                self.apply(scan, Ghost(was));
            },
            SearchPhase::Fat => match reply {
                Some(s) => {
                    let mut f = self.pop_frame();
                    let (_, off): (u32, usize) = self.vol.fat_lba_for_cluster(f.cluster);
                    f.cluster = fat32::read_fat_entry(s, off);
                    f.seen = f.seen + 1;
                    self.push_frame(f);
                    self.enter();
                },
                None => self.abandon(),
            },
            SearchPhase::Done => {},
        }
    }

    /// The file that was found, once the search is over.
    pub fn outcome(&self) -> (r: Option<Option<Fat32File>>)
        ensures
            r == (if self@.phase == SearchPhase::Done {
                Some(self@.found)
            } else {
                None::<Option<Fat32File>>
            }),
    {
        match self.phase {
            SearchPhase::Done => Some(self.found),
            _ => None,
        }
    }
}

/// Where sectors are made of whole table entries, an entry lies inside its sector: a buffer
/// that the sector was read into holds it.
pub proof fn law_entry_lies_in_sector(v: Fat32Volume, cluster: u32)
    requires
        v.wf(),
        v.bytes_per_sector % 4 == 0,
    ensures
        v.fat_offset(cluster) + 4 <= v.bytes_per_sector,
        v.fits_bounce() ==> v.entry_fits_bounce(cluster),
{
    let b = v.bytes_per_sector as int;
    let q = b / 4;
    assert(b == 4 * q);
    let c = cluster as int;
    let k = c / q;
    let r = c % q;
    vstd::arithmetic::div_mod::lemma_fundamental_div_mod(c, q);
    assert(4 * c == k * (4 * q) + 4 * r) by (nonlinear_arith)
        requires
            c == q * k + r,
    ;
    vstd::arithmetic::div_mod::lemma_mod_bound(c, q);
    vstd::arithmetic::div_mod::lemma_fundamental_div_mod_converse(4 * c, 4 * q, k, 4 * r);
}

/// A file that is found is one: it has a first cluster and is not empty. And a preferred
/// model that comes up ends the search at once.
pub proof fn law_preferred_ends_search(m: Search, data: Seq<u8>)
    requires
        m.wf(),
        m.phase == SearchPhase::Cluster,
        data.len() >= 32,
        fat32::is_preferred_entry(entry_at(data, 0)),
        fat32::file_of(entry_at(data, 0)) is Some,
    ensures
        m.after(Some(data)).phase == SearchPhase::Done,
        m.after(Some(data)).found == fat32::file_of(entry_at(data, 0)),
{
}

/// A volume without any files or directories holds no model: where its root directory ends
/// with the first entry, the search is over and nothing was found.
pub proof fn law_empty_root_has_no_model(vol: Fat32Volume, data: Seq<u8>)
    requires
        vol.wf(),
        fat32::is_cluster(vol.root_cluster),
        data.len() == vol.cluster_bytes(),
        data.len() >= 32,
        data[0] == 0,
    ensures
        Search::begin(vol).after(Some(data)).phase == SearchPhase::Done,
        Search::begin(vol).after(Some(data)).found is None,
{
    let m = Search::begin(vol);
    assert(m.phase == SearchPhase::Cluster);
    assert(entry_at(data, 0)[0] == 0);
    let m1 = Search { data, ..m }.with_top(m.frames.last());
    assert(m.after(Some(data)) == m1.descended());
    assert(m1.frames.drop_last() =~= Seq::empty());
    assert(Search { frames: m1.frames.drop_last(), ..m1 }.descended() == Search {
        frames: m1.frames.drop_last(),
        ..m1
    }.over(None));
}

} // verus!
