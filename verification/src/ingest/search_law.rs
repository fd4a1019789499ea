//! That a search for a model comes to an end, whatever the volume holds.

use vstd::prelude::*;

use crate::ingest::fat32;
use crate::ingest::fat32::Fat32File;
use crate::ingest::fat32::Fat32Volume;
use crate::ingest::search;
use crate::ingest::search::Frame;
use crate::ingest::search::Scan;
use crate::ingest::search::Search;
use crate::ingest::search::SearchPhase;
use crate::ingest::search::MAX_DEPTH;
use crate::ingest::search::MAX_DIR_CLUSTERS;
use crate::ingest::search::MAX_SUBDIRS;

verus! {

/// More requests than the entries of one cluster take.
pub open spec fn cluster_bound() -> int {
    0x10_0000
}

/// More requests than a directory at depth `depth` takes, with all that is below it.
pub open spec fn dir_bound(depth: int) -> int
    decreases MAX_DEPTH + 1 - depth,
{
    if depth > MAX_DEPTH {
        0
    } else {
        MAX_DIR_CLUSTERS * cluster_bound() + MAX_SUBDIRS * dir_bound(depth + 1) + 1
    }
}

/// The requests that the subdirectories of `f` still take at most, at depth `depth`.
pub open spec fn subs_bound(f: Frame, depth: int) -> int {
    (MAX_SUBDIRS - f.next_sub) * dir_bound(depth + 1)
}

/// The requests that the subdirectories of all directories still take at most.
pub open spec fn rest_bound(frames: Seq<Frame>) -> int
    decreases frames.len(),
{
    if frames.len() == 0 {
        0
    } else {
        rest_bound(frames.drop_last()) + subs_bound(frames.last(), frames.len() - 1)
    }
}

/// The requests that the clusters of the innermost directory still take at most.
pub open spec fn clusters_left(m: Search) -> int {
    let f = m.frames.last();
    match m.phase {
        SearchPhase::Cluster => (MAX_DIR_CLUSTERS - f.seen) * cluster_bound(),
        SearchPhase::Magic => (MAX_DIR_CLUSTERS - f.seen) * cluster_bound() - 1 - m.at,
        SearchPhase::Fat => (MAX_DIR_CLUSTERS - f.seen - 1) * cluster_bound() + 1,
        SearchPhase::Done => 0,
    }
}

/// How many requests a search takes at most.
pub open spec fn search_left(m: Search) -> int {
    if m.phase == SearchPhase::Done {
        0
    } else {
        rest_bound(m.frames) + clusters_left(m)
    }
}

/// Bounds are numbers of requests.
pub proof fn lemma_dir_bound(depth: int)
    ensures
        dir_bound(depth) >= 0,
    decreases MAX_DEPTH + 1 - depth,
{
    if depth <= MAX_DEPTH {
        lemma_dir_bound(depth + 1);
    }
}

proof fn lemma_subs_bound(f: Frame, depth: int)
    requires
        f.next_sub <= MAX_SUBDIRS,
    ensures
        subs_bound(f, depth) >= 0,
{
    lemma_dir_bound(depth + 1);
    let left = MAX_SUBDIRS - f.next_sub;
    let bound = dir_bound(depth + 1);
    assert(left * bound >= 0) by (nonlinear_arith)
        requires
            left >= 0,
            bound >= 0,
    ;
}

proof fn lemma_rest_bound(frames: Seq<Frame>)
    requires
        forall|i: int| 0 <= i < frames.len() ==> (#[trigger] frames[i]).wf(),
    ensures
        rest_bound(frames) >= 0,
    decreases frames.len(),
{
    if frames.len() > 0 {
        assert forall|i: int| 0 <= i < frames.drop_last().len() implies (
        #[trigger] frames.drop_last()[i]).wf() by {
            assert(frames[i].wf());
        }
        lemma_rest_bound(frames.drop_last());
        assert(frames[frames.len() - 1].wf());
        lemma_subs_bound(frames.last(), frames.len() - 1);
    }
}

/// Going out of directories and into the next one takes no more than what the directories
/// left over allow.
proof fn lemma_descended(m: Search)
    requires
        forall|i: int| 0 <= i < m.frames.len() ==> (#[trigger] m.frames[i]).wf(),
    ensures
        0 <= search_left(m.descended()) <= rest_bound(m.frames),
    decreases 2 * search::subs_left(m.frames) + m.frames.len(),
{
    lemma_rest_bound(m.frames);
    if m.frames.len() > 0 {
        let frames = m.frames;
        let f = frames.last();
        assert(frames[frames.len() - 1].wf());
        let depth = frames.len() - 1;
        if f.next_sub < f.subdirs.len() && 0 <= f.next_sub && frames.len() <= MAX_DEPTH {
            let child = Frame::begin(f.subdirs[f.next_sub]);
            let f2 = Frame { next_sub: f.next_sub + 1, ..f };
            let next = frames.drop_last().push(f2).push(child);
            let m2 = Search { frames: next, ..m };
            search::lemma_subs_step(frames, f2, child);
            assert(next.drop_last() =~= frames.drop_last().push(f2));
            assert(frames.drop_last().push(f2).drop_last() =~= frames.drop_last());
            assert(next.last() == child);
            assert(next.drop_last().last() == f2);
            let bound = dir_bound(depth + 1);
            let n = f.next_sub;
            assert((MAX_SUBDIRS - (n + 1)) * bound == (MAX_SUBDIRS - n) * bound - bound)
                by (nonlinear_arith);
            assert(rest_bound(next.drop_last()) == rest_bound(frames) - bound);
            assert(rest_bound(next) == rest_bound(frames) - bound + subs_bound(child, depth + 1));
            let below = dir_bound(depth + 2);
            assert(subs_bound(child, depth + 1) == MAX_SUBDIRS * below);
            assert(bound == MAX_DIR_CLUSTERS * cluster_bound() + MAX_SUBDIRS * below + 1);
            assert forall|i: int| 0 <= i < next.len() implies (#[trigger] next[i]).wf() by {
                if i < frames.len() - 1 {
                    assert(frames[i].wf());
                }
            }
            lemma_rest_bound(next);
            if fat32::is_cluster(child.cluster) {
                let m3 = Search { phase: SearchPhase::Cluster, ..m2 };
                assert(m.descended() == m3);
                assert(search_left(m3) == rest_bound(next) + MAX_DIR_CLUSTERS * cluster_bound());
            } else {
                assert(m.descended() == m2.descended());
                lemma_descended(m2);
            }
        } else if f.fallback() is None {
            let m2 = Search { frames: frames.drop_last(), ..m };
            search::lemma_subs_pop(frames);
            assert forall|i: int| 0 <= i < m2.frames.len() implies (#[trigger] m2.frames[i]).wf() by {
                assert(frames[i].wf());
            }
            lemma_subs_bound(f, depth);
            lemma_descended(m2);
        }
    }
}

/// Going through entries keeps the place in the directory, and goes on.
proof fn lemma_scanned(f: Frame, data: Seq<u8>, i: int, deeper: bool)
    requires
        f.wf(),
        0 <= i,
    ensures
        match search::scanned(f, data, i, deeper) {
            Scan::Preferred(_) => true,
            Scan::Magic { frame, at, file } => frame.wf() && frame.next_sub == f.next_sub
                && frame.seen == f.seen && i <= at && 32 * at + 32 <= data.len(),
            Scan::EndOfDirectory(frame) => frame.wf() && frame.next_sub == f.next_sub
                && frame.seen == f.seen,
            Scan::Exhausted(frame) => frame.wf() && frame.next_sub == f.next_sub && frame.seen
                == f.seen,
        },
    decreases data.len() - 32 * i,
{
    let e = search::entry_at(data, i);
    if 32 * i + 32 <= data.len() && e[0] != 0 {
        if e[11] == 0x0f {
            let g = Frame { pending_lfn: f.pending_lfn || fat32::is_gguf_lfn(e), ..f };
            lemma_scanned(g, data, i + 1, deeper);
        } else if fat32::file_of(e) is None {
            let g = Frame {
                subdirs: match fat32::directory_of(e) {
                    Some(c) => if deeper && f.subdirs.len() < MAX_SUBDIRS {
                        f.subdirs.push(c)
                    } else {
                        f.subdirs
                    },
                    None => f.subdirs,
                },
                pending_lfn: false,
                ..f
            };
            lemma_scanned(g, data, i + 1, deeper);
        }
    }
}

proof fn lemma_with_scan(m: Search, f: Frame, i: int)
    requires
        m.frames.len() > 0,
        forall|j: int| 0 <= j < m.frames.len() ==> (#[trigger] m.frames[j]).wf(),
        f.wf(),
        f.next_sub == m.frames.last().next_sub,
        f.seen < MAX_DIR_CLUSTERS,
        0 <= i,
        32 * i <= m.data.len() <= 0xffff * 0xff,
    ensures
        0 <= search_left(m.with_scan(search::scanned(f, m.data, i, m.deeper()))) <= rest_bound(
            m.frames,
        ) + (MAX_DIR_CLUSTERS - f.seen) * cluster_bound() - 1 - i,
{
    let scan = search::scanned(f, m.data, i, m.deeper());
    lemma_scanned(f, m.data, i, m.deeper());
    lemma_rest_bound(m.frames);
    let seen = f.seen as int;
    assert((MAX_DIR_CLUSTERS - seen) * cluster_bound() == (MAX_DIR_CLUSTERS - seen - 1)
        * cluster_bound() + cluster_bound()) by (nonlinear_arith);
    assert((MAX_DIR_CLUSTERS - seen - 1) * cluster_bound() >= 0) by (nonlinear_arith)
        requires
            seen < MAX_DIR_CLUSTERS,
    ;
    match scan {
        Scan::Preferred(_) => {},
        Scan::Magic { frame, at, file } => {
            lemma_top(m, frame);
        },
        Scan::EndOfDirectory(frame) => {
            lemma_top(m, frame);
            lemma_descended(m.with_top(frame));
        },
        Scan::Exhausted(frame) => {
            lemma_top(m, frame);
        },
    }
}

proof fn lemma_top(m: Search, f: Frame)
    requires
        m.frames.len() > 0,
        forall|j: int| 0 <= j < m.frames.len() ==> (#[trigger] m.frames[j]).wf(),
        f.wf(),
        f.next_sub == m.frames.last().next_sub,
    ensures
        rest_bound(m.with_top(f).frames) == rest_bound(m.frames),
        m.with_top(f).frames.last() == f,
        forall|j: int|
            0 <= j < m.with_top(f).frames.len() ==> (#[trigger] m.with_top(f).frames[j]).wf(),
{
    let frames = m.with_top(f).frames;
    assert(frames.drop_last() =~= m.frames.drop_last());
    assert forall|j: int| 0 <= j < frames.len() implies (#[trigger] frames[j]).wf() by {
        if j < frames.len() - 1 {
            assert(m.frames[j].wf());
        }
    }
}

/// Whatever is read, even where directories hold each other, a search comes to an end: each
/// answer leaves fewer requests.
pub proof fn law_search_ends(m: Search, reply: Option<Seq<u8>>)
    requires
        m.wf(),
        m.phase != SearchPhase::Done,
        m.fits(reply),
    ensures
        0 <= search_left(m.after(reply)) < search_left(m),
{
    let f = m.frames.last();
    assert(m.frames[m.frames.len() - 1].wf());
    m.vol.lemma_bounds();
    lemma_rest_bound(m.frames);
    let seen = f.seen as int;
    assert((MAX_DIR_CLUSTERS - seen) * cluster_bound() == (MAX_DIR_CLUSTERS - seen - 1)
        * cluster_bound() + cluster_bound()) by (nonlinear_arith);
    assert((MAX_DIR_CLUSTERS - seen - 1) * cluster_bound() >= 0) by (nonlinear_arith)
        requires
            seen < MAX_DIR_CLUSTERS,
    ;
    match (m.phase, reply) {
        (SearchPhase::Cluster, Some(data)) => {
            lemma_with_scan(Search { data, ..m }, f, 0);
        },
        (SearchPhase::Magic, _) => {
            let magic = reply matches Some(s) && fat32::has_gguf_magic(s);
            lemma_with_scan(m, f.with_file(m.file, magic), m.at + 1);
        },
        (SearchPhase::Fat, Some(s)) => {
            let g = Frame {
                cluster: fat32::fat_entry_at(s, m.vol.fat_offset(f.cluster)),
                seen: (f.seen + 1) as u32,
                ..f
            };
            lemma_top(m, g);
            lemma_descended(m.with_top(g));
        },
        _ => {
            let m2 = Search { frames: m.frames.drop_last(), ..m };
            assert forall|i: int| 0 <= i < m2.frames.len() implies (#[trigger] m2.frames[i]).wf() by {
                assert(m.frames[i].wf());
            }
            lemma_subs_bound(f, m.frames.len() - 1);
            lemma_descended(m2);
        },
    }
}

/// A search takes fewer requests than a directory at depth 0.
pub proof fn lemma_begin(vol: Fat32Volume)
    requires
        vol.wf(),
    ensures
        0 <= search_left(Search::begin(vol)) < dir_bound(0),
{
    let f = Frame::begin(vol.root_cluster);
    let frames = seq![f];
    assert(frames.drop_last() =~= Seq::empty());
    assert(rest_bound(frames.drop_last()) == 0);
    assert(frames.last() == f);
    assert(rest_bound(frames) == subs_bound(f, 0));
    assert(subs_bound(f, 0) == MAX_SUBDIRS * dir_bound(1));
    lemma_dir_bound(1);
    let m = Search {
        vol,
        frames,
        phase: SearchPhase::Done,
        data: Seq::empty(),
        at: 0,
        file: Fat32File { first_cluster: 0, size: 0 },
        found: None,
    };
    assert(Search::begin(vol) == m.entered());
    lemma_descended(m);
}

} // verus!
