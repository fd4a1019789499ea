//! A search finds the file that the directory tree gives.

use vstd::prelude::*;

use crate::bytes;
use crate::ingest::fat32;
use crate::ingest::fat32::Fat32File;
use crate::ingest::fat32::Fat32Volume;
use crate::ingest::search;
use crate::ingest::search::Frame;
use crate::ingest::search::Scan;
use crate::ingest::search::Search;
use crate::ingest::search::SearchPhase;
use crate::ingest::search::LARGE_FILE;
use crate::ingest::search::MAX_DEPTH;
use crate::ingest::search::MAX_DIR_CLUSTERS;
use crate::ingest::search::MAX_SUBDIRS;
use crate::ingest::search_law;
use crate::ingest::tree;
use crate::ingest::tree::Listing;
use crate::ingest::tree::Tree;

verus! {

proof fn lemma_attributes(a: u8)
    ensures
        (a & 0x08 == 0) == (a / 8 % 2 == 0),
        (a & 0x10 == 0) == (a / 16 % 2 == 0),
{
    assert((a & 0x08 == 0) == (a / 8 % 2 == 0) && (a & 0x10 == 0) == (a / 16 % 2 == 0))
        by (bit_vector);
}

/// The characters of a part of a long name, from character `k` on.
proof fn lemma_characters(e: Seq<u8>, k: int) -> (n: int)
    requires
        0 <= k <= 13,
    ensures
        k <= n <= 13,
        forall|j: int|
            k <= j < n ==> #[trigger] tree::character(e, j) != 0 && tree::character(e, j) != 65535,
        n < 13 ==> tree::character(e, n) == 0 || tree::character(e, n) == 65535,
        fat32::lfn_units(e, k).len() == n - k,
        forall|j: int|
            0 <= j < n - k ==> #[trigger] fat32::lfn_units(e, k)[j] == tree::character(e, k + j),
    decreases 13 - k,
{
    if k >= 13 {
        13
    } else {
        let unit = bytes::le16(e, fat32::lfn_offset(k));
        assert(unit == tree::character(e, k));
        if unit == 0 || unit == 0xffff {
            k
        } else {
            let n = lemma_characters(e, k + 1);
            let rest = fat32::lfn_units(e, k + 1);
            assert(fat32::lfn_units(e, k) == seq![unit as u16] + rest);
            assert forall|j: int| 0 <= j < n - k implies #[trigger] fat32::lfn_units(e, k)[j]
                == tree::character(e, k + j) by {
                if j > 0 {
                    assert(rest[j - 1] == tree::character(e, k + 1 + (j - 1)));
                }
            }
            n
        }
    }
}

/// What the entries of a directory are told to be is what they are.
pub proof fn law_entries_are_read(e: Seq<u8>)
    ensures
        fat32::file_of(e) == tree::file(e),
        fat32::directory_of(e) == tree::directory(e),
        tree::file(e) is Some ==> fat32::is_gguf_entry(e) == tree::has_extension(e),
        tree::file(e) is Some ==> fat32::is_preferred_entry(e) == (tree::has_extension(e)
            && tree::has_name(e)),
        fat32::is_gguf_entry(e) ==> tree::has_extension(e),
        fat32::is_gguf_lfn(e) == tree::has_suffix(e),
{
    lemma_attributes(e[11]);
    assert(bytes::le32(e, 28) == tree::num4(e, 28));
    let n = lemma_characters(e, 0);
    let u = fat32::lfn_units(e, 0);
    assert(tree::has_characters(e, n));
    if n >= 5 {
        assert(u[n - 5] == tree::character(e, 0 + (n - 5)));
        assert(u[n - 4] == tree::character(e, 0 + (n - 4)));
        assert(u[n - 3] == tree::character(e, 0 + (n - 3)));
        assert(u[n - 2] == tree::character(e, 0 + (n - 2)));
        assert(u[n - 1] == tree::character(e, 0 + (n - 1)));
    }
    assert forall|k: int| #[trigger] tree::has_characters(e, k) implies k == n by {
        if k < n {
            assert(tree::character(e, k) != 0 && tree::character(e, k) != 65535);
        } else if n < k {
            assert(tree::character(e, n) != 0 && tree::character(e, n) != 65535);
        }
    }
}

proof fn lemma_entry(data: Seq<u8>, i: int)
    requires
        0 <= i,
        32 * i + 32 <= data.len(),
    ensures
        search::entry_at(data, i) == tree::entry(data, i),
{
    assert(search::entry_at(data, i) =~= tree::entry(data, i));
}

/// What is known of a directory after some of its entries.
pub struct Known {
    pub first: Option<Fat32File>,
    pub largest: Option<Fat32File>,
    pub subdirs: Seq<u32>,
    pub pending_lfn: bool,
}

pub open spec fn known_of(f: Frame) -> Known {
    Known {
        first: f.first,
        largest: f.largest,
        subdirs: f.subdirs,
        pending_lfn: f.pending_lfn,
    }
}

pub open spec fn with_known(f: Frame, k: Known) -> Frame {
    Frame {
        first: k.first,
        largest: k.largest,
        subdirs: k.subdirs,
        pending_lfn: k.pending_lfn,
        ..f
    }
}

/// What an entry adds, if it is none of the preferred file.
pub open spec fn noted(t: Tree, k: Known, e: Seq<u8>, deeper: bool) -> Known {
    match fat32::file_of(e) {
        Some(f) => Known {
            first: if fat32::is_gguf_entry(e) || k.pending_lfn || (t.magic)(f.first_cluster) {
                search::or_file(k.first, f)
            } else {
                k.first
            },
            largest: if f.size > LARGE_FILE && (k.largest matches Some(g) ==> f.size > g.size) {
                Some(f)
            } else {
                k.largest
            },
            pending_lfn: false,
            ..k
        },
        None => if e[11] == 0x0f {
            Known { pending_lfn: k.pending_lfn || fat32::is_gguf_lfn(e), ..k }
        } else {
            Known {
                subdirs: match fat32::directory_of(e) {
                    Some(c) => if deeper && k.subdirs.len() < MAX_SUBDIRS {
                        k.subdirs.push(c)
                    } else {
                        k.subdirs
                    },
                    None => k.subdirs,
                },
                pending_lfn: false,
                ..k
            }
        },
    }
}

/// What entries come to.
pub enum Course {
    Preferred(Fat32File),
    Known(Known),
}

/// What entries add, up to the preferred file.
pub open spec fn all_noted(t: Tree, k: Known, es: Seq<Seq<u8>>, deeper: bool) -> Course
    decreases es.len(),
{
    if es.len() == 0 {
        Course::Known(k)
    } else {
        match all_noted(t, k, es.drop_last(), deeper) {
            Course::Preferred(f) => Course::Preferred(f),
            Course::Known(g) => if tree::is_preferred(es.last()) {
                Course::Preferred(tree::file(es.last())->0)
            } else {
                Course::Known(noted(t, g, es.last(), deeper))
            },
        }
    }
}

proof fn lemma_noted_concat(t: Tree, k: Known, a: Seq<Seq<u8>>, b: Seq<Seq<u8>>, deeper: bool)
    ensures
        all_noted(t, k, a + b, deeper) == (match all_noted(t, k, a, deeper) {
            Course::Preferred(f) => Course::Preferred(f),
            Course::Known(g) => all_noted(t, g, b, deeper),
        }),
    decreases b.len(),
{
    if b.len() == 0 {
        assert(a + b =~= a);
    } else {
        assert((a + b).drop_last() =~= a + b.drop_last());
        lemma_noted_concat(t, k, a, b.drop_last(), deeper);
    }
}

proof fn lemma_noted_front(t: Tree, k: Known, e: Seq<u8>, b: Seq<Seq<u8>>, deeper: bool)
    ensures
        all_noted(t, k, seq![e] + b, deeper) == (if tree::is_preferred(e) {
            Course::Preferred(tree::file(e)->0)
        } else {
            all_noted(t, noted(t, k, e, deeper), b, deeper)
        }),
{
    let one = seq![e];
    lemma_noted_concat(t, k, one, b, deeper);
    assert(one.drop_last() =~= Seq::empty());
    assert(all_noted(t, k, one.drop_last(), deeper) == Course::Known(k));
    assert(one.last() == e);
}

/// Noting all entries of a directory gives the first preferred file, or the first model, the
/// largest file and the subdirectories.
proof fn lemma_noted_whole(t: Tree, es: Seq<Seq<u8>>, deeper: bool)
    ensures
        match all_noted(t, known_of(Frame::begin(0)), es, deeper) {
            Course::Preferred(f) => tree::first_preferred(es) == Some(f),
            Course::Known(k) => {
                &&& tree::first_preferred(es) is None
                &&& k.first == tree::first_model(t, es)
                &&& k.largest == tree::largest(es)
                &&& k.pending_lfn == tree::long_name_says(es)
                &&& k.subdirs == if deeper {
                    tree::subdirs(es)
                } else {
                    Seq::empty()
                }
            },
        },
    decreases es.len(),
{
    if es.len() > 0 {
        lemma_noted_whole(t, es.drop_last(), deeper);
        law_entries_are_read(es.last());
    }
}

/// The entries of a directory behind cluster `cluster`, which is its cluster `seen`.
pub open spec fn behind(t: Tree, cluster: u32, seen: int) -> Listing {
    match (t.table)(cluster) {
        Some(next) => tree::listing(t, next, seen + 1),
        None => Listing { entries: Seq::empty(), whole: false },
    }
}

/// The entries of a directory from entry `i` of cluster `cluster` on.
pub open spec fn listing_from(t: Tree, cluster: u32, seen: int, data: Seq<u8>, i: int) -> Listing {
    if tree::ends_from(data, i) {
        Listing { entries: tree::entries_from(data, i), whole: true }
    } else {
        Listing {
            entries: tree::entries_from(data, i) + behind(t, cluster, seen).entries,
            whole: behind(t, cluster, seen).whole,
        }
    }
}

proof fn lemma_listing(t: Tree, cluster: u32, seen: int, data: Seq<u8>)
    requires
        fat32::is_cluster(cluster),
        seen < MAX_DIR_CLUSTERS,
        (t.cluster)(cluster) == Some(data),
    ensures
        tree::listing(t, cluster, seen) == listing_from(t, cluster, seen, data, 0),
{
    if (t.table)(cluster) is None {
        let es = tree::entries_from(data, 0);
        assert(es + Seq::<Seq<u8>>::empty() =~= es);
    }
}

/// What the directories `frames`, all gone through but for their subdirectories, give, the
/// innermost first.
pub open spec fn stack_model(t: Tree, frames: Seq<Frame>) -> Option<Fat32File>
    decreases frames.len(),
{
    if frames.len() == 0 {
        None
    } else {
        let f = frames.last();
        tree::or_else(
            tree::first_below(t, f.subdirs, f.next_sub, frames.len() - 1),
            tree::or_else(f.fallback(), stack_model(t, frames.drop_last())),
        )
    }
}

/// What a search gives that knows `k` of its innermost directory `f`, of which `l` is left.
pub open spec fn course_model(
    t: Tree,
    outer: Seq<Frame>,
    f: Frame,
    k: Known,
    l: Listing,
) -> Option<Fat32File> {
    match all_noted(t, k, l.entries, outer.len() < MAX_DEPTH) {
        Course::Preferred(file) => Some(file),
        Course::Known(g) => if l.whole {
            stack_model(t, outer.push(with_known(f, g)))
        } else {
            stack_model(t, outer)
        },
    }
}

/// What a search gives when it is over.
pub open spec fn model_of(t: Tree, m: Search) -> Option<Fat32File> {
    let f = m.frames.last();
    let outer = m.frames.drop_last();
    match m.phase {
        SearchPhase::Cluster => course_model(
            t,
            outer,
            f,
            known_of(f),
            tree::listing(t, f.cluster, f.seen as int),
        ),
        SearchPhase::Magic => course_model(
            t,
            outer,
            f,
            known_of(f.with_file(m.file, (t.magic)(m.file.first_cluster))),
            listing_from(t, f.cluster, f.seen as int, m.data, m.at + 1),
        ),
        SearchPhase::Fat => course_model(
            t,
            outer,
            f,
            known_of(f),
            behind(t, f.cluster, f.seen as int),
        ),
        SearchPhase::Done => m.found,
    }
}

/// Only what is known of the innermost directory matters, and how many of its subdirectories
/// were looked at.
proof fn lemma_same_top(t: Tree, outer: Seq<Frame>, f: Frame, g: Frame)
    requires
        f.subdirs == g.subdirs,
        f.next_sub == g.next_sub,
        f.first == g.first,
        f.largest == g.largest,
    ensures
        stack_model(t, outer.push(f)) == stack_model(t, outer.push(g)),
{
    assert(outer.push(f).drop_last() =~= outer);
    assert(outer.push(g).drop_last() =~= outer);
}

/// A search that enters a directory gives what the directory gives, or else what the
/// directories round it give.
proof fn lemma_enter(t: Tree, outer: Seq<Frame>, cluster: u32)
    ensures
        course_model(
            t,
            outer,
            Frame::begin(cluster),
            known_of(Frame::begin(cluster)),
            tree::listing(t, cluster, 0),
        ) == tree::or_else(tree::dir_model(t, cluster, outer.len() as int), stack_model(t, outer)),
{
    let deeper = outer.len() < MAX_DEPTH;
    let l = tree::listing(t, cluster, 0);
    let f = Frame::begin(cluster);
    lemma_noted_whole(t, l.entries, deeper);
    assert(known_of(f) == known_of(Frame::begin(0)));
    match all_noted(t, known_of(f), l.entries, deeper) {
        Course::Preferred(file) => {},
        Course::Known(g) => {
            let top = with_known(f, g);
            assert(outer.push(top).drop_last() =~= outer);
            assert(outer.push(top).last() == top);
        },
    }
}

proof fn lemma_no_directory(t: Tree, cluster: u32, depth: int)
    requires
        !fat32::is_cluster(cluster),
    ensures
        tree::dir_model(t, cluster, depth) is None,
{
    let es: Seq<Seq<u8>> = Seq::empty();
    assert(tree::listing(t, cluster, 0).entries == es);
    assert(tree::subdirs(es) =~= Seq::empty());
}

/// Going out of directories and into the next one changes nothing of what a search gives.
proof fn lemma_descended(t: Tree, m: Search)
    requires
        forall|i: int| 0 <= i < m.frames.len() ==> (#[trigger] m.frames[i]).wf(),
        m.frames.len() <= MAX_DEPTH + 1,
        m.vol.wf(),
    ensures
        model_of(t, m.descended()) == stack_model(t, m.frames),
        m.descended().phase == SearchPhase::Cluster || m.descended().phase == SearchPhase::Done,
        m.found is None ==> m.descended().wf(),
    decreases 2 * search::subs_left(m.frames) + m.frames.len(),
{
    let frames = m.frames;
    if frames.len() > 0 {
        let f = frames.last();
        let depth = frames.len() - 1;
        assert(frames[frames.len() - 1].wf());
        if f.next_sub < f.subdirs.len() && 0 <= f.next_sub && frames.len() <= MAX_DEPTH {
            let c = f.subdirs[f.next_sub];
            let child = Frame::begin(c);
            let f2 = Frame { next_sub: f.next_sub + 1, ..f };
            let outer = frames.drop_last().push(f2);
            let next = outer.push(child);
            let m2 = Search { frames: next, ..m };
            search::lemma_subs_step(frames, f2, child);
            assert(next.drop_last() =~= outer);
            assert(outer.drop_last() =~= frames.drop_last());
            assert(next.last() == child && outer.last() == f2);
            assert forall|i: int| 0 <= i < next.len() implies (#[trigger] next[i]).wf() by {
                if i < frames.len() - 1 {
                    assert(frames[i].wf());
                }
            }
            assert(stack_model(t, frames) == tree::or_else(
                tree::dir_model(t, c, depth + 1),
                stack_model(t, outer),
            ));
            if fat32::is_cluster(c) {
                lemma_enter(t, outer, c);
            } else {
                lemma_no_directory(t, c, depth + 1);
                lemma_descended(t, m2);
                assert(stack_model(t, next) == stack_model(t, outer));
            }
        } else if f.fallback() is None {
            let m2 = Search { frames: frames.drop_last(), ..m };
            search::lemma_subs_pop(frames);
            assert forall|i: int| 0 <= i < m2.frames.len() implies (#[trigger] m2.frames[i]).wf() by {
                assert(frames[i].wf());
            }
            lemma_descended(t, m2);
        }
    }
}

/// What going through entries comes upon is what noting them comes to.
proof fn lemma_scan(t: Tree, f: Frame, data: Seq<u8>, i: int, deeper: bool, tail: Seq<Seq<u8>>)
    requires
        0 <= i,
        f.wf(),
    ensures
        ({
            let all = all_noted(t, known_of(f), tree::entries_from(data, i) + tail, deeper);
            match search::scanned(f, data, i, deeper) {
                Scan::Preferred(file) => {
                    &&& all == Course::Preferred(file)
                    &&& file.first_cluster >= 2 && file.size > 0
                },
                Scan::Magic { frame, at, file } => {
                    let g = frame.with_file(file, (t.magic)(file.first_cluster));
                    &&& all == all_noted(
                        t,
                        known_of(g),
                        tree::entries_from(data, at + 1) + tail,
                        deeper,
                    )
                    &&& tree::ends_from(data, i) == tree::ends_from(data, at + 1)
                    &&& i <= at && 32 * at + 32 <= data.len()
                    &&& same_place(f, frame)
                    &&& file.first_cluster >= 2 && file.size > 0
                },
                Scan::EndOfDirectory(g) => {
                    &&& all == all_noted(t, known_of(g), tail, deeper)
                    &&& tree::ends_from(data, i)
                    &&& same_place(f, g)
                },
                Scan::Exhausted(g) => {
                    &&& all == all_noted(t, known_of(g), tail, deeper)
                    &&& !tree::ends_from(data, i)
                    &&& same_place(f, g)
                },
            }
        }),
    decreases data.len() - 32 * i,
{
    let e = search::entry_at(data, i);
    let none: Seq<Seq<u8>> = Seq::empty();
    if 32 * i + 32 <= data.len() {
        lemma_entry(data, i);
    }
    if 32 * i + 32 > data.len() || e[0] == 0 {
        assert(none + tail =~= tail);
    } else {
        let rest = tree::entries_from(data, i + 1);
        law_entries_are_read(e);
        assert((seq![e] + rest) + tail =~= seq![e] + (rest + tail));
        lemma_noted_front(t, known_of(f), e, rest + tail, deeper);
        if e[11] == 0x0f {
            let g = Frame { pending_lfn: f.pending_lfn || fat32::is_gguf_lfn(e), ..f };
            assert(known_of(g) == noted(t, known_of(f), e, deeper));
            lemma_scan(t, g, data, i + 1, deeper, tail);
        } else if fat32::file_of(e) is None {
            let g = Frame {
                subdirs: match fat32::directory_of(e) {
                    Some(c) => if deeper && f.subdirs.len() < MAX_SUBDIRS {
                        f.subdirs.push(c)
                    } else {
                        f.subdirs
                    },
                    None => f.subdirs,
                },
                pending_lfn: false,
                ..f
            };
            assert(known_of(g) == noted(t, known_of(f), e, deeper));
            lemma_scan(t, g, data, i + 1, deeper, tail);
        }
    }
}

/// Whether a search that went from `f` to `g` is still at the same place of the directory.
spec fn same_place(f: Frame, g: Frame) -> bool {
    &&& g.wf()
    &&& g.cluster == f.cluster
    &&& g.seen == f.seen
    &&& g.next_sub == f.next_sub
}

proof fn lemma_top_wf(m: Search, f: Frame)
    requires
        m.frames.len() > 0,
        forall|j: int| 0 <= j < m.frames.len() ==> (#[trigger] m.frames[j]).wf(),
        f.wf(),
    ensures
        m.with_top(f).frames.drop_last() == m.frames.drop_last(),
        m.with_top(f).frames.last() == f,
        forall|j: int|
            0 <= j < m.with_top(f).frames.len() ==> (#[trigger] m.with_top(f).frames[j]).wf(),
        forall|j: int|
            0 <= j < m.frames.drop_last().len() ==> (#[trigger] m.frames.drop_last()[j]).wf(),
{
    let frames = m.with_top(f).frames;
    assert(frames.drop_last() =~= m.frames.drop_last());
    assert forall|j: int| 0 <= j < frames.len() implies (#[trigger] frames[j]).wf() by {
        if j < frames.len() - 1 {
            assert(m.frames[j].wf());
        }
    }
    assert forall|j: int| 0 <= j < m.frames.drop_last().len() implies (
    #[trigger] m.frames.drop_last()[j]).wf() by {
        assert(m.frames[j].wf());
    }
}

/// A search at entry `i` of a cluster gives what the entries from there on come to.
proof fn lemma_with_scan(t: Tree, m: Search, f: Frame, i: int)
    requires
        m.wf(),
        m.phase != SearchPhase::Done,
        m.data.len() == m.vol.cluster_bytes(),
        same_place(m.frames.last(), f),
        0 <= i,
    ensures
        ({
            let next = m.with_scan(search::scanned(f, m.data, i, m.deeper()));
            &&& next.wf()
            &&& model_of(t, next) == course_model(
                t,
                m.frames.drop_last(),
                f,
                known_of(f),
                listing_from(t, f.cluster, f.seen as int, m.data, i),
            )
        }),
{
    let outer = m.frames.drop_last();
    let deeper = m.deeper();
    let none: Seq<Seq<u8>> = Seq::empty();
    let ends = tree::ends_from(m.data, i);
    let tail = if ends {
        none
    } else {
        behind(t, f.cluster, f.seen as int).entries
    };
    assert(tree::entries_from(m.data, i) + none =~= tree::entries_from(m.data, i));
    lemma_scan(t, f, m.data, i, deeper, tail);
    assert(m.frames[m.frames.len() - 1].wf());
    lemma_top_wf(m, f);
    match search::scanned(f, m.data, i, deeper) {
        Scan::Preferred(file) => {},
        Scan::Magic { frame, at, file } => {
            lemma_top_wf(m, frame);
            let g = frame.with_file(file, (t.magic)(file.first_cluster));
            assert(tree::entries_from(m.data, at + 1) + none =~= tree::entries_from(
                m.data,
                at + 1,
            ));
            let l = listing_from(t, f.cluster, f.seen as int, m.data, at + 1);
            match all_noted(t, known_of(g), l.entries, deeper) {
                Course::Preferred(_) => {},
                Course::Known(k) => {
                    assert(with_known(f, k) == with_known(frame, k));
                },
            }
        },
        Scan::EndOfDirectory(g) => {
            lemma_top_wf(m, g);
            lemma_descended(t, m.with_top(g));
            assert(with_known(f, known_of(g)) == g);
        },
        Scan::Exhausted(g) => {
            lemma_top_wf(m, g);
            match all_noted(t, known_of(g), tail, deeper) {
                Course::Preferred(_) => {},
                Course::Known(k) => {
                    assert(with_known(f, k) == with_known(g, k));
                },
            }
        },
    }
}

/// Whether a reply to what `m` asks for is what reading the volume gives.
pub open spec fn shows(t: Tree, m: Search, reply: Option<Seq<u8>>) -> bool {
    let c = m.frames.last().cluster;
    match m.phase {
        SearchPhase::Cluster => reply == (t.cluster)(c),
        SearchPhase::Magic => (reply matches Some(s) && fat32::has_gguf_magic(s)) == (t.magic)(
            m.file.first_cluster,
        ),
        SearchPhase::Fat => (t.table)(c) == (match reply {
            Some(s) => Some(fat32::fat_entry_at(s, m.vol.fat_offset(c))),
            None => None,
        }),
        SearchPhase::Done => true,
    }
}

/// Each reply leaves what a search gives as it was, and the search in order.
pub proof fn lemma_step(t: Tree, m: Search, reply: Option<Seq<u8>>)
    requires
        m.wf(),
        m.fits(reply),
        shows(t, m, reply),
    ensures
        m.after(reply).wf(),
        model_of(t, m.after(reply)) == model_of(t, m),
{
    let f = m.frames.last();
    let outer = m.frames.drop_last();
    if m.phase != SearchPhase::Done {
        assert(m.frames[m.frames.len() - 1].wf());
        lemma_top_wf(m, f);
        let gone = Search { frames: outer, ..m };
        match (m.phase, reply) {
            (SearchPhase::Cluster, Some(data)) => {
                lemma_listing(t, f.cluster, f.seen as int, data);
                lemma_with_scan(t, Search { data, ..m }, f, 0);
            },
            (SearchPhase::Magic, _) => {
                let g = f.with_file(m.file, (t.magic)(m.file.first_cluster));
                lemma_with_scan(t, m, g, m.at + 1);
                let l = listing_from(t, f.cluster, f.seen as int, m.data, m.at + 1);
                match all_noted(t, known_of(g), l.entries, m.deeper()) {
                    Course::Preferred(_) => {},
                    Course::Known(k) => {
                        assert(with_known(f, k) == with_known(g, k));
                    },
                }
            },
            (SearchPhase::Fat, Some(s)) => {
                let next = fat32::fat_entry_at(s, m.vol.fat_offset(f.cluster));
                let g = Frame { cluster: next, seen: (f.seen + 1) as u32, ..f };
                let l = tree::listing(t, next, f.seen + 1);
                lemma_top_wf(m, g);
                lemma_descended(t, m.with_top(g));
                match all_noted(t, known_of(f), l.entries, m.deeper()) {
                    Course::Preferred(_) => {},
                    Course::Known(k) => {
                        lemma_same_top(t, outer, with_known(f, k), with_known(g, k));
                    },
                }
                assert(with_known(g, known_of(g)) == g);
            },
            _ => {
                lemma_descended(t, gone);
            },
        }
    }
}

/// A search after replies to all that it asked for, one after the other.
pub open spec fn ran(m: Search, replies: Seq<Option<Seq<u8>>>) -> Search
    decreases replies.len(),
{
    if replies.len() == 0 {
        m
    } else {
        ran(m, replies.drop_last()).after(replies.last())
    }
}

/// Whether all replies are what reading the volume gives.
pub open spec fn all_shown(t: Tree, m: Search, replies: Seq<Option<Seq<u8>>>) -> bool
    decreases replies.len(),
{
    replies.len() == 0 || {
        let before = ran(m, replies.drop_last());
        &&& all_shown(t, m, replies.drop_last())
        &&& before.phase != SearchPhase::Done
        &&& before.fits(replies.last())
        &&& shows(t, before, replies.last())
    }
}

pub proof fn lemma_begin(t: Tree, vol: Fat32Volume)
    requires
        vol.wf(),
    ensures
        Search::begin(vol).wf(),
        model_of(t, Search::begin(vol)) == tree::dir_model(t, vol.root_cluster, 0),
{
    let f = Frame::begin(vol.root_cluster);
    let none: Seq<Frame> = Seq::empty();
    let m = Search {
        vol,
        frames: seq![f],
        phase: SearchPhase::Done,
        data: Seq::empty(),
        at: 0,
        file: Fat32File { first_cluster: 0, size: 0 },
        found: None,
    };
    assert(m.frames.drop_last() =~= none);
    assert(stack_model(t, none) is None);
    if fat32::is_cluster(vol.root_cluster) {
        lemma_enter(t, none, vol.root_cluster);
    } else {
        lemma_no_directory(t, vol.root_cluster, 0);
        lemma_descended(t, m);
    }
}

/// Searching a volume finds the file that its directory tree gives, or none where it gives
/// none: a search that is over found just that. And it is over after fewer requests than the
/// bound for the tree.
pub proof fn law_search_finds_model(t: Tree, vol: Fat32Volume, replies: Seq<Option<Seq<u8>>>)
    requires
        vol.wf(),
        all_shown(t, Search::begin(vol), replies),
    ensures
        ran(Search::begin(vol), replies).wf(),
        ran(Search::begin(vol), replies).phase == SearchPhase::Done ==> ran(
            Search::begin(vol),
            replies,
        ).found == tree::dir_model(t, vol.root_cluster, 0),
        replies.len() + search_law::search_left(ran(Search::begin(vol), replies))
            < search_law::dir_bound(0),
{
    lemma_run(t, vol, replies);
}

proof fn lemma_run(t: Tree, vol: Fat32Volume, replies: Seq<Option<Seq<u8>>>)
    requires
        vol.wf(),
        all_shown(t, Search::begin(vol), replies),
    ensures
        ran(Search::begin(vol), replies).wf(),
        model_of(t, ran(Search::begin(vol), replies)) == tree::dir_model(t, vol.root_cluster, 0),
        0 <= search_law::search_left(ran(Search::begin(vol), replies)),
        replies.len() + search_law::search_left(ran(Search::begin(vol), replies))
            < search_law::dir_bound(0),
    decreases replies.len(),
{
    if replies.len() == 0 {
        lemma_begin(t, vol);
        search_law::lemma_begin(vol);
    } else {
        lemma_run(t, vol, replies.drop_last());
        let before = ran(Search::begin(vol), replies.drop_last());
        lemma_step(t, before, replies.last());
        search_law::law_search_ends(before, replies.last());
    }
}

} // verus!
