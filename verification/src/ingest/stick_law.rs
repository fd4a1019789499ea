//! The model that is taken from a device is the one that is on it.

use vstd::prelude::*;
use vstd::arithmetic::div_mod;

use crate::bytes;
use crate::ingest::chain::ChainIngest;
use crate::ingest::chain::ChainPhase;
use crate::ingest::chain_law;
use crate::ingest::fat32;
use crate::ingest::fat32::Fat32File;
use crate::ingest::fat32::Fat32Volume;
use crate::ingest::raw;
use crate::ingest::raw::RawIngest;
use crate::ingest::raw::RawPhase;
use crate::ingest::search;
use crate::ingest::search::Frame;
use crate::ingest::search::Scan;
use crate::ingest::search::Search;
use crate::ingest::search::SearchPhase;
use crate::ingest::stick;
use crate::ingest::stick::Model;
use crate::ingest::stick::Stick;
use crate::ingest::task;
use crate::ingest::task::ModelSource;
use crate::ingest::task::Task;
use crate::ingest::task::TaskPhase;
use crate::ingest::tree;
use crate::ingest::tree_law;

verus! {

/// The blocks of a device have its size, which is 512 bytes or more and divisible by four.
pub open spec fn is_stick(s: Stick) -> bool {
    &&& 512 <= s.size <= 4096
    &&& s.size % 4 == 0
    &&& forall|i: int| (#[trigger] (s.block)(i)).len() == s.size
}

/// The volume at `base`, as its boot sector describes it.
spec fn vol(s: Stick, base: int) -> Fat32Volume {
    fat32::volume_of(base as u32, s.size as u32, (s.block)(base))
}

/// Dividing by `a` is dividing by a multiple of `a`, and then what is left by `a`.
proof fn lemma_split(a: int, n: int, i: int)
    requires
        0 < a,
        0 < n,
        0 <= i,
    ensures
        0 < n * a,
        i / a == i / (n * a) * n + i % (n * a) / a,
        i % a == i % (n * a) % a,
        0 <= i / (n * a),
        0 <= i % (n * a) < n * a,
{
    let m = n * a;
    assert(m > 0) by (nonlinear_arith)
        requires
            m == n * a,
            n > 0,
            a > 0,
    ;
    let q = i / m;
    let r = i % m;
    div_mod::lemma_fundamental_div_mod(i, m);
    div_mod::lemma_div_pos_is_pos(i, m);
    assert(m * q == (q * n) * a) by (nonlinear_arith)
        requires
            m == n * a,
    ;
    let k = q * n;
    assert(i == k * a + r);
    div_mod::lemma_hoist_over_denominator(r, k, a as nat);
    div_mod::lemma_mod_multiples_vanish(k, r, a);
    assert(a * k + r == i) by (nonlinear_arith)
        requires
            i == k * a + r,
    ;
}

proof fn lemma_wrapped(s: Stick, x: int, i: int)
    ensures
        stick::byte(s, x % 0x1_0000_0000, i) == stick::byte(s, x, i),
{
    let q = i / s.size;
    div_mod::lemma_add_mod_noop(x, q, 0x1_0000_0000);
    div_mod::lemma_add_mod_noop(x % 0x1_0000_0000, q, 0x1_0000_0000);
    div_mod::lemma_mod_twice(x, 0x1_0000_0000);
}

/// A boot sector is recognised as one of FAT32 by its bytes alone, and the volume has the
/// geometry that they give: the size of a cluster, and where the clusters and the table are.
pub proof fn law_volume_is_as_its_boot_sector_says(s: Stick, base: u32, number: u32)
    requires
        is_stick(s),
    ensures
        fat32::is_fat32((s.block)(base as int), s.size) == stick::is_volume(s, base as int),
        stick::is_volume(s, base as int) ==> {
            let v = fat32::volume_of(base, s.size as u32, (s.block)(base as int));
            let b = (s.block)(base as int);
            &&& v.wf()
            &&& v.device_block_size == s.size
            &&& v.root_cluster == tree::num4(b, 44)
            &&& v.bytes_per_sector == tree::num2(b, 11)
            &&& v.cluster_bytes() == stick::cluster_size(s, base as int)
            &&& v.cluster_lba(number) == stick::first_block(s, base as int, number as int)
                % 0x1_0000_0000
            &&& v.fat_lba(number) == (stick::table_block(s, base as int) + 4 * number
                / tree::num2(b, 11) * stick::sector_blocks(s, base as int)) % 0x1_0000_0000
            &&& v.fat_offset(number) == 4 * number % tree::num2(b, 11)
            &&& v.device_blocks_per_fs_sector * s.size == v.bytes_per_sector
            &&& v.device_blocks_per_fs_sector == stick::sector_blocks(s, base as int)
        },
{
    let b = (s.block)(base as int);
    let label = b.subrange(82, 90);
    let want = fat32::FAT32_LABEL@;
    assert(forall|k: int| 0 <= k < 8 ==> label[k] == b[82 + k]);
    assert((label == want) == (b[82] == 70 && b[83] == 65 && b[84] == 84 && b[85] == 51 && b[86]
        == 50 && b[87] == 32 && b[88] == 32 && b[89] == 32)) by {
        if b[82] == 70 && b[83] == 65 && b[84] == 84 && b[85] == 51 && b[86] == 50 && b[87] == 32
            && b[88] == 32 && b[89] == 32 {
            assert(label =~= want);
        } else if label == want {
            assert(label[0] == 70 && label[1] == 65 && label[2] == 84 && label[3] == 51 && label[4]
                == 50 && label[5] == 32 && label[6] == 32 && label[7] == 32);
        }
    }
    assert(bytes::le32(b, 36) == tree::num4(b, 36));
    assert(bytes::le32(b, 44) == tree::num4(b, 44));
    if stick::is_volume(s, base as int) {
        fat32::lemma_volume_wf(base, s.size as u32, b);
        let n = stick::sector_blocks(s, base as int);
        let res = tree::num2(b, 14);
        let k = 4 * number / tree::num2(b, 11);
        assert((res + k) * n == res * n + k * n) by (nonlinear_arith);
    }
}

/// What standing in sectors and standing in blocks have to do with each other.
proof fn lemma_table(s: Stick, base: u32, number: u32, d: Seq<u8>)
    requires
        is_stick(s),
        stick::is_volume(s, base as int),
        vol(s, base as int).bytes_per_sector <= 4096,
        d.len() == 4096,
        stick::has_read(
            s,
            d,
            vol(s, base as int).fat_lba(number) as int,
            vol(s, base as int).device_blocks_per_fs_sector as int,
            vol(s, base as int).bytes_per_sector as int,
        ),
    ensures
        vol(s, base as int).holds_entry(d, number),
        fat32::fat_entry_at(d, vol(s, base as int).fat_offset(number)) == stick::table_entry(
            s,
            base as int,
            number as int,
        ),
{
    law_volume_is_as_its_boot_sector_says(s, base, number);
    let v = vol(s, base as int);
    let n = stick::sector_blocks(s, base as int);
    let sec = v.bytes_per_sector as int;
    let t = stick::table_block(s, base as int);
    let i = 4 * number;
    let off = v.fat_offset(number);
    let x = t + i / sec * n;
    assert(off + 4 <= sec && off % 4 == 0) by {
        let quarter = s.size / 4;
        assert(s.size == 4 * quarter);
        assert(sec == 4 * (n * quarter)) by (nonlinear_arith)
            requires
                sec == n * s.size,
                s.size == 4 * quarter,
        ;
        div_mod::lemma_fundamental_div_mod(i, sec);
        let q = i / sec;
        let w = n * quarter;
        assert(sec * q == 4 * (w * q)) by (nonlinear_arith)
            requires
                sec == 4 * w,
        ;
        assert(off == 4 * (number - w * q));
    }
    assert forall|j: int| 0 <= j < 4 implies #[trigger] d[off + j] == stick::byte(s, t, i + j) by {
        lemma_split(s.size, n, i + j);
        assert((i + j) / sec == i / sec && (i + j) % sec == off + j) by {
            div_mod::lemma_fundamental_div_mod(i, sec);
            let q = i / sec;
            assert(i + j == q * sec + (off + j)) by (nonlinear_arith)
                requires
                    i == sec * q + off,
            ;
            div_mod::lemma_fundamental_div_mod_converse(i + j, sec, q, off + j);
        }
        assert(d[off + j] == stick::byte(s, v.fat_lba(number) as int, off + j));
        lemma_wrapped(s, x, off + j);
    }
    assert(d[off + 0] == stick::byte(s, t, i));
    assert(d[off + 1] == stick::byte(s, t, i + 1));
    assert(d[off + 2] == stick::byte(s, t, i + 2));
    assert(d[off + 3] == stick::byte(s, t, i + 3));
}

/// What is read from the first block of a cluster on is what the cluster holds, and those
/// behind it.
proof fn lemma_clusters(s: Stick, base: u32, number: u32, i: int)
    requires
        is_stick(s),
        stick::is_volume(s, base as int),
        0 <= i,
    ensures
        ({
            let v = vol(s, base as int);
            let cs = stick::cluster_size(s, base as int);
            &&& cs > 0
            &&& v.cluster_blocks() * s.size == cs
            &&& v.cluster_blocks() > 0
            &&& stick::byte(s, v.cluster_lba(number) as int, i) == stick::byte(
                s,
                stick::first_block(s, base as int, number as int),
                i,
            )
            &&& stick::byte(s, v.cluster_lba(number) as int, i) == stick::cluster(
                s,
                base as int,
                number + i / cs,
            )[i % cs]
            &&& 0 <= i % cs < cs
            &&& 0 <= i / cs
        }),
{
    law_volume_is_as_its_boot_sector_says(s, base, number);
    let v = vol(s, base as int);
    v.lemma_bounds();
    let b = (s.block)(base as int);
    let n = stick::sector_blocks(s, base as int);
    let spc = b[13] as int;
    let cs = stick::cluster_size(s, base as int);
    let nc = spc * n;
    assert(cs == nc * s.size && nc > 0) by (nonlinear_arith)
        requires
            cs == v.bytes_per_sector * spc,
            n * s.size == v.bytes_per_sector,
            nc == spc * n,
            spc > 0,
            n > 0,
    ;
    div_mod::lemma_div_multiples_vanish(nc, s.size);
    assert(s.size * nc == cs) by (nonlinear_arith)
        requires
            cs == nc * s.size,
    ;
    assert(v.cluster_blocks() == nc);
    lemma_split(s.size, nc, i);
    let q = i / cs;
    let x = stick::first_block(s, base as int, number as int);
    let y = stick::first_block(s, base as int, number + q);
    lemma_wrapped(s, x, i);
    assert(y == x + q * nc) by {
        let head = tree::num2(b, 14) + b[16] * tree::num4(b, 36);
        let h1 = (number - 2) * spc;
        let h2 = (number + q - 2) * spc;
        assert(h2 == h1 + q * spc) by (nonlinear_arith)
            requires
                h1 == (number - 2) * spc,
                h2 == (number + q - 2) * spc,
        ;
        assert((head + h2) * n == (head + h1) * n + q * (spc * n)) by (nonlinear_arith)
            requires
                h2 == h1 + q * spc,
        ;
    }
    assert(x + i / s.size == y + i % cs / s.size);
}

/// A search of the volume at `base` is shown what its tree gives.
proof fn lemma_search_reply(s: Stick, base: u32, m: Search, d: Seq<u8>)
    requires
        is_stick(s),
        stick::is_volume(s, base as int),
        m.wf(),
        m.vol == vol(s, base as int),
        m.phase != SearchPhase::Done,
        m.request()->0.len == d.len() || m.phase != SearchPhase::Cluster,
        m.phase != SearchPhase::Cluster ==> m.request()->0.len <= 4096 && d.len() == 4096,
        stick::has_read(
            s,
            d,
            m.request()->0.lba as int,
            m.request()->0.blocks as int,
            m.request()->0.len as int,
        ),
    ensures
        m.fits(Some(d)),
        tree_law::shows(stick::tree_of(s, base as int), m, Some(d)),
{
    let t = stick::tree_of(s, base as int);
    let v = m.vol;
    let r = m.request()->0;
    v.lemma_bounds();
    law_volume_is_as_its_boot_sector_says(s, base, 2);
    match m.phase {
        SearchPhase::Cluster => {
            let c = m.frames.last().cluster;
            lemma_clusters(s, base, c, 0);
            let nc = v.cluster_blocks();
            assert(nc < 0x1_0000) by (nonlinear_arith)
                requires
                    nc * s.size <= 0xffff * 0xff,
                    s.size >= 512,
                    nc > 0,
            ;
            assert forall|k: int| 0 <= k < d.len() implies d[k] == #[trigger] stick::cluster(
                s,
                base as int,
                c as int,
            )[k] by {
                lemma_clusters(s, base, c, k);
                assert(d[k] == stick::byte(s, r.lba as int, k));
            }
            assert(d =~= stick::cluster(s, base as int, c as int));
        },
        SearchPhase::Magic => {
            let c = m.file.first_cluster;
            let whole = stick::cluster(s, base as int, c as int);
            assert(v.cluster_bytes() >= v.bytes_per_sector) by (nonlinear_arith)
                requires
                    v.cluster_bytes() == v.bytes_per_sector * v.sectors_per_cluster,
                    v.sectors_per_cluster >= 1,
            ;
            assert(v.bytes_per_sector >= s.size) by (nonlinear_arith)
                requires
                    v.bytes_per_sector == v.device_blocks_per_fs_sector * s.size,
                    v.device_blocks_per_fs_sector >= 1,
                    s.size > 0,
            ;
            assert forall|k: int| 0 <= k < 4 implies #[trigger] d[k] == whole[k] by {
                lemma_clusters(s, base, c, k);
                assert(d[k] == stick::byte(s, r.lba as int, k));
            }
            assert(d[0] == whole[0] && d[1] == whole[1] && d[2] == whole[2] && d[3] == whole[3]);
            lemma_magic(d);
        },
        SearchPhase::Fat => {
            lemma_table(s, base, m.frames.last().cluster, d);
        },
        _ => {},
    }
}

proof fn lemma_magic(d: Seq<u8>)
    requires
        d.len() >= 4,
    ensures
        fat32::has_gguf_magic(d) == stick::is_model(d),
{
    let head = d.subrange(0, 4);
    if stick::is_model(d) {
        assert(head =~= fat32::GGUF_MAGIC@);
    } else if head == fat32::GGUF_MAGIC@ {
        assert(head[0] == 71 && head[1] == 71 && head[2] == 85 && head[3] == 70);
    }
}

/// A search stays on its volume.
proof fn lemma_descended_vol(m: Search)
    ensures
        m.descended().vol == m.vol,
    decreases 2 * search::subs_left(m.frames) + m.frames.len(),
{
    let frames = m.frames;
    if frames.len() > 0 {
        let f = frames.last();
        if f.next_sub < f.subdirs.len() && 0 <= f.next_sub && frames.len() <= search::MAX_DEPTH {
            let child = Frame::begin(f.subdirs[f.next_sub]);
            let f2 = Frame { next_sub: f.next_sub + 1, ..f };
            search::lemma_subs_step(frames, f2, child);
            lemma_descended_vol(
                Search { frames: frames.drop_last().push(f2).push(child), ..m },
            );
        } else if f.fallback() is None {
            search::lemma_subs_pop(frames);
            lemma_descended_vol(Search { frames: frames.drop_last(), ..m });
        }
    }
}

proof fn lemma_scan_vol(m: Search, scan: Scan)
    ensures
        m.with_scan(scan).vol == m.vol,
{
    if let Scan::EndOfDirectory(f) = scan {
        lemma_descended_vol(m.with_top(f));
    }
}

proof fn lemma_search_vol(m: Search, reply: Option<Seq<u8>>)
    ensures
        m.after(reply).vol == m.vol,
        Search::begin(m.vol).vol == m.vol,
{
    let f = m.frames.last();
    lemma_descended_vol(Search { frames: m.frames.drop_last(), ..m });
    match (m.phase, reply) {
        (SearchPhase::Cluster, Some(data)) => {
            lemma_scan_vol(
                Search { data, ..m },
                search::scanned(f, data, 0, m.deeper()),
            );
        },
        (SearchPhase::Magic, _) => {
            let magic = reply matches Some(s) && fat32::has_gguf_magic(s);
            lemma_scan_vol(
                m,
                search::scanned(f.with_file(m.file, magic), m.data, m.at + 1, m.deeper()),
            );
        },
        (SearchPhase::Fat, Some(s)) => {
            lemma_descended_vol(
                m.with_top(
                    Frame {
                        cluster: fat32::fat_entry_at(s, m.vol.fat_offset(f.cluster)),
                        seen: (f.seen + 1) as u32,
                        ..f
                    },
                ),
            );
        },
        _ => {},
    }
    lemma_descended_vol(
        Search {
            vol: m.vol,
            frames: seq![Frame::begin(m.vol.root_cluster)],
            phase: SearchPhase::Done,
            data: Seq::empty(),
            at: 0,
            file: Fat32File { first_cluster: 0, size: 0 },
            found: None,
        },
    );
}

/// Where the model is, as a task says and as it is.
spec fn is_source(s: Stick, source: ModelSource) -> bool {
    match source {
        ModelSource::File(v, f) => {
            let base = v.base_lba as int;
            &&& stick::is_volume(s, base)
            &&& v == vol(s, base)
            &&& stick::model_from(s, 0) == Some(Model::File { base, file: f })
        },
        ModelSource::Raw(lba) => stick::model_from(s, 0) == Some(Model::Raw { base: lba as int }),
        ModelSource::Nowhere => stick::model_from(s, 0) is None,
    }
}

/// The first `len` bytes of the memory are those of a model, as far as it goes.
spec fn has_bytes(s: Stick, memory: spec_fn(int) -> u8, m: Model, len: int) -> bool {
    forall|x: int|
        0 <= x < len && x < stick::model_size(m) ==> #[trigger] memory(x) == stick::model_byte(
            s,
            m,
            x,
        )
}

/// `k` clusters of the file are in memory.
spec fn reads_file(s: Stick, c: ChainIngest, memory: spec_fn(int) -> u8, k: int) -> bool {
    let base = c.vol.base_lba as int;
    let fs = stick::clusters_of(s, base);
    &&& stick::is_volume(s, base)
    &&& c.vol == vol(s, base)
    &&& stick::model_from(s, 0) == Some(Model::File { base, file: c.file })
    &&& chain_law::on_chain(c, chain_law::chain_bytes(fs, c.file.first_cluster, k), fs, k)
    &&& has_bytes(
        s,
        memory,
        Model::File { base, file: c.file },
        k * stick::cluster_size(s, base),
    )
}

/// How far a task has come with taking the model of the device.
spec fn on_the_way(s: Stick, t: Task, memory: spec_fn(int) -> u8) -> bool {
    let goal = stick::model_from(s, 0);
    &&& t.block_size == s.size
    &&& match t.phase {
        TaskPhase::BootRecord => true,
        TaskPhase::Probe => {
            &&& t.bases == stick::places(s)
            &&& 0 <= t.index < t.bases.len()
            &&& goal == stick::model_from(s, t.index)
        },
        TaskPhase::Search => {
            let base = t.bases[t.index] as int;
            &&& t.bases == stick::places(s)
            &&& 0 <= t.index < t.bases.len()
            &&& stick::is_volume(s, base)
            &&& t.search.wf()
            &&& t.search.phase != SearchPhase::Done
            &&& t.search.vol == vol(s, base)
            &&& goal == match tree_law::model_of(stick::tree_of(s, base), t.search) {
                Some(file) => Some(Model::File { base, file }),
                None => stick::model_from(s, t.index + 1),
            }
        },
        TaskPhase::Allocate => is_source(s, t.source),
        TaskPhase::Chain => exists|k: int| reads_file(s, t.chain, memory, k),
        TaskPhase::Raw => {
            &&& goal == Some(Model::Raw { base: t.raw.start_lba as int })
            &&& t.raw.block_size == s.size
            &&& t.raw.size == 1_187_801_280
            &&& t.raw.done <= t.raw.total()
            &&& has_bytes(
                s,
                memory,
                Model::Raw { base: t.raw.start_lba as int },
                t.raw.done * s.size,
            )
        },
        TaskPhase::Done => goal matches Some(m) && has_bytes(
            s,
            memory,
            m,
            stick::model_size(m),
        ),
        TaskPhase::Failed => match goal {
            Some(Model::File { base, file }) => !stick::is_whole(s, base, file),
            Some(Model::Raw { base }) => false,
            None => true,
        },
    }
}

/// A search that goes on, or is over.
proof fn lemma_with_search(s: Stick, t: Task, sr: Search, memory: spec_fn(int) -> u8)
    requires
        is_stick(s),
        t.block_size == s.size,
        t.bases == stick::places(s),
        0 <= t.index < t.bases.len(),
        stick::is_volume(s, t.bases[t.index] as int),
        sr.wf(),
        sr.vol == vol(s, t.bases[t.index] as int),
        stick::model_from(s, 0) == (match tree_law::model_of(
            stick::tree_of(s, t.bases[t.index] as int),
            sr,
        ) {
            Some(file) => Some(Model::File { base: t.bases[t.index] as int, file }),
            None => stick::model_from(s, t.index + 1),
        }),
    ensures
        on_the_way(s, t.with_search(sr), memory),
{
    if sr.phase == SearchPhase::Done && sr.found is None {
        assert(stick::model_from(s, 0) == stick::model_from(s, t.index + 1));
        assert(t.index + 1 >= t.bases.len() ==> stick::model_from(s, t.index + 1) is None);
    }
}

/// What was read as the first block of a place is that block.
proof fn lemma_block(s: Stick, base: u32, d: Seq<u8>)
    requires
        is_stick(s),
        d.len() == 4096,
        stick::has_read(s, d, base as int, 1, s.size),
    ensures
        d.take(s.size) == (s.block)(base as int),
        forall|k: int| 0 <= k < s.size ==> #[trigger] d[k] == (s.block)(base as int)[k],
{
    assert forall|k: int| 0 <= k < s.size implies #[trigger] d[k] == (s.block)(base as int)[k] by {
        assert(k < 1 * s.size);
        assert(d[k] == stick::byte(s, base as int, k));
        div_mod::lemma_small_mod(k as nat, s.size as nat);
        div_mod::lemma_basic_div(k, s.size);
    }
    assert(d.take(s.size) =~= (s.block)(base as int));
}

proof fn lemma_probe(s: Stick, t: Task, d: Seq<u8>, memory: spec_fn(int) -> u8)
    requires
        is_stick(s),
        on_the_way(s, t, memory),
        t.phase == TaskPhase::Probe,
        d.len() == 4096,
        stick::has_read(s, d, t.bases[t.index] as int, 1, s.size),
    ensures
        on_the_way(s, t.after(Some(d)), memory),
{
    let base = t.bases[t.index];
    let b = (s.block)(base as int);
    lemma_block(s, base, d);
    lemma_magic(d);
    assert(d[0] == b[0] && d[1] == b[1] && d[2] == b[2] && d[3] == b[3]);
    law_volume_is_as_its_boot_sector_says(s, base, 2);
    assert(t.index + 1 >= t.bases.len() ==> stick::model_from(s, t.index + 1) is None);
    if !stick::is_model(b) && stick::is_volume(s, base as int) {
        let v = vol(s, base as int);
        tree_law::lemma_begin(stick::tree_of(s, base as int), v);
        let sr = Search::begin(v);
        lemma_search_vol(Search { vol: v, ..sr }, None);
        lemma_with_search(s, t, sr, memory);
    }
}

/// A byte of a file that stands in the clusters from cluster `k` of its chain on.
proof fn lemma_chain_byte(s: Stick, c: ChainIngest, k: int, i: int)
    requires
        is_stick(s),
        stick::is_volume(s, c.vol.base_lba as int),
        c.vol == vol(s, c.vol.base_lba as int),
        0 <= k,
        0 <= i < c.run * stick::cluster_size(s, c.vol.base_lba as int),
        forall|j: int|
            0 <= j < c.run ==> c.run_start + j == #[trigger] chain_law::chain_at(
                stick::clusters_of(s, c.vol.base_lba as int),
                c.file.first_cluster,
                k + j,
            ),
    ensures
        stick::byte(s, c.vol.cluster_lba(c.run_start) as int, i) == stick::model_byte(
            s,
            Model::File { base: c.vol.base_lba as int, file: c.file },
            k * stick::cluster_size(s, c.vol.base_lba as int) + i,
        ),
{
    let base = c.vol.base_lba;
    let cs = stick::cluster_size(s, base as int);
    lemma_clusters(s, base, c.run_start, i);
    let j = i / cs;
    div_mod::lemma_fundamental_div_mod(i, cs);
    assert(j < c.run) by (nonlinear_arith)
        requires
            i == cs * j + i % cs,
            0 <= i % cs,
            i < c.run * cs,
            cs > 0,
    ;
    assert(c.run_start + j == chain_law::chain_at(
        stick::clusters_of(s, base as int),
        c.file.first_cluster,
        k + j,
    ));
    let x = k * cs + i;
    assert(x == (k + j) * cs + i % cs) by (nonlinear_arith)
        requires
            x == k * cs + i,
            i == cs * j + i % cs,
    ;
    div_mod::lemma_fundamental_div_mod_converse(x, cs, k + j, i % cs);
}

proof fn lemma_chain_entry(
    s: Stick,
    c: ChainIngest,
    d: Seq<u8>,
    memory: spec_fn(int) -> u8,
    k: int,
)
    requires
        is_stick(s),
        c.phase == ChainPhase::Fat,
        reads_file(s, c, memory, k),
        c.vol.bytes_per_sector <= 4096,
        d.len() == 4096,
        stick::has_read(
            s,
            d,
            c.vol.fat_lba(c.cluster) as int,
            c.vol.device_blocks_per_fs_sector as int,
            c.vol.bytes_per_sector as int,
        ),
    ensures
        reads_file(s, c.after(Some(d)), memory, k),
{
    let base = c.vol.base_lba;
    let fs = stick::clusters_of(s, base as int);
    let first = c.file.first_cluster;
    let buf = chain_law::chain_bytes(fs, first, k);
    let cs = stick::cluster_size(s, base as int);
    law_volume_is_as_its_boot_sector_says(s, base, 2);
    lemma_clusters(s, base, 2, 0);
    assert(chain_law::is_table(fs));
    lemma_table(s, base, c.cluster, d);
    let next = c.after(Some(d));
    let k2 = chain_law::law_ingest_follows_chain(c, buf, fs, k);
    assert(next == chain_law::step(c, buf, fs).0);
    assert(next.copied == c.copied);
    assert(k2 == k) by (nonlinear_arith)
        requires
            k2 * cs == k * cs,
            cs > 0,
    ;
}

/// A run is read whole.
proof fn lemma_run_read(s: Stick, c: ChainIngest)
    requires
        is_stick(s),
        c.phase == ChainPhase::Data,
        c.wf(),
        stick::is_volume(s, c.vol.base_lba as int),
        c.vol == vol(s, c.vol.base_lba as int),
    ensures
        c.request()->0.len == c.run_bytes(),
        c.request()->0.blocks * s.size == c.run_bytes(),
        c.request()->0.lba == c.vol.cluster_lba(c.run_start),
        c.vol.cluster_bytes() == stick::cluster_size(s, c.vol.base_lba as int),
{
    let base = c.vol.base_lba;
    let cs = stick::cluster_size(s, base as int);
    law_volume_is_as_its_boot_sector_says(s, base, 2);
    lemma_clusters(s, base, 2, 0);
    c.lemma_run();
    let nc = c.vol.cluster_blocks();
    let run = c.run as int;
    assert(run * cs == (nc * run) * s.size) by (nonlinear_arith)
        requires
            cs == nc * s.size,
    ;
    assert(0 <= nc * run < 0x1_0000 && nc < 0x1_0000) by (nonlinear_arith)
        requires
            (nc * run) * s.size == run * cs,
            run * cs <= 0x40_0000 + 0xffff * 0xff,
            s.size >= 512,
            nc > 0,
            run >= 1,
    ;
    assert(c.request()->0.blocks == nc * run);
}

/// What a run adds to the memory is what the file has there.
proof fn lemma_run_bytes(
    s: Stick,
    c: ChainIngest,
    memory: spec_fn(int) -> u8,
    later: spec_fn(int) -> u8,
    k: int,
    len: int,
)
    requires
        is_stick(s),
        c.phase == ChainPhase::Data,
        reads_file(s, c, memory, k),
        forall|i: int|
            0 <= i < c.request()->0.len && i < c.request()->0.blocks * s.size ==> #[trigger] later(
                c.copied + i,
            ) == stick::byte(s, c.request()->0.lba as int, i),
        forall|x: int|
            x < c.copied || x >= c.copied + c.request()->0.len ==> #[trigger] later(x) == memory(x),
        len <= k * c.vol.cluster_bytes() + c.run_bytes() || c.file.size <= k
            * c.vol.cluster_bytes() + c.run_bytes(),
    ensures
        has_bytes(s, later, Model::File { base: c.vol.base_lba as int, file: c.file }, len),
{
    let base = c.vol.base_lba;
    let cs = stick::cluster_size(s, base as int);
    let model = Model::File { base: base as int, file: c.file };
    lemma_run_read(s, c);
    let read = c.request()->0;
    assert forall|x: int|
        0 <= x < len && x < stick::model_size(model) implies #[trigger] later(x)
        == stick::model_byte(s, model, x) by {
        if x < k * cs {
            assert(later(x) == memory(x));
        } else {
            let i = x - k * cs;
            assert(later(c.copied + i) == stick::byte(s, read.lba as int, i));
            lemma_chain_byte(s, c, k, i);
        }
    }
}

proof fn lemma_chain_run(
    s: Stick,
    c: ChainIngest,
    d: Seq<u8>,
    memory: spec_fn(int) -> u8,
    later: spec_fn(int) -> u8,
    k: int,
) -> (k2: int)
    requires
        is_stick(s),
        c.phase == ChainPhase::Data,
        reads_file(s, c, memory, k),
        forall|i: int|
            0 <= i < c.request()->0.len && i < c.request()->0.blocks * s.size ==> #[trigger] later(
                c.copied + i,
            ) == stick::byte(s, c.request()->0.lba as int, i),
        forall|x: int|
            x < c.copied || x >= c.copied + c.request()->0.len ==> #[trigger] later(x) == memory(x),
    ensures
        reads_file(s, c.after(Some(d)), later, k2),
{
    let base = c.vol.base_lba;
    let fs = stick::clusters_of(s, base as int);
    let buf = chain_law::chain_bytes(fs, c.file.first_cluster, k);
    let cs = stick::cluster_size(s, base as int);
    assert(chain_law::is_table(fs));
    let next = c.after(Some(d));
    let k2 = chain_law::law_ingest_follows_chain(c, buf, fs, k);
    assert(next == chain_law::step(c, buf, fs).0);
    lemma_run_read(s, c);
    lemma_covered(s, c, next, fs, k, k2, chain_law::step(c, buf, fs).1);
    lemma_run_bytes(s, c, memory, later, k, k2 * cs);
    assert(next.vol == c.vol && next.file == c.file);
    k2
}

/// The clusters of a run are all that is new in memory.
proof fn lemma_covered(
    s: Stick,
    c: ChainIngest,
    next: ChainIngest,
    fs: chain_law::Clusters,
    k: int,
    k2: int,
    buf2: Seq<u8>,
)
    requires
        c.phase == ChainPhase::Data,
        c.copied == k * c.vol.cluster_bytes(),
        next == c.after_run(true),
        c.wf(),
        chain_law::on_chain(next, buf2, fs, k2),
    ensures
        k2 * c.vol.cluster_bytes() <= k * c.vol.cluster_bytes() + c.run_bytes() || c.file.size <= k
            * c.vol.cluster_bytes() + c.run_bytes(),
{
    c.lemma_run();
}

/// Reading that is over has the file, or the chain was too short.
proof fn lemma_chain_over(s: Stick, c: ChainIngest, memory: spec_fn(int) -> u8, k: int)
    requires
        is_stick(s),
        reads_file(s, c, memory, k),
    ensures
        c.phase == ChainPhase::Done ==> has_bytes(
            s,
            memory,
            Model::File { base: c.vol.base_lba as int, file: c.file },
            c.file.size as int,
        ),
        c.phase == ChainPhase::Truncated ==> !stick::is_whole(
            s,
            c.vol.base_lba as int,
            c.file,
        ),
        c.phase != ChainPhase::ReadError && c.phase != ChainPhase::ChainError,
{
    let base = c.vol.base_lba;
    law_volume_is_as_its_boot_sector_says(s, base, 2);
    if c.phase == ChainPhase::Truncated {
        let n = chain_law::chain_at(
            stick::clusters_of(s, base as int),
            c.file.first_cluster,
            k,
        );
    }
}

proof fn lemma_chain_step(
    s: Stick,
    t: Task,
    reply: Option<Seq<u8>>,
    memory: spec_fn(int) -> u8,
    later: spec_fn(int) -> u8,
)
    requires
        is_stick(s),
        on_the_way(s, t, memory),
        t.phase == TaskPhase::Chain,
        t.chain.phase == ChainPhase::Fat || t.chain.phase == ChainPhase::Data || t.chain.phase
            == ChainPhase::Progress,
        stick::answered(s, t, reply, memory, later),
    ensures
        on_the_way(s, t.after(reply), later),
{
    let c = t.chain;
    let k = choose|k: int| reads_file(s, c, memory, k);
    let k2 = match c.phase {
        ChainPhase::Fat => {
            lemma_chain_entry(s, c, reply->0, memory, k);
            k
        },
        ChainPhase::Data => lemma_chain_run(s, c, reply->0, memory, later, k),
        _ => {
            let base = c.vol.base_lba;
            let fs = stick::clusters_of(s, base as int);
            law_volume_is_as_its_boot_sector_says(s, base, 2);
            assert(chain_law::is_table(fs));
            chain_law::lemma_advance(
                c,
                chain_law::chain_bytes(fs, c.file.first_cluster, k),
                fs,
                k,
            );
            k
        },
    };
    assert(reads_file(s, c.after(reply), later, k2));
    lemma_chain_over(s, c.after(reply), later, k2);
}

proof fn lemma_raw_step(
    s: Stick,
    t: Task,
    reply: Option<Seq<u8>>,
    memory: spec_fn(int) -> u8,
    later: spec_fn(int) -> u8,
)
    requires
        is_stick(s),
        on_the_way(s, t, memory),
        t.phase == TaskPhase::Raw,
        t.raw.phase == RawPhase::Read || t.raw.phase == RawPhase::Progress,
        stick::answered(s, t, reply, memory, later),
    ensures
        on_the_way(s, t.after(reply), later),
{
    let r = t.raw;
    let model = Model::Raw { base: r.start_lba as int };
    let bs = s.size;
    raw::lemma_total(r);
    raw::lemma_burst(bs);
    let next = r.after(reply is Some);
    if r.phase == RawPhase::Read {
        let n = r.count();
        let read = r.request()->0;
        assert(0 <= n <= 0xffff && n * bs <= 0x40_0000) by {
            let burst = raw::burst_blocks(bs);
            assert(n * bs <= burst * bs) by (nonlinear_arith)
                requires
                    n <= burst,
                    bs > 0,
            ;
        }
        assert(0 <= n * bs) by (nonlinear_arith)
            requires
                n >= 0,
                bs > 0,
        ;
        assert(read.blocks == n && read.len == n * bs);
        let done = r.done as int;
        assert(0 <= done * bs <= r.total() * bs) by (nonlinear_arith)
            requires
                0 <= done <= r.total(),
                bs > 0,
        ;
        assert((done + n) * bs == done * bs + n * bs) by (nonlinear_arith);
        assert forall|x: int|
            0 <= x < (done + n) * bs && x < stick::model_size(model) implies #[trigger] later(x)
            == stick::model_byte(s, model, x) by {
            if x < done * bs {
                assert(later(x) == memory(x));
            } else {
                let i = x - done * bs;
                assert(later(done * bs + i) == stick::byte(s, read.lba as int, i));
                lemma_wrapped(s, r.start_lba + done, i);
                div_mod::lemma_hoist_over_denominator(i, done, bs as nat);
                div_mod::lemma_mod_multiples_vanish(done, i, bs);
                assert(bs * done + i == x) by (nonlinear_arith)
                    requires
                        x == done * bs + i,
                ;
            }
        }
        assert(next.done == done + n);
        assert(next.total() == r.total());
        assert(has_bytes(s, later, model, next.done * bs));
    }
    if next.phase == RawPhase::Done {
        let total = r.total();
        assert(next.done * bs >= r.size) by (nonlinear_arith)
            requires
                next.done >= total,
                total * bs >= r.size,
                bs > 0,
        ;
        assert(has_bytes(s, later, model, stick::model_size(model)));
    }
}

proof fn lemma_task_step(
    s: Stick,
    t: Task,
    reply: Option<Seq<u8>>,
    memory: spec_fn(int) -> u8,
    later: spec_fn(int) -> u8,
)
    requires
        is_stick(s),
        on_the_way(s, t, memory),
        t.phase == TaskPhase::Chain ==> t.chain.phase == ChainPhase::Fat || t.chain.phase
            == ChainPhase::Data || t.chain.phase == ChainPhase::Progress,
        t.phase == TaskPhase::Raw ==> t.raw.phase == RawPhase::Read || t.raw.phase
            == RawPhase::Progress,
        stick::answered(s, t, reply, memory, later),
    ensures
        on_the_way(s, t.after(reply), later),
{
    match t.phase {
        TaskPhase::BootRecord => {
            let d = reply->0;
            lemma_block(s, 0, d);
            assert(d[450] == (s.block)(0)[450] && d[454] == (s.block)(0)[454] && d[455] == (
            s.block)(0)[455] && d[456] == (s.block)(0)[456] && d[457] == (s.block)(0)[457]);
            assert(bytes::le32(d, 454) == tree::num4((s.block)(0), 454));
            assert(task::candidates(reply) =~= stick::places(s));
        },
        TaskPhase::Probe => lemma_probe(s, t, reply->0, memory),
        TaskPhase::Search => {
            let base = t.bases[t.index];
            let m = t.search;
            lemma_search_reply(s, base, m, reply->0);
            tree_law::lemma_step(stick::tree_of(s, base as int), m, reply);
            lemma_search_vol(m, reply);
            lemma_with_search(s, t, m.after(reply), memory);
        },
        TaskPhase::Allocate => {
            match t.source {
                ModelSource::File(v, f) => {
                    let c = ChainIngest::begin(v, f);
                    let base = v.base_lba as int;
                    let fs = stick::clusters_of(s, base);
                    law_volume_is_as_its_boot_sector_says(s, v.base_lba, 2);
                    let cs = stick::cluster_size(s, base);
                    assert(0 * cs == 0);
                    v.lemma_bounds();
                    assert forall|j: int| 0 <= j < c.run implies c.run_start + j
                        == #[trigger] chain_law::chain_at(fs, f.first_cluster, 0 + j) by {
                        assert(j == 0);
                    }
                    assert(reads_file(s, c, later, 0));
                    lemma_chain_over(s, c, later, 0);
                },
                ModelSource::Raw(lba) => {
                    let r = RawIngest::begin(lba, t.block_size, task::RAW_GGUF_FALLBACK_SIZE);
                    assert(0 * s.size == 0);
                    raw::lemma_total(r);
                },
                ModelSource::Nowhere => {},
            }
        },
        TaskPhase::Chain => lemma_chain_step(s, t, reply, memory, later),
        TaskPhase::Raw => lemma_raw_step(s, t, reply, memory, later),
        _ => {},
    }
}

proof fn lemma_run(
    s: Stick,
    ts: Seq<Task>,
    replies: Seq<Option<Seq<u8>>>,
    memories: Seq<spec_fn(int) -> u8>,
    n: int,
)
    requires
        is_stick(s),
        stick::is_run(s, ts, replies, memories),
        ts[0].phase == TaskPhase::BootRecord,
        ts[0].block_size == s.size,
        0 <= n <= replies.len(),
    ensures
        on_the_way(s, ts[n], memories[n]),
        ts[n].phase == TaskPhase::Chain ==> ts[n].chain.phase == ChainPhase::Fat
            || ts[n].chain.phase == ChainPhase::Data || ts[n].chain.phase == ChainPhase::Progress,
        ts[n].phase == TaskPhase::Raw ==> ts[n].raw.phase == RawPhase::Read || ts[n].raw.phase
            == RawPhase::Progress,
    decreases n,
{
    if n > 0 {
        lemma_run(s, ts, replies, memories, n - 1);
        assert(ts[n - 1 + 1] == ts[n - 1].after(replies[n - 1]));
        lemma_task_step(s, ts[n - 1], replies[n - 1], memories[n - 1], memories[n - 1 + 1]);
    }
}

/// A task that is answered as a device is, and no read of which fails, takes in the model of
/// the device: once it is done, the memory begins with the model's bytes, which stand where the
/// device's own bytes say. It fails only where the device has no model, or where the chain of
/// the model's file is too short.
pub proof fn law_model_is_taken_from_device(
    s: Stick,
    ts: Seq<Task>,
    replies: Seq<Option<Seq<u8>>>,
    memories: Seq<spec_fn(int) -> u8>,
)
    requires
        is_stick(s),
        stick::is_run(s, ts, replies, memories),
        ts[0].phase == TaskPhase::BootRecord,
        ts[0].block_size == s.size,
    ensures
        ts.last().phase == TaskPhase::Done ==> (stick::model_from(s, 0) matches Some(m) && {
            forall|x: int|
                0 <= x < stick::model_size(m) ==> #[trigger] (memories.last())(x)
                    == stick::model_byte(s, m, x)
        }),
        ts.last().phase == TaskPhase::Failed ==> match stick::model_from(s, 0) {
            Some(Model::File { base, file }) => !stick::is_whole(s, base, file),
            Some(Model::Raw { base }) => false,
            None => true,
        },
{
    let n = replies.len() as int;
    lemma_run(s, ts, replies, memories, n);
}

} // verus!
