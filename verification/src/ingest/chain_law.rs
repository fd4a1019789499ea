//! A file that is read along its chain is what the chain's clusters hold.

use vstd::prelude::*;

use crate::ingest::chain;
use crate::ingest::chain::ChainIngest;
use crate::ingest::chain::ChainPhase;
use crate::ingest::fat32;
use crate::ingest::fat32::Fat32File;
use crate::ingest::fat32::Fat32Volume;

verus! {

/// The allocation table and the clusters of a volume.
pub struct Clusters {
    pub table: spec_fn(u32) -> u32,
    pub content: spec_fn(u32) -> Seq<u8>,
}

/// Cluster `k` of the chain that starts with `first`.
pub open spec fn chain_at(fs: Clusters, first: u32, k: int) -> u32
    decreases k,
{
    if k <= 0 {
        first
    } else {
        (fs.table)(chain_at(fs, first, k - 1))
    }
}

/// What the first `k` clusters of a chain hold.
pub open spec fn chain_bytes(fs: Clusters, first: u32, k: int) -> Seq<u8>
    decreases k,
{
    if k <= 0 {
        Seq::empty()
    } else {
        chain_bytes(fs, first, k - 1) + (fs.content)(chain_at(fs, first, k - 1))
    }
}

/// What `n` clusters in a row hold.
pub open spec fn run_content(fs: Clusters, start: u32, n: int) -> Seq<u8>
    decreases n,
{
    if n <= 0 {
        Seq::empty()
    } else {
        run_content(fs, start, n - 1) + (fs.content)((start + (n - 1)) as u32)
    }
}

/// One read by `m`, where no read fails; `buf` is what is in memory.
pub open spec fn step(m: ChainIngest, buf: Seq<u8>, fs: Clusters) -> (ChainIngest, Seq<u8>) {
    match m.phase {
        ChainPhase::Fat => (m.after_entry(Some((fs.table)(m.cluster))), buf),
        ChainPhase::Data => (m.after_run(true), buf + run_content(fs, m.run_start, m.run as int)),
        ChainPhase::Progress => (m.advanced(), buf),
        _ => (m, buf),
    }
}

/// `n` reads by `m`, where no read fails.
pub open spec fn steps(m: ChainIngest, buf: Seq<u8>, fs: Clusters, n: nat) -> (
    ChainIngest,
    Seq<u8>,
)
    decreases n,
{
    if n == 0 {
        (m, buf)
    } else {
        let (m1, b1) = step(m, buf, fs);
        steps(m1, b1, fs, (n - 1) as nat)
    }
}

/// How many clusters a file takes up.
pub open spec fn clusters_of(file: Fat32File, cb: int) -> int {
    (file.size + cb - 1) / cb
}

/// `k` clusters of the chain are in memory, and `m` goes on behind them.
pub open spec fn on_chain(m: ChainIngest, buf: Seq<u8>, fs: Clusters, k: int) -> bool {
    let first = m.file.first_cluster;
    let cb = m.vol.cluster_bytes();
    &&& m.wf()
    &&& 0 <= k
    &&& buf == chain_bytes(fs, first, k)
    &&& match m.phase {
        ChainPhase::Fat => {
            &&& m.copied == k * cb
            &&& forall|j: int|
                0 <= j < m.run ==> m.run_start + j == #[trigger] chain_at(fs, first, k + j)
        },
        ChainPhase::Data => {
            &&& m.copied == k * cb
            &&& forall|j: int|
                0 <= j < m.run ==> m.run_start + j == #[trigger] chain_at(fs, first, k + j)
            &&& m.next == Some((fs.table)(m.cluster))
        },
        ChainPhase::Progress => {
            &&& m.copied == if k * cb < m.file.size {
                k * cb
            } else {
                m.file.size as int
            }
            &&& m.next == Some(chain_at(fs, first, k))
        },
        ChainPhase::Done => m.copied == m.file.size && k * cb >= m.file.size,
        ChainPhase::Truncated => m.copied == k * cb && k * cb < m.file.size && !fat32::is_cluster(
            chain_at(fs, first, k),
        ),
        _ => false,
    }
}

/// Table entries are numbers of 28 bits.
pub open spec fn is_table(fs: Clusters) -> bool {
    forall|c: u32| #[trigger] (fs.table)(c) < 0x1000_0000
}

/// Going on behind what is in memory keeps to the chain.
pub proof fn lemma_advance(m: ChainIngest, buf: Seq<u8>, fs: Clusters, k: int)
    requires
        m.vol.wf(),
        m.next_progress <= 0x1_0000_0000_0000,
        is_table(fs),
        0 <= k,
        buf == chain_bytes(fs, m.file.first_cluster, k),
        m.copied == if k * m.vol.cluster_bytes() < m.file.size {
            k * m.vol.cluster_bytes()
        } else {
            m.file.size as int
        },
        m.next == Some(chain_at(fs, m.file.first_cluster, k)),
    ensures
        on_chain(m.advanced(), buf, fs, k),
        m.advanced().phase == ChainPhase::Done || m.advanced().phase == ChainPhase::Truncated
            || m.advanced().phase == ChainPhase::Fat,
        m.advanced().copied == m.copied,
        m.advanced().phase == ChainPhase::Fat ==> m.advanced().run == 1,
{
    m.vol.lemma_bounds();
    assert(0 * m.vol.cluster_bytes() == 0);
    let n = m.advanced();
    if n.phase == ChainPhase::Fat {
        assert forall|j: int| 0 <= j < n.run implies n.run_start + j == #[trigger] chain_at(
            fs,
            m.file.first_cluster,
            k + j,
        ) by {
            assert(j == 0);
        }
    }
}

proof fn lemma_run_is_chain(fs: Clusters, first: u32, k: int, start: u32, n: int)
    requires
        0 <= k,
        0 <= n,
        start + n <= u32::MAX,
        forall|j: int| 0 <= j < n ==> start + j == #[trigger] chain_at(fs, first, k + j),
    ensures
        chain_bytes(fs, first, k) + run_content(fs, start, n) == chain_bytes(fs, first, k + n),
    decreases n,
{
    if n > 0 {
        lemma_run_is_chain(fs, first, k, start, n - 1);
        assert(start + (n - 1) == chain_at(fs, first, k + (n - 1)));
        assert((start + (n - 1)) as u32 == chain_at(fs, first, k + n - 1));
        let c = (fs.content)(chain_at(fs, first, k + n - 1));
        assert(chain_bytes(fs, first, k) + run_content(fs, start, n) =~= chain_bytes(
            fs,
            first,
            k,
        ) + run_content(fs, start, n - 1) + c);
    } else {
        assert(chain_bytes(fs, first, k) + run_content(fs, start, n) =~= chain_bytes(fs, first, k));
    }
}

/// Reading follows the chain: whatever is read next stands behind what was read, and what is
/// in memory is always what the chain's first clusters hold.
pub proof fn law_ingest_follows_chain(m: ChainIngest, buf: Seq<u8>, fs: Clusters, k: int) -> (k2: int)
    requires
        on_chain(m, buf, fs, k),
        is_table(fs),
    ensures
        on_chain(step(m, buf, fs).0, step(m, buf, fs).1, fs, k2),
        k <= k2,
        m.phase == ChainPhase::Data ==> k2 > k,
{
    let first = m.file.first_cluster;
    let cb = m.vol.cluster_bytes();
    m.vol.lemma_bounds();
    let (m1, b1) = step(m, buf, fs);
    match m.phase {
        ChainPhase::Fat => {
            assert(m.run_start + (m.run - 1) == chain_at(fs, first, k + (m.run - 1)));
            assert(m.cluster == chain_at(fs, first, k + m.run - 1));
            if m.extends(Some((fs.table)(m.cluster))) {
                assert(chain_at(fs, first, k + m.run) == m.cluster + 1);
                assert forall|j: int| 0 <= j < m1.run implies m1.run_start + j
                    == #[trigger] chain_at(fs, first, k + j) by {
                    if j == m.run {
                        assert(k + j == k + m.run);
                    }
                }
                assert((m1.run - 1) * cb == m.run * cb);
            }
            k
        },
        ChainPhase::Data => {
            let k2 = k + m.run;
            lemma_run_is_chain(fs, first, k, m.run_start, m.run as int);
            assert(m.run_start + (m.run - 1) == chain_at(fs, first, k + (m.run - 1)));
            assert(m.cluster == chain_at(fs, first, k2 - 1));
            assert(m.next == Some(chain_at(fs, first, k2)));
            assert(k2 * cb == k * cb + m.run * cb) by (nonlinear_arith)
                requires
                    k2 == k + m.run,
            ;
            let copied = m.copied_after();
            if !(copied >= m.next_progress || copied == m.file.size) {
                let n = ChainIngest { copied: copied as u64, ..m };
                lemma_advance(n, b1, fs, k2);
            }
            k2
        },
        ChainPhase::Progress => {
            lemma_advance(m, buf, fs, k);
            k
        },
        _ => k,
    }
}

/// How far `m` is from its next change of `copied`, in reads.
spec fn rank(m: ChainIngest) -> int {
    match m.phase {
        ChainPhase::Progress => 0x80_0000,
        ChainPhase::Fat => 0x40_0010 - m.run,
        ChainPhase::Data => 1,
        _ => 0,
    }
}

/// From any point on the chain of a file whose clusters are all there, reading ends with
/// the file in memory.
proof fn lemma_ingest_ends(m: ChainIngest, buf: Seq<u8>, fs: Clusters, k: int) -> (r: (nat, int))
    requires
        on_chain(m, buf, fs, k),
        is_table(fs),
        forall|j: int|
            0 <= j < clusters_of(m.file, m.vol.cluster_bytes()) ==> fat32::is_cluster(
                #[trigger] chain_at(fs, m.file.first_cluster, j),
            ),
    ensures
        steps(m, buf, fs, r.0).0.phase == ChainPhase::Done,
        on_chain(steps(m, buf, fs, r.0).0, steps(m, buf, fs, r.0).1, fs, r.1),
        steps(m, buf, fs, r.0).0.file == m.file,
        steps(m, buf, fs, r.0).0.vol == m.vol,
    decreases m.file.size - m.copied, rank(m),
{
    let cb = m.vol.cluster_bytes();
    m.vol.lemma_bounds();
    match m.phase {
        ChainPhase::Done => {
            assert(steps(m, buf, fs, 0) == (m, buf));
            (0, k)
        },
        ChainPhase::Truncated => {
            lemma_needed(m.file, cb, k);
            assert(fat32::is_cluster(chain_at(fs, m.file.first_cluster, k)));
            (0, k)
        },
        _ => {
            let k2 = law_ingest_follows_chain(m, buf, fs, k);
            let (m1, b1) = step(m, buf, fs);
            if m.phase == ChainPhase::Fat || m.phase == ChainPhase::Data {
                m.lemma_run();
            }
            if m.phase == ChainPhase::Progress {
                lemma_advance(m, buf, fs, k);
            }
            let (n, k3) = lemma_ingest_ends(m1, b1, fs, k2);
            assert(steps(m, buf, fs, n + 1) == steps(m1, b1, fs, n));
            (n + 1, k3)
        },
    }
}

proof fn lemma_needed(file: Fat32File, cb: int, k: int)
    requires
        cb > 0,
        0 <= k,
        k * cb < file.size,
    ensures
        k < clusters_of(file, cb),
{
    let n = clusters_of(file, cb);
    vstd::arithmetic::div_mod::lemma_fundamental_div_mod(file.size + cb - 1, cb);
    let r = (file.size + cb - 1) % cb;
    assert(file.size + cb - 1 == cb * n + r);
    assert(k < n) by (nonlinear_arith)
        requires
            k * cb < file.size,
            file.size + cb - 1 == cb * n + r,
            0 <= r < cb,
            cb > 0,
    ;
}

/// A file all of whose clusters are on its chain is read into memory as it is, where no read
/// fails: reading ends, and the file's size of bytes are those that its chain holds.
pub proof fn law_file_is_ingested(vol: Fat32Volume, file: Fat32File, fs: Clusters) -> (r: (nat, int))
    requires
        vol.wf(),
        is_table(fs),
        file.size > 0,
        forall|c: u32| (#[trigger] (fs.content)(c)).len() == vol.cluster_bytes(),
        forall|j: int|
            0 <= j < clusters_of(file, vol.cluster_bytes()) ==> fat32::is_cluster(
                #[trigger] chain_at(fs, file.first_cluster, j),
            ),
    ensures
        ({
            let (m, buf) = steps(ChainIngest::begin(vol, file), Seq::empty(), fs, r.0);
            let all = chain_bytes(fs, file.first_cluster, r.1);
            &&& m.phase == ChainPhase::Done
            &&& m.copied == file.size
            &&& buf.len() >= file.size
            &&& buf.subrange(0, file.size as int) == all.subrange(0, file.size as int)
        }),
{
    let m = ChainIngest::begin(vol, file);
    let cb = vol.cluster_bytes();
    vol.lemma_bounds();
    assert(0 * cb == 0);
    lemma_needed(file, cb, 0);
    assert(fat32::is_cluster(chain_at(fs, file.first_cluster, 0)));
    assert(on_chain(m, Seq::empty(), fs, 0)) by {
        assert forall|j: int| 0 <= j < m.run implies m.run_start + j == #[trigger] chain_at(
            fs,
            file.first_cluster,
            0 + j,
        ) by {
            assert(j == 0);
        }
    }
    let r = lemma_ingest_ends(m, Seq::empty(), fs, 0);
    lemma_chain_len(fs, file.first_cluster, r.1, cb);
    r
}

proof fn lemma_chain_len(fs: Clusters, first: u32, k: int, cb: int)
    requires
        0 <= k,
        forall|c: u32| (#[trigger] (fs.content)(c)).len() == cb,
    ensures
        chain_bytes(fs, first, k).len() == k * cb,
    decreases k,
{
    if k > 0 {
        lemma_chain_len(fs, first, k - 1, cb);
        assert((fs.content)(chain_at(fs, first, k - 1)).len() == cb);
        assert(k * cb == (k - 1) * cb + cb) by (nonlinear_arith);
    } else {
        assert(0 * cb == 0);
    }
}

} // verus!
