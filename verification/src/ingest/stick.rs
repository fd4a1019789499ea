//! What a storage device holds: the volumes on it, and the model that is taken from it.

use vstd::prelude::*;

use crate::ingest::chain_law;
use crate::ingest::chain_law::Clusters;
use crate::ingest::fat32::Fat32File;
use crate::ingest::task::Task;
use crate::ingest::task::TaskRequest;
use crate::ingest::tree;
use crate::ingest::tree::Tree;

verus! {

/// A device with blocks of `size` bytes. Block numbers have 32 bits.
pub struct Stick {
    pub size: int,
    pub block: spec_fn(int) -> Seq<u8>,
}

/// Byte `i` of what stands from block `first` on.
pub open spec fn byte(s: Stick, first: int, i: int) -> u8 {
    (s.block)((first + i / s.size) % 0x1_0000_0000)[i % s.size]
}

/// Whether a FAT32 volume begins with block `base`.
pub open spec fn is_volume(s: Stick, base: int) -> bool {
    let b = (s.block)(base);
    &&& b[510] == 85
    &&& b[511] == 170
    &&& tree::num2(b, 11) > 0
    &&& tree::num2(b, 11) % s.size == 0
    &&& b[13] > 0
    &&& tree::num2(b, 14) > 0
    &&& b[16] > 0
    &&& tree::num4(b, 36) > 0
    &&& tree::num4(b, 44) >= 2
    &&& b[82] == 70 && b[83] == 65 && b[84] == 84 && b[85] == 51 && b[86] == 50
    &&& b[87] == 32 && b[88] == 32 && b[89] == 32
}

/// How many bytes a cluster of the volume at `base` has.
pub open spec fn cluster_size(s: Stick, base: int) -> int {
    let b = (s.block)(base);
    tree::num2(b, 11) * b[13]
}

/// How many blocks a sector of the volume at `base` has.
pub open spec fn sector_blocks(s: Stick, base: int) -> int {
    tree::num2((s.block)(base), 11) / s.size
}

/// The first block of a cluster of the volume at `base`: behind the reserved sectors, the
/// copies of the table and the clusters before it, of which the first has the number 2.
pub open spec fn first_block(s: Stick, base: int, cluster: int) -> int {
    let b = (s.block)(base);
    base + (tree::num2(b, 14) + b[16] * tree::num4(b, 36) + (cluster - 2) * b[13]) * sector_blocks(
        s,
        base,
    )
}

/// What a cluster of the volume at `base` holds.
pub open spec fn cluster(s: Stick, base: int, number: int) -> Seq<u8> {
    Seq::new(
        cluster_size(s, base) as nat,
        |i: int| byte(s, first_block(s, base, number), i),
    )
}

/// The first block of the table of the volume at `base`: behind the reserved sectors.
pub open spec fn table_block(s: Stick, base: int) -> int {
    base + tree::num2((s.block)(base), 14) * sector_blocks(s, base)
}

/// What the table of the volume at `base` says of a cluster: four bytes for each, of which 28
/// bits count.
pub open spec fn table_entry(s: Stick, base: int, number: int) -> int {
    let t = table_block(s, base);
    let i = 4 * number;
    (byte(s, t, i) + 256 * (byte(s, t, i + 1) + 256 * (byte(s, t, i + 2) + 256 * byte(s, t, i + 3))))
        % 0x1000_0000
}

/// Whether bytes begin as a model does.
pub open spec fn is_model(b: Seq<u8>) -> bool {
    b[0] == 71 && b[1] == 71 && b[2] == 85 && b[3] == 70
}

/// What reading the volume at `base` gives.
pub open spec fn tree_of(s: Stick, base: int) -> Tree {
    Tree {
        cluster: |c: u32| Some(cluster(s, base, c as int)),
        table: |c: u32| Some(table_entry(s, base, c as int) as u32),
        magic: |c: u32| is_model(cluster(s, base, c as int)),
    }
}

/// The table and the clusters of the volume at `base`.
pub open spec fn clusters_of(s: Stick, base: int) -> Clusters {
    Clusters {
        table: |c: u32| table_entry(s, base, c as int) as u32,
        content: |c: u32| cluster(s, base, c as int),
    }
}

/// A model on a device.
pub enum Model {
    /// A file of the volume at `base`.
    File { base: int, file: Fat32File },
    /// What stands from a block on.
    Raw { base: int },
}

/// The blocks that a volume or a model may begin with: that of the first partition, if the
/// device's first block says that it is one of FAT32, and block 2048.
pub open spec fn places(s: Stick) -> Seq<u32> {
    let b = (s.block)(0);
    if (b[450] == 11 || b[450] == 12) && tree::num4(b, 454) > 0 {
        seq![tree::num4(b, 454) as u32, 2048]
    } else {
        seq![2048]
    }
}

/// The model of the device that is found first, from place `k` on.
pub open spec fn model_from(s: Stick, k: int) -> Option<Model>
    decreases places(s).len() - k,
{
    if k < 0 || k >= places(s).len() {
        None
    } else {
        let base = places(s)[k] as int;
        if is_model((s.block)(base)) {
            Some(Model::Raw { base })
        } else if is_volume(s, base) {
            match tree::dir_model(
                tree_of(s, base),
                tree::num4((s.block)(base), 44) as u32,
                0,
            ) {
                Some(file) => Some(Model::File { base, file }),
                None => model_from(s, k + 1),
            }
        } else {
            model_from(s, k + 1)
        }
    }
}

/// How many bytes a model has. One that is no file has as many as the one that is known.
pub open spec fn model_size(m: Model) -> int {
    match m {
        Model::File { base, file } => file.size as int,
        Model::Raw { base } => 1_187_801_280,
    }
}

/// Byte `i` of a model: of a file, in the clusters that its chain comes to.
pub open spec fn model_byte(s: Stick, m: Model, i: int) -> u8 {
    match m {
        Model::File { base, file } => cluster(
            s,
            base,
            chain_law::chain_at(
                clusters_of(s, base),
                file.first_cluster,
                i / cluster_size(s, base),
            ) as int,
        )[i % cluster_size(s, base)],
        Model::Raw { base } => byte(s, base, i),
    }
}

/// Whether the chain of a file is long enough for its bytes.
pub open spec fn is_whole(s: Stick, base: int, file: Fat32File) -> bool {
    forall|i: int|
        #![trigger chain_law::chain_at(clusters_of(s, base), file.first_cluster, i)]
        0 <= i && i * cluster_size(s, base) < file.size ==> 2 <= chain_law::chain_at(
            clusters_of(s, base),
            file.first_cluster,
            i,
        ) < 0x0fff_fff8
}

/// Whether `d` begins with what stands in `blocks` blocks from block `lba` on, as far as `len`
/// bytes go.
pub open spec fn has_read(s: Stick, d: Seq<u8>, lba: int, blocks: int, len: int) -> bool {
    forall|k: int| 0 <= k < len && k < blocks * s.size ==> #[trigger] d[k] == byte(s, lba, k)
}

/// Whether a request is answered as the device is: blocks are read into a buffer of their
/// length, single sectors into the first bytes of one of 4096, the model into memory. There is
/// memory, and no read fails.
pub open spec fn answered(
    s: Stick,
    m: Task,
    reply: Option<Seq<u8>>,
    memory: spec_fn(int) -> u8,
    later: spec_fn(int) -> u8,
) -> bool {
    match m.request() {
        TaskRequest::Read(r) => {
            &&& reply matches Some(d) && d.len() == r.len && has_read(
                s,
                d,
                r.lba as int,
                r.blocks as int,
                r.len as int,
            )
            &&& later == memory
        },
        TaskRequest::ReadSector(r) => {
            &&& r.len <= 4096
            &&& reply matches Some(d) && d.len() == 4096 && has_read(
                s,
                d,
                r.lba as int,
                r.blocks as int,
                r.len as int,
            )
            &&& later == memory
        },
        TaskRequest::ReadModel { read, offset } => {
            &&& reply matches Some(d) && d.len() == read.len
            &&& forall|k: int|
                0 <= k < read.len && k < read.blocks * s.size ==> #[trigger] later(offset + k)
                    == byte(s, read.lba as int, k)
            &&& forall|x: int|
                x < offset || x >= offset + read.len ==> #[trigger] later(x) == memory(x)
        },
        TaskRequest::Allocate { size, align } => reply is Some && later == memory,
        TaskRequest::Progress { done, total } => later == memory,
        TaskRequest::Done => false,
    }
}

/// Answers to each request of a task in turn.
pub open spec fn is_run(
    s: Stick,
    ts: Seq<Task>,
    replies: Seq<Option<Seq<u8>>>,
    memories: Seq<spec_fn(int) -> u8>,
) -> bool {
    &&& ts.len() == replies.len() + 1
    &&& memories.len() == replies.len() + 1
    &&& forall|i: int|
        0 <= i < replies.len() ==> {
            &&& ts[i + 1] == #[trigger] ts[i].after(replies[i])
            &&& answered(s, ts[i], replies[i], memories[i], memories[i + 1])
        }
}

} // verus!
