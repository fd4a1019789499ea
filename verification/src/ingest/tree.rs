//! Which file a directory tree gives, whatever way it is searched.

use vstd::prelude::*;

use crate::ingest::fat32::Fat32File;

verus! {

/// The number that two bytes hold, the lower first.
pub open spec fn num2(b: Seq<u8>, at: int) -> int {
    b[at] + 256 * b[at + 1]
}

/// The number that four bytes hold, the lowest first.
pub open spec fn num4(b: Seq<u8>, at: int) -> int {
    b[at] + 256 * (b[at + 1] + 256 * (b[at + 2] + 256 * b[at + 3]))
}

/// The 32 bytes of entry `i` of a cluster.
pub open spec fn entry(data: Seq<u8>, i: int) -> Seq<u8> {
    Seq::new(32, |k: int| data[32 * i + k])
}

/// Whether an entry is in use, and no part of a long name.
pub open spec fn in_use(e: Seq<u8>) -> bool {
    e[0] != 0 && e[0] != 229 && e[11] != 15
}

/// The first cluster that an entry names.
pub open spec fn names_cluster(e: Seq<u8>) -> int {
    65536 * num2(e, 20) + num2(e, 26)
}

/// The file that an entry is of, if it is that of a file with contents.
pub open spec fn file(e: Seq<u8>) -> Option<Fat32File> {
    if in_use(e) && e[11] as int / 8 % 2 == 0 && e[11] as int / 16 % 2 == 0 && names_cluster(e) >= 2
        && num4(e, 28) > 0 {
        Some(Fat32File { first_cluster: names_cluster(e) as u32, size: num4(e, 28) as u32 })
    } else {
        None
    }
}

/// The first cluster of the directory that an entry is of, if it is that of one. The entries
/// that begin with a dot are of the directory itself and of the one round it.
pub open spec fn directory(e: Seq<u8>) -> Option<u32> {
    if in_use(e) && e[0] != 46 && e[11] as int / 16 % 2 == 1 && names_cluster(e) >= 2 {
        Some(names_cluster(e) as u32)
    } else {
        None
    }
}

/// Whether the extension in an entry is `GGU` or `GGF`.
pub open spec fn has_extension(e: Seq<u8>) -> bool {
    e[8] == 71 && e[9] == 71 && (e[10] == 85 || e[10] == 70)
}

/// Whether the name in an entry begins with `GGML`, letter case aside.
pub open spec fn has_name(e: Seq<u8>) -> bool {
    (e[0] == 71 || e[0] == 103) && (e[1] == 71 || e[1] == 103) && (e[2] == 77 || e[2] == 109) && (
    e[3] == 76 || e[3] == 108)
}

/// Character `k` of a part of a long name.
pub open spec fn character(e: Seq<u8>, k: int) -> int {
    if k < 5 {
        num2(e, 1 + 2 * k)
    } else if k < 11 {
        num2(e, 4 + 2 * k)
    } else {
        num2(e, 6 + 2 * k)
    }
}

/// Whether a part of a long name has `n` characters, of the 13 that it has room for.
pub open spec fn has_characters(e: Seq<u8>, n: int) -> bool {
    &&& 0 <= n <= 13
    &&& forall|k: int|
        0 <= k < n ==> #[trigger] character(e, k) != 0 && character(e, k) != 65535
    &&& n < 13 ==> character(e, n) == 0 || character(e, n) == 65535
}

/// Whether a character is a letter, in upper or in lower case.
pub open spec fn is_letter(c: int, capital: int) -> bool {
    c == capital || c == capital + 32
}

/// Whether a part of a long name ends with `.gguf`, letter case aside.
pub open spec fn has_suffix(e: Seq<u8>) -> bool {
    e[11] == 15 && exists|n: int|
        #![trigger has_characters(e, n)]
        has_characters(e, n) && n >= 5 && character(e, n - 5) == 46 && is_letter(
            character(e, n - 4),
            71,
        ) && is_letter(character(e, n - 3), 71) && is_letter(character(e, n - 2), 85) && is_letter(
            character(e, n - 1),
            70,
        )
}

/// What reading a volume gives.
pub struct Tree {
    /// What a cluster holds, if it can be read.
    pub cluster: spec_fn(u32) -> Option<Seq<u8>>,
    /// The table entry of a cluster, if it can be read.
    pub table: spec_fn(u32) -> Option<u32>,
    /// Whether the first sector of a cluster can be read and starts as a model does.
    pub magic: spec_fn(u32) -> bool,
}

/// The entries of a directory, up to where it ends or can be read no further.
pub struct Listing {
    pub entries: Seq<Seq<u8>>,
    /// Whether they are all that there are.
    pub whole: bool,
}

/// The entries of a cluster from entry `i` on, up to one that ends the directory.
pub open spec fn entries_from(data: Seq<u8>, i: int) -> Seq<Seq<u8>>
    decreases data.len() - 32 * i,
{
    if i < 0 || 32 * i + 32 > data.len() || entry(data, i)[0] == 0 {
        Seq::empty()
    } else {
        seq![entry(data, i)] + entries_from(data, i + 1)
    }
}

/// Whether an entry of a cluster, from entry `i` on, ends the directory.
pub open spec fn ends_from(data: Seq<u8>, i: int) -> bool
    decreases data.len() - 32 * i,
{
    if i < 0 || 32 * i + 32 > data.len() {
        false
    } else {
        entry(data, i)[0] == 0 || ends_from(data, i + 1)
    }
}

/// The entries of a directory from `cluster` on, of which `seen` clusters come before.
pub open spec fn listing(t: Tree, cluster: u32, seen: int) -> Listing
    decreases 4096 - seen,
{
    if cluster < 2 || cluster >= 0x0fff_fff8 || seen >= 4096 {
        Listing { entries: Seq::empty(), whole: true }
    } else {
        match (t.cluster)(cluster) {
            Some(data) => if ends_from(data, 0) {
                Listing { entries: entries_from(data, 0), whole: true }
            } else {
                match (t.table)(cluster) {
                    Some(next) => {
                        let rest = listing(t, next, seen + 1);
                        Listing {
                            entries: entries_from(data, 0) + rest.entries,
                            whole: rest.whole,
                        }
                    },
                    None => Listing { entries: entries_from(data, 0), whole: false },
                }
            },
            None => Listing { entries: Seq::empty(), whole: false },
        }
    }
}

/// Whether an entry is that of a file with the preferred short name.
pub open spec fn is_preferred(e: Seq<u8>) -> bool {
    file(e) is Some && has_extension(e) && has_name(e)
}

/// The first file with the preferred short name.
pub open spec fn first_preferred(es: Seq<Seq<u8>>) -> Option<Fat32File>
    decreases es.len(),
{
    if es.len() == 0 {
        None
    } else {
        match first_preferred(es.drop_last()) {
            Some(f) => Some(f),
            None => if is_preferred(es.last()) {
                file(es.last())
            } else {
                None
            },
        }
    }
}

/// Whether the parts of a long name that the entries end with say that a model follows.
pub open spec fn long_name_says(es: Seq<Seq<u8>>) -> bool
    decreases es.len(),
{
    es.len() > 0 && es.last()[11] == 15 && (has_suffix(es.last()) || long_name_says(
        es.drop_last(),
    ))
}

/// Whether the last of the entries is that of a model, by its short name, by its long name or
/// by how the file starts.
pub open spec fn ends_with_model(t: Tree, es: Seq<Seq<u8>>) -> bool {
    &&& file(es.last()) matches Some(f)
    &&& has_extension(es.last()) || long_name_says(es.drop_last()) || (t.magic)(
        f.first_cluster,
    )
}

/// The first model.
pub open spec fn first_model(t: Tree, es: Seq<Seq<u8>>) -> Option<Fat32File>
    decreases es.len(),
{
    if es.len() == 0 {
        None
    } else {
        match first_model(t, es.drop_last()) {
            Some(f) => Some(f),
            None => if ends_with_model(t, es) {
                file(es.last())
            } else {
                None
            },
        }
    }
}

/// The first of the largest files of more than a gibibyte.
pub open spec fn largest(es: Seq<Seq<u8>>) -> Option<Fat32File>
    decreases es.len(),
{
    if es.len() == 0 {
        None
    } else {
        let before = largest(es.drop_last());
        match file(es.last()) {
            Some(f) => if f.size > 0x4000_0000 && (before matches Some(g) ==> f.size > g.size) {
                Some(f)
            } else {
                before
            },
            None => before,
        }
    }
}

/// The first subdirectories, as many as are looked at.
pub open spec fn subdirs(es: Seq<Seq<u8>>) -> Seq<u32>
    decreases es.len(),
{
    if es.len() == 0 {
        Seq::empty()
    } else {
        let before = subdirs(es.drop_last());
        match directory(es.last()) {
            Some(c) => if file(es.last()) is None && before.len() < 16 {
                before.push(c)
            } else {
                before
            },
            None => before,
        }
    }
}

/// The file in `a`, or else that in `b`.
pub open spec fn or_else(a: Option<Fat32File>, b: Option<Fat32File>) -> Option<Fat32File> {
    match a {
        Some(f) => Some(f),
        None => b,
    }
}

/// What the first of the directories `dirs` that gives a file gives, from `dirs[k]` on. They
/// are in a directory at depth `depth`.
pub open spec fn first_below(t: Tree, dirs: Seq<u32>, k: int, depth: int) -> Option<Fat32File>
    decreases 4 + 1 - depth, 0int, dirs.len() - k,
{
    if depth < 0 || depth >= 4 || k < 0 || k >= dirs.len() {
        None
    } else {
        or_else(dir_model(t, dirs[k], depth + 1), first_below(t, dirs, k + 1, depth))
    }
}

/// The file that the directory from `cluster` on gives, at depth `depth`: the first with the
/// preferred short name; else, unless the directory cannot be read to its end, the first that
/// a subdirectory gives; else the first by name or by how it starts; else the largest of more
/// than a gibibyte.
pub open spec fn dir_model(t: Tree, cluster: u32, depth: int) -> Option<Fat32File>
    decreases 4 + 1 - depth, 1int, 0int,
{
    let l = listing(t, cluster, 0);
    match first_preferred(l.entries) {
        Some(f) => Some(f),
        None => if !l.whole {
            None
        } else {
            or_else(
                first_below(t, subdirs(l.entries), 0, depth),
                or_else(first_model(t, l.entries), largest(l.entries)),
            )
        },
    }
}

} // verus!
