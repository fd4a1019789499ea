//! Whatever the disk answers, the work on it comes to an end.

use vstd::prelude::*;

use crate::storage::append::Append;
use crate::storage::append::AppendPhase;
use crate::storage::disk;
use crate::storage::disk::DiskOp;
use crate::storage::ensure;
use crate::storage::ensure::EnsureOp;
use crate::storage::ensure::EnsurePhase;
use crate::storage::erase::EraseOp;
use crate::storage::erase::ErasePhase;
use crate::storage::layout;
use crate::storage::load_model::LoadModelOp;
use crate::storage::load_model::LoadPhase;
use crate::storage::model_cache;
use crate::storage::opening::OpenPhase;
use crate::storage::opening::Opening;
use crate::storage::read::ReadPhase;
use crate::storage::read::Reading;
use crate::storage::write_model::WriteModelOp;
use crate::storage::write_model::WritePhase;

verus! {

/// A bound on the accesses that opening a database still makes.
pub open spec fn opening_left(o: Opening) -> int {
    match o.phase {
        OpenPhase::Header => layout::MEMORY_DB_MAP_MAX_ENTRIES + 2,
        OpenPhase::MapHeader => layout::MEMORY_DB_MAP_MAX_ENTRIES + 1,
        OpenPhase::Entry => o.rec.mapped - o.rec.recovered,
        _ => 0,
    }
}

/// A bound on the accesses that appending still makes.
pub open spec fn append_left(a: Append) -> int {
    match a.phase {
        AppendPhase::Open => opening_left(a.opening) + a.data.len() + 5,
        AppendPhase::Data => a.data.len() - a.done + 4,
        AppendPhase::EntrySector => 4,
        AppendPhase::EntryWrite => 3,
        AppendPhase::MapHeaderWrite => 2,
        AppendPhase::HeaderWrite => 1,
        _ => 0,
    }
}

/// A bound on the accesses that reading still makes.
pub open spec fn read_left(r: Reading) -> int {
    match r.phase {
        ReadPhase::Open => opening_left(r.opening) + 2 * layout::MEMORY_DB_MAP_MAX_ENTRIES + r.room
            - r.out.len(),
        ReadPhase::Entry => 2 * r.left + r.room - r.out.len(),
        ReadPhase::Data => 2 * r.left - 1 + r.room - r.out.len(),
        _ => 0,
    }
}

/// A bound on the accesses that erasing still makes.
pub open spec fn erase_left(e: EraseOp) -> int {
    match e.phase {
        ErasePhase::Header => layout::MEMORY_DB_TOTAL_SECTORS + 3,
        ErasePhase::Zero => e.end() - e.lba + 2,
        ErasePhase::MapHeader => 2,
        ErasePhase::HeaderWrite => 1,
        _ => 0,
    }
}

/// A bound on the accesses that setting up a database makes.
pub open spec fn fresh_bound() -> int {
    layout::MEMORY_DB_MAP_SECTORS + 3
}

/// A bound on the accesses that making sure of a database makes.
pub open spec fn ensure_bound() -> int {
    layout::MEMORY_DB_MAP_MAX_ENTRIES + 4 + fresh_bound()
}

/// A bound on the accesses that making sure of a database still makes.
pub open spec fn ensure_left(e: EnsureOp) -> int {
    match e.phase {
        EnsurePhase::Existing => ensure_bound(),
        EnsurePhase::Probe => ensure_bound() - 1,
        EnsurePhase::MapHeader => ensure_bound() - 2,
        EnsurePhase::Entry => fresh_bound() + e.rec.mapped - e.rec.recovered,
        EnsurePhase::KeepMap => 2,
        EnsurePhase::KeepHeader => 1,
        EnsurePhase::ZeroMap => fresh_bound() - e.zeroed,
        EnsurePhase::FreshMap => 3,
        EnsurePhase::FreshHeader => 2,
        EnsurePhase::Verify => 1,
        _ => 0,
    }
}

/// A bound on the steps that loading a cached model still takes.
pub open spec fn load_left(l: LoadModelOp) -> int {
    let rest = model_cache::MAX_RAW_MODEL_SIZE + 1;
    match l.phase {
        LoadPhase::Header => rest + ensure_bound() + 3,
        LoadPhase::LastSector => rest + ensure_bound() + 2,
        LoadPhase::Probe => rest + ensure_bound() + 1,
        LoadPhase::Ensure => rest + ensure_left(l.ensure),
        LoadPhase::Allocate => rest,
        LoadPhase::Chunk => l.model_size - l.offset,
        _ => 0,
    }
}

/// A bound on the steps that writing a model to the cache still takes.
pub open spec fn write_left(w: WriteModelOp) -> int {
    match w.phase {
        WritePhase::SmokeWrite => w.model_size + ensure_bound() + 5,
        WritePhase::SmokeRead => w.model_size + ensure_bound() + 4,
        WritePhase::WritingHeader => w.model_size + ensure_bound() + 3,
        WritePhase::Chunk => w.model_size - w.offset + ensure_bound() + 1,
        WritePhase::ReadyHeader => ensure_bound() + 1,
        WritePhase::Ensure => ensure_left(w.ensure),
        _ => 0,
    }
}

proof fn lemma_opening(o: Opening, reply: Option<Seq<u8>>)
    requires
        o.wf(),
        o.phase != OpenPhase::Opened,
        o.phase != OpenPhase::Refused,
    ensures
        0 <= opening_left(o.after(reply)) < opening_left(o),
{
}

/// Whatever the disk answers, each access brings appending closer to its end.
pub proof fn law_append_ends(a: Append, reply: Option<Seq<u8>>)
    requires
        a.wf(),
        a.phase != AppendPhase::Done,
        a.phase != AppendPhase::Failed,
    ensures
        0 <= append_left(a.after(reply)) < append_left(a),
{
    if a.phase == AppendPhase::Open {
        lemma_opening(a.opening, reply);
    }
}

/// Whatever the disk answers, each access brings reading closer to its end.
pub proof fn law_read_ends(r: Reading, reply: Option<Seq<u8>>)
    requires
        r.wf(),
        r.phase != ReadPhase::Done,
        r.phase != ReadPhase::Failed,
        disk::fits(r.request(), reply),
    ensures
        0 <= read_left(r.after(reply)) < read_left(r),
{
    if r.phase == ReadPhase::Open {
        lemma_opening(r.opening, reply);
    }
}

/// Whatever the disk answers, each access brings erasing closer to its end.
pub proof fn law_erase_ends(e: EraseOp, reply: Option<Seq<u8>>)
    requires
        e.wf(),
        e.phase != ErasePhase::Done,
        e.phase != ErasePhase::Failed,
    ensures
        0 <= erase_left(e.after(reply)) < erase_left(e),
{
}

/// Whatever the disk answers, each access brings making sure of a database closer to its
/// end.
pub proof fn law_ensure_answers_end(e: EnsureOp, reply: Option<Seq<u8>>)
    requires
        e.wf(),
        !ensure::is_over(e),
    ensures
        0 <= ensure_left(e.after(reply)) < ensure_left(e) <= ensure_bound(),
{
    reveal(EnsureOp::answered);
}

/// Whatever the disk answers, each step brings loading a cached model closer to its end.
pub proof fn law_load_ends(l: LoadModelOp, reply: Option<Seq<u8>>)
    requires
        l.wf(),
        l.phase != LoadPhase::Done,
        l.phase != LoadPhase::Failed,
    ensures
        0 <= load_left(l.after(reply)) < load_left(l),
{
    if l.phase == LoadPhase::Ensure {
        law_ensure_answers_end(l.ensure, reply);
    }
}

/// Whatever the disk answers, each step brings writing a model to the cache closer to its
/// end.
pub proof fn law_write_ends(w: WriteModelOp, reply: Option<Seq<u8>>)
    requires
        w.wf(),
        w.phase != WritePhase::Done,
        w.phase != WritePhase::Failed,
    ensures
        0 <= write_left(w.after(reply)) < write_left(w),
{
    if w.phase == WritePhase::Ensure {
        law_ensure_answers_end(w.ensure, reply);
    }
}

} // verus!
