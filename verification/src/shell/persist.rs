//! What is remembered from one start of the machine to the next.

use vstd::prelude::*;

use crate::shell::codec;
use crate::shell::codec::Entry;
use crate::shell::history;
use crate::shell::replay;
use crate::shell::session;
use crate::shell::session::Shell;
use crate::storage::append;
use crate::storage::append::Append;
use crate::storage::append_law;
use crate::storage::contents;
use crate::storage::disk;
use crate::storage::ensure::EnsureOp;
use crate::storage::ensure::EnsurePhase;
use crate::storage::ensure_law;
use crate::storage::erase::EraseOp;
use crate::storage::erase::ErasePhase;
use crate::storage::erase_law;
use crate::storage::layout;
use crate::storage::read::Reading;
use crate::storage::read_law;

verus! {

/// What a session remembered and stored is known after a restart. The disk holds the entries
/// of earlier sessions, `a`; the session started from them and has gathered the entries `b`
/// since. Appending what the session gathered succeeds; at the next start the database is made
/// sure of, which keeps it; it then reads out as the entries of all sessions; and what is
/// loaded from that is the session's history, shortened to its capacity. The payloads must end
/// within the sectors counted from the database's header, for a database that goes beyond them
/// is set up afresh at the next start.
#[verifier::rlimit(30)]
pub proof fn law_memory_survives_restart(
    disk: spec_fn(int) -> Seq<u8>,
    db: u64,
    model_start: u64,
    model_last: u64,
    capacity: u64,
    payloads: Seq<Seq<u8>>,
    a: Seq<(bool, Entry)>,
    s: Shell,
    b: Seq<(bool, Entry)>,
    scratch: Seq<u8>,
) -> (r: (Append, spec_fn(int) -> Seq<u8>, EnsureOp, spec_fn(int) -> Seq<u8>))
    requires
        contents::holds(disk, db, payloads),
        contents::joined(payloads) == replay::stored(a),
        session::log_matches(s, codec::replayed(replay::stored(a), Seq::empty()), b),
        s.delta.len() > 0,
        payloads.len() < layout::MEMORY_DB_MAP_MAX_ENTRIES,
        contents::start_of(db as int, payloads, payloads.len() as int) + disk::sectors(
            s.delta.len() as int,
        ) <= db + layout::MEMORY_DB_TOTAL_SECTORS <= capacity,
        replay::stored(a).len() + s.delta.len() <= history::RAM_SHELL_HISTORY_CAP_BYTES,
        scratch.len() == history::RAM_SHELL_HISTORY_CAP_BYTES,
        scratch.subrange(0, (replay::stored(a).len() + s.delta.len()) as int) == replay::stored(a)
            + s.delta,
    ensures
        disk::leads_to(Append::begin(db, Some(capacity), s.delta), disk, r.0, r.1),
        append::append_outcome(r.0) == Some(Ok::<int, ()>(s.delta.len() as int)),
        disk::leads_to(
            EnsureOp::begin(db, model_start, model_last, capacity, None),
            r.1,
            r.2,
            r.3,
        ),
        r.2.phase == EnsurePhase::Done,
        r.2.registered == Some(db),
        read_law::reads_out(
            Reading::begin(db, Some(capacity), scratch.len() as int),
            r.3,
            replay::stored(a) + s.delta,
        ),
        session::loaded((replay::stored(a).len() + s.delta.len()) as i32, scratch)
            == history::shrunk(s.history, 0),
        history::total_payload(s.history) <= history::RAM_SHELL_HISTORY_CAP_BYTES
            ==> history::shrunk(s.history, 0) == s.history,
{
    let all = payloads.push(s.delta);
    let (end, stored) = append_law::law_append_adds_payload(
        disk,
        db,
        capacity,
        payloads,
        s.delta,
    );
    let (kept, later) = ensure_law::law_ensure_keeps_payloads(
        stored,
        db,
        model_start,
        model_last,
        capacity,
        None,
        all,
    );
    read_law::law_read_gives_payloads(later, db, capacity, all, scratch.len() as int);
    assert(all.drop_last() =~= payloads);
    replay::law_replay_of_joined_logs(a, b, Seq::empty());
    (end, stored, kept, later)
}

/// After the database was erased nothing is known at the next start, at which the empty
/// database is made sure of and kept.
pub proof fn law_erased_memory_is_gone(
    disk: spec_fn(int) -> Seq<u8>,
    db: u64,
    model_start: u64,
    model_last: u64,
    capacity: u64,
    payloads: Seq<Seq<u8>>,
    scratch: Seq<u8>,
) -> (r: (EraseOp, spec_fn(int) -> Seq<u8>, EnsureOp, spec_fn(int) -> Seq<u8>))
    requires
        contents::holds(disk, db, payloads),
        db + layout::MEMORY_DB_TOTAL_SECTORS <= capacity,
        0 < scratch.len() <= usize::MAX,
    ensures
        disk::leads_to(EraseOp::begin(db, Some(capacity)), disk, r.0, r.1),
        r.0.phase == ErasePhase::Done,
        disk::leads_to(
            EnsureOp::begin(db, model_start, model_last, capacity, None),
            r.1,
            r.2,
            r.3,
        ),
        r.2.phase == EnsurePhase::Done,
        read_law::reads_out(
            Reading::begin(db, Some(capacity), scratch.len() as int),
            r.3,
            Seq::empty(),
        ),
        session::loaded(0, scratch).len() == 0,
{
    let (end, erased) = erase_law::law_erase_empties(disk, db, capacity, payloads);
    let (kept, later) = ensure_law::law_ensure_keeps_payloads(
        erased,
        db,
        model_start,
        model_last,
        capacity,
        None,
        Seq::empty(),
    );
    read_law::law_read_gives_payloads(later, db, capacity, Seq::empty(), scratch.len() as int);
    (end, erased, kept, later)
}

} // verus!
