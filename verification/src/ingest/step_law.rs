//! How taking a model in goes on where reads fail, how much is read at once, and what is told
//! of it, in plain numbers.

use vstd::prelude::*;

use crate::ingest::chain;
use crate::ingest::chain::ChainIngest;
use crate::ingest::chain::ChainPhase;
use crate::ingest::raw;
use crate::ingest::raw::RawIngest;
use crate::ingest::raw::RawPhase;
use crate::ingest::search::BlockRead;
use crate::ingest::split_read;
use crate::ingest::split_read::Piece;
use crate::ingest::split_read::Split;
use crate::ingest::split_read::SplitRequest;
use crate::ingest::task::ModelSource;
use crate::ingest::task::PortScan;
use crate::ingest::task::ScanPhase;
use crate::ingest::task::ScanRequest;
use crate::ingest::task::Task;
use crate::ingest::task::TaskPhase;
use crate::ingest::task::TaskRequest;

verus! {

/// A port is looked at in steps: whether something is connected, then the device, then the
/// storage. A device is given up once the model was taken in, and where it is no storage; the
/// next port comes where there is nothing, or nothing to be had.
pub proof fn law_ports_are_looked_at(m: PortScan, ok: bool)
    requires
        m.port < m.ports,
    ensures
        ({
            let next = PortScan {
                ports: m.ports,
                port: if m.port + 1 < m.ports {
                    (m.port + 1) as u8
                } else {
                    m.port
                },
                phase: if m.port + 1 < m.ports {
                    ScanPhase::Connection
                } else {
                    ScanPhase::Done { found: false }
                },
            };
            &&& m.phase is Connection ==> m.request() == ScanRequest::IsConnected(m.port)
                && m.after(true).request() == ScanRequest::MakeDevice(m.port) && m.after(false)
                == next
            &&& m.phase is Device ==> m.request() == ScanRequest::MakeDevice(m.port) && m.after(
                true,
            ).request() == ScanRequest::MakeStorage(m.port) && m.after(false) == next
            &&& m.phase is Storage ==> m.request() == ScanRequest::MakeStorage(m.port) && m.after(
                true,
            ).request() == ScanRequest::TakeIn(m.port) && m.after(false).request()
                == ScanRequest::GiveUp(m.port) && m.after(false).after(ok) == next
            &&& m.phase is TakeIn ==> m.request() == ScanRequest::TakeIn(m.port) && m.after(
                ok,
            ).request() == ScanRequest::GiveUp(m.port) && m.after(ok).after(ok).phase == (
            ScanPhase::Done { found: true })
            &&& PortScan::begin(m.ports).request() == ScanRequest::IsConnected(0)
            &&& PortScan::begin(0).phase == (ScanPhase::Done { found: false })
        }),
{
}

/// The memory for a model is as many whole pieces of 4 MiB as it takes, at a page. A model in a
/// file has the size of the file; any other is taken to have the size of the one that is known.
pub proof fn law_memory_is_asked_for(m: Task)
    requires
        m.phase == TaskPhase::Allocate,
    ensures
        ({
            let size: int = match m.source {
                ModelSource::File(v, f) => f.size as int,
                _ => 1_187_801_280,
            };
            m.request() matches TaskRequest::Allocate { size: s, align } && {
                &&& align == 4096
                &&& s % 4_194_304 == 0
                &&& size <= s < size + 4_194_304
            }
        }),
        m.after(None).phase == TaskPhase::Failed,
{
}

/// Where the boot record cannot be read, block 2048 is looked at; where a place cannot be read,
/// the next one is. Once the model is being read, a read that fails makes it all fail.
pub proof fn law_failed_reads(m: Task)
    ensures
        m.phase == TaskPhase::BootRecord ==> m.after(None).bases == seq![2048u32] && m.after(
            None,
        ).index == 0 && m.after(None).phase == TaskPhase::Probe,
        m.phase == TaskPhase::BootRecord ==> m.request() == TaskRequest::ReadSector(
            (BlockRead { lba: 0, blocks: 1, len: m.block_size }),
        ),
        m.phase == TaskPhase::Probe ==> m.request() == TaskRequest::ReadSector(
            (BlockRead { lba: m.bases[m.index], blocks: 1, len: m.block_size }),
        ),
        m.phase == TaskPhase::Probe && m.index + 1 < m.bases.len() ==> m.after(None) == (Task {
            index: m.index + 1,
            ..m
        }),
        m.phase == TaskPhase::Probe && m.index + 1 >= m.bases.len() ==> m.after(None).phase
            == TaskPhase::Allocate && m.after(None).source == ModelSource::Nowhere,
        m.phase == TaskPhase::Chain && m.chain.phase == ChainPhase::Data ==> m.after(None).phase
            == TaskPhase::Failed,
        m.phase == TaskPhase::Raw && m.raw.phase == RawPhase::Read ==> m.after(None).phase
            == TaskPhase::Failed,
        m.phase == TaskPhase::Done || m.phase == TaskPhase::Failed ==> m.request()
            == TaskRequest::Done,
{
}

/// Where an entry of the table cannot be read, the clusters that are known are read still; and
/// if that was not all of the file, reading ends there.
pub proof fn law_unreadable_chain(m: ChainIngest, data: Seq<u8>)
    requires
        m.phase == ChainPhase::Fat,
    ensures
        m.after(None) == (ChainIngest { next: None, phase: ChainPhase::Data, ..m }),
        ({
            let d = m.after(None).after(Some(data));
            let e = if d.phase == ChainPhase::Progress {
                d.after(Some(data))
            } else {
                d
            };
            let all = m.copied + m.run * m.vol.cluster_bytes();
            &&& 0 <= all < m.file.size ==> e.phase == ChainPhase::ChainError && e.copied == all
            &&& all >= m.file.size ==> e.phase == ChainPhase::Done && e.copied == m.file.size
        }),
{
}

/// Progress is told at the first read that comes to a multiple of 512 MiB which was not told
/// of, and at the end: how much there is of how much.
pub proof fn law_progress_is_told(m: Task, data: Seq<u8>)
    requires
        m.phase == TaskPhase::Chain,
    ensures
        m.chain.phase == ChainPhase::Progress ==> m.request() == (TaskRequest::Progress {
            done: m.chain.copied,
            total: m.chain.file.size as u64,
        }),
        m.chain.phase == ChainPhase::Data ==> ({
            let end = m.chain.copied + m.chain.run * m.chain.vol.cluster_bytes();
            let copied = if end < m.chain.file.size {
                end
            } else {
                m.chain.file.size as int
            };
            (m.chain.after(Some(data)).phase == ChainPhase::Progress) == (copied
                >= m.chain.next_progress || end >= m.chain.file.size)
        }),
        m.chain.phase == ChainPhase::Data ==> (m.request() matches TaskRequest::ReadModel {
            read,
            offset,
        } && offset == m.chain.copied),
{
}

/// The multiple of 512 MiB at which progress is told next is the first behind what is done,
/// unless one behind it was fixed before; the first is 512 MiB itself.
pub proof fn law_next_progress(next: int, done: int)
    requires
        0 <= done,
    ensures
        next > done ==> chain::progress_after(next, done) == next,
        next <= done ==> ({
            let p = chain::progress_after(next, done);
            p % 536_870_912 == 0 && done < p <= done + 536_870_912
        }),
        forall|v, f|
            #![trigger ChainIngest::begin(v, f)]
            ChainIngest::begin(v, f).next_progress == 536_870_912,
        forall|lba, b, size|
            #![trigger RawIngest::begin(lba, b, size)]
            RawIngest::begin(lba, b, size).next_progress == 536_870_912,
{
}

/// A raw model is read up to 4 MiB at once, and no more than 65535 blocks; each read goes on
/// where the one before ended.
pub proof fn law_raw_model_is_read(m: RawIngest)
    requires
        m.phase == RawPhase::Read,
        0 < m.block_size <= 4096,
        m.size <= 0x1_0000_0000,
        m.done < m.total(),
    ensures
        ({
            let b = m.block_size as int;
            let most: int = if 4_194_304int / b <= 65535 {
                4_194_304int / b
            } else {
                65535
            };
            let left = (m.size + b - 1) / b - m.done;
            let n = if left <= most {
                left
            } else {
                most
            };
            &&& m.request() matches Some(r) && r.blocks == n && r.len == n * b && r.lba == (
            m.start_lba + m.done) % 0x1_0000_0000
            &&& m.after(true).done == m.done + n
            &&& m.after(true).phase != RawPhase::Failed
            &&& m.after(false).phase == RawPhase::Failed
            &&& (m.after(true).phase == RawPhase::Progress) == ((m.done + n) * b >= m.next_progress
                || n == left)
        }),
{
    let b = m.block_size as int;
    raw::lemma_burst(b);
    assert(65535 * b / b == 65535) by (nonlinear_arith)
        requires
            b > 0,
    ;
    assert(4_194_304 <= 65535 * b ==> 4_194_304int / b <= 65535) by (nonlinear_arith)
        requires
            b > 0,
    ;
    assert(4_194_304 > 65535 * b ==> 4_194_304int / b >= 65535) by (nonlinear_arith)
        requires
            b > 0,
    ;
    let n = m.count();
    assert(0 <= n * b <= 0x40_0000) by (nonlinear_arith)
        requires
            0 <= n <= raw::burst_blocks(b),
            raw::burst_blocks(b) * b <= 0x40_0000,
            b > 0,
    ;
}

/// A read that fails is tried twice more as it is. Then it is cut in two: the first half of its
/// blocks, rounded down, with their bytes, and then the rest; a single block that fails three
/// times makes it all fail.
pub proof fn law_failed_read_is_tried_again(m: Split)
    requires
        !m.failed,
        m.pieces.len() > 0,
        m.pieces.last().blocks > 0,
        m.pieces.last().offset + m.pieces.last().len <= usize::MAX,
        m.attempt == 0,
    ensures
        ({
            let p = m.pieces.last();
            let again = m.after(false);
            let last = again.after(false);
            let cut = last.after(false);
            let half = p.blocks as int / 2;
            let bytes = half * (p.len as int / p.blocks as int);
            &&& m.request() == SplitRequest::Read(p)
            &&& again.request() == SplitRequest::Read(p) && again.pieces == m.pieces
            &&& last.request() == SplitRequest::Read(p) && last.pieces == m.pieces
            &&& p.blocks == 1 ==> cut.request() == SplitRequest::Done(false)
            &&& p.blocks > 1 ==> {
                &&& cut.request() == SplitRequest::Read(
                    Piece {
                        lba: p.lba,
                        blocks: half as u16,
                        offset: p.offset,
                        len: bytes as usize,
                    },
                )
                &&& cut.after(true).request() == SplitRequest::Read(
                    Piece {
                        lba: ((p.lba + half) % 0x1_0000_0000) as u32,
                        blocks: (p.blocks - half) as u16,
                        offset: (p.offset + bytes) as usize,
                        len: (p.len - bytes) as usize,
                    },
                )
                &&& cut.after(true).after(true).pieces == m.pieces.drop_last()
                &&& cut.attempt == 0
            }
            &&& m.after(true).pieces == m.pieces.drop_last() && m.after(true).attempt == 0
            &&& last.after(true).pieces == m.pieces.drop_last() && last.after(true).attempt == 0
        }),
{
    let p = m.pieces.last();
    let cut = m.after(false).after(false).after(false);
    if p.blocks > 1 {
        let b = split_read::second_half(p);
        let base = m.pieces.drop_last();
        assert(cut.pieces.drop_last() =~= base.push(b));
        assert(base.push(b).drop_last() =~= base);
    }
}

} // verus!
