//! What is written to a disk is read back from it.

use vstd::prelude::*;

use crate::storage::ahci;
use crate::storage::disk;

verus! {

/// The first sector that the register FIS of a transfer names.
pub open spec fn named_sector(fis: Seq<u8>) -> int {
    fis[4] + 0x100 * fis[5] + 0x1_0000 * fis[6] + 0x100_0000 * fis[8] + 0x1_0000_0000 * fis[9]
        + 0x100_0000_0000 * fis[10]
}

/// How many sectors the register FIS of a transfer names.
pub open spec fn named_count(fis: Seq<u8>) -> int {
    fis[12] + 0x100 * fis[13]
}

/// What a disk that does as it is told makes of itself and of the memory that a transfer
/// names: a write takes the sectors from the memory, a read puts them there.
pub open spec fn obeyed(fis: Seq<u8>, disk: spec_fn(int) -> Seq<u8>, memory: Seq<u8>) -> (
    spec_fn(int) -> Seq<u8>,
    Seq<u8>,
) {
    if fis[2] == 0x35 {
        (disk::written(disk, named_sector(fis), memory.take(named_count(fis) * 512)), memory)
    } else if fis[2] == 0x25 {
        (disk, disk::span(disk, named_sector(fis), named_count(fis)))
    } else {
        (disk, memory)
    }
}

/// Reading sectors gives back the bytes that were written to them, if nothing was written to
/// them since; writing touches no other sectors, and reading none.
pub proof fn law_read_gives_back_write(
    disk: spec_fn(int) -> Seq<u8>,
    later: spec_fn(int) -> Seq<u8>,
    lba: u64,
    count: u16,
    src: Seq<u8>,
    memory: Seq<u8>,
)
    requires
        lba < 0x1_0000_0000_0000,
        0 < count <= 8192,
        src.len() == count * 512,
        forall|i: int|
            lba <= i < lba + count ==> #[trigger] later(i) == (obeyed(
                ahci::transfer_fis(lba, count, true),
                disk,
                src,
            ).0)(i),
    ensures
        obeyed(ahci::transfer_fis(lba, count, false), later, memory) == (later, src),
        forall|i: int|
            i < lba || i >= lba + count ==> #[trigger] (obeyed(
                ahci::transfer_fis(lba, count, true),
                disk,
                src,
            ).0)(i) == disk(i),
        obeyed(ahci::transfer_fis(lba, count, true), disk, src).1 == src,
{
    ahci::law_transfer_names_sectors(lba, count, true);
    ahci::law_transfer_names_sectors(lba, count, false);
    let w = ahci::transfer_fis(lba, count, true);
    let r = ahci::transfer_fis(lba, count, false);
    assert(w[2] == 0x35 && r[2] == 0x25);
    assert(src.take(count * 512) =~= src);
    let d = disk::written(disk, lba as int, src);
    let got = disk::span(later, lba as int, count as int);
    assert forall|k: int| 0 <= k < got.len() implies got[k] == #[trigger] src[k] by {
        let i = k / 512;
        assert(0 <= i < count);
        assert(later(lba + i) == d(lba + i));
        assert(src.subrange(i * 512, i * 512 + 512)[k % 512] == src[k]);
    }
    assert(got =~= src);
}

} // verus!
