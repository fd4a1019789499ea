//! FAT32 volumes and directory entries.

use vstd::prelude::*;

use crate::bytes;

verus! {

/// `GGUF`
pub const GGUF_MAGIC: [u8; 4] = [0x47, 0x47, 0x55, 0x46];

/// `FAT32   `
pub const FAT32_LABEL: [u8; 8] = [0x46, 0x41, 0x54, 0x33, 0x32, 0x20, 0x20, 0x20];

/// The size of the buffer that single sectors are read into.
pub const BOUNCE_BYTES: usize = 4096;

/// The first cluster number that ends a chain.
pub const END_OF_CHAIN: u32 = 0x0fff_fff8;

/// Whether a cluster number names a cluster.
pub open spec fn is_cluster(c: u32) -> bool {
    2 <= c < END_OF_CHAIN
}

/// Whether a cluster number names a cluster.
pub fn valid_cluster(c: u32) -> (r: bool)
    ensures
        r == is_cluster(c),
{
    2 <= c && c < END_OF_CHAIN
}

/// The geometry of a volume.
#[derive(Clone, Copy, PartialEq, Eq, Structural)]
pub struct Fat32Volume {
    pub base_lba: u32,
    pub device_block_size: u32,
    pub bytes_per_sector: u32,
    pub device_blocks_per_fs_sector: u32,
    pub sectors_per_cluster: u32,
    pub reserved_sectors: u32,
    pub num_fats: u32,
    pub fat_size_sectors: u32,
    pub root_cluster: u32,
    pub data_start_lba: u32,
}

/// A file: its first cluster and its size.
#[derive(Clone, Copy, PartialEq, Eq, Structural)]
pub struct Fat32File {
    pub first_cluster: u32,
    pub size: u32,
}

/// `v` as block numbers of 32 bits count it.
pub open spec fn wrap32(v: int) -> u32 {
    (v % 0x1_0000_0000) as u32
}

impl Fat32Volume {
    /// What holds of every volume that was recognised.
    pub open spec fn wf(self) -> bool {
        &&& 0 < self.device_block_size
        &&& 0 < self.bytes_per_sector <= 0xffff
        &&& 0 < self.device_blocks_per_fs_sector
        &&& self.bytes_per_sector == self.device_blocks_per_fs_sector * self.device_block_size
        &&& 0 < self.sectors_per_cluster <= 0xff
        &&& 0 < self.reserved_sectors <= 0xffff
        &&& 0 < self.num_fats <= 0xff
        &&& 0 < self.fat_size_sectors
        &&& 2 <= self.root_cluster
    }

    /// Whether a sector of the volume fits the buffer that single sectors are read into.
    pub open spec fn fits_bounce(self) -> bool {
        self.bytes_per_sector <= BOUNCE_BYTES
    }

    /// The block of the device that sector `s` of the volume starts with.
    pub open spec fn device_lba(self, s: int) -> u32 {
        wrap32(self.base_lba + s * self.device_blocks_per_fs_sector)
    }

    /// The first block of a cluster.
    pub open spec fn cluster_lba(self, cluster: u32) -> u32 {
        self.device_lba(
            self.reserved_sectors + self.num_fats * self.fat_size_sectors + (cluster - 2)
                * self.sectors_per_cluster,
        )
    }

    /// The block that the table entry of a cluster stands in.
    pub open spec fn fat_lba(self, cluster: u32) -> u32 {
        self.device_lba(self.reserved_sectors + cluster * 4 / self.bytes_per_sector as int)
    }

    /// The byte at which the table entry of a cluster stands in its sector.
    pub open spec fn fat_offset(self, cluster: u32) -> int {
        cluster * 4 % self.bytes_per_sector as int
    }

    /// Whether the table entry of a cluster can be read into the buffer of single sectors: the
    /// sector fits, and so does the entry, even where it goes beyond the sector's end.
    pub open spec fn entry_fits_bounce(self, cluster: u32) -> bool {
        self.fits_bounce() && self.fat_offset(cluster) + 4 <= BOUNCE_BYTES
    }

    /// Tells whether the table entry of a cluster can be read into the buffer of single
    /// sectors.
    pub fn can_read_entry(&self, cluster: u32) -> (r: bool)
        requires
            self.wf(),
        ensures
            r == self.entry_fits_bounce(cluster),
    {
        let (_, off): (u32, usize) = self.fat_lba_for_cluster(cluster);
        self.bytes_per_sector as usize <= BOUNCE_BYTES && off + 4 <= BOUNCE_BYTES
    }

    /// Whether `s` is a buffer that a sector was read into, and holds the table entry of a
    /// cluster. What stands behind the sector is what the buffer held before.
    pub open spec fn holds_entry(self, s: Seq<u8>, cluster: u32) -> bool {
        s.len() >= self.bytes_per_sector && self.fat_offset(cluster) + 4 <= s.len()
    }

    /// The size of a cluster in bytes.
    pub open spec fn cluster_bytes(self) -> int {
        self.bytes_per_sector * self.sectors_per_cluster
    }

    /// The number of blocks of a cluster, as far as it fits into a read.
    pub open spec fn cluster_blocks(self) -> int {
        self.cluster_bytes() / self.device_block_size as int
    }

    /// What follows of the size of numbers.
    pub proof fn lemma_bounds(self)
        requires
            self.wf(),
        ensures
            self.device_blocks_per_fs_sector <= 0xffff,
            0 < self.cluster_bytes() <= 0xffff * 0xff,
            0 <= self.num_fats * self.fat_size_sectors <= 0xff * 0xffff_ffff,
    {
        assert(self.device_blocks_per_fs_sector <= 0xffff) by (nonlinear_arith)
            requires
                0 < self.device_block_size,
                self.bytes_per_sector == self.device_blocks_per_fs_sector * self.device_block_size,
                self.bytes_per_sector <= 0xffff,
        ;
        assert(0 < self.cluster_bytes() <= 0xffff * 0xff) by (nonlinear_arith)
            requires
                0 < self.bytes_per_sector <= 0xffff,
                0 < self.sectors_per_cluster <= 0xff,
                self.cluster_bytes() == self.bytes_per_sector * self.sectors_per_cluster,
        ;
        assert(0 <= self.num_fats * self.fat_size_sectors <= 0xff * 0xffff_ffff)
            by (nonlinear_arith)
            requires
                self.num_fats <= 0xff,
                self.fat_size_sectors <= 0xffff_ffff,
        ;
    }

    /// Finds the block that a sector of the volume starts with.
    pub fn device_lba_for_fs_sector(&self, fs_sector: u64) -> (r: u32)
        requires
            self.wf(),
            fs_sector <= 0x400_0000_0000,
        ensures
            r == self.device_lba(fs_sector as int),
    {
        proof {
            self.lemma_bounds();
            assert(0 <= fs_sector * self.device_blocks_per_fs_sector <= 0x400_0000_0000 * 0xffff)
                by (nonlinear_arith)
                requires
                    fs_sector <= 0x400_0000_0000,
                    self.device_blocks_per_fs_sector <= 0xffff,
            ;
        }
        let lba: u64 = self.base_lba as u64 + fs_sector * self.device_blocks_per_fs_sector as u64;
        (lba % 0x1_0000_0000) as u32
    }

    /// Finds the first block of a cluster.
    pub fn first_device_lba_of_cluster(&self, cluster: u32) -> (r: u32)
        requires
            self.wf(),
            cluster >= 2,
        ensures
            r == self.cluster_lba(cluster),
    {
        proof {
            self.lemma_bounds();
            assert(0 <= (cluster - 2) * self.sectors_per_cluster <= 0xffff_ffff * 0xff)
                by (nonlinear_arith)
                requires
                    2 <= cluster <= 0xffff_ffff,
                    self.sectors_per_cluster <= 0xff,
            ;
        }
        let sector: u64 = self.reserved_sectors as u64 + self.num_fats as u64
            * self.fat_size_sectors as u64 + (cluster as u64 - 2) * self.sectors_per_cluster as u64;
        self.device_lba_for_fs_sector(sector)
    }

    /// Finds the block and the byte of a cluster's table entry.
    pub fn fat_lba_for_cluster(&self, cluster: u32) -> (r: (u32, usize))
        requires
            self.wf(),
        ensures
            r.0 == self.fat_lba(cluster),
            r.1 == self.fat_offset(cluster),
            r.1 < self.bytes_per_sector,
    {
        let fat_offset: u64 = cluster as u64 * 4;
        let within: u64 = fat_offset % self.bytes_per_sector as u64;
        let behind: u64 = fat_offset / self.bytes_per_sector as u64;
        assert(behind <= fat_offset) by (nonlinear_arith)
            requires
                behind == fat_offset / self.bytes_per_sector as u64,
                self.bytes_per_sector > 0,
        ;
        (self.device_lba_for_fs_sector(self.reserved_sectors as u64 + behind), within as usize)
    }

    /// The size of a cluster in bytes.
    pub fn bytes_in_cluster(&self) -> (r: u32)
        requires
            self.wf(),
        ensures
            r == self.cluster_bytes(),
            0 < r <= 0xffff * 0xff,
    {
        proof {
            self.lemma_bounds();
        }
        self.bytes_per_sector * self.sectors_per_cluster
    }

    /// The number of blocks of `clusters` clusters in a row, as a read counts them.
    pub fn blocks_in_clusters(&self, clusters: u32) -> (r: u16)
        requires
            self.wf(),
            clusters <= 0x40_0000,
        ensures
            r == (self.cluster_blocks() % 0x1_0000 * clusters) % 0x1_0000,
    {
        let cluster: u32 = self.bytes_in_cluster() / self.device_block_size;
        let blocks: u64 = (cluster % 0x1_0000) as u64;
        assert(0 <= blocks * clusters <= 0x1_0000 * 0x40_0000) by (nonlinear_arith)
            requires
                blocks < 0x1_0000,
                clusters <= 0x40_0000,
        ;
        (blocks * clusters as u64 % 0x1_0000) as u16
    }
}

/// Whether a boot sector is that of a FAT32 volume.
pub open spec fn is_fat32(s: Seq<u8>, block_size: int) -> bool {
    &&& s.len() >= 512
    &&& s[510] == 0x55
    &&& s[511] == 0xaa
    &&& bytes::le16(s, 11) != 0
    &&& block_size != 0
    &&& bytes::le16(s, 11) % block_size == 0
    &&& s[13] != 0
    &&& bytes::le16(s, 14) != 0
    &&& s[16] != 0
    &&& bytes::le32(s, 36) != 0
    &&& bytes::le32(s, 44) >= 2
    &&& s.subrange(82, 90) == FAT32_LABEL@
}

/// The volume that a boot sector describes.
pub open spec fn volume_of(base_lba: u32, block_size: u32, s: Seq<u8>) -> Fat32Volume {
    let blocks = bytes::le16(s, 11) / block_size as int;
    Fat32Volume {
        base_lba,
        device_block_size: block_size,
        bytes_per_sector: bytes::le16(s, 11) as u32,
        device_blocks_per_fs_sector: blocks as u32,
        sectors_per_cluster: s[13] as u32,
        reserved_sectors: bytes::le16(s, 14) as u32,
        num_fats: s[16] as u32,
        fat_size_sectors: bytes::le32(s, 36) as u32,
        root_cluster: bytes::le32(s, 44) as u32,
        data_start_lba: wrap32(
            base_lba + (bytes::le16(s, 14) + s[16] * bytes::le32(s, 36)) * blocks,
        ),
    }
}

/// A volume that is recognised is one.
pub proof fn lemma_volume_wf(base_lba: u32, block_size: u32, s: Seq<u8>)
    requires
        is_fat32(s, block_size as int),
    ensures
        volume_of(base_lba, block_size, s).wf(),
{
    let size = bytes::le16(s, 11) as int;
    let blocks = size / block_size as int;
    vstd::arithmetic::div_mod::lemma_fundamental_div_mod(size, block_size as int);
    assert(block_size * blocks == blocks * block_size) by (nonlinear_arith);
    assert(0 < blocks <= size) by (nonlinear_arith)
        requires
            size == blocks * block_size,
            0 < size,
            0 < block_size,
    ;
}

/// Reads a boot sector.
pub fn parse_fat32_volume(base_lba: u32, device_block_size: u32, boot_sector: &[u8]) -> (r: Option<
    Fat32Volume,
>)
    ensures
        r == (if is_fat32(boot_sector@, device_block_size as int) {
            Some(volume_of(base_lba, device_block_size, boot_sector@))
        } else {
            None::<Fat32Volume>
        }),
        r matches Some(v) ==> v.wf(),
{
    if boot_sector.len() < 512 || boot_sector[510] != 0x55 || boot_sector[511] != 0xaa {
        return None;
    }
    let bytes_per_sector: u32 = bytes::le_u16(boot_sector, 11) as u32;
    let sectors_per_cluster: u32 = boot_sector[13] as u32;
    let reserved_sectors: u32 = bytes::le_u16(boot_sector, 14) as u32;
    let num_fats: u32 = boot_sector[16] as u32;
    let fat_size_sectors: u32 = bytes::le_u32(boot_sector, 36);
    let root_cluster: u32 = bytes::le_u32(boot_sector, 44);
    if bytes_per_sector == 0 || device_block_size == 0 || bytes_per_sector % device_block_size != 0
        || sectors_per_cluster == 0 || reserved_sectors == 0 || num_fats == 0 || fat_size_sectors
        == 0 || root_cluster < 2 || !bytes::same_bytes(
        &boot_sector[82..90],
        FAT32_LABEL.as_slice(),
    ) {
        return None;
    }
    let blocks: u32 = bytes_per_sector / device_block_size;
    proof {
        vstd::arithmetic::div_mod::lemma_fundamental_div_mod(
            bytes_per_sector as int,
            device_block_size as int,
        );
        assert(blocks * device_block_size == device_block_size * blocks) by (nonlinear_arith);
        assert(0 < blocks <= bytes_per_sector) by (nonlinear_arith)
            requires
                bytes_per_sector == blocks * device_block_size,
                0 < bytes_per_sector,
                0 < device_block_size,
        ;
    }
    assert(0 <= num_fats * fat_size_sectors <= 0xff * 0xffff_ffff) by (nonlinear_arith)
        requires
            num_fats <= 0xff,
            fat_size_sectors <= 0xffff_ffff,
    ;
    let sectors: u64 = reserved_sectors as u64 + num_fats as u64 * fat_size_sectors as u64;
    assert(0 <= sectors * blocks <= (0xffff + 0xff * 0xffff_ffff) * 0xffff) by (nonlinear_arith)
        requires
            sectors == reserved_sectors + num_fats * fat_size_sectors,
            reserved_sectors <= 0xffff,
            num_fats <= 0xff,
            fat_size_sectors <= 0xffff_ffff,
            blocks <= 0xffff,
    ;
    let data_start: u64 = base_lba as u64 + sectors * blocks as u64;
    Some(
        Fat32Volume {
            base_lba,
            device_block_size,
            bytes_per_sector,
            device_blocks_per_fs_sector: blocks,
            sectors_per_cluster,
            reserved_sectors,
            num_fats,
            fat_size_sectors,
            root_cluster,
            data_start_lba: (data_start % 0x1_0000_0000) as u32,
        },
    )
}

/// The first cluster of a volume's data is where its data starts.
pub proof fn law_data_starts_at_first_cluster(base_lba: u32, block_size: u32, s: Seq<u8>)
    requires
        is_fat32(s, block_size as int),
    ensures
        volume_of(base_lba, block_size, s).cluster_lba(2) == volume_of(
            base_lba,
            block_size,
            s,
        ).data_start_lba,
{
    let v = volume_of(base_lba, block_size, s);
    assert((2 - 2) * v.sectors_per_cluster == 0);
}

/// The clusters of a volume follow each other on the device.
pub proof fn law_clusters_follow_each_other(v: Fat32Volume, cluster: u32)
    requires
        v.wf(),
        is_cluster(cluster),
    ensures
        v.cluster_lba((cluster + 1) as u32) == wrap32(
            v.cluster_lba(cluster) + v.sectors_per_cluster * v.device_blocks_per_fs_sector,
        ),
{
    let a = v.reserved_sectors + v.num_fats * v.fat_size_sectors + (cluster - 2)
        * v.sectors_per_cluster;
    let b = v.reserved_sectors + v.num_fats * v.fat_size_sectors + (cluster + 1 - 2)
        * v.sectors_per_cluster;
    let d = v.device_blocks_per_fs_sector as int;
    let c = v.sectors_per_cluster as int;
    assert((cluster + 1 - 2) * c == (cluster - 2) * c + c) by (nonlinear_arith);
    assert(b * d == a * d + c * d) by (nonlinear_arith)
        requires
            b == a + c,
    ;
    let x = v.base_lba + a * d;
    let m = 0x1_0000_0000int;
    assert((x % m + c * d) % m == (x + c * d) % m) by {
        vstd::arithmetic::div_mod::lemma_add_mod_noop(x, c * d, m);
        vstd::arithmetic::div_mod::lemma_add_mod_noop(x % m, c * d, m);
        vstd::arithmetic::div_mod::lemma_mod_twice(x, m);
    }
}

/// Whether an entry is free.
pub open spec fn is_free(e: Seq<u8>) -> bool {
    e[0] == 0x00 || e[0] == 0xe5
}

/// Whether an entry is that of an ordinary file: neither free, nor a part of a long name,
/// nor a volume label, nor a directory.
pub open spec fn is_plain(e: Seq<u8>) -> bool {
    !is_free(e) && e[11] != 0x0f && e[11] & 0x08 == 0 && e[11] & 0x10 == 0
}

fn plain_entry(e: &[u8]) -> (r: bool)
    requires
        e.len() >= 12,
    ensures
        r == is_plain(e@),
{
    e[0] != 0x00 && e[0] != 0xe5 && e[11] != 0x0f && e[11] & 0x08 == 0 && e[11] & 0x10 == 0
}

/// Whether an entry is that of a file with the extension `GGU` or `GGF`.
pub open spec fn is_gguf_entry(e: Seq<u8>) -> bool {
    is_plain(e) && e[8] == 0x47 && e[9] == 0x47 && (e[10] == 0x55 || e[10] == 0x46)
}

/// Whether an entry is that of a file with a GGUF extension.
pub fn fat32_entry_is_gguf(entry: &[u8]) -> (r: bool)
    requires
        entry.len() >= 12,
    ensures
        r == is_gguf_entry(entry@),
{
    plain_entry(entry) && entry[8] == 0x47 && entry[9] == 0x47 && (entry[10] == 0x55 || entry[10]
        == 0x46)
}

/// The upper-case form of a byte.
pub open spec fn upper(b: u8) -> u8 {
    if 0x61 <= b <= 0x7a {
        (b - 0x20) as u8
    } else {
        b
    }
}

/// The upper-case form of a byte.
pub fn ascii_upper_u8(ch: u8) -> (r: u8)
    ensures
        r == upper(ch),
{
    if 0x61 <= ch && ch <= 0x7a {
        ch - 0x20
    } else {
        ch
    }
}

/// Whether an entry is that of a GGUF file whose name starts with `GGML`.
pub open spec fn is_preferred_entry(e: Seq<u8>) -> bool {
    is_gguf_entry(e) && upper(e[0]) == 0x47 && upper(e[1]) == 0x47 && upper(e[2]) == 0x4d && upper(
        e[3],
    ) == 0x4c
}

/// Whether an entry is that of the preferred model.
pub fn fat32_entry_is_preferred_bitnet_gguf(entry: &[u8]) -> (r: bool)
    requires
        entry.len() >= 12,
    ensures
        r == is_preferred_entry(entry@),
{
    fat32_entry_is_gguf(entry) && ascii_upper_u8(entry[0]) == 0x47 && ascii_upper_u8(entry[1])
        == 0x47 && ascii_upper_u8(entry[2]) == 0x4d && ascii_upper_u8(entry[3]) == 0x4c
}

/// Where the characters of a part of a long name stand.
pub open spec fn lfn_offset(k: int) -> int {
    if k < 5 {
        1 + 2 * k
    } else if k < 11 {
        14 + 2 * (k - 5)
    } else {
        28 + 2 * (k - 11)
    }
}

/// The characters, from the `k`th on, of a part of a long name: up to the first that fills
/// it up.
pub open spec fn lfn_units(e: Seq<u8>, k: int) -> Seq<u16>
    decreases 13 - k,
{
    if k >= 13 {
        Seq::empty()
    } else {
        let unit = bytes::le16(e, lfn_offset(k));
        if unit == 0 || unit == 0xffff {
            Seq::empty()
        } else {
            seq![unit as u16] + lfn_units(e, k + 1)
        }
    }
}

/// The lower-case form of a character.
pub open spec fn lower16(ch: u16) -> u16 {
    if 0x41 <= ch <= 0x5a {
        (ch + 32) as u16
    } else {
        ch
    }
}

/// The lower-case form of a character.
pub fn ascii_lower_u16(ch: u16) -> (r: u16)
    ensures
        r == lower16(ch),
{
    if 0x41 <= ch && ch <= 0x5a {
        ch + 32
    } else {
        ch
    }
}

/// Whether characters end in `.gguf`, letter case aside.
pub open spec fn ends_in_gguf(u: Seq<u16>) -> bool {
    let n = u.len();
    &&& n >= 5
    &&& u[n - 5] == 0x2e
    &&& lower16(u[n - 4]) == 0x67
    &&& lower16(u[n - 3]) == 0x67
    &&& lower16(u[n - 2]) == 0x75
    &&& lower16(u[n - 1]) == 0x66
}

/// Whether a part of a long name ends in `.gguf`.
pub open spec fn is_gguf_lfn(e: Seq<u8>) -> bool {
    e[11] == 0x0f && ends_in_gguf(lfn_units(e, 0))
}

/// Whether a part of a long name ends in `.gguf`.
pub fn fat32_lfn_entry_has_gguf_suffix(entry: &[u8]) -> (r: bool)
    requires
        entry.len() >= 32,
    ensures
        r == is_gguf_lfn(entry@),
{
    if entry[11] != 0x0f {
        return false;
    }
    let mut units: Vec<u16> = Vec::new();
    let mut k: usize = 0;
    assert(units@ + lfn_units(entry@, 0) =~= lfn_units(entry@, 0));
    while k < 13
        invariant_except_break
            k <= 13,
            entry.len() >= 32,
            units@ + lfn_units(entry@, k as int) == lfn_units(entry@, 0),
        ensures
            units@ == lfn_units(entry@, 0),
        decreases 13 - k,
    {
        let off: usize = if k < 5 {
            1 + 2 * k
        } else if k < 11 {
            14 + 2 * (k - 5)
        } else {
            28 + 2 * (k - 11)
        };
        let unit: u16 = bytes::le_u16(entry, off);
        if unit == 0 || unit == 0xffff {
            assert(units@ + lfn_units(entry@, k as int) =~= units@);
            break;
        }
        let ghost before = units@;
        units.push(unit);
        assert(before + lfn_units(entry@, k as int) =~= units@ + lfn_units(entry@, k + 1));
        k += 1;
        if k == 13 {
            assert(units@ + lfn_units(entry@, 13) =~= units@);
        }
    }
    let n: usize = units.len();
    n >= 5 && units[n - 5] == 0x2e && ascii_lower_u16(units[n - 4]) == 0x67 && ascii_lower_u16(
        units[n - 3],
    ) == 0x67 && ascii_lower_u16(units[n - 2]) == 0x75 && ascii_lower_u16(units[n - 1]) == 0x66
}

/// The first cluster that an entry names.
pub open spec fn entry_cluster(e: Seq<u8>) -> u32 {
    (bytes::le16(e, 20) * 0x1_0000 + bytes::le16(e, 26)) as u32
}

fn first_cluster(e: &[u8]) -> (r: u32)
    requires
        e.len() >= 32,
    ensures
        r == entry_cluster(e@),
{
    bytes::le_u16(e, 20) as u32 * 0x1_0000 + bytes::le_u16(e, 26) as u32
}

/// The file that an entry describes, if it is that of a file that is not empty.
pub open spec fn file_of(e: Seq<u8>) -> Option<Fat32File> {
    let size = bytes::le32(e, 28);
    if is_plain(e) && entry_cluster(e) >= 2 && size > 0 {
        Some(Fat32File { first_cluster: entry_cluster(e), size: size as u32 })
    } else {
        None
    }
}

/// Reads the file that an entry describes.
pub fn fat32_file_from_entry(entry: &[u8]) -> (r: Option<Fat32File>)
    requires
        entry.len() >= 32,
    ensures
        r == file_of(entry@),
{
    if !plain_entry(entry) {
        return None;
    }
    let cluster: u32 = first_cluster(entry);
    let size: u32 = bytes::le_u32(entry, 28);
    if cluster >= 2 && size > 0 {
        Some(Fat32File { first_cluster: cluster, size })
    } else {
        None
    }
}

/// The first cluster of the directory that an entry describes, if it is that of one.
pub open spec fn directory_of(e: Seq<u8>) -> Option<u32> {
    if is_free(e) || e[0] == 0x2e || e[11] == 0x0f || e[11] & 0x10 == 0 || entry_cluster(e) < 2 {
        None
    } else {
        Some(entry_cluster(e))
    }
}

/// Reads the directory that an entry describes.
pub fn fat32_directory_from_entry(entry: &[u8]) -> (r: Option<u32>)
    requires
        entry.len() >= 32,
    ensures
        r == directory_of(entry@),
{
    if entry[0] == 0x00 || entry[0] == 0xe5 || entry[0] == 0x2e || entry[11] == 0x0f || entry[11]
        & 0x10 == 0 {
        return None;
    }
    let cluster: u32 = first_cluster(entry);
    if cluster >= 2 {
        Some(cluster)
    } else {
        None
    }
}

/// The entry of the allocation table at `off`.
pub open spec fn fat_entry_at(s: Seq<u8>, off: int) -> u32 {
    (bytes::le32(s, off) % 0x1000_0000) as u32
}

/// Reads an entry of the allocation table.
pub fn read_fat_entry(sector: &[u8], off: usize) -> (r: u32)
    requires
        off + 4 <= sector.len(),
    ensures
        r == fat_entry_at(sector@, off as int),
{
    bytes::le_u32(sector, off) % 0x1000_0000
}

/// Whether a file starts as a model does.
pub open spec fn has_gguf_magic(s: Seq<u8>) -> bool {
    s.len() >= 4 && s.subrange(0, 4) == GGUF_MAGIC@
}

/// Whether a file starts as a model does.
pub fn starts_as_gguf(s: &[u8]) -> (r: bool)
    ensures
        r == has_gguf_magic(s@),
{
    s.len() >= 4 && bytes::same_bytes(&s[0..4], GGUF_MAGIC.as_slice())
}

} // verus!
