//! Loading the kernel: how much memory it needs, and what it is told.

use vstd::prelude::*;

use crate::align;

verus! {

pub const PAGE_SIZE: u64 = 4096;

/// What the kernel needs beyond its image.
pub const KERNEL_SLACK: u64 = 32_768;

/// How far behind the kernel its first stack ends.
pub const STACK_SIZE: u64 = 65_536;

/// Where the kernel is loaded.
#[derive(Clone, Copy, Debug, PartialEq, Eq, Structural)]
pub enum Placement {
    /// At an address, and nowhere else.
    At(u64),
    Anywhere,
}

/// The memory to ask for.
#[derive(Clone, Copy, Debug, PartialEq, Eq, Structural)]
pub struct KernelMemory {
    pub placement: Placement,
    pub size: u64,
    pub pages: u64,
}

/// The memory that a kernel needs, given the size of its image and where it wants to be.
pub fn kernel_memory(mem_size: u64, start_addr: Option<u64>) -> (r: KernelMemory)
    requires
        mem_size <= u64::MAX - KERNEL_SLACK - PAGE_SIZE,
    ensures
        r.placement == (match start_addr {
            Some(a) => Placement::At(a),
            None => Placement::Anywhere,
        }),
        r.size == align::rounded_up(mem_size + KERNEL_SLACK, PAGE_SIZE as int),
        r.pages * PAGE_SIZE == r.size,
{
    proof {
        align::lemma_powers();
        align::lemma_rounded_up(mem_size + KERNEL_SLACK, 0x1000);
    }
    let size: u64 = align::align_up(mem_size + KERNEL_SLACK, PAGE_SIZE);
    KernelMemory {
        placement: match start_addr {
            Some(a) => Placement::At(a),
            None => Placement::Anywhere,
        },
        size,
        pages: size / PAGE_SIZE,
    }
}

/// Where the kernel's first stack begins, given where its image ends.
pub fn stack_address(image_end: u64) -> (r: u64)
    requires
        image_end <= u64::MAX - STACK_SIZE,
    ensures
        r == align::rounded_down(image_end + STACK_SIZE, PAGE_SIZE as int),
{
    proof {
        align::lemma_powers();
    }
    align::align_down(image_end + STACK_SIZE, PAGE_SIZE)
}

/// The stack begins at a page, behind the image and at most as far as it may be.
pub proof fn law_stack_is_behind_image(image_end: int)
    requires
        0 <= image_end,
    ensures
        ({
            let s = align::rounded_down(image_end + STACK_SIZE, PAGE_SIZE as int);
            s % PAGE_SIZE as int == 0 && image_end + STACK_SIZE - PAGE_SIZE < s <= image_end
                + STACK_SIZE
        }),
{
}

/// The memory that is asked for holds the image and what the kernel needs beyond it, and
/// less than a page more.
pub proof fn law_kernel_memory_is_enough(mem_size: int)
    requires
        0 <= mem_size,
    ensures
        mem_size + KERNEL_SLACK <= align::rounded_up(mem_size + KERNEL_SLACK, PAGE_SIZE as int)
            < mem_size + KERNEL_SLACK + PAGE_SIZE,
{
}

/// How the firmware lays out pixels.
#[derive(Clone, Copy, Debug, PartialEq, Eq, Structural)]
pub enum PixelFormat {
    Rgb,
    Bgr,
    Bitmask,
    BltOnly,
}

/// What the kernel calls a layout of pixels; none where it cannot draw with it.
pub fn format_name(format: PixelFormat) -> (r: Option<&'static str>)
    ensures
        r == (match format {
            PixelFormat::Rgb => Some("r8g8b8x8"),
            PixelFormat::Bgr => Some("b8g8r8x8"),
            _ => None::<&'static str>,
        }),
{
    match format {
        PixelFormat::Rgb => Some("r8g8b8x8"),
        PixelFormat::Bgr => Some("b8g8r8x8"),
        _ => None,
    }
}

/// A table of the firmware.
#[derive(Clone, Copy, Debug, PartialEq, Eq, Structural)]
pub enum TableKind {
    Acpi2,
    Acpi,
    Other,
}

/// The first table of a kind from `from` on, or the length.
pub open spec fn first_of(tables: Seq<(TableKind, u64)>, kind: TableKind, from: int) -> int
    decreases tables.len() - from,
{
    if from >= tables.len() || tables[from].0 == kind {
        from
    } else {
        first_of(tables, kind, from + 1)
    }
}

/// The table where the description of the hardware is found: the newer one if there is one.
pub open spec fn rsdp_of(tables: Seq<(TableKind, u64)>) -> Option<u64> {
    let newer = first_of(tables, TableKind::Acpi2, 0);
    let older = first_of(tables, TableKind::Acpi, 0);
    if newer < tables.len() {
        Some(tables[newer].1)
    } else if older < tables.len() {
        Some(tables[older].1)
    } else {
        None
    }
}

fn find_table(tables: &[(TableKind, u64)], kind: TableKind) -> (r: Option<u64>)
    ensures
        r == (if first_of(tables@, kind, 0) < tables@.len() {
            Some(tables@[first_of(tables@, kind, 0)].1)
        } else {
            None
        }),
{
    let mut i: usize = 0;
    while i < tables.len()
        invariant
            i <= tables.len(),
            first_of(tables@, kind, 0) == first_of(tables@, kind, i as int),
        decreases tables.len() - i,
    {
        if tables[i].0 == kind {
            return Some(tables[i].1);
        }
        i = i + 1;
    }
    None
}

/// Finds the table where the description of the hardware is found.
pub fn rsdp(tables: &[(TableKind, u64)]) -> (r: Option<u64>)
    ensures
        r == rsdp_of(tables@),
{
    match find_table(tables, TableKind::Acpi2) {
        Some(address) => Some(address),
        None => find_table(tables, TableKind::Acpi),
    }
}

/// Where the screen's memory is and how wide its rows are, or zeros where there is none.
pub fn framebuffer_args(framebuffer: Option<(u64, u32)>) -> (r: (u64, u64))
    ensures
        r == (match framebuffer {
            Some(f) => (f.0, f.1 as u64),
            None => (0u64, 0u64),
        }),
{
    match framebuffer {
        Some((address, stride)) => (address, stride as u64),
        None => (0, 0),
    }
}

/// The model's bytes in memory, if there are any.
pub fn model_range(address: u64, len: u64) -> (r: Option<(u64, u64)>)
    ensures
        r == (if address == 0 || len == 0 {
            None
        } else {
            Some((address, len))
        }),
{
    if address == 0 || len == 0 {
        None
    } else {
        Some((address, len))
    }
}

/// The kernel gets its image and 32 KiB, in pages of 4 KiB, and less than a page more; its
/// stack begins at a page, 64 KiB behind the image or less than a page before that.
pub proof fn law_kernel_memory_in_bytes(size: int)
    requires
        0 <= size,
    ensures
        ({
            let memory = align::rounded_up(size + KERNEL_SLACK, PAGE_SIZE as int);
            memory % 4096 == 0 && size + 32768 <= memory < size + 36864
        }),
        ({
            let stack = align::rounded_down(size + STACK_SIZE, PAGE_SIZE as int);
            stack % 4096 == 0 && size + 61440 < stack <= size + 65536
        }),
{
}

/// The newer table comes before the older, and of each the one that stands first; where there
/// is neither, there is no description.
pub proof fn law_newer_table_comes_first(tables: Seq<(TableKind, u64)>, k: int)
    ensures
        0 <= k < tables.len() && tables[k].0 is Acpi2 && (forall|i: int|
            0 <= i < k ==> (#[trigger] tables[i]).0 !is Acpi2) ==> rsdp_of(tables) == Some(
            tables[k].1,
        ),
        0 <= k < tables.len() && tables[k].0 is Acpi && (forall|i: int|
            0 <= i < k ==> (#[trigger] tables[i]).0 !is Acpi) && (forall|i: int|
            0 <= i < tables.len() ==> (#[trigger] tables[i]).0 !is Acpi2) ==> rsdp_of(tables)
            == Some(tables[k].1),
        (forall|i: int| 0 <= i < tables.len() ==> (#[trigger] tables[i]).0 is Other) ==> rsdp_of(
            tables,
        ) is None,
{
    lemma_first(tables, TableKind::Acpi2, 0);
    lemma_first(tables, TableKind::Acpi, 0);
}

proof fn lemma_first(tables: Seq<(TableKind, u64)>, kind: TableKind, from: int)
    requires
        0 <= from <= tables.len(),
    ensures
        from <= first_of(tables, kind, from) <= tables.len(),
        first_of(tables, kind, from) < tables.len() ==> tables[first_of(tables, kind, from)].0
            == kind,
        forall|i: int|
            from <= i < first_of(tables, kind, from) ==> (#[trigger] tables[i]).0 != kind,
    decreases tables.len() - from,
{
    if from < tables.len() && tables[from].0 != kind {
        lemma_first(tables, kind, from + 1);
    }
}

} // verus!
