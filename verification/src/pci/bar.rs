//! Base address registers and interrupt lines.

use vstd::prelude::*;

verus! {

/// A base address register.
#[derive(Clone, Copy, Debug, PartialEq, Eq, Structural)]
pub enum Bar {
    Io { port: u32 },
    Memory32 { address: u32, size: u32, prefetchable: bool },
    Memory64 { base: u64, length: u64, prefetchable: bool },
}

/// Memory of 64-bit addresses.
pub const BAR_MEMORY64: u64 = 4;

/// Memory that can be fetched ahead.
pub const BAR_PREFETCHABLE: u64 = 8;

/// The value that is written to a base address register.
pub open spec fn register_value(bar: Bar) -> u64 {
    match bar {
        Bar::Io { port } => (port | 1) as u64,
        Bar::Memory32 { address, size, prefetchable } => if prefetchable {
            (address | 8) as u64
        } else {
            address as u64
        },
        Bar::Memory64 { base, length, prefetchable } => if prefetchable {
            base | BAR_MEMORY64 | BAR_PREFETCHABLE
        } else {
            base | BAR_MEMORY64
        },
    }
}

/// The value to write for a base address register.
pub fn set_bar(bar: &Bar) -> (r: u64)
    ensures
        r == register_value(*bar),
{
    match *bar {
        Bar::Io { port } => (port | 1) as u64,
        Bar::Memory32 { address, size: _, prefetchable } => if prefetchable {
            (address | 8) as u64
        } else {
            address as u64
        },
        Bar::Memory64 { base, length: _, prefetchable } => if prefetchable {
            base | BAR_MEMORY64 | BAR_PREFETCHABLE
        } else {
            base | BAR_MEMORY64
        },
    }
}

/// What the value that is written tells: whether it is a port, memory of 64-bit addresses,
/// and memory that can be fetched ahead; and where it is.
pub proof fn law_register_value_tells_kind(bar: Bar)
    ensures
        match bar {
            Bar::Io { port } => register_value(bar) % 2 == 1 && register_value(bar) / 2 == port / 2,
            Bar::Memory32 { address, size, prefetchable } => {
                &&& register_value(bar) / 16 == address / 16
                &&& register_value(bar) % 8 == address % 8
                &&& prefetchable ==> register_value(bar) / 8 % 2 == 1
                &&& !prefetchable ==> register_value(bar) == address
            },
            Bar::Memory64 { base, length, prefetchable } => {
                &&& register_value(bar) / 16 == base / 16
                &&& register_value(bar) % 4 == base % 4
                &&& register_value(bar) / 4 % 2 == 1
                &&& prefetchable ==> register_value(bar) / 8 % 2 == 1
                &&& !prefetchable ==> register_value(bar) / 8 == base / 8
            },
        },
        match bar {
            Bar::Io { port } => true,
            Bar::Memory32 { address, size, prefetchable } => address % 16 == 0 ==> {
                &&& register_value(bar) % 8 == 0
                &&& register_value(bar) / 8 % 2 == (if prefetchable {
                    1int
                } else {
                    0
                })
                &&& register_value(bar) - register_value(bar) % 16 == address
            },
            Bar::Memory64 { base, length, prefetchable } => base % 16 == 0 ==> {
                &&& register_value(bar) % 8 == 4
                &&& register_value(bar) / 8 % 2 == (if prefetchable {
                    1int
                } else {
                    0
                })
                &&& register_value(bar) - register_value(bar) % 16 == base
            },
        },
{
    match bar {
        Bar::Io { port } => {
            assert((port | 1) % 2 == 1 && (port | 1) / 2 == port / 2) by (bit_vector);
        },
        Bar::Memory32 { address, size, prefetchable } => {
            assert((address | 8) / 16 == address / 16 && (address | 8) % 8 == address % 8 && (
            address | 8) / 8 % 2 == 1) by (bit_vector);
        },
        Bar::Memory64 { base, length, prefetchable } => {
            assert((base | 4) / 8 == base / 8 && (base | 4) % 4 == base % 4 && (base | 4) / 4 % 2
                == 1 && (base | 4 | 8) / 16 == base / 16 && (base | 4 | 8) % 4 == base % 4 && (base
                | 4 | 8) / 4 % 2 == 1 && (base | 4 | 8) / 8 % 2 == 1) by (bit_vector);
        },
    }
}

/// The memory behind a base address register: where it is, and its size. There is none where
/// there is no register, or one of ports.
pub open spec fn mapped_memory(bar: Option<Bar>) -> Option<(u64, u64)> {
    match bar {
        Some(Bar::Memory32 { address, size, prefetchable }) => Some((address as u64, size as u64)),
        Some(Bar::Memory64 { base, length, prefetchable }) => Some((base, length)),
        Some(Bar::Io { port }) => None,
        None => None,
    }
}

/// Which memory to map for a base address register, if it is one of memory.
pub fn memory_map_bar(bar: Option<Bar>) -> (r: Option<(u64, u64)>)
    ensures
        r == mapped_memory(bar),
{
    match bar {
        Some(Bar::Memory32 { address, size, prefetchable: _ }) => Some(
            (address as u64, size as u64),
        ),
        Some(Bar::Memory64 { base, length, prefetchable: _ }) => Some((base, length)),
        _ => None,
    }
}

/// Where the registers behind a base address register are, if it is one of memory.
pub fn register_base(bar: &Bar) -> (r: Option<u64>)
    ensures
        r == (match *bar {
            Bar::Io { port } => None,
            Bar::Memory32 { address, size, prefetchable } => Some(address as u64),
            Bar::Memory64 { base, length, prefetchable } => Some(base),
        }),
{
    match *bar {
        Bar::Io { port: _ } => None,
        Bar::Memory32 { address, size: _, prefetchable: _ } => Some(address as u64),
        Bar::Memory64 { base, length: _, prefetchable: _ } => Some(base),
    }
}

/// The line on which a function interrupts, if it does: it has one of the four pins, and a
/// line that is wired.
pub open spec fn irq_of(pin: u8, line: u8) -> Option<u8> {
    if 1 <= pin <= 4 && !(16 <= line < 254) && line != 255 {
        Some(line)
    } else {
        None
    }
}

/// Finds the line on which a function interrupts.
pub fn get_irq(pin: u8, line: u8) -> (r: Option<u8>)
    ensures
        r == irq_of(pin, line),
{
    if pin == 0 || pin > 4 {
        return None;
    }
    if line >= 16 && line < 254 {
        return None;
    }
    if line == 255 {
        return None;
    }
    Some(line)
}

} // verus!
