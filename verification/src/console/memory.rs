//! A console in a page that is shared with a hypervisor: one ring for each direction, with
//! counters that run on.

use vstd::prelude::*;

verus! {

pub const VIRTUAL_CONSOLE_MAGIC: u32 = 0x5643_4f4e;

pub const VIRTUAL_CONSOLE_VERSION: u32 = 1;

/// How many bytes a ring has: half of what the page has left after its eight words.
pub const VIRTUAL_CONSOLE_RING_SIZE: u32 = 2032;

/// How many bytes wait between two counters; the counters run modulo their width.
pub open spec fn used(write: u32, read: u32) -> int {
    if write >= read {
        write - read
    } else {
        write - read + 0x1_0000_0000
    }
}

/// How many bytes of a ring can be read.
pub open spec fn readable(write: u32, read: u32) -> int {
    if used(write, read) < VIRTUAL_CONSOLE_RING_SIZE {
        used(write, read)
    } else {
        VIRTUAL_CONSOLE_RING_SIZE as int
    }
}

/// The next value of a counter.
pub open spec fn next_count(c: u32) -> u32 {
    ((c + 1) % 0x1_0000_0000) as u32
}

fn advance(c: u32) -> (r: u32)
    ensures
        r == next_count(c),
{
    if c == 0xffff_ffff {
        0
    } else {
        c + 1
    }
}

/// Whether a page is a console's.
pub fn is_console_page(magic: u32, version: u32) -> (r: bool)
    ensures
        r == (magic == VIRTUAL_CONSOLE_MAGIC && version == VIRTUAL_CONSOLE_VERSION),
{
    magic == VIRTUAL_CONSOLE_MAGIC && version == VIRTUAL_CONSOLE_VERSION
}

/// How many bytes can be read.
pub fn rx_len(write: u32, read: u32) -> (r: u32)
    ensures
        r == readable(write, read),
{
    let waiting: u32 = if write >= read {
        write - read
    } else {
        (write as u64 + 0x1_0000_0000 - read as u64) as u32
    };
    if waiting < VIRTUAL_CONSOLE_RING_SIZE {
        waiting
    } else {
        VIRTUAL_CONSOLE_RING_SIZE
    }
}

/// Where in a ring the byte of a counter is.
pub open spec fn slot(c: u32) -> int {
    c as int % VIRTUAL_CONSOLE_RING_SIZE as int
}

/// The places of the next bytes to read, and the counter after them.
pub fn read_plan(write: u32, read: u32, room: usize) -> (r: (Vec<u32>, u32))
    ensures
        r.0@.len() == (if readable(write, read) < room {
            readable(write, read)
        } else {
            room as int
        }),
        forall|i: int|
            0 <= i < r.0@.len() ==> #[trigger] r.0@[i] == slot(
                ((read + i) % 0x1_0000_0000) as u32,
            ),
        r.1 == (read + r.0@.len()) % 0x1_0000_0000,
{
    let available: u32 = rx_len(write, read);
    let count: usize = if (available as usize) < room {
        available as usize
    } else {
        room
    };
    let mut out: Vec<u32> = Vec::new();
    let mut at: u32 = read;
    let mut i: usize = 0;
    while i < count
        invariant
            i <= count,
            count <= VIRTUAL_CONSOLE_RING_SIZE,
            at == (read + i) % 0x1_0000_0000,
            out@.len() == i,
            forall|k: int|
                0 <= k < i ==> #[trigger] out@[k] == slot(((read + k) % 0x1_0000_0000) as u32),
        decreases count - i,
    {
        out.push(at % VIRTUAL_CONSOLE_RING_SIZE);
        at = advance(at);
        i = i + 1;
    }
    (out, at)
}

/// How one byte is written: its place, the new write counter, and the new read counter if
/// the oldest byte had to go.
#[derive(Clone, Copy, Debug, PartialEq, Eq, Structural)]
pub struct WriteStep {
    pub slot: u32,
    pub write: u32,
    pub read: Option<u32>,
}

/// How one byte is written.
pub open spec fn write_step_of(write: u32, read: u32) -> WriteStep {
    WriteStep {
        slot: slot(write) as u32,
        write: next_count(write),
        read: if used(write, read) >= VIRTUAL_CONSOLE_RING_SIZE {
            Some(next_count(read))
        } else {
            None
        },
    }
}

/// How one byte is written.
pub fn write_step(write: u32, read: u32) -> (r: WriteStep)
    ensures
        r == write_step_of(write, read),
{
    let full: bool = rx_len(write, read) >= VIRTUAL_CONSOLE_RING_SIZE;
    WriteStep {
        slot: write % VIRTUAL_CONSOLE_RING_SIZE,
        write: advance(write),
        read: if full {
            Some(advance(read))
        } else {
            None
        },
    }
}

/// A ring and its counters.
pub struct Ring {
    pub write: u32,
    pub read: u32,
    pub buf: Seq<u8>,
}

impl Ring {
    /// The counters have not run over, and no more waits than there is room for.
    pub open spec fn wf(self) -> bool {
        &&& self.buf.len() == VIRTUAL_CONSOLE_RING_SIZE
        &&& self.read <= self.write <= self.read + VIRTUAL_CONSOLE_RING_SIZE
    }

    /// The bytes that wait, oldest first.
    pub open spec fn waiting(self) -> Seq<u8> {
        Seq::new(
            used(self.write, self.read) as nat,
            |i: int| self.buf[slot((self.read + i) as u32)],
        )
    }

    /// The ring after one byte was written.
    pub open spec fn written(self, byte: u8) -> Ring {
        let s = write_step_of(self.write, self.read);
        Ring {
            write: s.write,
            read: match s.read {
                Some(r) => r,
                None => self.read,
            },
            buf: self.buf.update(s.slot as int, byte),
        }
    }
}

/// The ring is first in, first out, and forgets the oldest byte when it is full: as long as
/// the write counter does not run over, a byte that is written comes after all that wait.
pub proof fn law_ring_keeps_order(r: Ring, byte: u8)
    requires
        r.wf(),
        r.write < 0xffff_ffff,
    ensures
        r.written(byte).wf(),
        r.written(byte).waiting() == (if r.waiting().len() < VIRTUAL_CONSOLE_RING_SIZE {
            r.waiting()
        } else {
            r.waiting().skip(1)
        }).push(byte),
{
    let w = r.written(byte);
    let kept = if r.waiting().len() < VIRTUAL_CONSOLE_RING_SIZE {
        r.waiting()
    } else {
        r.waiting().skip(1)
    };
    assert forall|i: int| 0 <= i < kept.len() implies #[trigger] w.waiting()[i] == kept[i] by {
        let c = (w.read + i) as u32;
        assert(r.write - VIRTUAL_CONSOLE_RING_SIZE < c < r.write);
        assert(slot(c) != slot(r.write));
    }
    assert(w.waiting() =~= kept.push(byte));
}

/// What is read is what waited, in its order, and what waits afterwards is the rest.
pub proof fn law_reading_takes_oldest(r: Ring, n: int)
    requires
        r.wf(),
        0 <= n <= r.waiting().len(),
    ensures
        ({
            let after = Ring { read: ((r.read + n) % 0x1_0000_0000) as u32, ..r };
            after.wf() && after.waiting() == r.waiting().skip(n)
        }),
        forall|i: int|
            0 <= i < n ==> r.buf[slot(((r.read + i) % 0x1_0000_0000) as u32)]
                == #[trigger] r.waiting()[i],
{
    let after = Ring { read: ((r.read + n) % 0x1_0000_0000) as u32, ..r };
    assert(after.waiting() =~= r.waiting().skip(n));
}

/// A counter is followed by the next number of 32 bits. The bytes that wait are those from the
/// read counter to the write counter, at most 2032; each stands at its counter's place in a
/// ring of 2032 bytes. Writing never stops: when all the ring waits, the oldest byte goes.
pub proof fn law_counters_run_on(write: u32, read: u32)
    ensures
        0 <= used(write, read) < 0x1_0000_0000,
        (read + used(write, read)) % 0x1_0000_0000 == write,
        readable(write, read) == (if used(write, read) <= 2032 {
            used(write, read)
        } else {
            2032
        }),
        slot(write) == write as int % 2032,
        next_count(write) == (if write == 0xffff_ffff {
            0
        } else {
            write + 1
        }),
        ({
            let s = write_step_of(write, read);
            &&& s.slot == write as int % 2032
            &&& s.write == next_count(write)
            &&& used(write, read) < 2032 ==> s.read is None
            &&& used(write, read) >= 2032 ==> s.read == Some(next_count(read))
            &&& used(write, read) <= 2032 ==> used(
                s.write,
                if s.read is Some {
                    s.read->0
                } else {
                    read
                },
            ) == (if used(write, read) == 2032 {
                2032
            } else {
                used(write, read) + 1
            })
        }),
{
}

} // verus!
