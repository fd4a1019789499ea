//! Standard input, output and error.

use vstd::prelude::*;

verus! {

pub const STDOUT_FILENO: i32 = 1;

pub const STDERR_FILENO: i32 = 2;

/// Events that can be read: now, as normal data, and as data of a band.
pub const POLL_READABLE: u16 = 0x00c1;

/// Events that can be written: now, as normal data, and as data of a band.
pub const POLL_WRITABLE: u16 = 0x0304;

/// The mode of a character device.
pub const S_IFCHR: u32 = 0x2000;

/// What a read of standard input comes to.
#[derive(Clone, Copy, Debug, PartialEq, Eq, Structural)]
pub enum ReadOutcome {
    /// As many bytes were read.
    Ready(usize),
    /// Nothing is there: ask the console.
    AskConsole,
    /// Nothing is there: wait.
    Pending,
}

/// Standard input from the keyboard and the console.
pub struct GenericStdin;

impl GenericStdin {
    /// It is a terminal.
    pub fn isatty(&self) -> (r: bool)
        ensures
            r,
    {
        true
    }

    /// Its mode: that of a character device.
    pub fn fstat(&self) -> (r: u32)
        ensures
            r == S_IFCHR,
            r == 8192,
    {
        S_IFCHR
    }

    pub fn new() -> (r: GenericStdin)
        ensures
            r == GenericStdin,
    {
        GenericStdin
    }

    /// Which of the events there are, given whether keyboard or console have something.
    pub fn poll(&self, event: u16, keyboard_ready: bool, console_ready: bool) -> (r: u16)
        ensures
            r == event & (if keyboard_ready || console_ready {
                POLL_READABLE
            } else {
                0
            }),
    {
        let available: u16 = if keyboard_ready || console_ready {
            POLL_READABLE
        } else {
            0
        };
        event & available
    }

    /// After the keyboard was read.
    pub fn after_keyboard(&self, read_bytes: usize) -> (r: ReadOutcome)
        ensures
            r == (if read_bytes > 0 {
                ReadOutcome::Ready(read_bytes)
            } else {
                ReadOutcome::AskConsole
            }),
    {
        if read_bytes > 0 {
            ReadOutcome::Ready(read_bytes)
        } else {
            ReadOutcome::AskConsole
        }
    }

    /// After the console was read as well: nothing is waited for where the keyboard has to be
    /// asked again and again.
    pub fn after_console(&self, read_bytes: usize, polling_enabled: bool) -> (r: ReadOutcome)
        ensures
            r == (if read_bytes > 0 || polling_enabled {
                ReadOutcome::Ready(read_bytes)
            } else {
                ReadOutcome::Pending
            }),
    {
        if read_bytes > 0 {
            ReadOutcome::Ready(read_bytes)
        } else if polling_enabled {
            ReadOutcome::Ready(0)
        } else {
            ReadOutcome::Pending
        }
    }
}

/// Standard output to the console.
pub struct GenericStdout;

impl GenericStdout {
    /// It is a terminal.
    pub fn isatty(&self) -> (r: bool)
        ensures
            r,
    {
        true
    }

    /// Its mode: that of a character device.
    pub fn fstat(&self) -> (r: u32)
        ensures
            r == S_IFCHR,
            r == 8192,
    {
        S_IFCHR
    }

    pub fn new() -> (r: GenericStdout)
        ensures
            r == GenericStdout,
    {
        GenericStdout
    }

    /// Which of the events there are.
    pub fn poll(&self, event: u16) -> (r: u16)
        ensures
            r == event & POLL_WRITABLE,
    {
        event & POLL_WRITABLE
    }
}

/// Standard error to the console.
pub struct GenericStderr;

impl GenericStderr {
    /// It is a terminal.
    pub fn isatty(&self) -> (r: bool)
        ensures
            r,
    {
        true
    }

    /// Its mode: that of a character device.
    pub fn fstat(&self) -> (r: u32)
        ensures
            r == S_IFCHR,
            r == 8192,
    {
        S_IFCHR
    }

    pub fn new() -> (r: GenericStderr)
        ensures
            r == GenericStderr,
    {
        GenericStderr
    }

    /// Which of the events there are.
    pub fn poll(&self, event: u16) -> (r: u16)
        ensures
            r == event & POLL_WRITABLE,
    {
        event & POLL_WRITABLE
    }
}

/// Standard input from the hypervisor.
pub struct UhyveStdin;

impl UhyveStdin {
    /// It is a terminal.
    pub fn isatty(&self) -> (r: bool)
        ensures
            r,
    {
        true
    }

    /// Its mode: that of a character device.
    pub fn fstat(&self) -> (r: u32)
        ensures
            r == S_IFCHR,
            r == 8192,
    {
        S_IFCHR
    }

    pub fn new() -> (r: UhyveStdin)
        ensures
            r == UhyveStdin,
    {
        UhyveStdin
    }
}

/// Standard output to the hypervisor.
pub struct UhyveStdout;

impl UhyveStdout {
    /// It is a terminal.
    pub fn isatty(&self) -> (r: bool)
        ensures
            r,
    {
        true
    }

    /// Its mode: that of a character device.
    pub fn fstat(&self) -> (r: u32)
        ensures
            r == S_IFCHR,
            r == 8192,
    {
        S_IFCHR
    }

    pub fn new() -> (r: UhyveStdout)
        ensures
            r == UhyveStdout,
    {
        UhyveStdout
    }

    /// Which of the events there are.
    pub fn poll(&self, event: u16) -> (r: u16)
        ensures
            r == event & POLL_WRITABLE,
    {
        event & POLL_WRITABLE
    }
}

/// Standard error to the hypervisor.
pub struct UhyveStderr;

impl UhyveStderr {
    /// It is a terminal.
    pub fn isatty(&self) -> (r: bool)
        ensures
            r,
    {
        true
    }

    /// Its mode: that of a character device.
    pub fn fstat(&self) -> (r: u32)
        ensures
            r == S_IFCHR,
            r == 8192,
    {
        S_IFCHR
    }

    pub fn new() -> (r: UhyveStderr)
        ensures
            r == UhyveStderr,
    {
        UhyveStderr
    }

    /// Which of the events there are.
    pub fn poll(&self, event: u16) -> (r: u16)
        ensures
            r == event & POLL_WRITABLE,
    {
        event & POLL_WRITABLE
    }
}

/// Polling never tells of an event that was not asked for.
pub proof fn law_poll_answers_what_was_asked(event: u16, available: u16)
    ensures
        (event & available) & !event == 0,
        (event & available) & !available == 0,
{
    assert((event & available) & !event == 0 && (event & available) & !available == 0)
        by (bit_vector);
}

/// The events that reading answers to are the bits 0, 6 and 7, and those of writing the bits
/// 2, 8 and 9; of those that were asked for, no other is told.
pub proof fn law_poll_events(event: u16)
    ensures
        event & POLL_READABLE == event % 2 + 64 * (event / 64 % 2) + 128 * (event / 128 % 2),
        event & POLL_WRITABLE == 4 * (event / 4 % 2) + 256 * (event / 256 % 2) + 512 * (event / 512
            % 2),
{
    assert(event & 0x00c1 == event % 2 + 64 * (event / 64 % 2) + 128 * (event / 128 % 2) && event
        & 0x0304 == 4 * (event / 4 % 2) + 256 * (event / 256 % 2) + 512 * (event / 512 % 2))
        by (bit_vector);
}

} // verus!
