//! What sockets have in common.

use vstd::prelude::*;

use crate::stdio::POLL_READABLE;
use crate::stdio::POLL_WRITABLE;

verus! {

/// The socket is not open.
pub const POLL_INVALID: u16 = 0x0020;

/// Calls do not wait.
pub const O_NONBLOCK: i32 = 0o4000;

/// Why a call failed.
#[derive(Clone, Copy, Debug, PartialEq, Eq, Structural)]
pub enum SocketError {
    Io,
    Inval,
    Addrinuse,
}

/// An address of either version.
#[derive(Clone, Copy, Debug, PartialEq, Eq, Structural)]
pub enum IpAddress {
    V4(u32),
    V6(u128),
}

/// An address and a port.
#[derive(Clone, Copy, Debug, PartialEq, Eq, Structural)]
pub struct IpEndpoint {
    pub addr: IpAddress,
    pub port: u16,
}

/// How long a call waits, at most.
#[derive(Clone, Copy, Debug, PartialEq, Eq, Structural)]
pub struct Timeout {
    pub secs: u64,
    pub nanos: u32,
}

/// An option of a socket.
#[derive(Clone, Copy, Debug, PartialEq, Eq, Structural)]
pub enum SocketOption {
    ReadTimeout(Option<Timeout>),
    WriteTimeout(Option<Timeout>),
    /// One that these sockets do not have.
    Other,
}

/// What polling a socket comes to.
#[derive(Clone, Copy, Debug, PartialEq, Eq, Structural)]
pub enum PollOutcome {
    Ready(u16),
    /// Nothing yet: wake the caller when the socket can be read, or written.
    Pending { on_recv: bool, on_send: bool },
}

/// What a socket is ready for.
pub open spec fn ready_for(can_send: bool, can_recv: bool) -> u16 {
    (if can_send {
        POLL_WRITABLE
    } else {
        0
    }) | (if can_recv {
        POLL_READABLE
    } else {
        0
    })
}

/// What events that there are, or are not, come to.
pub open spec fn outcome_of(event: u16, found: u16) -> PollOutcome {
    if found != 0 {
        PollOutcome::Ready(found)
    } else {
        PollOutcome::Pending {
            on_recv: event & POLL_READABLE != 0,
            on_send: event & POLL_WRITABLE != 0,
        }
    }
}

/// Polls a socket.
pub fn poll_events(is_open: bool, can_send: bool, can_recv: bool, event: u16) -> (r: PollOutcome)
    ensures
        r == outcome_of(
            event,
            if is_open {
                event & ready_for(can_send, can_recv)
            } else {
                POLL_INVALID
            },
        ),
{
    let avail: u16 = (if can_send {
        POLL_WRITABLE
    } else {
        0
    }) | (if can_recv {
        POLL_READABLE
    } else {
        0
    });
    let found: u16 = if is_open {
        event & avail
    } else {
        POLL_INVALID
    };
    if found != 0 {
        PollOutcome::Ready(found)
    } else {
        PollOutcome::Pending {
            on_recv: event & POLL_READABLE != 0,
            on_send: event & POLL_WRITABLE != 0,
        }
    }
}

/// What is set of a socket.
#[derive(Clone, Copy, Debug, PartialEq, Eq, Structural)]
pub struct Settings {
    pub nonblocking: bool,
    pub read_timeout: Option<Timeout>,
    pub write_timeout: Option<Timeout>,
}

impl Settings {
    /// What is set of a new socket: calls wait, as long as it takes.
    pub open spec fn initial() -> Settings {
        Settings { nonblocking: false, read_timeout: None, write_timeout: None }
    }

    pub fn new() -> (r: Settings)
        ensures
            r == Settings::initial(),
    {
        Settings { nonblocking: false, read_timeout: None, write_timeout: None }
    }

    /// The flags of a socket.
    pub fn status_flags(&self) -> (r: i32)
        ensures
            r == (if self.nonblocking {
                O_NONBLOCK
            } else {
                0
            }),
            r == 0 || r == 2048,
    {
        if self.nonblocking {
            O_NONBLOCK
        } else {
            0
        }
    }

    /// Sets the flags of a socket.
    pub fn set_status_flags(&mut self, flags: i32)
        ensures
            *final(self) == (Settings { nonblocking: flags & O_NONBLOCK != 0, ..*old(self) }),
    {
        self.nonblocking = flags & O_NONBLOCK != 0;
    }

    /// Sets an option, if sockets have it.
    pub fn setsockopt(&mut self, opt: SocketOption) -> (r: Result<(), SocketError>)
        ensures
            match opt {
                SocketOption::ReadTimeout(t) => r is Ok && *final(self) == (Settings {
                    read_timeout: t,
                    ..*old(self)
                }),
                SocketOption::WriteTimeout(t) => r is Ok && *final(self) == (Settings {
                    write_timeout: t,
                    ..*old(self)
                }),
                SocketOption::Other => r == Err::<(), SocketError>(SocketError::Inval)
                    && *final(self) == *old(self),
            },
    {
        match opt {
            SocketOption::ReadTimeout(t) => {
                self.read_timeout = t;
                Ok(())
            },
            SocketOption::WriteTimeout(t) => {
                self.write_timeout = t;
                Ok(())
            },
            SocketOption::Other => Err(SocketError::Inval),
        }
    }

    /// What an option is set to.
    pub open spec fn option_of(self, opt: SocketOption) -> Result<SocketOption, SocketError> {
        match opt {
            SocketOption::ReadTimeout(_) => Ok(SocketOption::ReadTimeout(self.read_timeout)),
            SocketOption::WriteTimeout(_) => Ok(SocketOption::WriteTimeout(self.write_timeout)),
            SocketOption::Other => Err(SocketError::Inval),
        }
    }

    /// Gets an option, if sockets have it.
    pub fn getsockopt(&self, opt: SocketOption) -> (r: Result<SocketOption, SocketError>)
        ensures
            r == self.option_of(opt),
    {
        match opt {
            SocketOption::ReadTimeout(_) => Ok(SocketOption::ReadTimeout(self.read_timeout)),
            SocketOption::WriteTimeout(_) => Ok(SocketOption::WriteTimeout(self.write_timeout)),
            SocketOption::Other => Err(SocketError::Inval),
        }
    }
}

/// An option is what it was set to, until it is set again.
pub proof fn law_option_is_kept(s: Settings, opt: SocketOption)
    requires
        opt != SocketOption::Other,
    ensures
        ({
            let after = match opt {
                SocketOption::ReadTimeout(t) => Settings { read_timeout: t, ..s },
                SocketOption::WriteTimeout(t) => Settings { write_timeout: t, ..s },
                SocketOption::Other => s,
            };
            after.option_of(opt) == Ok::<SocketOption, SocketError>(opt)
        }),
{
}

/// A poll that waits is woken by whatever it waits for: a socket that is not ready for
/// something that was asked for will wake the caller when it is.
pub proof fn law_waiting_is_woken(event: u16)
    requires
        outcome_of(event, 0) is Pending,
        event & (POLL_READABLE | POLL_WRITABLE) != 0,
    ensures
        outcome_of(event, 0)->on_recv || outcome_of(event, 0)->on_send,
{
    assert(event & (0x00c1u16 | 0x0304) != 0 ==> event & 0x00c1 != 0 || event & 0x0304 != 0)
        by (bit_vector);
}

} // verus!
