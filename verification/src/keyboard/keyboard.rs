//! What was typed and not read yet.

use vstd::prelude::*;

use crate::bytes;
use crate::keyboard::keys::KeyState;

verus! {

pub const BUFFER_LEN: usize = 128;

/// How many scan codes are taken at once.
pub const POLL_LIMIT: u32 = 32;

pub const STATUS_OUTPUT_FULL: u8 = 1;

pub const STATUS_INPUT_FULL: u8 = 2;

/// The keyboard: its keys, and a ring of what was typed.
pub struct Ps2Keyboard {
    pub present: bool,
    pub keys: KeyState,
    pub buffer: Vec<u8>,
    pub head: usize,
    pub tail: usize,
}

/// How far apart two places of the ring are.
pub open spec fn distance(head: int, tail: int) -> int {
    if head >= tail {
        head - tail
    } else {
        head - tail + BUFFER_LEN
    }
}

/// A place of the ring, given how far it is from another.
pub open spec fn ring_at(i: int) -> int {
    if i < BUFFER_LEN {
        i
    } else {
        i - BUFFER_LEN
    }
}

fn next_place(i: usize) -> (r: usize)
    requires
        i < BUFFER_LEN,
    ensures
        r == ring_at(i + 1),
        r < BUFFER_LEN,
{
    if i + 1 < BUFFER_LEN {
        i + 1
    } else {
        0
    }
}

impl View for Ps2Keyboard {
    type V = Seq<u8>;

    /// What was typed and not read, oldest first.
    open spec fn view(&self) -> Seq<u8> {
        Seq::new(
            distance(self.head as int, self.tail as int) as nat,
            |i: int| self.buffer@[ring_at(self.tail + i)],
        )
    }
}

impl Ps2Keyboard {
    pub open spec fn wf(self) -> bool {
        self.buffer@.len() == BUFFER_LEN && self.head < BUFFER_LEN && self.tail < BUFFER_LEN
    }

    /// What was typed and not read, once a scan code is taken.
    pub open spec fn typed(self, scancode: u8) -> Seq<u8> {
        match self.keys.after(scancode).1 {
            Some(b) => if self@.len() < BUFFER_LEN - 1 {
                self@.push(b)
            } else {
                self@
            },
            None => self@,
        }
    }

    /// A keyboard of which nothing is known yet.
    pub fn new() -> (r: Ps2Keyboard)
        ensures
            r.wf(),
            r@ == Seq::<u8>::empty(),
            !r.present,
            r.keys == KeyState::idle(),
    {
        let r = Ps2Keyboard {
            present: false,
            keys: KeyState::new(),
            buffer: bytes::zeroed(BUFFER_LEN),
            head: 0,
            tail: 0,
        };
        assert(r@ =~= Seq::<u8>::empty());
        r
    }

    /// Whether something was typed.
    pub fn available(&self) -> (r: bool)
        requires
            self.wf(),
        ensures
            r == (self@.len() > 0),
    {
        self.head != self.tail
    }

    /// Adds a byte, unless there is no room.
    pub fn push(&mut self, byte: u8)
        requires
            old(self).wf(),
        ensures
            final(self).wf(),
            final(self)@ == (if old(self)@.len() < BUFFER_LEN - 1 {
                old(self)@.push(byte)
            } else {
                old(self)@
            }),
            final(self).keys == old(self).keys,
            final(self).present == old(self).present,
    {
        let next: usize = next_place(self.head);
        if next != self.tail {
            self.buffer.set(self.head, byte);
            self.head = next;
            assert(self@ =~= old(self)@.push(byte));
        }
    }

    /// Takes the oldest byte.
    pub fn pop(&mut self) -> (r: Option<u8>)
        requires
            old(self).wf(),
        ensures
            final(self).wf(),
            match r {
                Some(b) => old(self)@.len() > 0 && b == old(self)@[0] && final(self)@ == old(
                    self,
                )@.skip(1),
                None => old(self)@.len() == 0 && final(self)@ == old(self)@,
            },
            final(self).keys == old(self).keys,
            final(self).present == old(self).present,
    {
        if self.head == self.tail {
            return None;
        }
        let byte: u8 = self.buffer[self.tail];
        self.tail = next_place(self.tail);
        assert(self@ =~= old(self)@.skip(1));
        Some(byte)
    }

    /// Takes a scan code: what it types is added.
    pub fn take_scancode(&mut self, scancode: u8)
        requires
            old(self).wf(),
        ensures
            final(self).wf(),
            final(self).keys == old(self).keys.after(scancode).0,
            final(self)@ == old(self).typed(scancode),
            final(self).present == old(self).present,
    {
        let typed = self.keys.decode(scancode);
        assert(self@ =~= old(self)@);
        if let Some(byte) = typed {
            self.push(byte);
        }
    }

    /// Reads what was typed, oldest first, as far as there is room.
    pub fn read(&mut self, room: usize) -> (r: Vec<u8>)
        requires
            old(self).wf(),
        ensures
            final(self).wf(),
            r@ + final(self)@ == old(self)@,
            r@.len() == (if old(self)@.len() < room {
                old(self)@.len() as int
            } else {
                room as int
            }),
            final(self).keys == old(self).keys,
            final(self).present == old(self).present,
    {
        let mut out: Vec<u8> = Vec::new();
        let ghost all = self@;
        assert(out@ + self@ =~= all);
        while out.len() < room
            invariant_except_break
                out.len() <= room,
            invariant
                self.wf(),
                out@ + self@ == all,
                self.keys == old(self).keys,
                self.present == old(self).present,
            ensures
                out.len() <= room,
                out.len() == room || self@.len() == 0,
            decreases room - out.len(),
        {
            let ghost before = self@;
            let ghost had = out@;
            match self.pop() {
                Some(byte) => {
                    out.push(byte);
                    assert(out@ + self@ =~= had + before);
                },
                None => {
                    break;
                },
            }
        }
        out
    }

    /// The keyboard was asked to use the first set: no key is down.
    pub fn restart(&mut self)
        requires
            old(self).wf(),
        ensures
            final(self).wf(),
            final(self)@ == old(self)@,
            final(self).keys == (KeyState {
                caps_lock: old(self).keys.caps_lock,
                ..KeyState::idle()
            }),
            final(self).present == old(self).present,
    {
        self.keys = KeyState { caps_lock: self.keys.caps_lock, ..KeyState::new() };
        assert(self@ =~= old(self)@);
    }

    /// Whether the keyboard was found.
    pub fn polling_enabled(&self) -> (r: bool)
        ensures
            r == self.present,
    {
        self.present
    }
}

/// What taking waiting scan codes in asks for.
#[derive(Clone, Copy, Debug, PartialEq, Eq, Structural)]
pub enum PollRequest {
    /// The controller's status.
    ReadStatus,
    /// The scan code that waits.
    ReadData,
    Done,
}

/// Taking waiting scan codes in: how many more may be taken, and whether one is known to wait.
#[derive(Clone, Copy, Debug, PartialEq, Eq, Structural)]
pub struct Poll {
    pub left: u32,
    pub waits: bool,
}

impl Poll {
    /// About to look whether a scan code waits, if there is a keyboard.
    pub open spec fn begin(present: bool) -> Poll {
        Poll {
            left: if present {
                POLL_LIMIT
            } else {
                0
            },
            waits: false,
        }
    }

    /// What is asked for.
    pub open spec fn request(self) -> PollRequest {
        if self.left == 0 {
            PollRequest::Done
        } else if self.waits {
            PollRequest::ReadData
        } else {
            PollRequest::ReadStatus
        }
    }

    /// What an answer makes of it: a scan code was taken, or one waits, or none does.
    pub open spec fn after(self, value: u8) -> Poll {
        match self.request() {
            PollRequest::ReadData => Poll { left: (self.left - 1) as u32, waits: false },
            PollRequest::ReadStatus => if value % 2 == STATUS_OUTPUT_FULL {
                Poll { waits: true, ..self }
            } else {
                Poll { left: 0, ..self }
            },
            PollRequest::Done => self,
        }
    }

    /// Begins to take scan codes in.
    pub fn poll(keyboard: &Ps2Keyboard) -> (r: Poll)
        ensures
            r == Poll::begin(keyboard.present),
    {
        Poll {
            left: if keyboard.present {
                POLL_LIMIT
            } else {
                0
            },
            waits: false,
        }
    }

    /// What is needed next.
    pub fn next_request(&self) -> (r: PollRequest)
        ensures
            r == self.request(),
    {
        if self.left == 0 {
            PollRequest::Done
        } else if self.waits {
            PollRequest::ReadData
        } else {
            PollRequest::ReadStatus
        }
    }

    /// Takes a status, or a scan code for the keyboard.
    pub fn feed(&mut self, keyboard: &mut Ps2Keyboard, value: u8)
        requires
            old(keyboard).wf(),
        ensures
            *final(self) == old(self).after(value),
            final(keyboard).wf(),
            final(keyboard).present == old(keyboard).present,
            old(self).request() == PollRequest::ReadData ==> final(keyboard).keys == old(
                keyboard,
            ).keys.after(value).0 && final(keyboard)@ == old(keyboard).typed(value),
            old(self).request() != PollRequest::ReadData ==> *final(keyboard) == *old(keyboard),
    {
        match self.next_request() {
            PollRequest::ReadData => {
                keyboard.take_scancode(value);
                self.left = self.left - 1;
                self.waits = false;
            },
            PollRequest::ReadStatus => {
                if value % 2 == STATUS_OUTPUT_FULL {
                    self.waits = true;
                } else {
                    self.left = 0;
                }
            },
            PollRequest::Done => {},
        }
    }
}

/// Whatever the controller answers, taking scan codes in comes to an end: with each answer
/// there are fewer reads to come. So no more scan codes are taken at once than the limit.
pub proof fn law_poll_ends(p: Poll, value: u8)
    requires
        p.request() != PollRequest::Done,
    ensures
        2 * p.after(value).left + (if p.after(value).waits {
            0int
        } else {
            1int
        }) < 2 * p.left + (if p.waits {
            0int
        } else {
            1int
        }),
        p.after(value).left == p.left - 1 || p.request() == PollRequest::ReadStatus,
        p.after(value).left <= p.left,
{
}

} // verus!
