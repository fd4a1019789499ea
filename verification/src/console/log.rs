//! The console log: the last bytes that were written.

use vstd::prelude::*;

use crate::bytes;

verus! {

pub const CONSOLE_LOG_CAPACITY: usize = 262144;

/// A place in the ring, given how far it is from the ring's first byte.
pub open spec fn ring_at(i: int) -> int {
    if i < CONSOLE_LOG_CAPACITY {
        i
    } else {
        i - CONSOLE_LOG_CAPACITY
    }
}

/// The last bytes, as many as the log holds.
pub open spec fn latest(s: Seq<u8>) -> Seq<u8> {
    if s.len() <= CONSOLE_LOG_CAPACITY {
        s
    } else {
        s.skip(s.len() - CONSOLE_LOG_CAPACITY)
    }
}

/// The log, in a ring.
pub struct ConsoleLog {
    pub buffer: Vec<u8>,
    pub start: usize,
    pub len: usize,
    pub capture_enabled: bool,
}

impl View for ConsoleLog {
    type V = Seq<u8>;

    open spec fn view(&self) -> Seq<u8> {
        Seq::new(self.len as nat, |i: int| self.buffer@[ring_at(self.start + i)])
    }
}

impl ConsoleLog {
    pub open spec fn wf(self) -> bool {
        &&& self.buffer@.len() == CONSOLE_LOG_CAPACITY
        &&& self.start < CONSOLE_LOG_CAPACITY
        &&& self.len <= CONSOLE_LOG_CAPACITY
    }

    /// An empty log that captures.
    pub fn new() -> (r: ConsoleLog)
        ensures
            r.wf(),
            r@ == Seq::<u8>::empty(),
            r.capture_enabled,
    {
        let r = ConsoleLog {
            buffer: bytes::zeroed(CONSOLE_LOG_CAPACITY),
            start: 0,
            len: 0,
            capture_enabled: true,
        };
        assert(r@ =~= Seq::<u8>::empty());
        r
    }

    fn write_behind(&mut self, bytes: &[u8])
        requires
            old(self).wf(),
            old(self).len + bytes@.len() <= CONSOLE_LOG_CAPACITY,
        ensures
            final(self).wf(),
            final(self)@ == old(self)@ + bytes@,
            final(self).capture_enabled == old(self).capture_enabled,
    {
        let ghost before = self@;
        let len: usize = self.len;
        let mut i: usize = 0;
        while i < bytes.len()
            invariant
                i <= bytes.len(),
                self.wf(),
                self.len == len,
                len + bytes@.len() <= CONSOLE_LOG_CAPACITY,
                before.len() == len,
                self.capture_enabled == old(self).capture_enabled,
                forall|k: int|
                    0 <= k < len ==> self.buffer@[ring_at(self.start + k)] == #[trigger] before[k],
                forall|k: int|
                    0 <= k < i ==> self.buffer@[ring_at(self.start + len + k)]
                        == #[trigger] bytes@[k],
            decreases bytes.len() - i,
        {
            let at: usize = self.start + len + i;
            let at: usize = if at < CONSOLE_LOG_CAPACITY {
                at
            } else {
                at - CONSOLE_LOG_CAPACITY
            };
            self.buffer.set(at, bytes[i]);
            i = i + 1;
        }
        self.len = len + bytes.len();
        assert(self@ =~= before + bytes@);
    }

    /// Appends bytes, unless capturing is switched off; the oldest bytes make room.
    pub fn append(&mut self, bytes: &[u8])
        requires
            old(self).wf(),
        ensures
            final(self).wf(),
            final(self)@ == (if old(self).capture_enabled {
                latest(old(self)@ + bytes@)
            } else {
                old(self)@
            }),
            final(self).capture_enabled == old(self).capture_enabled,
    {
        if !self.capture_enabled || bytes.len() == 0 {
            assert(old(self)@ + bytes@ =~= old(self)@ || !self.capture_enabled);
            return;
        }
        let ghost before = self@;
        if bytes.len() >= CONSOLE_LOG_CAPACITY {
            let tail = vstd::slice::slice_subrange(
                bytes,
                bytes.len() - CONSOLE_LOG_CAPACITY,
                bytes.len(),
            );
            self.buffer = bytes::to_vec(tail);
            self.start = 0;
            self.len = CONSOLE_LOG_CAPACITY;
            assert(self@ =~= latest(before + bytes@));
            return;
        }
        let free: usize = CONSOLE_LOG_CAPACITY - self.len;
        if bytes.len() > free {
            let drop_len: usize = bytes.len() - free;
            let start: usize = self.start + drop_len;
            self.start = if start < CONSOLE_LOG_CAPACITY {
                start
            } else {
                start - CONSOLE_LOG_CAPACITY
            };
            self.len = self.len - drop_len;
            assert(self@ =~= before.skip(drop_len as int));
        }
        self.write_behind(bytes);
        assert(self@ =~= latest(before + bytes@));
    }

    /// How many bytes the log holds.
    pub fn len(&self) -> (r: usize)
        requires
            self.wf(),
        ensures
            r == self@.len(),
    {
        self.len
    }

    /// Reads up to `room` bytes from an offset on; none from behind the end.
    pub fn read(&self, offset: usize, room: usize) -> (r: Vec<u8>)
        requires
            self.wf(),
        ensures
            r@ == (if offset >= self@.len() {
                Seq::empty()
            } else if self@.len() - offset <= room {
                self@.skip(offset as int)
            } else {
                self@.subrange(offset as int, offset + room)
            }),
    {
        let mut out: Vec<u8> = Vec::new();
        if offset >= self.len {
            assert(out@ =~= Seq::<u8>::empty());
            return out;
        }
        let read_len: usize = if self.len - offset < room {
            self.len - offset
        } else {
            room
        };
        let mut i: usize = 0;
        while i < read_len
            invariant
                i <= read_len,
                self.wf(),
                offset + read_len <= self.len,
                out@ == self@.subrange(offset as int, offset + i),
            decreases read_len - i,
        {
            let at: usize = self.start + offset + i;
            let at: usize = if at < CONSOLE_LOG_CAPACITY {
                at
            } else {
                at - CONSOLE_LOG_CAPACITY
            };
            out.push(self.buffer[at]);
            i = i + 1;
            assert(out@ =~= self@.subrange(offset as int, offset + i));
        }
        assert(self@.subrange(offset as int, self.len as int) =~= self@.skip(offset as int));
        out
    }

    /// Switches capturing on or off.
    pub fn set_capture_enabled(&mut self, enabled: bool)
        requires
            old(self).wf(),
        ensures
            final(self).wf(),
            final(self)@ == old(self)@,
            final(self).capture_enabled == enabled,
    {
        self.capture_enabled = enabled;
        assert(self@ =~= old(self)@);
    }
}

/// However bytes are cut into pieces, the log holds the same: the last of them all.
pub proof fn law_pieces_make_no_difference(log: Seq<u8>, a: Seq<u8>, b: Seq<u8>)
    ensures
        latest(latest(log + a) + b) == latest(log + (a + b)),
{
    assert(log + a + b =~= log + (a + b));
    assert(latest(latest(log + a) + b) =~= latest(log + (a + b)));
}

/// What was appended last can be read back: all of it if the log can hold it.
pub proof fn law_appended_is_last(log: Seq<u8>, a: Seq<u8>)
    requires
        a.len() <= CONSOLE_LOG_CAPACITY,
    ensures
        latest(log + a).len() >= a.len(),
        latest(log + a).skip(latest(log + a).len() - a.len()) == a,
{
    assert(latest(log + a).skip(latest(log + a).len() - a.len()) =~= a);
}

/// The log holds the last 262144 bytes of all that was appended, in their order, and all of
/// them where there were no more.
pub proof fn law_log_keeps_the_last(all: Seq<u8>)
    ensures
        all.len() <= 262144 ==> latest(all) == all,
        all.len() > 262144 ==> latest(all).len() == 262144,
        forall|back: int|
            0 <= back < latest(all).len() ==> #[trigger] latest(all)[latest(all).len() - 1 - back]
                == all[all.len() - 1 - back],
{
}

} // verus!
