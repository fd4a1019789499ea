//! The driver of the USB network adapter: receiving frames, and handing them out.

use vstd::prelude::*;

use std::collections::VecDeque;

verus! {

pub const RTL8152_MTU: u64 = 1536;

/// Frames that came in, oldest first, and how many of them were promised to a reader.
pub struct RxQueue {
    pub frames: VecDeque<Vec<u8>>,
    pub reserved: usize,
}

/// The frames' bytes.
pub open spec fn frames_of(q: Seq<Vec<u8>>) -> Seq<Seq<u8>> {
    q.map_values(|f: Vec<u8>| f@)
}

impl View for RxQueue {
    type V = Seq<Seq<u8>>;

    open spec fn view(&self) -> Seq<Seq<u8>> {
        frames_of(self.frames@)
    }
}

impl RxQueue {
    /// No frame is promised that is not there.
    pub open spec fn wf(self) -> bool {
        self.reserved <= self@.len()
    }

    /// No frames.
    pub fn new() -> (r: RxQueue)
        ensures
            r@.len() == 0,
            r.reserved == 0,
            r.wf(),
    {
        RxQueue { frames: VecDeque::new(), reserved: 0 }
    }

    /// A frame came in.
    pub fn push(&mut self, frame: Vec<u8>)
        requires
            old(self).wf(),
        ensures
            final(self)@ == old(self)@.push(frame@),
            final(self).reserved == old(self).reserved,
            final(self).wf(),
    {
        self.frames.push_back(frame);
        assert(self@ =~= old(self)@.push(frame@));
    }

    /// Whether there is a frame.
    pub fn has_packet(&self) -> (r: bool)
        ensures
            r == (self@.len() > 0),
    {
        self.frames.len() > 0
    }

    /// Promises a frame to a reader, if there is one that was not promised.
    pub fn receive(&mut self) -> (r: bool)
        requires
            old(self).wf(),
        ensures
            r == (old(self)@.len() > old(self).reserved),
            final(self)@ == old(self)@,
            final(self).reserved == old(self).reserved + (if r {
                1int
            } else {
                0
            }),
            final(self).wf(),
    {
        if self.frames.len() <= self.reserved {
            return false;
        }
        self.reserved = self.reserved + 1;
        true
    }

    /// Takes a frame that was promised: the oldest.
    pub fn consume(&mut self) -> (r: Vec<u8>)
        requires
            old(self).wf(),
            old(self).reserved > 0,
        ensures
            r@ == old(self)@[0],
            final(self)@ == old(self)@.skip(1),
            final(self).reserved == old(self).reserved - 1,
            final(self).wf(),
    {
        match self.frames.pop_front() {
            Some(frame) => {
                self.reserved = self.reserved - 1;
                assert(self@ =~= old(self)@.skip(1));
                frame
            },
            None => Vec::new(),
        }
    }

    /// Gives a promise up without taking the frame.
    pub fn release(&mut self)
        requires
            old(self).wf(),
            old(self).reserved > 0,
        ensures
            final(self)@ == old(self)@,
            final(self).reserved == old(self).reserved - 1,
            final(self).wf(),
    {
        self.reserved = self.reserved - 1;
    }
}

/// How far a look for frames has come.
#[derive(Clone, Copy, Debug, PartialEq, Eq, Structural)]
pub enum RxPhase {
    /// Look at the transfer that waits.
    Poll,
    /// Give its buffer up.
    Free,
    /// Begin a new one.
    Arm,
    Done,
}

/// What a look for frames asks for.
#[derive(Clone, Copy, Debug, PartialEq, Eq, Structural)]
pub enum RxRequest {
    Poll,
    Free,
    /// Begin a transfer into a new buffer of as many bytes.
    Arm { len: u64 },
    Done,
}

/// What looking at the transfer showed.
#[derive(Clone, Copy, Debug, PartialEq, Eq, Structural)]
pub enum RxPoll {
    /// It is over, well or not: a frame that came in was put into the queue.
    Over,
    /// It still waits.
    Waiting,
}

/// A look for frames.
#[derive(Clone, Copy, Debug, PartialEq, Eq, Structural)]
pub struct PollRx {
    pub phase: RxPhase,
    /// Whether a transfer waits.
    pub armed: bool,
    /// Whether to look again once a transfer has begun.
    pub again: bool,
    pub len: u64,
}

impl PollRx {
    pub open spec fn begin(armed: bool, len: u64) -> PollRx {
        PollRx {
            phase: if armed {
                RxPhase::Poll
            } else {
                RxPhase::Arm
            },
            armed,
            again: armed,
            len,
        }
    }

    pub open spec fn request(self) -> RxRequest {
        match self.phase {
            RxPhase::Poll => RxRequest::Poll,
            RxPhase::Free => RxRequest::Free,
            RxPhase::Arm => RxRequest::Arm { len: self.len },
            RxPhase::Done => RxRequest::Done,
        }
    }

    /// After the transfer was looked at.
    pub open spec fn after_poll(self, poll: RxPoll) -> PollRx {
        match poll {
            RxPoll::Over => PollRx { phase: RxPhase::Free, ..self },
            RxPoll::Waiting => PollRx { phase: RxPhase::Done, ..self },
        }
    }

    /// After its buffer was given up.
    pub open spec fn after_free(self) -> PollRx {
        PollRx { phase: RxPhase::Arm, armed: false, ..self }
    }

    /// After a new transfer began, or could not. One that could not is tried once more.
    pub open spec fn after_arm(self, ok: bool) -> PollRx {
        if !self.again {
            PollRx { phase: RxPhase::Done, armed: ok, ..self }
        } else if ok {
            PollRx { phase: RxPhase::Poll, armed: true, ..self }
        } else {
            PollRx { phase: RxPhase::Arm, again: false, ..self }
        }
    }

    /// Begins to look for frames.
    pub fn poll_rx(armed: bool, len: u64) -> (r: PollRx)
        ensures
            r == PollRx::begin(armed, len),
    {
        PollRx {
            phase: if armed {
                RxPhase::Poll
            } else {
                RxPhase::Arm
            },
            armed,
            again: armed,
            len,
        }
    }

    /// What is needed next.
    pub fn next_request(&self) -> (r: RxRequest)
        ensures
            r == self.request(),
    {
        match self.phase {
            RxPhase::Poll => RxRequest::Poll,
            RxPhase::Free => RxRequest::Free,
            RxPhase::Arm => RxRequest::Arm { len: self.len },
            RxPhase::Done => RxRequest::Done,
        }
    }

    /// Takes what looking at the transfer showed.
    pub fn polled(&mut self, poll: RxPoll)
        ensures
            *final(self) == old(self).after_poll(poll),
    {
        self.phase = match poll {
            RxPoll::Over => RxPhase::Free,
            RxPoll::Waiting => RxPhase::Done,
        };
    }

    /// The buffer was given up.
    pub fn freed(&mut self)
        ensures
            *final(self) == old(self).after_free(),
    {
        self.phase = RxPhase::Arm;
        self.armed = false;
    }

    /// Takes whether a new transfer began.
    pub fn armed(&mut self, ok: bool)
        ensures
            *final(self) == old(self).after_arm(ok),
    {
        if !self.again {
            self.armed = ok;
            self.phase = RxPhase::Done;
        } else if ok {
            self.armed = true;
            self.phase = RxPhase::Poll;
        } else {
            self.again = false;
            self.phase = RxPhase::Arm;
        }
    }
}

/// Frames are handed out in the order in which they came: with the frames that wait before
/// those that come, taking one takes the oldest.
pub proof fn law_frames_keep_their_order(q: Seq<Seq<u8>>, frame: Seq<u8>)
    requires
        q.len() > 0,
    ensures
        q.push(frame).skip(1) == q.skip(1).push(frame),
        q.push(frame)[0] == q[0],
{
    assert(q.push(frame).skip(1) =~= q.skip(1).push(frame));
}

} // verus!
