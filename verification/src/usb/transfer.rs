//! Bulk transfers: the blocks that describe one, and waiting for its end.

use vstd::prelude::*;

use crate::usb::control;
use crate::usb::control::EVENT_POLLS;
use crate::usb::err::UsbError;
use crate::usb::trb::EventFilter;
use crate::usb::trb::Trb;
use crate::usb::trb::COMPLETION_INVALID;
use crate::usb::trb::COMPLETION_SHORT_PACKET;
use crate::usb::trb::COMPLETION_STALL_ERROR;
use crate::usb::trb::COMPLETION_SUCCESS;
use crate::usb::trb::CONTROL_CHAIN;
use crate::usb::trb::CONTROL_IOC;
use crate::usb::trb::CONTROL_ISP;
use crate::usb::trb::TRB_NORMAL;
use crate::usb::trb::TYPE_UNIT;

verus! {

/// No block crosses a multiple of this.
pub const BOUNDARY: u64 = 0x1_0000;

/// The unit of the packets that are still to come, in a block's status.
pub const TD_SIZE_UNIT: u32 = 0x2_0000;

/// The index of an endpoint's context.
pub open spec fn context_index(ep_num: u8, is_in: bool) -> int {
    ep_num * 2 + (if is_in {
        1int
    } else {
        0
    })
}

/// The index of an endpoint's context.
pub fn device_context_index(ep_num: u8, is_in: bool) -> (r: u8)
    requires
        ep_num < 16,
    ensures
        r == context_index(ep_num, is_in),
{
    ep_num * 2 + if is_in {
        1
    } else {
        0
    }
}

/// How many bytes go into the block at `phys`: up to the next boundary.
pub open spec fn chunk_of(phys: int, remaining: int) -> int {
    let room = BOUNDARY - phys % BOUNDARY as int;
    if remaining < room {
        remaining
    } else {
        room
    }
}

/// How many packets of 512 bytes are still to come, up to 31.
pub open spec fn td_size_of(left: int) -> int {
    if (left + 511) / 512 < 31 {
        (left + 511) / 512
    } else {
        31
    }
}

/// The block at `phys`, of a transfer of which `remaining` bytes are left.
pub open spec fn block_at(phys: int, remaining: int) -> Trb {
    let left = remaining - chunk_of(phys, remaining);
    Trb {
        param: phys as u64,
        status: (chunk_of(phys, remaining) + td_size_of(left) * TD_SIZE_UNIT) as u32,
        control: (TRB_NORMAL * TYPE_UNIT + if left == 0 {
            CONTROL_IOC as int
        } else {
            CONTROL_CHAIN + CONTROL_ISP
        }) as u32,
    }
}

/// The blocks for `remaining` bytes at `phys`.
pub open spec fn blocks_from(phys: int, remaining: int) -> Seq<Trb>
    decreases remaining,
{
    if remaining <= 0 {
        Seq::empty()
    } else {
        seq![block_at(phys, remaining)] + blocks_from(
            phys + chunk_of(phys, remaining),
            remaining - chunk_of(phys, remaining),
        )
    }
}

/// The blocks of a transfer; one of no bytes has one block as well.
pub open spec fn transfer_blocks(phys: int, len: int) -> Seq<Trb> {
    if len == 0 {
        seq![
            Trb {
                param: phys as u64,
                status: 0,
                control: (TRB_NORMAL * TYPE_UNIT + CONTROL_IOC) as u32,
            },
        ]
    } else {
        blocks_from(phys, len)
    }
}

/// Makes the blocks of a transfer of `len` bytes from or to `phys` on.
pub fn queue_transfer(phys: u64, len: u64) -> (r: Vec<Trb>)
    requires
        phys + len + BOUNDARY <= u64::MAX,
    ensures
        r@ == transfer_blocks(phys as int, len as int),
{
    let mut out: Vec<Trb> = Vec::new();
    if len == 0 {
        out.push(Trb { param: phys, status: 0, control: TRB_NORMAL * TYPE_UNIT + CONTROL_IOC });
        assert(out@ =~= transfer_blocks(phys as int, len as int));
        return out;
    }
    let mut at: u64 = phys;
    let mut remaining: u64 = len;
    while remaining > 0
        invariant
            at + remaining == phys + len,
            phys + len + BOUNDARY <= u64::MAX,
            out@ + blocks_from(at as int, remaining as int) == blocks_from(
                phys as int,
                len as int,
            ),
        decreases remaining,
    {
        let room: u64 = BOUNDARY - at % BOUNDARY;
        let chunk: u64 = if remaining < room {
            remaining
        } else {
            room
        };
        let left: u64 = remaining - chunk;
        let packets: u64 = (left + 511) / 512;
        let td_size: u32 = if packets < 31 {
            packets as u32
        } else {
            31
        };
        let control: u32 = TRB_NORMAL * TYPE_UNIT + if left == 0 {
            CONTROL_IOC
        } else {
            CONTROL_CHAIN + CONTROL_ISP
        };
        let trb = Trb { param: at, status: chunk as u32 + td_size * TD_SIZE_UNIT, control };
        let ghost before = out@;
        out.push(trb);
        proof {
            assert(trb == block_at(at as int, remaining as int));
            let rest = blocks_from(at + chunk, left as int);
            assert(before + (seq![trb] + rest) =~= out@ + rest);
        }
        at = at + chunk;
        remaining = left;
    }
    assert(out@ =~= transfer_blocks(phys as int, len as int));
    out
}

/// The bytes that a block transfers.
pub open spec fn block_len(t: Trb) -> int {
    t.status as int % TD_SIZE_UNIT as int
}

/// The blocks of a transfer follow each other without a gap from its first byte to its last;
/// none is empty, none crosses a boundary, each but the last is chained to the next, and
/// only the last tells of its completion.
pub proof fn law_blocks_cover_transfer(phys: int, len: int)
    requires
        0 <= phys,
        0 < len,
        phys + len <= u64::MAX,
    ensures
        ({
            let b = blocks_from(phys, len);
            &&& b.len() > 0
            &&& b[0].param == phys
            &&& b.last().param + block_len(b.last()) == phys + len
            &&& forall|i: int|
                #![trigger b[i]]
                0 <= i < b.len() ==> {
                    &&& 0 < block_len(b[i]) <= BOUNDARY
                    &&& b[i].param % BOUNDARY + block_len(b[i]) <= BOUNDARY
                    &&& b[i].control == (TRB_NORMAL * TYPE_UNIT + (if i + 1 == b.len() {
                        CONTROL_IOC as int
                    } else {
                        CONTROL_CHAIN + CONTROL_ISP
                    }))
                }
            &&& forall|i: int|
                #![trigger b[i]]
                0 <= i < b.len() - 1 ==> b[i].param + block_len(b[i]) == b[i + 1].param
        }),
    decreases len,
{
    let c = chunk_of(phys, len);
    let t = block_at(phys, len);
    let left = len - c;
    assert(0 <= td_size_of(left) <= 31);
    assert(0 < c <= 0x1_0000);
    let v = c + td_size_of(left) * TD_SIZE_UNIT;
    assert(v <= 0x1_0000 + 31 * 0x2_0000);
    assert(t.status == v);
    assert(v % 0x2_0000 == c);
    assert(block_len(t) == c);
    let b = blocks_from(phys, len);
    if left == 0 {
        assert(blocks_from(phys + c, 0) =~= Seq::<Trb>::empty());
        assert(b =~= seq![t]);
    } else {
        law_blocks_cover_transfer(phys + c, left);
        let rest = blocks_from(phys + c, left);
        assert(b =~= seq![t] + rest);
        assert(b.last() == rest.last());
        assert forall|i: int|
            #![trigger b[i]]
            0 <= i < b.len() implies {
                &&& 0 < block_len(b[i]) <= BOUNDARY
                &&& b[i].param % BOUNDARY + block_len(b[i]) <= BOUNDARY
                &&& b[i].control == (TRB_NORMAL * TYPE_UNIT + (if i + 1 == b.len() {
                    CONTROL_IOC as int
                } else {
                    CONTROL_CHAIN + CONTROL_ISP
                }))
            } by {
            if i > 0 {
                assert(b[i] == rest[i - 1]);
            }
        }
        assert forall|i: int|
            #![trigger b[i]]
            0 <= i < b.len() - 1 implies b[i].param + block_len(b[i]) == b[i + 1].param by {
            assert(b[i + 1] == rest[i]);
            if i > 0 {
                assert(b[i] == rest[i - 1]);
            }
        }
    }
}

/// Waiting for the end of a transfer on an endpoint.
#[derive(Clone, Copy)]
pub struct TransferWait {
    pub filter: EventFilter,
    pub requested: u64,
    pub polls: u32,
    pub result: Option<Result<u64, UsbError>>,
}

impl TransferWait {
    pub open spec fn begin(filter: EventFilter, requested: u64) -> TransferWait {
        TransferWait { filter, requested, polls: 0, result: None }
    }

    pub open spec fn polled_on(self) -> TransferWait {
        if self.polls + 1 < EVENT_POLLS {
            TransferWait { polls: (self.polls + 1) as u32, ..self }
        } else {
            TransferWait {
                result: Some(
                    Err(UsbError::Timeout("bulk transfer waiting for TRANSFER_EVENT")),
                ),
                ..self
            }
        }
    }

    /// What looking for an event makes of it.
    pub open spec fn after(self, event: Option<Trb>) -> TransferWait {
        match (self.result, event) {
            (Some(_), _) => self,
            (None, None) => self.polled_on(),
            (None, Some(e)) => if e.code() == COMPLETION_SUCCESS || e.code()
                == COMPLETION_SHORT_PACKET {
                TransferWait {
                    result: Some(
                        Ok(control::less_residual(self.requested as int, e.residual()) as u64),
                    ),
                    ..self
                }
            } else if e.code() == COMPLETION_INVALID {
                self.polled_on()
            } else if e.code() == COMPLETION_STALL_ERROR {
                TransferWait { result: Some(Err(UsbError::Stall)), ..self }
            } else {
                TransferWait { result: Some(Err(UsbError::XferFail(e.code() as u8))), ..self }
            },
        }
    }

    pub open spec fn wf(self) -> bool {
        self.polls < EVENT_POLLS
    }

    /// Begins to wait.
    pub fn wait_transfer_event(slot_id: u8, endpoint_id: u8, requested: u64) -> (r: TransferWait)
        ensures
            r == TransferWait::begin(EventFilter { slot_id, endpoint_id }, requested),
            r.wf(),
    {
        TransferWait {
            filter: EventFilter { slot_id, endpoint_id },
            requested,
            polls: 0,
            result: None,
        }
    }

    /// Takes what was found, if anything.
    pub fn feed(&mut self, event: Option<Trb>)
        requires
            old(self).wf(),
        ensures
            *final(self) == old(self).after(event),
            final(self).wf(),
    {
        if self.result.is_some() {
            return;
        }
        let skipped: bool = match event {
            None => true,
            Some(e) => {
                let code: u8 = e.completion_code();
                if code == COMPLETION_SUCCESS || code == COMPLETION_SHORT_PACKET {
                    let residual: u64 = e.transfer_length() as u64;
                    self.result = Some(
                        Ok(
                            if self.requested < residual {
                                0
                            } else {
                                self.requested - residual
                            },
                        ),
                    );
                    false
                } else if code == COMPLETION_INVALID {
                    true
                } else if code == COMPLETION_STALL_ERROR {
                    self.result = Some(Err(UsbError::Stall));
                    false
                } else {
                    self.result = Some(Err(UsbError::XferFail(code)));
                    false
                }
            },
        };
        if skipped {
            if self.polls + 1 < EVENT_POLLS {
                self.polls = self.polls + 1;
            } else {
                self.result = Some(
                    Err(UsbError::Timeout("bulk transfer waiting for TRANSFER_EVENT")),
                );
            }
        }
    }
}

/// Waiting for a transfer comes to an end, whatever events come.
pub proof fn law_transfer_wait_ends(m: TransferWait, event: Option<Trb>)
    requires
        m.wf(),
        m.result is None,
    ensures
        m.after(event).result is Some || m.after(event).polls > m.polls,
        m.after(event).wf(),
{
}

} // verus!
