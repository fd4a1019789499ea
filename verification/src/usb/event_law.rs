//! What the controller's events are called, and which of them is taken.

use vstd::prelude::*;

use crate::usb::control::ControlTransfer;
use crate::usb::init::InitHost;
use crate::usb::init::InitParams;
use crate::usb::init::InitPhase;
use crate::usb::port::ResetPort;
use crate::usb::setup::SetupPacket;
use crate::usb::transfer::TransferWait;
use crate::usb::trb;
use crate::usb::trb::EventFilter;
use crate::usb::trb::Trb;
use crate::usb::walk::Walk;

verus! {

/// The events from 32 to 39 have names; no other has one.
pub proof fn law_event_names(ty: u8)
    ensures
        ty == 32 ==> trb::name_of_event(ty) == "TRANSFER_EVENT",
        ty == 33 ==> trb::name_of_event(ty) == "COMMAND_COMPLETION",
        ty == 34 ==> trb::name_of_event(ty) == "PORT_STATUS_CHANGE",
        ty == 35 ==> trb::name_of_event(ty) == "BANDWIDTH_REQUEST",
        ty == 36 ==> trb::name_of_event(ty) == "DOORBELL_EVENT",
        ty == 37 ==> trb::name_of_event(ty) == "HOST_CONTROLLER_EVENT",
        ty == 38 ==> trb::name_of_event(ty) == "DEVICE_NOTIFICATION",
        ty == 39 ==> trb::name_of_event(ty) == "MFINDEX_WRAP",
        ty < 32 || ty > 39 ==> trb::name_of_event(ty) == "UNKNOWN",
{
}

proof fn lemma_first(events: Seq<Trb>, f: spec_fn(Trb) -> bool, from: int)
    requires
        0 <= from <= events.len(),
    ensures
        from <= trb::first_accepted(events, f, from) <= events.len(),
        trb::first_accepted(events, f, from) < events.len() ==> f(
            events[trb::first_accepted(events, f, from)],
        ),
        forall|i: int| from <= i < trb::first_accepted(events, f, from) ==> !f(#[trigger] events[i]),
    decreases events.len() - from,
{
    if from < events.len() && !f(events[from]) {
        lemma_first(events, f, from + 1);
    }
}

/// The oldest event that is looked for is taken, from those that wait before those that the
/// controller has; all older ones of the controller wait afterwards, behind those that waited,
/// and so do all of them where none is looked for. No event is lost, and their order stays.
pub proof fn law_oldest_event_is_taken(
    pending: Seq<Trb>,
    raw: Seq<Trb>,
    f: spec_fn(Trb) -> bool,
    k: int,
)
    ensures
        0 <= k < pending.len() && f(pending[k]) && (forall|i: int|
            0 <= i < k ==> !f(#[trigger] pending[i])) ==> trb::polled(pending, raw, f) == (
            Some(pending[k]),
            pending.take(k) + pending.skip(k + 1),
            0int,
        ),
        (forall|i: int| 0 <= i < pending.len() ==> !f(#[trigger] pending[i])) && 0 <= k < raw.len()
            && f(raw[k]) && (forall|i: int| 0 <= i < k ==> !f(#[trigger] raw[i])) ==> trb::polled(
            pending,
            raw,
            f,
        ) == (Some(raw[k]), pending + raw.take(k), k + 1),
        (forall|i: int| 0 <= i < pending.len() ==> !f(#[trigger] pending[i])) && (forall|i: int|
            0 <= i < raw.len() ==> !f(#[trigger] raw[i])) ==> trb::polled(pending, raw, f) == (
            None::<Trb>,
            pending + raw,
            raw.len() as int,
        ),
{
    lemma_first(pending, f, 0);
    lemma_first(raw, f, 0);
    let at = trb::first_accepted(pending, f, 0);
    if 0 <= k < pending.len() && f(pending[k]) && (forall|i: int|
        0 <= i < k ==> !f(#[trigger] pending[i])) {
        assert(at <= k);
        assert(at == k);
        assert(pending.remove(k) =~= pending.take(k) + pending.skip(k + 1));
    }
    if forall|i: int| 0 <= i < pending.len() ==> !f(#[trigger] pending[i]) {
        assert(at == pending.len());
    }
}

/// Whatever is waited for, nothing has been waited for at first.
pub proof fn law_waits_begin_afresh(
    slot: u8,
    setup: SetupPacket,
    len: u64,
    filter: EventFilter,
    xecp: int,
    params: InitParams,
    m: InitHost,
    phase: InitPhase,
)
    ensures
        ControlTransfer::begin(slot, setup, len).polls == 0,
        ControlTransfer::begin(slot, setup, len).transferred is None,
        TransferWait::begin(filter, len).polls == 0,
        TransferWait::begin(filter, len).result is None,
        ResetPort::begin().polls == 0,
        InitHost::begin(params).polls == 0,
        InitHost::begin(params).error is None,
        m.enters(phase).polls == 0,
        m.enters(phase).phase == phase,
        Walk::begin(xecp).steps <= 1,
        Walk::begin(xecp).polls == 0,
{
}

} // verus!
