//! Transfer request blocks: commands, transfers and events of the host controller.

use vstd::prelude::*;

verus! {

pub const TRB_NORMAL: u32 = 1;

pub const TRB_SETUP: u32 = 2;

pub const TRB_DATA: u32 = 3;

pub const TRB_STATUS: u32 = 4;

pub const TRB_ENABLE_SLOT: u32 = 9;

pub const TRB_DISABLE_SLOT: u32 = 10;

pub const TRB_ADDRESS_DEVICE: u32 = 11;

pub const TRB_CONFIGURE_ENDPOINT: u32 = 12;

pub const TRB_TRANSFER_EVENT: u32 = 32;

pub const TRB_COMMAND_COMPLETION: u32 = 33;

pub const TRB_PORT_STATUS_CHANGE: u32 = 34;

pub const TRB_BANDWIDTH_REQUEST: u32 = 35;

pub const TRB_DOORBELL_EVENT: u32 = 36;

pub const TRB_HOST_CONTROLLER_EVENT: u32 = 37;

pub const TRB_DEVICE_NOTIFICATION: u32 = 38;

pub const TRB_MFINDEX_WRAP: u32 = 39;

pub const COMPLETION_INVALID: u8 = 0;

pub const COMPLETION_SUCCESS: u8 = 1;

pub const COMPLETION_STALL_ERROR: u8 = 6;

pub const COMPLETION_SHORT_PACKET: u8 = 13;

/// Interrupt on completion.
pub const CONTROL_IOC: u32 = 0x20;

/// The next block belongs to the same transfer.
pub const CONTROL_CHAIN: u32 = 0x10;

/// Interrupt on a short packet.
pub const CONTROL_ISP: u32 = 4;

/// The block holds the data itself.
pub const CONTROL_IDT: u32 = 0x40;

/// One past the bits below a block's type.
pub const TYPE_UNIT: u32 = 0x400;

/// One past the bits below the slot of a block.
pub const SLOT_UNIT: u32 = 0x100_0000;

/// One past the bits below the upper half of a word.
pub const HALF_UNIT: u32 = 0x1_0000;

/// A transfer request block.
#[derive(Clone, Copy, Debug, PartialEq, Eq, Structural)]
pub struct Trb {
    pub param: u64,
    pub status: u32,
    pub control: u32,
}

impl Trb {
    pub open spec fn ty(self) -> int {
        self.control as int / 0x400 % 64
    }

    pub open spec fn code(self) -> int {
        self.status as int / 0x100_0000
    }

    pub open spec fn slot(self) -> int {
        self.control as int / 0x100_0000
    }

    pub open spec fn endpoint(self) -> int {
        self.control as int / 0x1_0000 % 32
    }

    pub open spec fn residual(self) -> int {
        self.status as int % 0x100_0000
    }

    /// The kind of block.
    pub fn trb_type(&self) -> (r: u8)
        ensures
            r == self.ty(),
    {
        (self.control / TYPE_UNIT % 64) as u8
    }

    /// How a command or transfer ended.
    pub fn completion_code(&self) -> (r: u8)
        ensures
            r == self.code(),
    {
        (self.status / SLOT_UNIT) as u8
    }

    /// The slot of a device.
    pub fn slot_id(&self) -> (r: u8)
        ensures
            r == self.slot(),
    {
        (self.control / SLOT_UNIT) as u8
    }

    /// The endpoint of a device.
    pub fn endpoint_id(&self) -> (r: u8)
        ensures
            r == self.endpoint(),
    {
        (self.control / HALF_UNIT % 32) as u8
    }

    /// How many bytes were not transferred.
    pub fn transfer_length(&self) -> (r: u32)
        ensures
            r == self.residual(),
    {
        self.status % SLOT_UNIT
    }
}

/// The name of an event.
pub open spec fn name_of_event(ty: u8) -> &'static str {
    if ty == TRB_TRANSFER_EVENT {
        "TRANSFER_EVENT"
    } else if ty == TRB_COMMAND_COMPLETION {
        "COMMAND_COMPLETION"
    } else if ty == TRB_PORT_STATUS_CHANGE {
        "PORT_STATUS_CHANGE"
    } else if ty == TRB_BANDWIDTH_REQUEST {
        "BANDWIDTH_REQUEST"
    } else if ty == TRB_DOORBELL_EVENT {
        "DOORBELL_EVENT"
    } else if ty == TRB_HOST_CONTROLLER_EVENT {
        "HOST_CONTROLLER_EVENT"
    } else if ty == TRB_DEVICE_NOTIFICATION {
        "DEVICE_NOTIFICATION"
    } else if ty == TRB_MFINDEX_WRAP {
        "MFINDEX_WRAP"
    } else {
        "UNKNOWN"
    }
}

/// Names an event.
pub fn event_type_name(ty: u8) -> (r: &'static str)
    ensures
        r == name_of_event(ty),
{
    let ty: u32 = ty as u32;
    if ty == TRB_TRANSFER_EVENT {
        "TRANSFER_EVENT"
    } else if ty == TRB_COMMAND_COMPLETION {
        "COMMAND_COMPLETION"
    } else if ty == TRB_PORT_STATUS_CHANGE {
        "PORT_STATUS_CHANGE"
    } else if ty == TRB_BANDWIDTH_REQUEST {
        "BANDWIDTH_REQUEST"
    } else if ty == TRB_DOORBELL_EVENT {
        "DOORBELL_EVENT"
    } else if ty == TRB_HOST_CONTROLLER_EVENT {
        "HOST_CONTROLLER_EVENT"
    } else if ty == TRB_DEVICE_NOTIFICATION {
        "DEVICE_NOTIFICATION"
    } else if ty == TRB_MFINDEX_WRAP {
        "MFINDEX_WRAP"
    } else {
        "UNKNOWN"
    }
}

/// A command for a slot: its type, its slot and the address of its data.
pub open spec fn command(ty: u32, slot_id: u8, param: u64) -> Trb {
    Trb { param, status: 0, control: (ty * TYPE_UNIT + slot_id * SLOT_UNIT) as u32 }
}

/// The command that enables a slot of a type.
pub open spec fn enable_slot(slot_type: u8) -> Trb {
    Trb {
        param: 0,
        status: 0,
        control: (TRB_ENABLE_SLOT * TYPE_UNIT + slot_type as int % 32 * HALF_UNIT) as u32,
    }
}

fn slot_command(ty: u32, slot_id: u8, param: u64) -> (r: Trb)
    requires
        ty < 64,
    ensures
        r == command(ty, slot_id, param),
        r.ty() == ty,
        r.slot() == slot_id,
{
    Trb { param, status: 0, control: ty * TYPE_UNIT + slot_id as u32 * SLOT_UNIT }
}

/// The command that enables a slot for a protocol's slot type.
pub fn enable_slot_with_type(slot_type: u8) -> (r: Trb)
    ensures
        r == enable_slot(slot_type),
        r.ty() == TRB_ENABLE_SLOT,
{
    Trb {
        param: 0,
        status: 0,
        control: TRB_ENABLE_SLOT * TYPE_UNIT + (slot_type % 32) as u32 * HALF_UNIT,
    }
}

/// The command that disables a slot.
pub fn disable_slot(slot_id: u8) -> (r: Trb)
    ensures
        r == command(TRB_DISABLE_SLOT, slot_id, 0),
        r.ty() == TRB_DISABLE_SLOT,
        r.slot() == slot_id,
{
    slot_command(TRB_DISABLE_SLOT, slot_id, 0)
}

/// The command that gives a device its address.
pub fn address_device(slot_id: u8, input_context: u64) -> (r: Trb)
    ensures
        r == command(TRB_ADDRESS_DEVICE, slot_id, input_context),
        r.ty() == TRB_ADDRESS_DEVICE,
        r.slot() == slot_id,
{
    slot_command(TRB_ADDRESS_DEVICE, slot_id, input_context)
}

/// The command that sets up endpoints.
pub fn configure_endpoint(slot_id: u8, input_context: u64) -> (r: Trb)
    ensures
        r == command(TRB_CONFIGURE_ENDPOINT, slot_id, input_context),
        r.ty() == TRB_CONFIGURE_ENDPOINT,
        r.slot() == slot_id,
{
    slot_command(TRB_CONFIGURE_ENDPOINT, slot_id, input_context)
}

/// The events of a transfer on an endpoint.
#[derive(Clone, Copy, Debug, PartialEq, Eq, Structural)]
pub struct EventFilter {
    pub slot_id: u8,
    pub endpoint_id: u8,
}

impl EventFilter {
    pub open spec fn accepts(self, trb: Trb) -> bool {
        trb.ty() == TRB_TRANSFER_EVENT && trb.slot() == self.slot_id && trb.endpoint()
            == self.endpoint_id
    }

    /// Whether an event is one of them.
    pub fn matches_event(&self, trb: &Trb) -> (r: bool)
        ensures
            r == self.accepts(*trb),
    {
        trb.trb_type() as u32 == TRB_TRANSFER_EVENT && trb.slot_id() == self.slot_id
            && trb.endpoint_id() == self.endpoint_id
    }
}

/// Whether a test can be made of every event, and always comes out the same for the same
/// event.
pub open spec fn is_test<F: Fn(&Trb) -> bool>(matches: F) -> bool {
    &&& forall|trb: Trb| #[trigger] call_requires(matches, (&trb,))
    &&& forall|trb: Trb, a: bool, b: bool| #[trigger]
        call_ensures(matches, (&trb,), a) && #[trigger] call_ensures(matches, (&trb,), b) ==> a
            == b
}

/// The events that a test lets pass.
pub open spec fn passing<F: Fn(&Trb) -> bool>(matches: F) -> spec_fn(Trb) -> bool {
    |trb: Trb| call_ensures(matches, (&trb,), true)
}

/// The test was made of an event, and came out as `passing` says.
pub open spec fn judged<F: Fn(&Trb) -> bool>(matches: F, trb: Trb) -> bool {
    call_ensures(matches, (&trb,), passing(matches)(trb))
}

/// The first position from `from` on whose event is accepted, or the length.
pub open spec fn first_accepted(events: Seq<Trb>, f: spec_fn(Trb) -> bool, from: int) -> int
    decreases events.len() - from,
{
    if from >= events.len() || f(events[from]) {
        from
    } else {
        first_accepted(events, f, from + 1)
    }
}

/// Events that came while others were waited for, oldest first.
pub struct PendingEvents {
    pub events: Vec<Trb>,
}

impl View for PendingEvents {
    type V = Seq<Trb>;

    open spec fn view(&self) -> Seq<Trb> {
        self.events@
    }
}

impl PendingEvents {
    /// No events.
    pub fn new() -> (r: PendingEvents)
        ensures
            r@ == Seq::<Trb>::empty(),
    {
        PendingEvents { events: Vec::new() }
    }

    /// Keeps an event for later.
    pub fn push_pending_event(&mut self, trb: Trb)
        ensures
            final(self)@ == old(self)@.push(trb),
    {
        self.events.push(trb);
    }

    /// Takes the oldest event.
    pub fn poll_event(&mut self) -> (r: Option<Trb>)
        ensures
            match r {
                Some(trb) => old(self)@.len() > 0 && trb == old(self)@[0] && final(self)@ == old(
                    self,
                )@.skip(1),
                None => old(self)@.len() == 0 && final(self)@ == old(self)@,
            },
    {
        if self.events.len() == 0 {
            None
        } else {
            let trb = self.events.remove(0);
            assert(self.events@ =~= old(self)@.skip(1));
            Some(trb)
        }
    }

    /// Takes the oldest event that passes a test.
    pub fn take_matching<F: Fn(&Trb) -> bool>(&mut self, matches: &F) -> (r: Option<Trb>)
        requires
            is_test(*matches),
        ensures
            ({
                let at = first_accepted(old(self)@, passing(*matches), 0);
                match r {
                    Some(trb) => 0 <= at < old(self)@.len() && trb == old(self)@[at] && passing(
                        *matches,
                    )(trb) && final(self)@ == old(self)@.remove(at),
                    None => at == old(self)@.len() && final(self)@ == old(self)@,
                }
            }),
            forall|j: int|
                0 <= j < old(self)@.len() && j <= first_accepted(old(self)@, passing(*matches), 0)
                    ==> judged(*matches, #[trigger] old(self)@[j]),
    {
        let mut i: usize = 0;
        while i < self.events.len()
            invariant
                i <= self.events.len(),
                self@ == old(self)@,
                is_test(*matches),
                first_accepted(self@, passing(*matches), 0) == first_accepted(
                    self@,
                    passing(*matches),
                    i as int,
                ),
                forall|j: int| 0 <= j < i ==> judged(*matches, #[trigger] self@[j]),
            decreases self.events.len() - i,
        {
            if matches(&self.events[i]) {
                return Some(self.events.remove(i));
            }
            i = i + 1;
        }
        None
    }

    /// Takes a fresh event if it passes a test, and else keeps it for later.
    pub fn offer<F: Fn(&Trb) -> bool>(&mut self, trb: Trb, matches: &F) -> (r: Option<Trb>)
        requires
            is_test(*matches),
        ensures
            judged(*matches, trb),
            r == (if passing(*matches)(trb) {
                Some(trb)
            } else {
                None::<Trb>
            }),
            final(self)@ == (if passing(*matches)(trb) {
                old(self)@
            } else {
                old(self)@.push(trb)
            }),
    {
        if matches(&trb) {
            Some(trb)
        } else {
            self.events.push(trb);
            None
        }
    }
}

/// What comes of looking for an event, given the events that wait and then those of the
/// controller: the event, the events that wait afterwards, and how many of the controller's
/// events were taken.
pub open spec fn polled(pending: Seq<Trb>, raw: Seq<Trb>, f: spec_fn(Trb) -> bool) -> (
    Option<Trb>,
    Seq<Trb>,
    int,
) {
    let at = first_accepted(pending, f, 0);
    if at < pending.len() {
        (Some(pending[at]), pending.remove(at), 0)
    } else {
        let n = first_accepted(raw, f, 0);
        if n < raw.len() {
            (Some(raw[n]), pending + raw.take(n), n + 1)
        } else {
            (None, pending + raw, raw.len() as int)
        }
    }
}

/// Two tests that agree on the events up to the first that one of them lets pass find the
/// same.
pub proof fn lemma_same_first(
    events: Seq<Trb>,
    f: spec_fn(Trb) -> bool,
    g: spec_fn(Trb) -> bool,
    from: int,
)
    requires
        0 <= from <= events.len(),
        forall|i: int|
            from <= i < events.len() && i <= first_accepted(events, f, from) ==> f(
                #[trigger] events[i],
            ) == g(events[i]),
    ensures
        first_accepted(events, f, from) == first_accepted(events, g, from),
        from <= first_accepted(events, f, from) <= events.len(),
    decreases events.len() - from,
{
    lemma_first_accepted(events, f, from);
    if from < events.len() && !f(events[from]) {
        lemma_same_first(events, f, g, from + 1);
    }
}

/// What is found is the first that is accepted.
pub proof fn lemma_first_accepted(events: Seq<Trb>, f: spec_fn(Trb) -> bool, from: int)
    requires
        0 <= from <= events.len(),
    ensures
        from <= first_accepted(events, f, from) <= events.len(),
        first_accepted(events, f, from) < events.len() ==> f(
            events[first_accepted(events, f, from)],
        ),
        forall|i: int|
            from <= i < first_accepted(events, f, from) ==> !f(#[trigger] events[i]),
    decreases events.len() - from,
{
    if from < events.len() && !f(events[from]) {
        lemma_first_accepted(events, f, from + 1);
    }
}

/// What comes of taking the next event, given the events that wait and then those of the
/// controller: the event, the events that wait afterwards, and how many of the controller's
/// events were taken.
pub open spec fn next_polled(pending: Seq<Trb>, raw: Seq<Trb>) -> (Option<Trb>, Seq<Trb>, int) {
    if pending.len() > 0 {
        (Some(pending[0]), pending.skip(1), 0)
    } else if raw.len() > 0 {
        (Some(raw[0]), pending, 1)
    } else {
        (None, pending, 0)
    }
}

/// The events that come out when the next event is taken again and again.
pub open spec fn drained(pending: Seq<Trb>, raw: Seq<Trb>) -> Seq<Trb>
    decreases pending.len() + raw.len(),
{
    let (found, rest, n) = next_polled(pending, raw);
    match found {
        Some(trb) => seq![trb] + drained(rest, raw.skip(n)),
        None => Seq::empty(),
    }
}

/// Taking the next event again and again gives the events that wait and then those of the
/// controller, each once, in their order.
pub proof fn law_events_come_in_order(pending: Seq<Trb>, raw: Seq<Trb>)
    ensures
        drained(pending, raw) == pending + raw,
    decreases pending.len() + raw.len(),
{
    let (found, rest, n) = next_polled(pending, raw);
    if found is Some {
        law_events_come_in_order(rest, raw.skip(n));
        if pending.len() > 0 {
            assert(raw.skip(0) =~= raw);
            assert(seq![pending[0]] + (rest + raw) =~= pending + raw);
        } else {
            assert(seq![raw[0]] + (rest + raw.skip(1)) =~= pending + raw);
        }
    } else {
        assert(pending + raw =~= Seq::<Trb>::empty());
    }
}

/// Looking for an event loses none and doubles none. The event that is found is the first
/// that passes the test of those that waited, followed by those of the controller; none is
/// found if none passes. All others come out afterwards in their order, each once.
pub proof fn law_polling_loses_no_event(
    pending: Seq<Trb>,
    raw: Seq<Trb>,
    f: spec_fn(Trb) -> bool,
)
    ensures
        ({
            let (found, rest, n) = polled(pending, raw, f);
            let all = pending + raw;
            let at = first_accepted(all, f, 0);
            &&& 0 <= n <= raw.len()
            &&& 0 <= at <= all.len()
            &&& forall|i: int| 0 <= i < at ==> !f(#[trigger] all[i])
            &&& found == (if at < all.len() {
                Some(all[at])
            } else {
                None
            })
            &&& at < all.len() ==> f(all[at])
            &&& drained(rest, raw.skip(n)) == (if at < all.len() {
                all.remove(at)
            } else {
                all
            })
        }),
{
    lemma_first_accepted(pending, f, 0);
    lemma_first_accepted(raw, f, 0);
    let (found, rest, n) = polled(pending, raw, f);
    let all = pending + raw;
    lemma_first_accepted(all, f, 0);
    let at = first_accepted(all, f, 0);
    let p = first_accepted(pending, f, 0);
    let k = first_accepted(raw, f, 0);
    law_events_come_in_order(rest, raw.skip(n));
    assert forall|i: int| 0 <= i < all.len() implies #[trigger] all[i] == (if i < pending.len() {
        pending[i]
    } else {
        raw[i - pending.len()]
    }) by {}
    if p < pending.len() {
        assert(all[p] == pending[p]);
        if at < p {
            assert(all[at] == pending[at]);
        }
        assert(at == p);
        assert(rest + raw.skip(0) =~= all.remove(at));
    } else if k < raw.len() {
        assert(all[pending.len() + k] == raw[k]);
        if at < pending.len() {
            assert(all[at] == pending[at]);
        } else if at < pending.len() + k {
            assert(all[at] == raw[at - pending.len()]);
        }
        assert(at == pending.len() + k);
        assert(rest + raw.skip(n) =~= all.remove(at));
    } else {
        if at < pending.len() {
            assert(all[at] == pending[at]);
        } else if at < all.len() {
            assert(all[at] == raw[at - pending.len()]);
        }
        assert(rest + raw.skip(n) =~= all);
    }
}

} // verus!
