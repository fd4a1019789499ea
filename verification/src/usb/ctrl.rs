//! What the host controller offers to its devices.

use vstd::prelude::*;

use crate::usb::command::WaitCommand;
use crate::usb::init;
use crate::usb::port;
use crate::usb::port::ResetPort;
use crate::usb::trb;
use crate::usb::trb::EventFilter;
use crate::usb::trb::Trb;
use crate::usb::xhci;
use crate::usb::xhci::HostPhase;
use crate::usb::xhci::NewController;
use crate::usb::xhci::XhciCtrl;

verus! {

impl XhciCtrl {
    /// Begins to bring a controller up.
    pub fn new(page_size: u64) -> (r: NewController)
        requires
            xhci::MAX_SCRATCHPAD * page_size <= u64::MAX,
        ensures
            r@.phase == HostPhase::MapFirst,
            r@.params.page_size == page_size,
            r@.wf(),
    {
        NewController::new(page_size)
    }

    /// Where the doorbell of a slot is, and what is written to ring it for an endpoint.
    pub fn ring_doorbell(&self, slot: u8, target: u8) -> (r: (u64, u32))
        ensures
            r.0 == self.db_offset + slot * 4,
            r.1 == target,
    {
        (self.doorbell(slot), target as u32)
    }

    /// Begins to wait for a command.
    pub fn wait_command(&self) -> (r: WaitCommand)
        ensures
            r == WaitCommand::begin(),
            r.wf(),
    {
        WaitCommand::wait_command()
    }

    /// The command that enables a slot of the first type.
    pub fn enable_slot(&self) -> (r: Trb)
        ensures
            r == trb::enable_slot(0),
    {
        trb::enable_slot_with_type(0)
    }

    /// The command that enables a slot for the device on a port, counted from zero.
    pub fn enable_slot_for_port(&self, port: u8) -> (r: Trb)
        requires
            port < 255,
        ensures
            r == trb::enable_slot(xhci::slot_type_of(self.supported_protocols@, port + 1, 0)),
    {
        trb::enable_slot_with_type(self.slot_type_for_port(port))
    }

    /// The command that disables a slot.
    pub fn disable_slot(&self, slot_id: u8) -> (r: Trb)
        ensures
            r == trb::command(trb::TRB_DISABLE_SLOT, slot_id, 0),
    {
        trb::disable_slot(slot_id)
    }

    /// Where the register of a port is.
    pub fn port_status(&self, port: u8) -> (r: u64)
        ensures
            r == port::register_of(self.cap_length, port),
    {
        port::port_reg_base(self.cap_length, port)
    }

    /// Begins to reset a port.
    pub fn reset_port(&self) -> (r: ResetPort)
        ensures
            r == ResetPort::begin(),
            r.wf(),
    {
        ResetPort::reset_port()
    }

    /// What is written to the command register, given what it holds, to stop the controller.
    pub fn stop_command(&self, usbcmd: u32) -> (r: u32)
        ensures
            r == usbcmd & init::USBCMD_NOT_RUN,
    {
        usbcmd & init::USBCMD_NOT_RUN
    }

    /// Whether the controller has stopped, given what the status register holds.
    pub fn has_halted(&self, usbsts: u32) -> (r: bool)
        ensures
            r == (usbsts & init::USBSTS_HCH != 0),
    {
        usbsts & init::USBSTS_HCH != 0
    }

    /// Nothing but the events that wait differs.
    pub open spec fn same_but_events(self, other: XhciCtrl) -> bool {
        &&& self.mmio_size == other.mmio_size
        &&& self.cap_length == other.cap_length
        &&& self.rts_offset == other.rts_offset
        &&& self.db_offset == other.db_offset
        &&& self.max_slots == other.max_slots
        &&& self.max_ports == other.max_ports
        &&& self.supported_protocols == other.supported_protocols
    }

    /// Takes the next event: the oldest that waits, or else the first of `fresh`, which are
    /// the events on the ring. Tells also how many of these were taken.
    pub fn poll_event(&mut self, fresh: &Vec<Trb>) -> (r: (Option<Trb>, usize))
        ensures
            (r.0, final(self).pending_events@, r.1 as int) == trb::next_polled(
                old(self).pending_events@,
                fresh@,
            ),
            final(self).same_but_events(*old(self)),
    {
        match self.pending_events.poll_event() {
            Some(event) => (Some(event), 0),
            None => if fresh.len() > 0 {
                (Some(fresh[0]), 1)
            } else {
                (None, 0)
            },
        }
    }

    /// Takes all events, those that wait and those of `fresh`, which are the events on the
    /// ring, and tells how many of these there were.
    pub fn poll(&mut self, fresh: &Vec<Trb>) -> (r: usize)
        ensures
            final(self).pending_events@.len() == 0,
            r == fresh@.len(),
            final(self).same_but_events(*old(self)),
    {
        let none: Vec<Trb> = Vec::new();
        loop
            invariant
                none@.len() == 0,
                self.same_but_events(*old(self)),
            ensures
                self.pending_events@.len() == 0,
            decreases self.pending_events@.len(),
        {
            let (event, _) = self.poll_event(&none);
            if event.is_none() {
                break;
            }
        }
        fresh.len()
    }

    /// Looks for an event that passes a test, among those that wait and then among `fresh`,
    /// which are the events on the ring; what does not pass waits on. Tells also how many of
    /// the fresh ones were taken.
    pub fn poll_event_matching<F: Fn(&Trb) -> bool>(&mut self, fresh: &Vec<Trb>, matches: F) -> (r:
        (Option<Trb>, usize))
        requires
            trb::is_test(matches),
        ensures
            (r.0, final(self).pending_events@, r.1 as int) == trb::polled(
                old(self).pending_events@,
                fresh@,
                trb::passing(matches),
            ),
            forall|i: int|
                0 <= i < old(self).pending_events@.len() && i <= trb::first_accepted(
                    old(self).pending_events@,
                    trb::passing(matches),
                    0,
                ) ==> trb::judged(matches, #[trigger] old(self).pending_events@[i]),
            forall|i: int| 0 <= i < r.1 ==> trb::judged(matches, #[trigger] fresh@[i]),
            final(self).same_but_events(*old(self)),
    {
        if let Some(event) = self.pending_events.take_matching(&matches) {
            return (Some(event), 0);
        }
        let ghost pending = self.pending_events@;
        let ghost f = trb::passing(matches);
        let mut i: usize = 0;
        while i < fresh.len()
            invariant
                i <= fresh.len(),
                trb::is_test(matches),
                f == trb::passing(matches),
                self.pending_events@ == pending + fresh@.take(i as int),
                trb::first_accepted(fresh@, f, 0) == trb::first_accepted(fresh@, f, i as int),
                pending == old(self).pending_events@,
                trb::first_accepted(pending, f, 0) == pending.len(),
                forall|j: int|
                    0 <= j < pending.len() ==> trb::judged(matches, #[trigger] pending[j]),
                forall|j: int| 0 <= j < i ==> trb::judged(matches, #[trigger] fresh@[j]),
                self.same_but_events(*old(self)),
            decreases fresh.len() - i,
        {
            if let Some(event) = self.pending_events.offer(fresh[i], &matches) {
                return (Some(event), i + 1);
            }
            i = i + 1;
            assert(self.pending_events@ =~= pending + fresh@.take(i as int));
        }
        assert(fresh@.take(i as int) =~= fresh@);
        (None, fresh.len())
    }

    /// Looks for an event of a transfer, among those that wait and then among `fresh`, which
    /// are the events on the ring; all others wait on. Tells also how many of the fresh ones
    /// were taken.
    pub fn poll_transfer_event(&mut self, fresh: &Vec<Trb>, filter: &EventFilter) -> (r: (
        Option<Trb>,
        usize,
    ))
        ensures
            (r.0, final(self).pending_events@, r.1 as int) == trb::polled(
                old(self).pending_events@,
                fresh@,
                |event: Trb| filter.accepts(event),
            ),
            final(self).same_but_events(*old(self)),
    {
        let matches = |event: &Trb| -> (b: bool)
            ensures
                b == filter.accepts(*event),
            { filter.matches_event(event) };
        let r = self.poll_event_matching(fresh, matches);
        proof {
            let f = trb::passing(matches);
            let g = |event: Trb| filter.accepts(event);
            let pending = old(self).pending_events@;
            trb::lemma_same_first(pending, f, g, 0);
            if trb::first_accepted(pending, f, 0) == pending.len() {
                trb::lemma_first_accepted(fresh@, f, 0);
                trb::lemma_same_first(fresh@, f, g, 0);
            }
        }
        r
    }

    /// Lets an event wait.
    pub fn push_pending_event(&mut self, event: Trb)
        ensures
            final(self).pending_events@ == old(self).pending_events@.push(event),
            final(self).same_but_events(*old(self)),
    {
        self.pending_events.push_pending_event(event);
    }
}

} // verus!
