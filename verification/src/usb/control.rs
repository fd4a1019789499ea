//! Control transfers: a request to a device, with or without data.

use vstd::prelude::*;

use crate::usb::err::UsbError;
use crate::usb::setup::SetupPacket;
use crate::usb::trb::EventFilter;
use crate::usb::trb::Trb;
use crate::usb::trb::COMPLETION_INVALID;
use crate::usb::trb::COMPLETION_SHORT_PACKET;
use crate::usb::trb::COMPLETION_STALL_ERROR;
use crate::usb::trb::COMPLETION_SUCCESS;
use crate::usb::trb::CONTROL_IDT;
use crate::usb::trb::CONTROL_IOC;
use crate::usb::trb::HALF_UNIT;
use crate::usb::trb::TRB_DATA;
use crate::usb::trb::TRB_SETUP;
use crate::usb::trb::TRB_STATUS;
use crate::usb::trb::TYPE_UNIT;

verus! {

/// How often events are looked for.
pub const EVENT_POLLS: u32 = 250_000;

/// The endpoint of control transfers, as the controller counts them.
pub const EP0_ENDPOINT_ID: u8 = 1;

/// The alignment of the buffer.
pub const BUFFER_ALIGN: u64 = 64;

/// What a transfer asks for.
#[derive(Clone, Copy, Debug, PartialEq, Eq, Structural)]
pub enum ControlRequest {
    /// A buffer for the data.
    Allocate { size: u64, align: u64 },
    /// Copy the data into the buffer.
    Fill,
    /// Put a block into the ring of the control endpoint.
    Enqueue(Trb),
    RingDoorbell { slot: u8, target: u8 },
    /// Look for an event.
    Poll(EventFilter),
    /// Copy as many bytes back from the buffer.
    CopyBack { len: u64 },
    /// Give the buffer up.
    Free,
    Done,
}

/// What it is answered.
#[derive(Clone, Copy)]
pub enum ControlReply {
    /// Where the buffer is.
    Memory(Result<u64, UsbError>),
    /// Where the block is.
    Address(u64),
    Event(Option<Trb>),
    Acknowledged,
}

impl ControlReply {
    pub open spec fn memory_of(self) -> Result<u64, UsbError> {
        match self {
            ControlReply::Memory(m) => m,
            _ => Err(UsbError::OoRam),
        }
    }

    pub open spec fn address_of(self) -> u64 {
        match self {
            ControlReply::Address(a) => a,
            _ => 0,
        }
    }

    pub open spec fn event_of(self) -> Option<Trb> {
        match self {
            ControlReply::Event(e) => e,
            _ => None,
        }
    }

    fn memory(&self) -> (r: Result<u64, UsbError>)
        ensures
            r == self.memory_of(),
    {
        match self {
            ControlReply::Memory(m) => *m,
            _ => Err(UsbError::OoRam),
        }
    }

    fn address(&self) -> (r: u64)
        ensures
            r == self.address_of(),
    {
        match self {
            ControlReply::Address(a) => *a,
            _ => 0,
        }
    }

    fn event(&self) -> (r: Option<Trb>)
        ensures
            r == self.event_of(),
    {
        match self {
            ControlReply::Event(e) => *e,
            _ => None,
        }
    }
}

/// How far a transfer has come.
#[derive(Clone, Copy, Debug, PartialEq, Eq, Structural)]
pub enum ControlPhase {
    Allocate,
    Fill,
    Setup,
    Data,
    Status,
    Doorbell,
    Poll,
    CopyBack,
    Free,
    Done,
}

/// A control transfer.
#[derive(Clone, Copy)]
pub struct ControlTransfer {
    pub slot_id: u8,
    pub setup: SetupPacket,
    /// How many bytes the caller's data has; none without data.
    pub data_len: u64,
    pub phase: ControlPhase,
    pub buffer: u64,
    pub data_address: Option<u64>,
    pub status_address: u64,
    pub polls: u32,
    pub transferred: Option<u64>,
    pub result: Result<u64, UsbError>,
}

/// The block that hands a request over.
pub open spec fn setup_block(setup: SetupPacket, data_len: u64) -> Trb {
    Trb {
        param: setup.bits_of() as u64,
        status: 8,
        control: (TRB_SETUP * TYPE_UNIT + CONTROL_IDT + (if data_len > 0 && setup.length > 0 {
            if setup.is_in() {
                3int
            } else {
                2
            }
        } else {
            0
        }) * HALF_UNIT) as u32,
    }
}

/// The block that transfers the data.
pub open spec fn data_block(setup: SetupPacket, buffer: u64) -> Trb {
    Trb {
        param: buffer,
        status: setup.length as u32,
        control: (TRB_DATA * TYPE_UNIT + (if setup.is_in() {
            HALF_UNIT as int
        } else {
            0
        }) + CONTROL_IOC) as u32,
    }
}

/// The block that confirms a request, against the direction of the data.
pub open spec fn status_block(setup: SetupPacket, data_len: u64) -> Trb {
    Trb {
        param: 0,
        status: 0,
        control: (TRB_STATUS * TYPE_UNIT + (if data_len > 0 && setup.length > 0
            && setup.is_in() {
            0
        } else {
            HALF_UNIT as int
        }) + CONTROL_IOC) as u32,
    }
}

/// The bytes that were transferred of `length`, given how many were not.
pub open spec fn less_residual(length: int, residual: int) -> int {
    if length < residual {
        0
    } else {
        length - residual
    }
}

impl ControlTransfer {
    pub open spec fn begin(slot_id: u8, setup: SetupPacket, data_len: u64) -> ControlTransfer {
        ControlTransfer {
            slot_id,
            setup,
            data_len,
            phase: if data_len > 0 {
                ControlPhase::Allocate
            } else {
                ControlPhase::Setup
            },
            buffer: 0,
            data_address: None,
            status_address: 0,
            polls: 0,
            transferred: None,
            result: Ok(0),
        }
    }

    pub open spec fn enters(self, phase: ControlPhase) -> ControlTransfer {
        ControlTransfer { phase, ..self }
    }

    /// The end of the transfer: the buffer is given up first, if there is one.
    pub open spec fn ends(self, result: Result<u64, UsbError>) -> ControlTransfer {
        ControlTransfer {
            result,
            phase: if self.data_len > 0 {
                ControlPhase::Free
            } else {
                ControlPhase::Done
            },
            ..self
        }
    }

    /// After another look for an event.
    pub open spec fn polled_on(self) -> ControlTransfer {
        if self.polls + 1 < EVENT_POLLS {
            ControlTransfer { polls: (self.polls + 1) as u32, ..self }
        } else {
            ControlTransfer {
                result: Err(UsbError::Timeout("control_transfer waiting for TRANSFER_EVENT")),
                phase: ControlPhase::Done,
                ..self
            }
        }
    }

    /// What was transferred when all is over.
    pub open spec fn total(self) -> u64 {
        match self.transferred {
            Some(n) if self.data_len > 0 => n,
            _ => 0,
        }
    }

    /// What an event makes of it.
    pub open spec fn on_event(self, event: Trb) -> ControlTransfer {
        let of_data = self.data_address == Some(event.param);
        if !of_data && event.param != self.status_address {
            self.polled_on()
        } else if event.code() == COMPLETION_SUCCESS || event.code() == COMPLETION_SHORT_PACKET {
            if of_data {
                ControlTransfer {
                    transferred: Some(
                        less_residual(self.setup.length as int, event.residual()) as u64,
                    ),
                    ..self
                }.polled_on()
            } else if self.setup.is_in() && self.data_len > 0 {
                ControlTransfer {
                    result: Ok(self.total()),
                    phase: ControlPhase::CopyBack,
                    ..self
                }
            } else {
                self.ends(Ok(self.total()))
            }
        } else if event.code() == COMPLETION_STALL_ERROR {
            self.ends(Err(UsbError::Stall))
        } else if event.code() == COMPLETION_INVALID {
            self.polled_on()
        } else {
            self.ends(Err(UsbError::XferFail(event.code() as u8)))
        }
    }

    pub open spec fn request(self) -> ControlRequest {
        match self.phase {
            ControlPhase::Allocate => ControlRequest::Allocate {
                size: self.data_len,
                align: BUFFER_ALIGN,
            },
            ControlPhase::Fill => ControlRequest::Fill,
            ControlPhase::Setup => ControlRequest::Enqueue(setup_block(self.setup, self.data_len)),
            ControlPhase::Data => ControlRequest::Enqueue(data_block(self.setup, self.buffer)),
            ControlPhase::Status => ControlRequest::Enqueue(
                status_block(self.setup, self.data_len),
            ),
            ControlPhase::Doorbell => ControlRequest::RingDoorbell {
                slot: self.slot_id,
                target: EP0_ENDPOINT_ID,
            },
            ControlPhase::Poll => ControlRequest::Poll(
                EventFilter { slot_id: self.slot_id, endpoint_id: EP0_ENDPOINT_ID },
            ),
            ControlPhase::CopyBack => ControlRequest::CopyBack {
                len: if self.total() < self.data_len {
                    self.total()
                } else {
                    self.data_len
                },
            },
            ControlPhase::Free => ControlRequest::Free,
            ControlPhase::Done => ControlRequest::Done,
        }
    }

    pub open spec fn after(self, reply: ControlReply) -> ControlTransfer {
        match self.phase {
            ControlPhase::Allocate => match reply.memory_of() {
                Ok(buffer) => ControlTransfer { buffer, ..self }.enters(
                    if self.setup.is_in() {
                        ControlPhase::Setup
                    } else {
                        ControlPhase::Fill
                    },
                ),
                Err(e) => ControlTransfer { result: Err(e), ..self }.enters(ControlPhase::Done),
            },
            ControlPhase::Fill => self.enters(ControlPhase::Setup),
            ControlPhase::Setup => self.enters(
                if self.data_len > 0 {
                    ControlPhase::Data
                } else {
                    ControlPhase::Status
                },
            ),
            ControlPhase::Data => ControlTransfer {
                data_address: Some(reply.address_of()),
                ..self
            }.enters(ControlPhase::Status),
            ControlPhase::Status => ControlTransfer {
                status_address: reply.address_of(),
                ..self
            }.enters(ControlPhase::Doorbell),
            ControlPhase::Doorbell => self.enters(ControlPhase::Poll),
            ControlPhase::Poll => match reply.event_of() {
                Some(event) => self.on_event(event),
                None => self.polled_on(),
            },
            ControlPhase::CopyBack => self.enters(ControlPhase::Free),
            ControlPhase::Free => self.enters(ControlPhase::Done),
            ControlPhase::Done => self,
        }
    }

    pub open spec fn wf(self) -> bool {
        &&& self.polls < EVENT_POLLS
        &&& self.polls == 0 || self.phase == ControlPhase::Poll || self.phase
            == ControlPhase::CopyBack || self.phase == ControlPhase::Free || self.phase
            == ControlPhase::Done
        &&& self.transferred matches Some(n) ==> n <= self.setup.length
        &&& self.result matches Ok(n) ==> n <= self.setup.length
    }

    /// Begins a control transfer; `data_len` is zero where there is no data.
    pub fn control_transfer(slot_id: u8, setup: SetupPacket, data_len: u64) -> (r: ControlTransfer)
        ensures
            r == ControlTransfer::begin(slot_id, setup, data_len),
            r.wf(),
    {
        ControlTransfer {
            slot_id,
            setup,
            data_len,
            phase: if data_len > 0 {
                ControlPhase::Allocate
            } else {
                ControlPhase::Setup
            },
            buffer: 0,
            data_address: None,
            status_address: 0,
            polls: 0,
            transferred: None,
            result: Ok(0),
        }
    }

    fn total_transferred(&self) -> (r: u64)
        ensures
            r == self.total(),
    {
        if self.data_len > 0 {
            match self.transferred {
                Some(n) => n,
                None => 0,
            }
        } else {
            0
        }
    }

    /// What is needed next.
    pub fn next_request(&self) -> (r: ControlRequest)
        ensures
            r == self.request(),
    {
        let inward: bool = self.setup.request_type >= 0x80;
        let with_data: bool = self.data_len > 0 && self.setup.length > 0;
        match self.phase {
            ControlPhase::Allocate => ControlRequest::Allocate {
                size: self.data_len,
                align: BUFFER_ALIGN,
            },
            ControlPhase::Fill => ControlRequest::Fill,
            ControlPhase::Setup => {
                let trt: u32 = if with_data {
                    if inward {
                        3
                    } else {
                        2
                    }
                } else {
                    0
                };
                ControlRequest::Enqueue(
                    Trb {
                        param: self.setup.bits(),
                        status: 8,
                        control: TRB_SETUP * TYPE_UNIT + CONTROL_IDT + trt * HALF_UNIT,
                    },
                )
            },
            ControlPhase::Data => {
                let dir: u32 = if inward {
                    HALF_UNIT
                } else {
                    0
                };
                ControlRequest::Enqueue(
                    Trb {
                        param: self.buffer,
                        status: self.setup.length as u32,
                        control: TRB_DATA * TYPE_UNIT + dir + CONTROL_IOC,
                    },
                )
            },
            ControlPhase::Status => {
                let dir: u32 = if with_data && inward {
                    0
                } else {
                    HALF_UNIT
                };
                ControlRequest::Enqueue(
                    Trb {
                        param: 0,
                        status: 0,
                        control: TRB_STATUS * TYPE_UNIT + dir + CONTROL_IOC,
                    },
                )
            },
            ControlPhase::Doorbell => ControlRequest::RingDoorbell {
                slot: self.slot_id,
                target: EP0_ENDPOINT_ID,
            },
            ControlPhase::Poll => ControlRequest::Poll(
                EventFilter { slot_id: self.slot_id, endpoint_id: EP0_ENDPOINT_ID },
            ),
            ControlPhase::CopyBack => {
                let total: u64 = self.total_transferred();
                ControlRequest::CopyBack {
                    len: if total < self.data_len {
                        total
                    } else {
                        self.data_len
                    },
                }
            },
            ControlPhase::Free => ControlRequest::Free,
            ControlPhase::Done => ControlRequest::Done,
        }
    }

    fn end(&mut self, result: Result<u64, UsbError>)
        requires
            old(self).wf(),
            result matches Ok(n) ==> n <= old(self).setup.length,
        ensures
            *final(self) == old(self).ends(result),
            final(self).wf(),
    {
        self.result = result;
        self.phase = if self.data_len > 0 {
            ControlPhase::Free
        } else {
            ControlPhase::Done
        };
    }

    fn poll_on(&mut self)
        requires
            old(self).wf(),
            old(self).phase == ControlPhase::Poll,
        ensures
            *final(self) == old(self).polled_on(),
            final(self).wf(),
    {
        if self.polls + 1 < EVENT_POLLS {
            self.polls = self.polls + 1;
        } else {
            self.result = Err(UsbError::Timeout("control_transfer waiting for TRANSFER_EVENT"));
            self.phase = ControlPhase::Done;
        }
    }

    fn take_event(&mut self, event: Trb)
        requires
            old(self).wf(),
            old(self).phase == ControlPhase::Poll,
        ensures
            *final(self) == old(self).on_event(event),
            final(self).wf(),
    {
        let of_data: bool = match self.data_address {
            Some(a) => a == event.param,
            None => false,
        };
        if !of_data && event.param != self.status_address {
            self.poll_on();
            return;
        }
        let code: u8 = event.completion_code();
        if code == COMPLETION_SUCCESS || code == COMPLETION_SHORT_PACKET {
            if of_data {
                let length: u64 = self.setup.length as u64;
                let residual: u64 = event.transfer_length() as u64;
                self.transferred = Some(
                    if length < residual {
                        0
                    } else {
                        length - residual
                    },
                );
                self.poll_on();
            } else if self.setup.request_type >= 0x80 && self.data_len > 0 {
                self.result = Ok(self.total_transferred());
                self.phase = ControlPhase::CopyBack;
            } else {
                self.end(Ok(self.total_transferred()));
            }
        } else if code == COMPLETION_STALL_ERROR {
            self.end(Err(UsbError::Stall));
        } else if code == COMPLETION_INVALID {
            self.poll_on();
        } else {
            self.end(Err(UsbError::XferFail(code)));
        }
    }

    /// Takes a reply.
    pub fn feed(&mut self, reply: ControlReply)
        requires
            old(self).wf(),
        ensures
            *final(self) == old(self).after(reply),
            final(self).wf(),
    {
        match self.phase {
            ControlPhase::Allocate => match reply.memory() {
                Ok(buffer) => {
                    self.buffer = buffer;
                    self.phase = if self.setup.request_type >= 0x80 {
                        ControlPhase::Setup
                    } else {
                        ControlPhase::Fill
                    };
                },
                Err(e) => {
                    self.result = Err(e);
                    self.phase = ControlPhase::Done;
                },
            },
            ControlPhase::Fill => {
                self.phase = ControlPhase::Setup;
            },
            ControlPhase::Setup => {
                self.phase = if self.data_len > 0 {
                    ControlPhase::Data
                } else {
                    ControlPhase::Status
                };
            },
            ControlPhase::Data => {
                self.data_address = Some(reply.address());
                self.phase = ControlPhase::Status;
            },
            ControlPhase::Status => {
                self.status_address = reply.address();
                self.phase = ControlPhase::Doorbell;
            },
            ControlPhase::Doorbell => {
                self.phase = ControlPhase::Poll;
            },
            ControlPhase::Poll => match reply.event() {
                Some(event) => self.take_event(event),
                None => self.poll_on(),
            },
            ControlPhase::CopyBack => {
                self.phase = ControlPhase::Free;
            },
            ControlPhase::Free => {
                self.phase = ControlPhase::Done;
            },
            ControlPhase::Done => {},
        }
    }

    /// How many bytes were transferred, or why it failed, once it is over.
    pub fn outcome(&self) -> (r: Option<Result<u64, UsbError>>)
        ensures
            r == (if self.phase == ControlPhase::Done {
                Some(self.result)
            } else {
                None::<Result<u64, UsbError>>
            }),
    {
        match self.phase {
            ControlPhase::Done => Some(self.result),
            _ => None,
        }
    }
}

/// How many replies a transfer can still take.
pub open spec fn control_left(m: ControlTransfer) -> int {
    match m.phase {
        ControlPhase::Allocate => EVENT_POLLS + 8int,
        ControlPhase::Fill => EVENT_POLLS + 7int,
        ControlPhase::Setup => EVENT_POLLS + 6int,
        ControlPhase::Data => EVENT_POLLS + 5int,
        ControlPhase::Status => EVENT_POLLS + 4int,
        ControlPhase::Doorbell => EVENT_POLLS + 3int,
        ControlPhase::Poll => EVENT_POLLS - m.polls + 2,
        ControlPhase::CopyBack => 2,
        ControlPhase::Free => 1,
        ControlPhase::Done => 0,
    }
}

/// A control transfer ends whatever it is answered; while it goes on nothing of the request
/// changes, and no more is copied back than the caller's data can take.
pub proof fn law_control_transfer_ends(m: ControlTransfer, reply: ControlReply)
    requires
        m.wf(),
        m.phase != ControlPhase::Done,
    ensures
        0 <= control_left(m.after(reply)) < control_left(m),
        m.after(reply).setup == m.setup,
        m.after(reply).slot_id == m.slot_id,
        m.after(reply).data_len == m.data_len,
        m.request() matches ControlRequest::CopyBack { len } ==> len <= m.data_len,
{
}

/// Events of other blocks, and events that say nothing, change nothing but how long is
/// waited.
pub proof fn law_foreign_events_are_skipped(m: ControlTransfer, event: Trb)
    requires
        m.wf(),
        m.phase == ControlPhase::Poll,
        m.data_address != Some(event.param) && m.status_address != event.param || event.code()
            == COMPLETION_INVALID,
    ensures
        m.after(ControlReply::Event(Some(event))) == m.after(ControlReply::Event(None)),
{
}

} // verus!
