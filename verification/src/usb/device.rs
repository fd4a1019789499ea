//! A device on the bus: giving it an address and setting up its endpoints.

use vstd::prelude::*;

use crate::usb::config::ConfigFetch;
use crate::usb::config::Fetch;
use crate::usb::context;
use crate::usb::context::EndpointContext;
use crate::usb::context::InputContext;
use crate::usb::context::SlotContext;
use crate::usb::control::ControlTransfer;
use crate::usb::err::UsbError;
use crate::usb::port;
use crate::usb::setup;
use crate::usb::setup::EndpointDesc;
use crate::usb::setup::SetupPacket;
use crate::usb::transfer;
use crate::usb::transfer::TransferWait;
use crate::usb::trb;
use crate::usb::trb::EventFilter;
use crate::usb::trb::Trb;
use crate::usb::xhci;
use crate::usb::xhci::XhciCtrl;

verus! {

/// How many endpoints but the control endpoint a device can have, both ways.
pub const MAX_ENDPOINTS: usize = 31;

/// How many blocks a ring has.
pub const RING_SIZE: u64 = 256;

/// A device with an address.
pub struct UsbDevice {
    pub slot_id: u8,
    pub port: u8,
    pub speed: u8,
    pub device_context: u64,
    pub input_context: u64,
    pub control_ring: u64,
    pub input: InputContext,
    /// Which endpoints have a ring.
    pub configured: Vec<bool>,
}

/// How many bytes a packet of the control endpoint has, at a speed.
pub open spec fn control_packet(speed: u8) -> u16 {
    if speed == port::SPEED_HIGH {
        64
    } else if speed == port::SPEED_SUPER {
        512
    } else {
        8
    }
}

fn max_control_packet(speed: u8) -> (r: u16)
    ensures
        r == control_packet(speed),
{
    if speed == port::SPEED_HIGH {
        64
    } else if speed == port::SPEED_SUPER {
        512
    } else {
        8
    }
}

/// The controller's type of an endpoint.
pub open spec fn endpoint_type(kind: u8, is_in: bool) -> u8 {
    if kind == 1 {
        if is_in {
            5
        } else {
            1
        }
    } else if kind == 2 {
        if is_in {
            6
        } else {
            2
        }
    } else if kind == 3 {
        if is_in {
            7
        } else {
            3
        }
    } else {
        4
    }
}

/// The controller's type of an endpoint.
pub fn xhci_endpoint_type(kind: u8, is_in: bool) -> (r: u8)
    ensures
        r == endpoint_type(kind, is_in),
{
    if kind == 1 {
        if is_in {
            5
        } else {
            1
        }
    } else if kind == 2 {
        if is_in {
            6
        } else {
            2
        }
    } else if kind == 3 {
        if is_in {
            7
        } else {
            3
        }
    } else {
        4
    }
}

/// The smallest power of two, as its exponent, that is no smaller than `ms`.
pub open spec fn log2_ceil(ms: int) -> int {
    if ms <= 1 {
        0
    } else if ms <= 2 {
        1
    } else if ms <= 4 {
        2
    } else if ms <= 8 {
        3
    } else if ms <= 16 {
        4
    } else if ms <= 32 {
        5
    } else if ms <= 64 {
        6
    } else if ms <= 128 {
        7
    } else {
        8
    }
}

/// The controller's interval of an endpoint: an exponent, of units of 125 microseconds.
/// Fast devices give the exponent plus one, others milliseconds.
pub open spec fn interval_of(speed: u8, interval: u8) -> u8 {
    if speed >= port::SPEED_HIGH {
        if interval == 0 {
            0
        } else {
            (interval - 1) as u8
        }
    } else {
        (log2_ceil(interval as int) + 3) as u8
    }
}

/// The controller's interval of an endpoint.
pub fn xhci_interval(speed: u8, interval: u8) -> (r: u8)
    ensures
        r == interval_of(speed, interval),
{
    if speed >= port::SPEED_HIGH {
        if interval == 0 {
            0
        } else {
            interval - 1
        }
    } else if interval <= 1 {
        3
    } else if interval <= 2 {
        4
    } else if interval <= 4 {
        5
    } else if interval <= 8 {
        6
    } else if interval <= 16 {
        7
    } else if interval <= 32 {
        8
    } else if interval <= 64 {
        9
    } else if interval <= 128 {
        10
    } else {
        11
    }
}

/// The slot context with room for the context `dci`.
pub open spec fn with_entries(slot: SlotContext, dci: u32) -> SlotContext {
    if slot.context_entries() < dci {
        SlotContext { dw0: (slot.dw0 & 0x07ff_ffff) | (dci << 27u32), ..slot }
    } else {
        slot
    }
}

/// What setting up an endpoint makes of the input context.
pub open spec fn endpoint_added(
    before: InputContext,
    after: InputContext,
    speed: u8,
    ep: EndpointDesc,
    ring: u64,
) -> bool {
    let dci = transfer::context_index(ep.num(), ep.inward());
    &&& after.input_control@ == before.input_control@.update(0, 0).update(
        1,
        (1u32 << (dci as u32)) | 1,
    )
    &&& after.slot == with_entries(before.slot, dci as u32)
    &&& after.endpoints@ == before.endpoints@.update(
        dci - 1,
        EndpointContext::of(
            endpoint_type(ep.kind(), ep.inward()),
            ep.max_packet_size,
            0,
            interval_of(speed, ep.interval),
            ring,
        ),
    )
}

impl UsbDevice {
    /// Begins to give the device on a port its address.
    pub fn new(ctrl: &XhciCtrl, port: u8) -> (r: NewDevice)
        requires
            port < 255,
        ensures
            r == NewDevice::begin(
                port,
                xhci::slot_type_of(ctrl.supported_protocols@, port + 1, 0),
            ),
            r.wf(),
    {
        NewDevice::new(port, ctrl.slot_type_for_port(port))
    }

    /// Begins a control transfer; `data_len` is zero where there is no data.
    pub fn control_transfer(&self, setup: SetupPacket, data_len: u64) -> (r: ControlTransfer)
        ensures
            r == ControlTransfer::begin(self.slot_id, setup, data_len),
            r.wf(),
    {
        ControlTransfer::control_transfer(self.slot_id, setup, data_len)
    }

    /// Begins to fetch the device descriptor.
    pub fn get_device_descriptor(&self) -> (r: ControlTransfer)
        ensures
            r == ControlTransfer::begin(
                self.slot_id,
                SetupPacket::descriptor(setup::DESC_DEVICE, 0, setup::DEVICE_DESC_SIZE),
                setup::DEVICE_DESC_SIZE as u64,
            ),
            r.wf(),
    {
        self.control_transfer(
            SetupPacket::get_descriptor(setup::DESC_DEVICE, 0, setup::DEVICE_DESC_SIZE),
            setup::DEVICE_DESC_SIZE as u64,
        )
    }

    /// Begins to fetch a configuration descriptor.
    pub fn get_config_descriptor(&self, index: u8) -> (r: ConfigFetch)
        ensures
            r@ == Fetch::begin(index),
            r@.wf(),
    {
        ConfigFetch::get_config_descriptor(index)
    }

    /// Begins to select a configuration.
    pub fn set_configuration(&self, config: u8) -> (r: ControlTransfer)
        ensures
            r == ControlTransfer::begin(self.slot_id, SetupPacket::configuration(config), 0),
            r.wf(),
    {
        self.control_transfer(SetupPacket::set_configuration(config), 0)
    }

    /// Begins to wait for the end of a transfer of `len` bytes on an endpoint.
    pub fn bulk_transfer(&self, ep_num: u8, is_in: bool, len: u64) -> (r: TransferWait)
        requires
            ep_num < 16,
        ensures
            r == TransferWait::begin(
                (EventFilter {
                    slot_id: self.slot_id,
                    endpoint_id: transfer::context_index(ep_num, is_in) as u8,
                }),
                len,
            ),
            r.wf(),
    {
        TransferWait::wait_transfer_event(
            self.slot_id,
            transfer::device_context_index(ep_num, is_in),
            len,
        )
    }

    /// Returns the xHCI slot ID assigned to this device.
    pub fn slot_id(&self) -> (r: u8)
        ensures
            r == self.slot_id,
    {
        self.slot_id
    }

    /// Returns the root hub port number this device is connected to.
    pub fn port(&self) -> (r: u8)
        ensures
            r == self.port,
    {
        self.port
    }

    /// Returns the device speed.
    pub fn speed(&self) -> (r: u8)
        ensures
            r == self.speed,
    {
        self.speed
    }

    /// There is one ring, or none, for each endpoint.
    pub open spec fn wf(self) -> bool {
        self.configured@.len() == MAX_ENDPOINTS
    }

    /// Sets up an endpoint with its ring, and gives the command that tells the controller.
    pub fn configure_endpoint(&mut self, ep: &EndpointDesc, ring: u64) -> (r: Trb)
        requires
            old(self).wf(),
            transfer::context_index(ep.num(), ep.inward()) >= 1,
        ensures
            r == trb::command(
                trb::TRB_CONFIGURE_ENDPOINT,
                old(self).slot_id,
                old(self).input_context,
            ),
            endpoint_added(old(self).input, final(self).input, old(self).speed, *ep, ring),
            final(self).configured@ == old(self).configured@.update(
                transfer::context_index(ep.num(), ep.inward()) - 1,
                true,
            ),
            final(self).slot_id == old(self).slot_id,
            final(self).port == old(self).port,
            final(self).speed == old(self).speed,
            final(self).device_context == old(self).device_context,
            final(self).input_context == old(self).input_context,
            final(self).control_ring == old(self).control_ring,
            final(self).wf(),
    {
        let is_in: bool = ep.is_in();
        let dci: u32 = transfer::device_context_index(ep.number(), is_in) as u32;
        let at: usize = dci as usize - 1;
        let c = EndpointContext::new(
            xhci_endpoint_type(ep.transfer_type(), is_in),
            ep.max_packet_size,
            0,
            xhci_interval(self.speed, ep.interval),
            ring,
        );
        self.input.input_control[0] = 0;
        self.input.input_control[1] = (1u32 << dci) | 1;
        if self.input.slot.dw0 >> 27u32 < dci {
            self.input.slot.dw0 = (self.input.slot.dw0 & 0x07ff_ffff) | (dci << 27u32);
        }
        self.input.endpoints[at] = c;
        self.configured.set(at, true);
        trb::configure_endpoint(self.slot_id, self.input_context)
    }

    /// The blocks of a transfer on an endpoint, and the doorbell to ring; an error where the
    /// endpoint has no ring.
    pub fn queue_transfer(&self, ep_num: u8, is_in: bool, phys: u64, len: u64) -> (r: Result<
        (Vec<Trb>, u8),
        UsbError,
    >)
        requires
            self.wf(),
            ep_num < 16,
            transfer::context_index(ep_num, is_in) >= 1,
            phys + len + transfer::BOUNDARY <= u64::MAX,
        ensures
            match r {
                Ok(t) => self.configured@[transfer::context_index(ep_num, is_in) - 1] && t.0@
                    == transfer::transfer_blocks(phys as int, len as int) && t.1
                    == transfer::context_index(ep_num, is_in),
                Err(e) => !self.configured@[transfer::context_index(ep_num, is_in) - 1] && e
                    == UsbError::InvEndpoint,
            },
    {
        let dci: u8 = transfer::device_context_index(ep_num, is_in);
        if !self.configured[dci as usize - 1] {
            return Err(UsbError::InvEndpoint);
        }
        Ok((transfer::queue_transfer(phys, len), dci))
    }
}

/// A bigger context index needs more valid contexts: after an endpoint was set up, its own
/// context is among the valid ones, and so are all that were valid before.
pub proof fn law_context_entries_grow(slot: SlotContext, dci: u32)
    requires
        dci < 32,
    ensures
        with_entries(slot, dci).context_entries() >= dci,
        with_entries(slot, dci).context_entries() >= slot.context_entries(),
        with_entries(slot, dci).dw0 % 0x800_0000 == slot.dw0 % 0x800_0000,
{
    let d = slot.dw0;
    assert(d >> 27u32 < dci && dci < 32 ==> ((d & 0x07ff_ffff) | (dci << 27u32)) >> 27u32 == dci && ((
    d & 0x07ff_ffff) | (dci << 27u32)) % 0x800_0000 == d % 0x800_0000) by (bit_vector);
}

/// What giving a device its address asks for.
#[derive(Clone, Copy, Debug, PartialEq, Eq, Structural)]
pub enum DeviceRequest {
    /// Submit a command, and wait for it.
    Command(Trb),
    /// Read the register of the device's port.
    ReadPort,
    /// Reset the port.
    ResetPort,
    /// Write the register of the port.
    WritePort { value: u32 },
    /// Wait a little.
    Settle,
    Allocate { size: u64, align: u64 },
    Ring { entries: u64 },
    /// Put the input context into its memory.
    WriteInput,
    /// Tell the controller where the device context is.
    SetContext { slot: u8, address: u64 },
    Done,
}

/// What it is answered.
#[derive(Clone, Copy)]
pub enum DeviceReply {
    Command(Result<Trb, UsbError>),
    Value(u32),
    Reset(Result<(), UsbError>),
    Memory(Result<u64, UsbError>),
    Acknowledged,
}

impl DeviceReply {
    pub open spec fn command_of(self) -> Result<Trb, UsbError> {
        match self {
            DeviceReply::Command(c) => c,
            _ => Err(UsbError::NotSupported),
        }
    }

    pub open spec fn value_of(self) -> u32 {
        match self {
            DeviceReply::Value(v) => v,
            _ => 0,
        }
    }

    pub open spec fn reset_of(self) -> Result<(), UsbError> {
        match self {
            DeviceReply::Reset(r) => r,
            _ => Ok(()),
        }
    }

    pub open spec fn memory_of(self) -> Result<u64, UsbError> {
        match self {
            DeviceReply::Memory(m) => m,
            _ => Err(UsbError::OoRam),
        }
    }

    fn command(&self) -> (r: Result<Trb, UsbError>)
        ensures
            r == self.command_of(),
    {
        match self {
            DeviceReply::Command(c) => *c,
            _ => Err(UsbError::NotSupported),
        }
    }

    fn value(&self) -> (r: u32)
        ensures
            r == self.value_of(),
    {
        match self {
            DeviceReply::Value(v) => *v,
            _ => 0,
        }
    }

    fn reset(&self) -> (r: Result<(), UsbError>)
        ensures
            r == self.reset_of(),
    {
        match self {
            DeviceReply::Reset(r) => *r,
            _ => Ok(()),
        }
    }

    fn memory(&self) -> (r: Result<u64, UsbError>)
        ensures
            r == self.memory_of(),
    {
        match self {
            DeviceReply::Memory(m) => *m,
            _ => Err(UsbError::OoRam),
        }
    }
}

/// How far giving a device its address has come.
#[derive(Clone, Copy, Debug, PartialEq, Eq, Structural)]
pub enum DevicePhase {
    EnableSlot,
    FirstSpeed,
    Reset,
    SecondSpeed,
    ReadChanges,
    ClearChanges,
    Settle,
    DeviceContext,
    InputContext,
    ControlRing,
    WriteInput,
    SetContext,
    Address,
    Done,
    Failed,
}

/// A device that is given its address.
#[derive(Clone, Copy)]
pub struct NewDevice {
    pub port: u8,
    pub slot_type: u8,
    pub phase: DevicePhase,
    pub slot_id: u8,
    pub speed: u8,
    pub portsc: u32,
    pub device_context: u64,
    pub input_context: u64,
    pub control_ring: u64,
    pub error: Option<UsbError>,
}

impl NewDevice {
    pub open spec fn begin(port: u8, slot_type: u8) -> NewDevice {
        NewDevice {
            port,
            slot_type,
            phase: DevicePhase::EnableSlot,
            slot_id: 0,
            speed: 0,
            portsc: 0,
            device_context: 0,
            input_context: 0,
            control_ring: 0,
            error: None,
        }
    }

    pub open spec fn enters(self, phase: DevicePhase) -> NewDevice {
        NewDevice { phase, ..self }
    }

    pub open spec fn fails(self, error: UsbError) -> NewDevice {
        NewDevice { phase: DevicePhase::Failed, error: Some(error), ..self }
    }

    /// The slot context of the device, at the first level of the bus.
    pub open spec fn slot_context(self) -> SlotContext {
        SlotContext::of(0, self.speed, 1, (self.port + 1) as u8)
    }

    /// The context of its control endpoint.
    pub open spec fn control_context(self) -> EndpointContext {
        EndpointContext::of(4, control_packet(self.speed), 0, 0, self.control_ring)
    }

    pub open spec fn request(self) -> DeviceRequest {
        match self.phase {
            DevicePhase::EnableSlot => DeviceRequest::Command(trb::enable_slot(self.slot_type)),
            DevicePhase::FirstSpeed => DeviceRequest::ReadPort,
            DevicePhase::Reset => DeviceRequest::ResetPort,
            DevicePhase::SecondSpeed => DeviceRequest::ReadPort,
            DevicePhase::ReadChanges => DeviceRequest::ReadPort,
            DevicePhase::ClearChanges => DeviceRequest::WritePort {
                value: port::acknowledged(self.portsc)->0,
            },
            DevicePhase::Settle => DeviceRequest::Settle,
            DevicePhase::DeviceContext => DeviceRequest::Allocate {
                size: context::DEVICE_CONTEXT_SIZE,
                align: context::CONTEXT_ALIGN,
            },
            DevicePhase::InputContext => DeviceRequest::Allocate {
                size: context::INPUT_CONTEXT_SIZE,
                align: context::CONTEXT_ALIGN,
            },
            DevicePhase::ControlRing => DeviceRequest::Ring { entries: RING_SIZE },
            DevicePhase::WriteInput => DeviceRequest::WriteInput,
            DevicePhase::SetContext => DeviceRequest::SetContext {
                slot: self.slot_id,
                address: self.device_context,
            },
            DevicePhase::Address => DeviceRequest::Command(
                trb::command(trb::TRB_ADDRESS_DEVICE, self.slot_id, self.input_context),
            ),
            _ => DeviceRequest::Done,
        }
    }

    pub open spec fn after(self, reply: DeviceReply) -> NewDevice {
        match self.phase {
            DevicePhase::EnableSlot => match reply.command_of() {
                Ok(event) => NewDevice { slot_id: event.slot() as u8, ..self }.enters(
                    DevicePhase::FirstSpeed,
                ),
                Err(e) => self.fails(e),
            },
            DevicePhase::FirstSpeed => {
                let speed = port::speed_of(reply.value_of());
                NewDevice { speed, ..self }.enters(
                    if speed == port::SPEED_SUPER {
                        DevicePhase::ReadChanges
                    } else {
                        DevicePhase::Reset
                    },
                )
            },
            DevicePhase::Reset => match reply.reset_of() {
                Ok(_) => self.enters(DevicePhase::SecondSpeed),
                Err(e) => self.fails(e),
            },
            DevicePhase::SecondSpeed => NewDevice {
                speed: port::speed_of(reply.value_of()),
                ..self
            }.enters(DevicePhase::ReadChanges),
            DevicePhase::ReadChanges => NewDevice { portsc: reply.value_of(), ..self }.enters(
                if port::acknowledged(reply.value_of()) is Some {
                    DevicePhase::ClearChanges
                } else {
                    DevicePhase::Settle
                },
            ),
            DevicePhase::ClearChanges => self.enters(DevicePhase::Settle),
            DevicePhase::Settle => self.enters(DevicePhase::DeviceContext),
            DevicePhase::DeviceContext => match reply.memory_of() {
                Ok(device_context) => NewDevice { device_context, ..self }.enters(
                    DevicePhase::InputContext,
                ),
                Err(e) => self.fails(e),
            },
            DevicePhase::InputContext => match reply.memory_of() {
                Ok(input_context) => NewDevice { input_context, ..self }.enters(
                    DevicePhase::ControlRing,
                ),
                Err(e) => self.fails(e),
            },
            DevicePhase::ControlRing => match reply.memory_of() {
                Ok(control_ring) => NewDevice { control_ring, ..self }.enters(
                    DevicePhase::WriteInput,
                ),
                Err(e) => self.fails(e),
            },
            DevicePhase::WriteInput => self.enters(DevicePhase::SetContext),
            DevicePhase::SetContext => self.enters(DevicePhase::Address),
            DevicePhase::Address => match reply.command_of() {
                Ok(_) => self.enters(DevicePhase::Done),
                Err(e) => self.fails(e),
            },
            _ => self,
        }
    }

    pub open spec fn wf(self) -> bool {
        &&& self.port < 255
        &&& self.phase == DevicePhase::ClearChanges ==> port::acknowledged(self.portsc) is Some
        &&& self.phase == DevicePhase::Failed ==> self.error is Some
    }

    /// Begins to give the device on a port its address.
    pub fn new(port: u8, slot_type: u8) -> (r: NewDevice)
        requires
            port < 255,
        ensures
            r == NewDevice::begin(port, slot_type),
            r.wf(),
    {
        NewDevice {
            port,
            slot_type,
            phase: DevicePhase::EnableSlot,
            slot_id: 0,
            speed: 0,
            portsc: 0,
            device_context: 0,
            input_context: 0,
            control_ring: 0,
            error: None,
        }
    }

    /// What is needed next.
    pub fn next_request(&self) -> (r: DeviceRequest)
        requires
            self.wf(),
        ensures
            r == self.request(),
    {
        match self.phase {
            DevicePhase::EnableSlot => DeviceRequest::Command(
                trb::enable_slot_with_type(self.slot_type),
            ),
            DevicePhase::FirstSpeed => DeviceRequest::ReadPort,
            DevicePhase::Reset => DeviceRequest::ResetPort,
            DevicePhase::SecondSpeed => DeviceRequest::ReadPort,
            DevicePhase::ReadChanges => DeviceRequest::ReadPort,
            DevicePhase::ClearChanges => match port::clear_port_change_bits(self.portsc) {
                Some(value) => DeviceRequest::WritePort { value },
                None => DeviceRequest::Done,
            },
            DevicePhase::Settle => DeviceRequest::Settle,
            DevicePhase::DeviceContext => DeviceRequest::Allocate {
                size: context::DEVICE_CONTEXT_SIZE,
                align: context::CONTEXT_ALIGN,
            },
            DevicePhase::InputContext => DeviceRequest::Allocate {
                size: context::INPUT_CONTEXT_SIZE,
                align: context::CONTEXT_ALIGN,
            },
            DevicePhase::ControlRing => DeviceRequest::Ring { entries: RING_SIZE },
            DevicePhase::WriteInput => DeviceRequest::WriteInput,
            DevicePhase::SetContext => DeviceRequest::SetContext {
                slot: self.slot_id,
                address: self.device_context,
            },
            DevicePhase::Address => DeviceRequest::Command(
                trb::address_device(self.slot_id, self.input_context),
            ),
            _ => DeviceRequest::Done,
        }
    }

    /// The input context that describes the device to the controller.
    pub fn input(&self) -> (r: InputContext)
        requires
            self.wf(),
        ensures
            r.input_control@ == Seq::new(8, |i: int| 0u32).update(1, 3),
            r.slot == self.slot_context(),
            r.endpoints@ == Seq::new(31, |i: int| EndpointContext::empty()).update(
                0,
                self.control_context(),
            ),
    {
        let mut r = InputContext::zeroed();
        assert(r.input_control@ =~= Seq::new(8, |i: int| 0u32));
        assert(r.endpoints@ =~= Seq::new(31, |i: int| EndpointContext::empty()));
        r.input_control[1] = 3;
        r.slot = SlotContext::new(0, self.speed, 1, self.port + 1);
        r.endpoints[0] = EndpointContext::new(
            4,
            max_control_packet(self.speed),
            0,
            0,
            self.control_ring,
        );
        r
    }

    fn fail(&mut self, error: UsbError)
        requires
            old(self).wf(),
        ensures
            *final(self) == old(self).fails(error),
            final(self).wf(),
    {
        self.error = Some(error);
        self.phase = DevicePhase::Failed;
    }

    /// Takes a reply.
    pub fn feed(&mut self, reply: DeviceReply)
        requires
            old(self).wf(),
        ensures
            *final(self) == old(self).after(reply),
            final(self).wf(),
    {
        match self.phase {
            DevicePhase::EnableSlot => match reply.command() {
                Ok(event) => {
                    self.slot_id = event.slot_id();
                    self.phase = DevicePhase::FirstSpeed;
                },
                Err(e) => self.fail(e),
            },
            DevicePhase::FirstSpeed => {
                self.speed = port::port_speed(reply.value());
                self.phase = if self.speed == port::SPEED_SUPER {
                    DevicePhase::ReadChanges
                } else {
                    DevicePhase::Reset
                };
            },
            DevicePhase::Reset => match reply.reset() {
                Ok(_) => {
                    self.phase = DevicePhase::SecondSpeed;
                },
                Err(e) => self.fail(e),
            },
            DevicePhase::SecondSpeed => {
                self.speed = port::port_speed(reply.value());
                self.phase = DevicePhase::ReadChanges;
            },
            DevicePhase::ReadChanges => {
                self.portsc = reply.value();
                self.phase = if port::clear_port_change_bits(self.portsc).is_some() {
                    DevicePhase::ClearChanges
                } else {
                    DevicePhase::Settle
                };
            },
            DevicePhase::ClearChanges => {
                self.phase = DevicePhase::Settle;
            },
            DevicePhase::Settle => {
                self.phase = DevicePhase::DeviceContext;
            },
            DevicePhase::DeviceContext => match reply.memory() {
                Ok(address) => {
                    self.device_context = address;
                    self.phase = DevicePhase::InputContext;
                },
                Err(e) => self.fail(e),
            },
            DevicePhase::InputContext => match reply.memory() {
                Ok(address) => {
                    self.input_context = address;
                    self.phase = DevicePhase::ControlRing;
                },
                Err(e) => self.fail(e),
            },
            DevicePhase::ControlRing => match reply.memory() {
                Ok(address) => {
                    self.control_ring = address;
                    self.phase = DevicePhase::WriteInput;
                },
                Err(e) => self.fail(e),
            },
            DevicePhase::WriteInput => {
                self.phase = DevicePhase::SetContext;
            },
            DevicePhase::SetContext => {
                self.phase = DevicePhase::Address;
            },
            DevicePhase::Address => match reply.command() {
                Ok(_) => {
                    self.phase = DevicePhase::Done;
                },
                Err(e) => self.fail(e),
            },
            _ => {},
        }
    }

    /// The device, or why there is none, once it is over.
    pub fn finish(&self) -> (r: Option<Result<UsbDevice, UsbError>>)
        requires
            self.wf(),
        ensures
            match self.phase {
                DevicePhase::Done => r matches Some(Ok(d)) && {
                    &&& d.wf()
                    &&& d.slot_id == self.slot_id
                    &&& d.port == self.port
                    &&& d.speed == self.speed
                    &&& d.device_context == self.device_context
                    &&& d.input_context == self.input_context
                    &&& d.control_ring == self.control_ring
                    &&& d.input.input_control@ == Seq::new(8, |i: int| 0u32).update(1, 3)
                    &&& d.input.slot == self.slot_context()
                    &&& d.input.endpoints@ == Seq::new(
                        31,
                        |i: int| EndpointContext::empty(),
                    ).update(0, self.control_context())
                    &&& forall|i: int| 0 <= i < MAX_ENDPOINTS ==> !(#[trigger] d.configured@[i])
                },
                DevicePhase::Failed => r == Some(Err::<UsbDevice, UsbError>(self.error->0)),
                _ => r is None,
            },
    {
        match self.phase {
            DevicePhase::Done => {
                let mut configured: Vec<bool> = Vec::new();
                let mut i: usize = 0;
                while i < MAX_ENDPOINTS
                    invariant
                        i <= MAX_ENDPOINTS,
                        configured@.len() == i,
                        forall|k: int| 0 <= k < i ==> !(#[trigger] configured@[k]),
                    decreases MAX_ENDPOINTS - i,
                {
                    configured.push(false);
                    i = i + 1;
                }
                Some(
                    Ok(
                        UsbDevice {
                            slot_id: self.slot_id,
                            port: self.port,
                            speed: self.speed,
                            device_context: self.device_context,
                            input_context: self.input_context,
                            control_ring: self.control_ring,
                            input: self.input(),
                            configured,
                        },
                    ),
                )
            },
            DevicePhase::Failed => match self.error {
                Some(e) => Some(Err(e)),
                None => None,
            },
            _ => None,
        }
    }
}

/// A port at the highest speed is never reset: its device would not take its address any
/// more.
pub proof fn law_super_speed_is_not_reset(m: NewDevice, portsc: u32)
    requires
        m.wf(),
        m.phase == DevicePhase::FirstSpeed,
    ensures
        (m.after(DeviceReply::Value(portsc)).request() == DeviceRequest::ResetPort) == (
        port::speed_of(portsc) != port::SPEED_SUPER),
{
}

/// How many requests it takes at most to give a device an address.
pub open spec fn addressing_left(m: NewDevice) -> int {
    match m.phase {
        DevicePhase::EnableSlot => 13,
        DevicePhase::FirstSpeed => 12,
        DevicePhase::Reset => 11,
        DevicePhase::SecondSpeed => 10,
        DevicePhase::ReadChanges => 9,
        DevicePhase::ClearChanges => 8,
        DevicePhase::Settle => 7,
        DevicePhase::DeviceContext => 6,
        DevicePhase::InputContext => 5,
        DevicePhase::ControlRing => 4,
        DevicePhase::WriteInput => 3,
        DevicePhase::SetContext => 2,
        DevicePhase::Address => 1,
        _ => 0,
    }
}

/// Giving a device an address comes to an end, and the contexts it takes are aligned to 64
/// bytes.
pub proof fn law_addressing_ends(m: NewDevice, reply: DeviceReply)
    requires
        m.wf(),
        m.phase != DevicePhase::Done && m.phase != DevicePhase::Failed,
    ensures
        0 <= addressing_left(m.after(reply)) < addressing_left(m),
        m.request() matches DeviceRequest::Allocate { size, align } ==> align == 64,
{
}

} // verus!
