//! Bringing the network adapter up.

use vstd::prelude::*;

use crate::bytes;
use crate::usb::err::UsbError;
use crate::usb::r8152;
use crate::usb::r8152::MCU_TYPE_PLA;
use crate::usb::r8152::MCU_TYPE_USB;
use crate::usb::r8152::RxOutcome;
use crate::usb::setup::EndpointDesc;
use crate::usb::setup::SetupPacket;
use crate::usb::transfer;
use crate::usb::trb::EventFilter;
use crate::usb::trb::Trb;

verus! {

/// Where the hardware address is.
pub const PLA_IDR: u16 = 0xc000;

/// What is received.
pub const PLA_RCR: u16 = 0xc010;

/// Receiver and transmitter switches.
pub const PLA_CR: u16 = 0xe813;

pub const PLA_CR_ALIGNED: u16 = 0xe810;

pub const USB_USB_CTRL: u16 = 0xd406;

/// Receive everything: all, own, multicast and broadcast frames.
pub const RCR_ALL: u32 = 0xf;

/// All but the bits that switch gathering frames off and zero-length frames on.
pub const USB_CTRL_KEEP: u16 = 0xff6f;

/// Receiver and transmitter on.
pub const CR_ENABLE: u8 = 0x0c;

/// Transmitter on.
pub const CR_TE: u8 = 0x04;

/// How far bringing up has come.
#[derive(Clone, Copy, Debug, PartialEq, Eq, Structural)]
pub enum AdapterPhase {
    ConfigureIn,
    ConfigureOut,
    ReadMac,
    ReadState,
    ReadReceive,
    WriteReceive,
    ReadControl,
    WriteControl,
    BeforeEnable,
    ReadEnable,
    WriteEnable,
    AfterEnable,
    ReadBack,
    Settle,
    DelayedAligned,
    DelayedReadBack,
    Done,
    Failed,
}

/// What bringing up asks for.
pub enum AdapterRequest {
    /// Set an endpoint up.
    Configure(EndpointDesc),
    /// A control transfer that reads as many bytes.
    Read { setup: SetupPacket, len: u64 },
    /// A control transfer that writes bytes.
    Write { setup: SetupPacket, data: Vec<u8> },
    /// Wait a little.
    Settle,
    Done,
}

/// What bringing up asks for, over sequences.
pub enum AdapterAsk {
    Configure(EndpointDesc),
    Read { setup: SetupPacket, len: u64 },
    Write { setup: SetupPacket, data: Seq<u8> },
    Settle,
    Done,
}

impl View for AdapterRequest {
    type V = AdapterAsk;

    open spec fn view(&self) -> AdapterAsk {
        match self {
            AdapterRequest::Configure(ep) => AdapterAsk::Configure(*ep),
            AdapterRequest::Read { setup, len } => AdapterAsk::Read { setup: *setup, len: *len },
            AdapterRequest::Write { setup, data } => AdapterAsk::Write {
                setup: *setup,
                data: data@,
            },
            AdapterRequest::Settle => AdapterAsk::Settle,
            AdapterRequest::Done => AdapterAsk::Done,
        }
    }
}

/// An adapter that is brought up.
#[derive(Clone, Copy)]
pub struct AdapterSetup {
    pub phase: AdapterPhase,
    pub ep_in: EndpointDesc,
    pub ep_out: EndpointDesc,
    pub mac: [u8; 6],
    pub receive: u32,
    pub control: u16,
    pub enable: u8,
    pub error: Option<UsbError>,
}

/// An adapter that is brought up, over sequences.
pub struct Bringup {
    pub phase: AdapterPhase,
    pub ep_in: EndpointDesc,
    pub ep_out: EndpointDesc,
    pub mac: Seq<u8>,
    pub receive: u32,
    pub control: u16,
    pub enable: u8,
    pub error: Option<UsbError>,
}

impl View for AdapterSetup {
    type V = Bringup;

    open spec fn view(&self) -> Bringup {
        Bringup {
            phase: self.phase,
            ep_in: self.ep_in,
            ep_out: self.ep_out,
            mac: self.mac@,
            receive: self.receive,
            control: self.control,
            enable: self.enable,
            error: self.error,
        }
    }
}

/// The phase that comes next if all goes well.
pub open spec fn next_phase(phase: AdapterPhase) -> AdapterPhase {
    match phase {
        AdapterPhase::ConfigureIn => AdapterPhase::ConfigureOut,
        AdapterPhase::ConfigureOut => AdapterPhase::ReadMac,
        AdapterPhase::ReadMac => AdapterPhase::ReadState,
        AdapterPhase::ReadState => AdapterPhase::ReadReceive,
        AdapterPhase::ReadReceive => AdapterPhase::WriteReceive,
        AdapterPhase::WriteReceive => AdapterPhase::ReadControl,
        AdapterPhase::ReadControl => AdapterPhase::WriteControl,
        AdapterPhase::WriteControl => AdapterPhase::BeforeEnable,
        AdapterPhase::BeforeEnable => AdapterPhase::ReadEnable,
        AdapterPhase::ReadEnable => AdapterPhase::WriteEnable,
        AdapterPhase::WriteEnable => AdapterPhase::AfterEnable,
        AdapterPhase::AfterEnable => AdapterPhase::ReadBack,
        AdapterPhase::ReadBack => AdapterPhase::Settle,
        AdapterPhase::Settle => AdapterPhase::DelayedAligned,
        AdapterPhase::DelayedAligned => AdapterPhase::DelayedReadBack,
        AdapterPhase::DelayedReadBack => AdapterPhase::Done,
        AdapterPhase::Done => AdapterPhase::Done,
        AdapterPhase::Failed => AdapterPhase::Failed,
    }
}

fn following(phase: AdapterPhase) -> (r: AdapterPhase)
    ensures
        r == next_phase(phase),
{
    match phase {
        AdapterPhase::ConfigureIn => AdapterPhase::ConfigureOut,
        AdapterPhase::ConfigureOut => AdapterPhase::ReadMac,
        AdapterPhase::ReadMac => AdapterPhase::ReadState,
        AdapterPhase::ReadState => AdapterPhase::ReadReceive,
        AdapterPhase::ReadReceive => AdapterPhase::WriteReceive,
        AdapterPhase::WriteReceive => AdapterPhase::ReadControl,
        AdapterPhase::ReadControl => AdapterPhase::WriteControl,
        AdapterPhase::WriteControl => AdapterPhase::BeforeEnable,
        AdapterPhase::BeforeEnable => AdapterPhase::ReadEnable,
        AdapterPhase::ReadEnable => AdapterPhase::WriteEnable,
        AdapterPhase::WriteEnable => AdapterPhase::AfterEnable,
        AdapterPhase::AfterEnable => AdapterPhase::ReadBack,
        AdapterPhase::ReadBack => AdapterPhase::Settle,
        AdapterPhase::Settle => AdapterPhase::DelayedAligned,
        AdapterPhase::DelayedAligned => AdapterPhase::DelayedReadBack,
        AdapterPhase::DelayedReadBack => AdapterPhase::Done,
        AdapterPhase::Done => AdapterPhase::Done,
        AdapterPhase::Failed => AdapterPhase::Failed,
    }
}

/// A read of four bytes.
pub open spec fn read_ask(mcu_type: u16, reg: u16) -> AdapterAsk {
    AdapterAsk::Read { setup: r8152::read_request(mcu_type, reg, 4), len: 4 }
}

impl Bringup {
    pub open spec fn begin(ep_in: EndpointDesc, ep_out: EndpointDesc) -> Bringup {
        Bringup {
            phase: AdapterPhase::ConfigureIn,
            ep_in,
            ep_out,
            mac: seq![0u8, 0, 0, 0, 0, 0],
            receive: 0,
            control: 0,
            enable: 0,
            error: None,
        }
    }

    pub open spec fn request(self) -> AdapterAsk {
        match self.phase {
            AdapterPhase::ConfigureIn => AdapterAsk::Configure(self.ep_in),
            AdapterPhase::ConfigureOut => AdapterAsk::Configure(self.ep_out),
            AdapterPhase::ReadMac => AdapterAsk::Read {
                setup: r8152::read_request(MCU_TYPE_PLA, PLA_IDR, 8),
                len: 8,
            },
            AdapterPhase::ReadState => read_ask(MCU_TYPE_PLA, PLA_CR_ALIGNED),
            AdapterPhase::ReadReceive => read_ask(MCU_TYPE_PLA, PLA_RCR),
            AdapterPhase::WriteReceive => AdapterAsk::Write {
                setup: r8152::write_request(MCU_TYPE_PLA, PLA_RCR, r8152::BYTE_EN_DWORD),
                data: bytes::le32_bytes((self.receive | RCR_ALL) as int),
            },
            AdapterPhase::ReadControl => read_ask(MCU_TYPE_USB, r8152::aligned(USB_USB_CTRL)),
            AdapterPhase::WriteControl => AdapterAsk::Write {
                setup: r8152::write_request(
                    MCU_TYPE_USB,
                    r8152::aligned(USB_USB_CTRL),
                    r8152::word_enable(USB_USB_CTRL),
                ),
                data: r8152::word_data(USB_USB_CTRL, self.control & USB_CTRL_KEEP),
            },
            AdapterPhase::BeforeEnable => read_ask(MCU_TYPE_PLA, PLA_CR_ALIGNED),
            AdapterPhase::ReadEnable => read_ask(MCU_TYPE_PLA, PLA_CR_ALIGNED),
            AdapterPhase::WriteEnable => AdapterAsk::Write {
                setup: r8152::write_request(
                    MCU_TYPE_PLA,
                    r8152::aligned(PLA_CR),
                    r8152::byte_enable(PLA_CR),
                ),
                data: r8152::byte_data(PLA_CR, self.enable | CR_ENABLE),
            },
            AdapterPhase::AfterEnable => read_ask(MCU_TYPE_PLA, PLA_CR_ALIGNED),
            AdapterPhase::ReadBack => read_ask(MCU_TYPE_PLA, PLA_CR_ALIGNED),
            AdapterPhase::Settle => AdapterAsk::Settle,
            AdapterPhase::DelayedAligned => read_ask(MCU_TYPE_PLA, PLA_CR_ALIGNED),
            AdapterPhase::DelayedReadBack => read_ask(MCU_TYPE_PLA, PLA_CR_ALIGNED),
            _ => AdapterAsk::Done,
        }
    }

    /// What a reply makes of it: what was read, or why it failed.
    pub open spec fn after(self, reply: Result<(), UsbError>, data: Seq<u8>) -> Bringup {
        let next = Bringup { phase: next_phase(self.phase), ..self };
        match reply {
            Err(e) => if self.phase == AdapterPhase::Done || self.phase == AdapterPhase::Failed
                || self.phase == AdapterPhase::Settle {
                next
            } else {
                Bringup { phase: AdapterPhase::Failed, error: Some(e), ..self }
            },
            Ok(_) => match self.phase {
                AdapterPhase::ReadMac => Bringup { mac: data.take(6), ..next },
                AdapterPhase::ReadReceive => Bringup {
                    receive: bytes::le32(data, 0) as u32,
                    ..next
                },
                AdapterPhase::ReadControl => Bringup {
                    control: r8152::word_in(USB_USB_CTRL, data),
                    ..next
                },
                AdapterPhase::ReadEnable => Bringup {
                    enable: r8152::byte_in(PLA_CR, data),
                    ..next
                },
                AdapterPhase::DelayedReadBack => if r8152::byte_in(PLA_CR, data) & CR_TE == 0 {
                    Bringup {
                        phase: AdapterPhase::Failed,
                        error: Some(UsbError::XferFail(r8152::byte_in(PLA_CR, data))),
                        ..self
                    }
                } else {
                    next
                },
                _ => next,
            },
        }
    }

    pub open spec fn wf(self) -> bool {
        self.phase == AdapterPhase::Failed ==> self.error is Some
    }
}

/// A reply that fits: what was read has the length that was asked for.
pub open spec fn adapter_fits(m: Bringup, reply: Result<(), UsbError>, data: Seq<u8>) -> bool {
    reply is Ok ==> {
        m.request() matches AdapterAsk::Read { setup, len } ==> data.len() == len
    }
}

impl AdapterSetup {
    /// Begins to bring an adapter up, given its endpoints.
    pub fn from_endpoints(eps: &[EndpointDesc]) -> (r: Result<AdapterSetup, UsbError>)
        ensures
            ({
                let i = r8152::first_bulk(eps@, true, 0);
                let o = r8152::first_bulk(eps@, false, 0);
                match r {
                    Ok(m) => i < eps@.len() && o < eps@.len() && m@ == Bringup::begin(
                        eps@[i],
                        eps@[o],
                    ) && m@.wf(),
                    Err(e) => !(i < eps@.len() && o < eps@.len()) && e
                        == UsbError::DeviceNotFound,
                }
            }),
    {
        match r8152::bulk_endpoints(eps) {
            Ok((ep_in, ep_out)) => {
                let m = AdapterSetup {
                    phase: AdapterPhase::ConfigureIn,
                    ep_in,
                    ep_out,
                    mac: [0;6],
                    receive: 0,
                    control: 0,
                    enable: 0,
                    error: None,
                };
                assert(m.mac@ =~= seq![0u8, 0, 0, 0, 0, 0]);
                Ok(m)
            },
            Err(e) => Err(e),
        }
    }

    /// What is needed next.
    pub fn next_request(&self) -> (r: AdapterRequest)
        ensures
            r@ == self@.request(),
    {
        match self.phase {
            AdapterPhase::ConfigureIn => AdapterRequest::Configure(self.ep_in),
            AdapterPhase::ConfigureOut => AdapterRequest::Configure(self.ep_out),
            AdapterPhase::ReadMac => AdapterRequest::Read {
                setup: r8152::read_reg_block(MCU_TYPE_PLA, PLA_IDR, 8),
                len: 8,
            },
            AdapterPhase::ReadReceive => AdapterRequest::Read {
                setup: r8152::read_reg_block(MCU_TYPE_PLA, PLA_RCR, 4),
                len: 4,
            },
            AdapterPhase::WriteReceive => {
                let (setup, data) = r8152::write_dword(
                    MCU_TYPE_PLA,
                    PLA_RCR,
                    self.receive | RCR_ALL,
                );
                AdapterRequest::Write { setup, data }
            },
            AdapterPhase::ReadControl => AdapterRequest::Read {
                setup: r8152::read_aligned(MCU_TYPE_USB, USB_USB_CTRL),
                len: 4,
            },
            AdapterPhase::WriteControl => {
                let (setup, data) = r8152::write_word(
                    MCU_TYPE_USB,
                    USB_USB_CTRL,
                    self.control & USB_CTRL_KEEP,
                );
                AdapterRequest::Write { setup, data }
            },
            AdapterPhase::WriteEnable => {
                let (setup, data) = r8152::write_byte(
                    MCU_TYPE_PLA,
                    PLA_CR,
                    self.enable | CR_ENABLE,
                );
                AdapterRequest::Write { setup, data }
            },
            AdapterPhase::Settle => AdapterRequest::Settle,
            AdapterPhase::Done => AdapterRequest::Done,
            AdapterPhase::Failed => AdapterRequest::Done,
            _ => AdapterRequest::Read {
                setup: r8152::read_aligned(MCU_TYPE_PLA, PLA_CR),
                len: 4,
            },
        }
    }

    /// Takes a reply.
    pub fn feed(&mut self, reply: Result<(), UsbError>, data: &[u8])
        requires
            old(self)@.wf(),
            adapter_fits(old(self)@, reply, data@),
        ensures
            final(self)@ == old(self)@.after(reply, data@),
            final(self)@.wf(),
    {
        let phase = self.phase;
        match reply {
            Err(e) => match phase {
                AdapterPhase::Done => {},
                AdapterPhase::Failed => {},
                AdapterPhase::Settle => {
                    self.phase = following(phase);
                },
                _ => {
                    self.error = Some(e);
                    self.phase = AdapterPhase::Failed;
                },
            },
            Ok(_) => {
                self.phase = following(phase);
                match phase {
                    AdapterPhase::ReadMac => {
                        self.mac = [data[0], data[1], data[2], data[3], data[4], data[5]];
                        assert(self.mac@ =~= data@.take(6));
                    },
                    AdapterPhase::ReadReceive => {
                        self.receive = bytes::le_u32(data, 0);
                    },
                    AdapterPhase::ReadControl => {
                        self.control = r8152::read_word(USB_USB_CTRL, data);
                    },
                    AdapterPhase::ReadEnable => {
                        self.enable = r8152::read_byte(PLA_CR, data);
                    },
                    AdapterPhase::DelayedReadBack => {
                        let back: u8 = r8152::read_byte(PLA_CR, data);
                        if back & CR_TE == 0 {
                            self.error = Some(UsbError::XferFail(back));
                            self.phase = AdapterPhase::Failed;
                        }
                    },
                    _ => {},
                }
            },
        }
    }

    /// The adapter, or why there is none, once it is over.
    pub fn finish(&self) -> (r: Option<Result<Rtl8152Device, UsbError>>)
        requires
            self@.wf(),
        ensures
            match self@.phase {
                AdapterPhase::Done => r matches Some(Ok(d)) && d.ep_in == self@.ep_in.num()
                    && d.ep_out == self@.ep_out.num() && d.mac@ == self@.mac,
                AdapterPhase::Failed => r == Some(Err::<Rtl8152Device, UsbError>(self@.error->0)),
                _ => r is None,
            },
    {
        match self.phase {
            AdapterPhase::Done => Some(
                Ok(
                    Rtl8152Device {
                        ep_in: self.ep_in.number(),
                        ep_out: self.ep_out.number(),
                        mac: self.mac,
                    },
                ),
            ),
            AdapterPhase::Failed => match self.error {
                Some(e) => Some(Err(e)),
                None => None,
            },
            _ => None,
        }
    }
}

/// An adapter that is up.
#[derive(Clone, Copy)]
pub struct Rtl8152Device {
    pub ep_in: u8,
    pub ep_out: u8,
    pub mac: [u8; 6],
}

impl Rtl8152Device {
    /// Returns the device MAC address.
    pub fn mac_address(&self) -> (r: [u8; 6])
        ensures
            r@ == self.mac@,
    {
        self.mac
    }

    /// Returns the bulk IN endpoint number.
    pub fn rx_endpoint(&self) -> (r: u8)
        ensures
            r == self.ep_in,
    {
        self.ep_in
    }

    /// Returns the bulk OUT endpoint number.
    pub fn tx_endpoint(&self) -> (r: u8)
        ensures
            r == self.ep_out,
    {
        self.ep_out
    }

    /// The events of receiving transfers of the device in a slot.
    pub fn rx_events(&self, slot_id: u8) -> (r: EventFilter)
        requires
            self.ep_in < 16,
        ensures
            r == (EventFilter {
                slot_id,
                endpoint_id: transfer::context_index(self.ep_in, true) as u8,
            }),
    {
        EventFilter { slot_id, endpoint_id: transfer::device_context_index(self.ep_in, true) }
    }

    /// Prepares a frame for sending, unless it is too long.
    pub fn write_packet(&self, packet: &[u8]) -> (r: Result<Vec<u8>, UsbError>)
        ensures
            match r {
                Ok(buf) => packet@.len() <= r8152::TX_LEN_MAX && buf@ == r8152::sent_frame(
                    packet@,
                ),
                Err(e) => packet@.len() > r8152::TX_LEN_MAX && e == UsbError::NotSupported,
            },
    {
        r8152::write_packet(packet)
    }

    /// Takes a frame out of a receiving transfer that is over: nothing where the transfer
    /// failed, or was too short.
    pub fn poll_rx_packet(&self, event: &Trb, requested: u64, buf: &[u8], room: u64) -> (r: Result<
        Vec<u8>,
        UsbError,
    >)
        requires
            requested <= buf@.len(),
        ensures
            match r8152::rx_outcome_of(*event, requested) {
                RxOutcome::Received(n) => if n < r8152::RX_DESC_SIZE {
                    r == Err::<Vec<u8>, UsbError>(UsbError::InvalidDescriptor)
                } else {
                    r matches Ok(payload) && payload@ == buf@.subrange(
                        r8152::RX_DESC_SIZE as int,
                        r8152::RX_DESC_SIZE + r8152::payload_len(buf@, n as int, room as int),
                    )
                },
                RxOutcome::Failed(e) => r == Err::<Vec<u8>, UsbError>(e),
            },
    {
        match r8152::poll_rx_packet(event, requested) {
            RxOutcome::Received(n) => r8152::copy_received_packet(buf, n, room),
            RxOutcome::Failed(e) => Err(e),
        }
    }
}

/// An adapter that is up has its transmitter on: with the transmitter off it would have
/// failed.
pub proof fn law_adapter_up_can_send(m: Bringup, data: Seq<u8>)
    requires
        m.phase == AdapterPhase::DelayedReadBack,
        m.after(Ok(()), data).phase == AdapterPhase::Done,
    ensures
        r8152::byte_in(PLA_CR, data) & CR_TE != 0,
{
}

/// How many requests it takes at most to bring an adapter up.
pub open spec fn bringup_left(phase: AdapterPhase) -> int {
    match phase {
        AdapterPhase::ConfigureIn => 16,
        AdapterPhase::ConfigureOut => 15,
        AdapterPhase::ReadMac => 14,
        AdapterPhase::ReadState => 13,
        AdapterPhase::ReadReceive => 12,
        AdapterPhase::WriteReceive => 11,
        AdapterPhase::ReadControl => 10,
        AdapterPhase::WriteControl => 9,
        AdapterPhase::BeforeEnable => 8,
        AdapterPhase::ReadEnable => 7,
        AdapterPhase::WriteEnable => 6,
        AdapterPhase::AfterEnable => 5,
        AdapterPhase::ReadBack => 4,
        AdapterPhase::Settle => 3,
        AdapterPhase::DelayedAligned => 2,
        AdapterPhase::DelayedReadBack => 1,
        _ => 0,
    }
}

/// Bringing an adapter up comes to an end, and a request that fails ends it with its error.
pub proof fn law_bringup_ends(m: Bringup, reply: Result<(), UsbError>, data: Seq<u8>)
    requires
        m.phase != AdapterPhase::Done && m.phase != AdapterPhase::Failed,
    ensures
        0 <= bringup_left(m.after(reply, data).phase) < bringup_left(m.phase),
        reply matches Err(e) ==> m.phase == AdapterPhase::Settle || m.after(reply, data).phase
            == AdapterPhase::Failed && m.after(reply, data).error == Some(e),
{
}

} // verus!
