//! Requests to a device's control endpoint, and descriptors.

use vstd::prelude::*;

use crate::bytes;

verus! {

pub const DESC_DEVICE: u8 = 1;

pub const DESC_CONFIGURATION: u8 = 2;

pub const FEATURE_ENDPOINT_HALT: u16 = 0;

/// A request to the control endpoint.
#[derive(Clone, Copy, Debug, PartialEq, Eq, Structural)]
pub struct SetupPacket {
    pub request_type: u8,
    pub request: u8,
    pub value: u16,
    pub index: u16,
    pub length: u16,
}

impl SetupPacket {
    /// Whether data goes from the device to the host.
    pub open spec fn is_in(self) -> bool {
        self.request_type >= 0x80
    }

    /// The eight bytes of the request as a number, lowest first.
    pub open spec fn bits_of(self) -> int {
        self.request_type + self.request * 0x100 + self.value * 0x1_0000 + self.index
            * 0x1_0000_0000 + self.length * 0x1_0000_0000_0000
    }

    /// The eight bytes of the request as a number.
    pub fn bits(&self) -> (r: u64)
        ensures
            r == self.bits_of(),
    {
        self.request_type as u64 + self.request as u64 * 0x100 + self.value as u64 * 0x1_0000
            + self.index as u64 * 0x1_0000_0000 + self.length as u64 * 0x1_0000_0000_0000
    }

    /// The request of one of a device's descriptors.
    pub open spec fn descriptor(ty: u8, index: u8, length: u16) -> SetupPacket {
        SetupPacket {
            request_type: 0x80,
            request: 6,
            value: (ty * 0x100 + index) as u16,
            index: 0,
            length,
        }
    }

    /// Asks for a descriptor.
    pub fn get_descriptor(ty: u8, index: u8, length: u16) -> (r: SetupPacket)
        ensures
            r == SetupPacket::descriptor(ty, index, length),
    {
        SetupPacket {
            request_type: 0x80,
            request: 6,
            value: ty as u16 * 0x100 + index as u16,
            index: 0,
            length,
        }
    }

    /// The request that selects a configuration.
    pub open spec fn configuration(config: u8) -> SetupPacket {
        SetupPacket { request_type: 0, request: 9, value: config as u16, index: 0, length: 0 }
    }

    /// Selects a configuration.
    pub fn set_configuration(config: u8) -> (r: SetupPacket)
        ensures
            r == SetupPacket::configuration(config),
    {
        SetupPacket { request_type: 0, request: 9, value: config as u16, index: 0, length: 0 }
    }

    /// The request that clears a feature of an endpoint.
    pub open spec fn cleared_feature(feature: u16, endpoint: u16) -> SetupPacket {
        SetupPacket { request_type: 2, request: 1, value: feature, index: endpoint, length: 0 }
    }

    /// Clears a feature of an endpoint.
    pub fn clear_endpoint_feature(feature: u16, endpoint: u16) -> (r: SetupPacket)
        ensures
            r == SetupPacket::cleared_feature(feature, endpoint),
    {
        SetupPacket { request_type: 2, request: 1, value: feature, index: endpoint, length: 0 }
    }
}

/// The fields can be told from the bytes.
proof fn lemma_fields(s: SetupPacket)
    ensures
        s.bits_of() % 0x100 == s.request_type,
        s.bits_of() / 0x100 % 0x100 == s.request,
        s.bits_of() / 0x1_0000 % 0x1_0000 == s.value,
        s.bits_of() / 0x1_0000_0000 % 0x1_0000 == s.index,
        s.bits_of() / 0x1_0000_0000_0000 == s.length,
{
    let x = s.bits_of();
    let y4 = s.length as int;
    let y3 = s.index + 0x1_0000 * y4;
    let y2 = s.value + 0x1_0000 * y3;
    let y1 = s.request + 0x100 * y2;
    assert(x == s.request_type + 0x100 * y1);
    assert(x == s.request_type + 0x100 * s.request + 0x1_0000 * y2);
    assert(x / 0x100 == y1);
    assert(x / 0x1_0000 == y2);
    assert(y2 % 0x1_0000 == s.value);
    assert(x / 0x1_0000_0000 == y3);
    assert(y3 % 0x1_0000 == s.index);
    assert(x / 0x1_0000_0000_0000 == y4);
}

/// Different requests have different bytes.
pub proof fn law_setup_bits_are_unique(a: SetupPacket, b: SetupPacket)
    requires
        a.bits_of() == b.bits_of(),
    ensures
        a == b,
{
    lemma_fields(a);
    lemma_fields(b);
}

/// A device descriptor.
#[derive(Clone, Copy, Debug, PartialEq, Eq, Structural)]
pub struct DeviceDesc {
    pub class: u8,
    pub subclass: u8,
    pub protocol: u8,
    pub max_packet_size: u8,
    pub vendor_id: u16,
    pub product_id: u16,
    pub num_configurations: u8,
}

/// How many bytes a device descriptor has.
pub const DEVICE_DESC_SIZE: u16 = 18;

/// The descriptor that eighteen bytes are.
pub open spec fn device_desc_of(s: Seq<u8>) -> DeviceDesc {
    DeviceDesc {
        class: s[4],
        subclass: s[5],
        protocol: s[6],
        max_packet_size: s[7],
        vendor_id: bytes::le16(s, 8) as u16,
        product_id: bytes::le16(s, 10) as u16,
        num_configurations: s[17],
    }
}

/// Reads a device descriptor.
pub fn parse_device_desc(s: &[u8]) -> (r: DeviceDesc)
    requires
        s@.len() >= DEVICE_DESC_SIZE,
    ensures
        r == device_desc_of(s@),
{
    DeviceDesc {
        class: s[4],
        subclass: s[5],
        protocol: s[6],
        max_packet_size: s[7],
        vendor_id: bytes::le_u16(s, 8),
        product_id: bytes::le_u16(s, 10),
        num_configurations: s[17],
    }
}

/// An endpoint descriptor.
#[derive(Clone, Copy, Debug, PartialEq, Eq, Structural)]
pub struct EndpointDesc {
    pub address: u8,
    pub attributes: u8,
    pub max_packet_size: u16,
    pub interval: u8,
}

/// The transfer type of bulk endpoints.
pub const EP_BULK: u8 = 2;

impl EndpointDesc {
    pub open spec fn num(self) -> u8 {
        self.address % 16
    }

    pub open spec fn inward(self) -> bool {
        self.address >= 0x80
    }

    pub open spec fn kind(self) -> u8 {
        self.attributes % 4
    }

    /// The number of the endpoint.
    pub fn number(&self) -> (r: u8)
        ensures
            r == self.num(),
    {
        self.address % 16
    }

    /// Whether data goes from the device to the host.
    pub fn is_in(&self) -> (r: bool)
        ensures
            r == self.inward(),
    {
        self.address >= 0x80
    }

    /// The kind of transfers.
    pub fn transfer_type(&self) -> (r: u8)
        ensures
            r == self.kind(),
    {
        self.attributes % 4
    }
}

} // verus!
