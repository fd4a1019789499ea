//! The RTL8152/RTL8153 USB network adapter: its registers and its frames.

use vstd::prelude::*;

use crate::bytes;
use crate::usb::control;
use crate::usb::err::UsbError;
use crate::usb::setup::EndpointDesc;
use crate::usb::setup::SetupPacket;
use crate::usb::setup::EP_BULK;
use crate::usb::trb::Trb;
use crate::usb::trb::COMPLETION_SHORT_PACKET;
use crate::usb::trb::COMPLETION_STALL_ERROR;
use crate::usb::trb::COMPLETION_SUCCESS;

verus! {

pub const RTL8152_REQT_READ: u8 = 0xc0;

pub const RTL8152_REQT_WRITE: u8 = 0x40;

pub const RTL8152_REQ_REGS: u8 = 0x05;

pub const BYTE_EN_DWORD: u16 = 0xff;

/// The two kinds of registers.
pub const MCU_TYPE_USB: u16 = 0x0000;

pub const MCU_TYPE_PLA: u16 = 0x0100;

pub const RX_DESC_SIZE: u64 = 24;

pub const TX_DESC_SIZE: u64 = 8;

pub const CRC_SIZE: u64 = 4;

pub const RTL8152_AGG_BUF_SZ: u64 = 2048;

/// The longest frame that can be sent.
pub const TX_LEN_MAX: u64 = 0x3ffff;

/// The smallest payload that buffers are made for.
pub const MIN_PAYLOAD: u64 = 1536;

/// First and last segment of a frame.
pub const TX_WHOLE: u32 = 0xc000_0000;

/// The request that reads registers.
pub open spec fn read_request(mcu_type: u16, reg: u16, len: u16) -> SetupPacket {
    SetupPacket {
        request_type: RTL8152_REQT_READ,
        request: RTL8152_REQ_REGS,
        value: reg,
        index: mcu_type,
        length: len,
    }
}

/// The request that writes those bytes of a register that are enabled.
pub open spec fn write_request(mcu_type: u16, reg: u16, byte_en: u16) -> SetupPacket {
    SetupPacket {
        request_type: RTL8152_REQT_WRITE,
        request: RTL8152_REQ_REGS,
        value: reg,
        index: mcu_type | byte_en,
        length: 4,
    }
}

/// The register of four bytes that holds a smaller one.
pub open spec fn aligned(reg: u16) -> u16 {
    (reg - reg % 4) as u16
}

/// Where in it a register of two bytes is.
pub open spec fn word_lane(reg: u16) -> int {
    if reg % 4 >= 2 {
        2
    } else {
        0
    }
}

/// Where in it a register of one byte is.
pub open spec fn byte_lane(reg: u16) -> int {
    reg as int % 4
}

/// Which bytes of the register a write of two bytes enables.
pub open spec fn word_enable(reg: u16) -> u16 {
    if word_lane(reg) == 0 {
        0x33
    } else {
        0xcc
    }
}

/// Which bytes of the register a write of one byte enables.
pub open spec fn byte_enable(reg: u16) -> u16 {
    if byte_lane(reg) == 0 {
        0x11
    } else if byte_lane(reg) == 1 {
        0x22
    } else if byte_lane(reg) == 2 {
        0x44
    } else {
        0x88
    }
}

/// Whether a byte of the register is enabled.
pub open spec fn lane_enabled(byte_en: u16, lane: int) -> bool {
    if lane == 0 {
        byte_en % 2 == 1
    } else if lane == 1 {
        byte_en / 2 % 2 == 1
    } else if lane == 2 {
        byte_en / 4 % 2 == 1
    } else {
        byte_en / 8 % 2 == 1
    }
}

/// The bytes that a write of two bytes sends.
pub open spec fn word_data(reg: u16, value: u16) -> Seq<u8> {
    seq![0u8, 0u8, 0u8, 0u8].update(word_lane(reg), (value % 256) as u8).update(
        word_lane(reg) + 1,
        (value / 256) as u8,
    )
}

/// The bytes that a write of one byte sends.
pub open spec fn byte_data(reg: u16, value: u8) -> Seq<u8> {
    seq![0u8, 0u8, 0u8, 0u8].update(byte_lane(reg), value)
}

/// The two bytes of a register.
pub open spec fn word_in(reg: u16, data: Seq<u8>) -> u16 {
    (data[word_lane(reg)] + data[word_lane(reg) + 1] * 256) as u16
}

/// The byte of a register.
pub open spec fn byte_in(reg: u16, data: Seq<u8>) -> u8 {
    data[byte_lane(reg)]
}

/// A request that reads `len` bytes of registers.
pub fn read_reg_block(mcu_type: u16, reg: u16, len: u16) -> (r: SetupPacket)
    ensures
        r == read_request(mcu_type, reg, len),
{
    SetupPacket {
        request_type: RTL8152_REQT_READ,
        request: RTL8152_REQ_REGS,
        value: reg,
        index: mcu_type,
        length: len,
    }
}

/// A request that writes a register, or the bytes of it that are enabled.
pub fn write_reg_block(mcu_type: u16, reg: u16, byte_en: u16) -> (r: SetupPacket)
    ensures
        r == write_request(mcu_type, reg, byte_en),
{
    SetupPacket {
        request_type: RTL8152_REQT_WRITE,
        request: RTL8152_REQ_REGS,
        value: reg,
        index: mcu_type | byte_en,
        length: 4,
    }
}

/// The request and the data that write a register of four bytes.
pub fn write_dword(mcu_type: u16, reg: u16, value: u32) -> (r: (SetupPacket, Vec<u8>))
    ensures
        r.0 == write_request(mcu_type, reg, BYTE_EN_DWORD),
        r.1@ == bytes::le32_bytes(value as int),
{
    (write_reg_block(mcu_type, reg, BYTE_EN_DWORD), bytes::u32_le_bytes(value))
}

/// The request and the data that write a register of two bytes.
pub fn write_word(mcu_type: u16, reg: u16, value: u16) -> (r: (SetupPacket, Vec<u8>))
    ensures
        r.0 == write_request(mcu_type, aligned(reg), word_enable(reg)),
        r.1@ == word_data(reg, value),
{
    let low = (value % 256) as u8;
    let high = (value / 256) as u8;
    let data: Vec<u8> = if reg % 4 >= 2 {
        vec![0, 0, low, high]
    } else {
        vec![low, high, 0, 0]
    };
    assert(data@ =~= word_data(reg, value));
    let byte_en: u16 = if reg % 4 >= 2 {
        0xcc
    } else {
        0x33
    };
    (write_reg_block(mcu_type, reg - reg % 4, byte_en), data)
}

/// The request and the data that write a register of one byte.
pub fn write_byte(mcu_type: u16, reg: u16, value: u8) -> (r: (SetupPacket, Vec<u8>))
    ensures
        r.0 == write_request(mcu_type, aligned(reg), byte_enable(reg)),
        r.1@ == byte_data(reg, value),
{
    let lane: u16 = reg % 4;
    let mut data: Vec<u8> = vec![0, 0, 0, 0];
    data.set(lane as usize, value);
    assert(data@ =~= byte_data(reg, value));
    let byte_en: u16 = if lane == 0 {
        0x11
    } else if lane == 1 {
        0x22
    } else if lane == 2 {
        0x44
    } else {
        0x88
    };
    (write_reg_block(mcu_type, reg - lane, byte_en), data)
}

/// The request that reads the register of four bytes that holds a smaller one.
pub fn read_aligned(mcu_type: u16, reg: u16) -> (r: SetupPacket)
    ensures
        r == read_request(mcu_type, aligned(reg), 4),
{
    read_reg_block(mcu_type, reg - reg % 4, 4)
}

/// Picks two bytes out of the register that holds them.
pub fn read_word(reg: u16, data: &[u8]) -> (r: u16)
    requires
        data@.len() == 4,
    ensures
        r == word_in(reg, data@),
{
    if reg % 4 >= 2 {
        data[2] as u16 + data[3] as u16 * 256
    } else {
        data[0] as u16 + data[1] as u16 * 256
    }
}

/// Picks one byte out of the register that holds it.
pub fn read_byte(reg: u16, data: &[u8]) -> (r: u8)
    requires
        data@.len() == 4,
    ensures
        r == byte_in(reg, data@),
{
    data[(reg % 4) as usize]
}

/// A register after a write of its enabled bytes.
pub open spec fn merged(before: Seq<u8>, data: Seq<u8>, byte_en: u16) -> Seq<u8> {
    Seq::new(
        4,
        |i: int|
            if lane_enabled(byte_en, i) {
                data[i]
            } else {
                before[i]
            },
    )
}

/// A register of two bytes holds what was written to it, and its neighbours keep what they
/// held.
pub proof fn law_word_write_is_exact(reg: u16, value: u16, before: Seq<u8>)
    requires
        before.len() == 4,
    ensures
        ({
            let after = merged(before, word_data(reg, value), word_enable(reg));
            &&& word_in(reg, after) == value
            &&& forall|i: int|
                0 <= i < 4 && i != word_lane(reg) && i != word_lane(reg) + 1 ==> #[trigger] after[i]
                    == before[i]
        }),
{
    let after = merged(before, word_data(reg, value), word_enable(reg));
    assert(after[word_lane(reg)] == (value % 256) as u8);
    assert(after[word_lane(reg) + 1] == (value / 256) as u8);
}

/// A register of one byte holds what was written to it, and its neighbours keep what they
/// held.
pub proof fn law_byte_write_is_exact(reg: u16, value: u8, before: Seq<u8>)
    requires
        before.len() == 4,
    ensures
        ({
            let after = merged(before, byte_data(reg, value), byte_enable(reg));
            &&& byte_in(reg, after) == value
            &&& forall|i: int|
                0 <= i < 4 && i != byte_lane(reg) ==> #[trigger] after[i] == before[i]
        }),
{
}

/// The first bulk endpoint of a direction from `from` on, or the length.
pub open spec fn first_bulk(eps: Seq<EndpointDesc>, inward: bool, from: int) -> int
    decreases eps.len() - from,
{
    if from >= eps.len() || (eps[from].kind() == EP_BULK && eps[from].inward() == inward) {
        from
    } else {
        first_bulk(eps, inward, from + 1)
    }
}

fn find_bulk(eps: &[EndpointDesc], inward: bool) -> (r: Option<EndpointDesc>)
    ensures
        r == (if first_bulk(eps@, inward, 0) < eps@.len() {
            Some(eps@[first_bulk(eps@, inward, 0)])
        } else {
            None
        }),
{
    let mut i: usize = 0;
    while i < eps.len()
        invariant
            i <= eps.len(),
            first_bulk(eps@, inward, 0) == first_bulk(eps@, inward, i as int),
        decreases eps.len() - i,
    {
        let ep = eps[i];
        if ep.transfer_type() == EP_BULK && ep.is_in() == inward {
            return Some(ep);
        }
        i = i + 1;
    }
    None
}

/// Picks the adapter's endpoints: the first bulk endpoint in, and the first out.
pub fn bulk_endpoints(eps: &[EndpointDesc]) -> (r: Result<(EndpointDesc, EndpointDesc), UsbError>)
    ensures
        ({
            let i = first_bulk(eps@, true, 0);
            let o = first_bulk(eps@, false, 0);
            r == (if i < eps@.len() && o < eps@.len() {
                Ok((eps@[i], eps@[o]))
            } else {
                Err(UsbError::DeviceNotFound)
            })
        }),
{
    match (find_bulk(eps, true), find_bulk(eps, false)) {
        (Some(i), Some(o)) => Ok((i, o)),
        _ => Err(UsbError::DeviceNotFound),
    }
}

/// A frame as it goes to the adapter: its descriptor, and the frame.
pub open spec fn sent_frame(packet: Seq<u8>) -> Seq<u8> {
    bytes::le32_bytes(TX_WHOLE + packet.len()) + bytes::le32_bytes(0) + packet
}

/// Prepares a frame for the adapter, unless it is too long.
pub fn write_packet(packet: &[u8]) -> (r: Result<Vec<u8>, UsbError>)
    ensures
        match r {
            Ok(buf) => packet@.len() <= TX_LEN_MAX && buf@ == sent_frame(packet@) && buf@.len()
                == TX_DESC_SIZE + packet@.len(),
            Err(e) => packet@.len() > TX_LEN_MAX && e == UsbError::NotSupported,
        },
        r is Ok == (packet@.len() < 262_144),
{
    if packet.len() > TX_LEN_MAX as usize {
        return Err(UsbError::NotSupported);
    }
    let mut buf: Vec<u8> = Vec::new();
    bytes::push_le_u32(&mut buf, TX_WHOLE + packet.len() as u32);
    bytes::push_le_u32(&mut buf, 0);
    buf.extend_from_slice(packet);
    proof {
        bytes::lemma_le_lengths();
    }
    assert(buf@ =~= sent_frame(packet@));
    Ok(buf)
}

/// How many bytes of a frame were sent, given how many bytes were transferred.
pub fn sent_len(transferred: u64) -> (r: u64)
    ensures
        r == control::less_residual(transferred as int, TX_DESC_SIZE as int),
{
    if transferred < TX_DESC_SIZE {
        0
    } else {
        transferred - TX_DESC_SIZE
    }
}

/// How many bytes of a received frame are payload.
pub open spec fn payload_len(buf: Seq<u8>, transferred: int, room: int) -> int {
    let frame = bytes::le32(buf, 0) % 0x8000;
    let without_crc = control::less_residual(frame, CRC_SIZE as int);
    let there = transferred - RX_DESC_SIZE;
    let n = if without_crc < there {
        without_crc
    } else {
        there
    };
    if n < room {
        n
    } else {
        room
    }
}

/// Takes the payload out of a transfer, at most `room` bytes; a transfer without a whole
/// descriptor is an error.
pub fn copy_received_packet(buf: &[u8], transferred: u64, room: u64) -> (r: Result<
    Vec<u8>,
    UsbError,
>)
    requires
        transferred <= buf@.len(),
    ensures
        match r {
            Ok(payload) => transferred >= RX_DESC_SIZE && payload@ == buf@.subrange(
                RX_DESC_SIZE as int,
                RX_DESC_SIZE + payload_len(buf@, transferred as int, room as int),
            ),
            Err(e) => transferred < RX_DESC_SIZE && e == UsbError::InvalidDescriptor,
        },
{
    if transferred < RX_DESC_SIZE {
        return Err(UsbError::InvalidDescriptor);
    }
    let frame: u64 = (bytes::le_u32(buf, 0) % 0x8000) as u64;
    let without_crc: u64 = if frame < CRC_SIZE {
        0
    } else {
        frame - CRC_SIZE
    };
    let there: u64 = transferred - RX_DESC_SIZE;
    let n: u64 = if without_crc < there {
        without_crc
    } else {
        there
    };
    let len: u64 = if n < room {
        n
    } else {
        room
    };
    let payload = vstd::slice::slice_subrange(buf, 24, 24 + len as usize);
    Ok(bytes::to_vec(payload))
}

/// What the end of a receiving transfer means.
#[derive(Clone, Copy)]
pub enum RxOutcome {
    /// As many bytes were transferred.
    Received(u64),
    Failed(UsbError),
}

/// What the end of a receiving transfer means.
pub open spec fn rx_outcome_of(event: Trb, requested: u64) -> RxOutcome {
    if event.code() == COMPLETION_SUCCESS || event.code() == COMPLETION_SHORT_PACKET {
        RxOutcome::Received(
            control::less_residual(requested as int, event.residual()) as u64,
        )
    } else if event.code() == COMPLETION_STALL_ERROR {
        RxOutcome::Failed(UsbError::Stall)
    } else {
        RxOutcome::Failed(UsbError::XferFail(event.code() as u8))
    }
}

/// Looks at the end of a receiving transfer.
pub fn poll_rx_packet(event: &Trb, requested: u64) -> (r: RxOutcome)
    ensures
        r == rx_outcome_of(*event, requested),
{
    let code: u8 = event.completion_code();
    if code == COMPLETION_SUCCESS || code == COMPLETION_SHORT_PACKET {
        let residual: u64 = event.transfer_length() as u64;
        RxOutcome::Received(
            if requested < residual {
                0
            } else {
                requested - residual
            },
        )
    } else if code == COMPLETION_STALL_ERROR {
        RxOutcome::Failed(UsbError::Stall)
    } else {
        RxOutcome::Failed(UsbError::XferFail(code))
    }
}

/// How many bytes a buffer for payloads of a length should have.
pub fn rx_buffer_len(payload_len: u64) -> (r: u64)
    requires
        payload_len + RX_DESC_SIZE + CRC_SIZE <= u64::MAX,
    ensures
        r == (if payload_len <= RTL8152_AGG_BUF_SZ - RX_DESC_SIZE - CRC_SIZE {
            RTL8152_AGG_BUF_SZ as int
        } else {
            payload_len + RX_DESC_SIZE + CRC_SIZE
        }),
        payload_len <= 2020 ==> r == 2048,
        payload_len > 2020 ==> r == payload_len + 28,
{
    let payload: u64 = if payload_len < MIN_PAYLOAD {
        MIN_PAYLOAD
    } else {
        payload_len
    };
    let len: u64 = payload + RX_DESC_SIZE + CRC_SIZE;
    if len < RTL8152_AGG_BUF_SZ {
        RTL8152_AGG_BUF_SZ
    } else {
        len
    }
}

/// How many bytes are asked for to receive one frame into `room` bytes.
pub fn read_packet_len(room: u64) -> (r: u64)
    requires
        room + RX_DESC_SIZE <= u64::MAX,
    ensures
        r == (if room < MIN_PAYLOAD {
            MIN_PAYLOAD + RX_DESC_SIZE
        } else {
            room + RX_DESC_SIZE
        }),
        room < 1536 ==> r == 1560,
        room >= 1536 ==> r == room + 24,
{
    if room < MIN_PAYLOAD {
        MIN_PAYLOAD + RX_DESC_SIZE
    } else {
        room + RX_DESC_SIZE
    }
}

/// A frame that the adapter hands over, with a descriptor that tells its length with the
/// checksum, gives its payload back.
pub proof fn law_received_payload_is_whole(desc: Seq<u8>, payload: Seq<u8>, rest: Seq<u8>, room: int)
    requires
        desc.len() == RX_DESC_SIZE,
        bytes::le32(desc, 0) % 0x8000 == payload.len() + CRC_SIZE,
        payload.len() <= room,
    ensures
        ({
            let buf = desc + payload + rest;
            let n = payload_len(buf, buf.len() as int, room);
            n == payload.len() && buf.subrange(
                RX_DESC_SIZE as int,
                RX_DESC_SIZE + n,
            ) == payload
        }),
{
    let buf = desc + payload + rest;
    assert(buf[0] == desc[0] && buf[1] == desc[1] && buf[2] == desc[2] && buf[3] == desc[3]);
    assert(bytes::le32(buf, 0) == bytes::le32(desc, 0));
    assert(buf.subrange(24, 24int + payload.len()) =~= payload);
}

/// A buffer of the advised length takes every payload of that length, with its descriptor
/// and checksum, and is never smaller than what the adapter gathers.
pub proof fn law_advised_buffer_is_enough(payload: int)
    requires
        0 <= payload,
    ensures
        ({
            let r = if payload <= RTL8152_AGG_BUF_SZ - RX_DESC_SIZE - CRC_SIZE {
                RTL8152_AGG_BUF_SZ as int
            } else {
                payload + RX_DESC_SIZE + CRC_SIZE
            };
            r >= payload + RX_DESC_SIZE + CRC_SIZE && r >= RTL8152_AGG_BUF_SZ
        }),
{
}

} // verus!
