//! Sockets for whole packets.

use vstd::prelude::*;

use crate::net::ipv4;
use crate::net::ipv4::Checksum;
use crate::net::socket;
use crate::net::socket::IpAddress;
use crate::net::socket::PollOutcome;
use crate::net::socket::Settings;
use crate::net::socket::SocketError;

verus! {

/// How many bytes more than a payload are received: a header with all its options.
pub const HEADER_ROOM: usize = 60;

/// A socket for packets of a protocol.
#[derive(Clone, Copy, Debug, PartialEq, Eq, Structural)]
pub struct Socket {
    pub handle: u64,
    pub protocol: u8,
    pub settings: Settings,
}

/// The bytes of an address, first to last.
pub open spec fn octets_of(a: u32) -> Seq<u8> {
    seq![
        (a / 0x100_0000) as u8,
        (a / 0x1_0000 % 256) as u8,
        (a / 256 % 256) as u8,
        (a % 256) as u8,
    ]
}

/// The address that four bytes are.
pub open spec fn address_of(s: Seq<u8>) -> u32 {
    (s[0] * 0x100_0000 + s[1] * 0x1_0000 + s[2] * 256 + s[3]) as u32
}

fn octets(a: u32) -> (r: [u8; 4])
    ensures
        r@ == octets_of(a),
{
    let r = [
        (a / 0x100_0000) as u8,
        (a / 0x1_0000 % 256) as u8,
        (a / 256 % 256) as u8,
        (a % 256) as u8,
    ];
    assert(r@ =~= octets_of(a));
    r
}

fn address(s: [u8; 4]) -> (r: u32)
    ensures
        r == address_of(s@),
{
    s[0] as u32 * 0x100_0000 + s[1] as u32 * 0x1_0000 + s[2] as u32 * 256 + s[3] as u32
}

/// An address is its bytes.
pub proof fn law_address_is_its_octets(a: u32)
    ensures
        address_of(octets_of(a)) == a,
{
}

impl Socket {
    /// A socket for packets of a protocol.
    pub fn new(handle: u64, protocol: u8) -> (r: Socket)
        ensures
            r == (Socket { handle, protocol, settings: Settings::initial() }),
    {
        Socket { handle, protocol, settings: Settings::new() }
    }

    /// Polls the socket.
    pub fn poll(&self, can_send: bool, can_recv: bool, event: u16) -> (r: PollOutcome)
        ensures
            r == socket::outcome_of(event, event & socket::ready_for(can_send, can_recv)),
    {
        socket::poll_events(true, can_send, can_recv, event)
    }

    /// The packet to send over a card with such an address and such checksums; an error where
    /// the destination's version is not four. A sender without an address sends from none.
    pub fn sendto(&self, src: Option<u32>, checksum: Checksum, dst: IpAddress, buf: &[u8]) -> (r:
        Result<Vec<u8>, SocketError>)
        requires
            buf.len() <= ipv4::MAX_PAYLOAD,
        ensures
            match dst {
                IpAddress::V4(d) => r matches Ok(p) && p@ == ipv4::packet_of(
                    octets_of(
                        match src {
                            Some(s) => s,
                            None => 0,
                        },
                    ),
                    octets_of(d),
                    self.protocol,
                    checksum,
                    buf@,
                ),
                IpAddress::V6(_) => r == Err::<Vec<u8>, SocketError>(SocketError::Inval),
            },
    {
        let src: u32 = match src {
            Some(s) => s,
            None => 0,
        };
        match dst {
            IpAddress::V4(d) => Ok(
                ipv4::make_packet(octets(src), octets(d), self.protocol, checksum, buf),
            ),
            IpAddress::V6(_) => Err(SocketError::Inval),
        }
    }

    /// The payload of what was received, as far as there is room, and who sent it; nothing
    /// where it is no packet.
    pub fn recvfrom(&self, received: &[u8], room: usize) -> (r: Option<(Vec<u8>, u32)>)
        ensures
            match r {
                Some(t) => ipv4::is_packet(received@) && t.0@ == ipv4::payload_of(
                    received@,
                    room as int,
                ) && t.1 == address_of(received@.subrange(12, 16)),
                None => !ipv4::is_packet(received@),
            },
    {
        match ipv4::take_payload(received, room) {
            Some((payload, src)) => Some((payload, address(src))),
            None => None,
        }
    }

    /// A socket for whole packets is never connected, so nothing can be written to it.
    pub fn write(&self, buf: &[u8]) -> (r: Result<usize, SocketError>)
        ensures
            r == Err::<usize, SocketError>(SocketError::Inval),
    {
        Err(SocketError::Inval)
    }
}

} // verus!
