//! IPv4 packets.

use vstd::prelude::*;

use crate::bytes;

verus! {

/// How many bytes a header without options has.
pub const HEADER_LEN: usize = 20;

/// The longest payload of a packet.
pub const MAX_PAYLOAD: usize = 65515;

/// A sum of words with its carries added to it.
pub open spec fn folded(sum: int) -> int {
    sum / 0x1_0000 + sum % 0x1_0000
}

/// The checksum of words with a sum: the complement of the sum with its carries.
pub open spec fn checksum_of(sum: int) -> int {
    0xffff - folded(folded(sum))
}

/// The word that two bytes are.
pub open spec fn word(high: u8, low: u8) -> int {
    high * 256 + low
}

/// Which checksums are left to software, and which to the card.
#[derive(Clone, Copy, Debug, PartialEq, Eq, Structural)]
pub enum Checksum {
    /// Software checks what is received and fills in what is sent.
    Both,
    /// Software checks what is received.
    Rx,
    /// Software fills in what is sent.
    Tx,
    /// The card does both.
    Neither,
}

impl Checksum {
    /// Whether software fills in what is sent.
    pub open spec fn fills(self) -> bool {
        self == Checksum::Both || self == Checksum::Tx
    }

    /// Whether software fills in what is sent.
    pub fn tx(&self) -> (r: bool)
        ensures
            r == self.fills(),
    {
        match self {
            Checksum::Both => true,
            Checksum::Rx => false,
            Checksum::Tx => true,
            Checksum::Neither => false,
        }
    }
}

/// The header of a packet: no options, no fragments. The checksum is zero where it is not
/// filled in.
pub open spec fn header_of(
    src: Seq<u8>,
    dst: Seq<u8>,
    protocol: u8,
    hop_limit: u8,
    payload_len: int,
    fill: bool,
) -> Seq<u8> {
    let total = payload_len + HEADER_LEN;
    let sum = 0x4500 + total + 0x4000 + word(hop_limit, protocol) + word(src[0], src[1]) + word(
        src[2],
        src[3],
    ) + word(dst[0], dst[1]) + word(dst[2], dst[3]);
    let c = if fill {
        checksum_of(sum)
    } else {
        0
    };
    seq![
        0x45u8, 0, (total / 256) as u8, (total % 256) as u8, 0, 0, 0x40, 0,
        hop_limit, protocol, (c / 256) as u8, (c % 256) as u8,
        src[0], src[1], src[2], src[3], dst[0], dst[1], dst[2], dst[3],
    ]
}

/// Makes a header: `smoltcp::wire::Ipv4Repr::emit`, into a buffer of the length that
/// `buffer_len` gives. It writes version, lengths, the flag against fragments, hop limit,
/// protocol, addresses, and the checksum where the capabilities say so, and zeros elsewhere. A
/// payload whose length does not fit with the header's makes it overflow.
#[verifier::external_body]
fn emit_header(
    src: [u8; 4],
    dst: [u8; 4],
    protocol: u8,
    hop_limit: u8,
    payload_len: usize,
    fill: bool,
) -> (r: Vec<u8>)
    requires
        payload_len <= MAX_PAYLOAD,
    ensures
        r@ == header_of(src@, dst@, protocol, hop_limit, payload_len as int, fill),
{
    let repr = smoltcp::wire::Ipv4Repr {
        src_addr: smoltcp::wire::Ipv4Address::from(src),
        dst_addr: smoltcp::wire::Ipv4Address::from(dst),
        next_header: smoltcp::wire::IpProtocol::from(protocol),
        payload_len,
        hop_limit,
    };
    let mut caps = smoltcp::phy::ChecksumCapabilities::default();
    caps.ipv4 = if fill { smoltcp::phy::Checksum::Tx } else { smoltcp::phy::Checksum::None };
    let mut buf = vec![0u8; repr.buffer_len()];
    let mut packet = smoltcp::wire::Ipv4Packet::new_unchecked(&mut buf);
    repr.emit(&mut packet, &caps);
    buf
}

/// How many bytes a packet's header has.
pub open spec fn header_len(p: Seq<u8>) -> int {
    p[0] as int % 16 * 4
}

/// How many bytes a packet has, by its own account.
pub open spec fn total_len(p: Seq<u8>) -> int {
    word(p[2], p[3])
}

/// Whether bytes hold a packet: a whole header, no longer than the packet, and the packet no
/// longer than the bytes.
pub open spec fn is_packet(p: Seq<u8>) -> bool {
    p.len() >= HEADER_LEN && header_len(p) <= p.len() && header_len(p) <= total_len(p)
        && total_len(p) <= p.len()
}

/// Looks at a packet: `smoltcp::wire::Ipv4Packet::new_checked`, and the packet's
/// `header_len` and `src_addr`. Neither version nor checksum is looked at.
#[verifier::external_body]
fn check_packet(p: &[u8]) -> (r: Option<(u8, [u8; 4])>)
    ensures
        r is Some == is_packet(p@),
        r matches Some(h) ==> h.0 == header_len(p@) && h.1@ == p@.subrange(12, 16),
{
    match smoltcp::wire::Ipv4Packet::new_checked(p) {
        Ok(packet) => Some((packet.header_len(), packet.src_addr().octets())),
        Err(_) => None,
    }
}

/// How far a packet may travel.
pub const HOP_LIMIT: u8 = 64;

/// A packet with a payload, for a card with such checksums.
pub open spec fn packet_of(
    src: Seq<u8>,
    dst: Seq<u8>,
    protocol: u8,
    checksum: Checksum,
    payload: Seq<u8>,
) -> Seq<u8> {
    header_of(src, dst, protocol, HOP_LIMIT, payload.len() as int, checksum.fills()) + payload
}

/// Makes a packet with a payload, for a card with such checksums.
pub fn make_packet(
    src: [u8; 4],
    dst: [u8; 4],
    protocol: u8,
    checksum: Checksum,
    payload: &[u8],
) -> (r: Vec<u8>)
    requires
        payload.len() <= MAX_PAYLOAD,
    ensures
        r@ == packet_of(src@, dst@, protocol, checksum, payload@),
{
    let mut packet = emit_header(src, dst, protocol, HOP_LIMIT, payload.len(), checksum.tx());
    packet.extend_from_slice(payload);
    assert(packet@ =~= packet_of(src@, dst@, protocol, checksum, payload@));
    packet
}

/// What follows a packet's header, cut to the room there is.
pub open spec fn payload_of(p: Seq<u8>, room: int) -> Seq<u8> {
    let all = p.skip(header_len(p));
    if all.len() < room {
        all
    } else {
        all.take(room)
    }
}

/// Takes the payload out of a packet, as far as there is room, and who sent it.
pub fn take_payload(p: &[u8], room: usize) -> (r: Option<(Vec<u8>, [u8; 4])>)
    ensures
        match r {
            Some(t) => is_packet(p@) && t.0@ == payload_of(p@, room as int) && t.1@
                == p@.subrange(12, 16),
            None => !is_packet(p@),
        },
{
    match check_packet(p) {
        Some((header, src)) => {
            let header: usize = header as usize;
            let len: usize = p.len() - header;
            let n: usize = if len < room {
                len
            } else {
                room
            };
            let payload = vstd::slice::slice_subrange(p, header, header + n);
            assert(payload@ =~= payload_of(p@, room as int));
            Some((bytes::to_vec(payload), src))
        },
        None => None,
    }
}

/// A packet that is received gives back the payload that was sent, and the address of the
/// sender.
pub proof fn law_received_payload_was_sent(
    src: Seq<u8>,
    dst: Seq<u8>,
    protocol: u8,
    checksum: Checksum,
    payload: Seq<u8>,
    room: int,
)
    requires
        src.len() == 4,
        dst.len() == 4,
        payload.len() <= MAX_PAYLOAD,
        payload.len() <= room,
    ensures
        is_packet(packet_of(src, dst, protocol, checksum, payload)),
        payload_of(packet_of(src, dst, protocol, checksum, payload), room) == payload,
        packet_of(src, dst, protocol, checksum, payload).subrange(12, 16) == src,
{
    let p = packet_of(src, dst, protocol, checksum, payload);
    let total = payload.len() + HEADER_LEN;
    assert(p.len() == total);
    assert(p[0] == 0x45);
    assert(p[2] == (total / 256) as u8 && p[3] == (total % 256) as u8);
    assert(total_len(p) == total);
    assert(p.skip(20) =~= payload);
    assert(payload_of(p, room) =~= payload);
    assert(p.subrange(12, 16) =~= src);
}

/// A header's words, with the checksum, add up to all ones: the receiver can tell that no
/// word was damaged.
pub proof fn law_checksum_completes_sum(sum: int)
    requires
        0 <= sum <= 10 * 0xffff,
    ensures
        0 <= checksum_of(sum) <= 0xffff,
        folded(folded(sum + checksum_of(sum))) == 0xffff,
{
}

} // verus!
