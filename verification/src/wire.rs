//! Headers as the engine sees them, and as they stand on the wire.
//!
//! The engine works on plain records of the header fields it reads and sets.
//! This module holds those records and says, byte by byte, which frames hold
//! which fields. The bytes themselves are picked apart and laid out by the
//! codec, in [`crate::codec`].

use vstd::prelude::*;
use vstd::slice::slice_subrange;
use crate::codec::{parse_ipv4_header, parse_tcp_header};

verus! {

/// The IP protocol number of TCP.
pub const IP_PROTOCOL_TCP: u8 = 6;

/// What the engine reads from an inbound IPv4 header. An address is the
/// number that its four octets spell, first octet most significant.
#[derive(Clone, Copy, Debug, PartialEq, Eq, Structural)]
pub struct Ipv4Info {
    pub source: u32,
    pub destination: u32,
    pub protocol: u8,
}

/// The fields of a TCP header that the engine reads on the way in and sets
/// on the way out.
#[derive(Clone, Copy, Debug, PartialEq, Eq, Structural)]
pub struct TcpInfo {
    pub source_port: u16,
    pub destination_port: u16,
    pub sequence_number: u32,
    pub acknowledgment_number: u32,
    pub window_size: u16,
    pub syn: bool,
    pub ack: bool,
}

/// The IPv4 header fields that every outbound datagram of one connection
/// shares.
#[derive(Clone, Copy, Debug, PartialEq, Eq, Structural)]
pub struct ReplyTemplate {
    pub source: u32,
    pub destination: u32,
    pub protocol: u8,
    pub ttl: u8,
}

/// A TCP segment found in a frame: its two headers, and where in the frame
/// its payload starts.
#[derive(Clone, Copy, Debug, PartialEq, Eq, Structural)]
pub struct Segment {
    pub ip: Ipv4Info,
    pub tcp: TcpInfo,
    pub payload_offset: usize,
}

/// Why a frame holds no TCP segment.
#[derive(Clone, Copy, Debug, PartialEq, Eq, Structural)]
pub enum Rejection {
    /// The frame is too short for an IPv4 header, or its header is at odds
    /// with itself.
    BadIpHeader,
    /// The frame is a datagram of another IP version.
    NotIpv4,
    /// The datagram carries another protocol than TCP.
    NotTcp,
    /// What follows the IPv4 header is not a well-formed TCP header.
    BadTcpHeader,
}

/// The big-endian number in the two bytes at `at`.
pub open spec fn be16(bytes: Seq<u8>, at: int) -> int {
    bytes[at] * 0x100 + bytes[at + 1]
}

/// The big-endian number in the four bytes at `at`.
pub open spec fn be32(bytes: Seq<u8>, at: int) -> int {
    bytes[at] * 0x100_0000 + bytes[at + 1] * 0x1_0000 + bytes[at + 2] * 0x100 + bytes[at + 3]
}

/// The IPv4 header at the start of `bytes`, with its length in bytes.
///
/// The fixed twenty bytes have to be there, and the version has to be 4.
/// Then the header length field has to count at least five words, all of
/// those words have to be there, and the total length field must not be
/// smaller than the header.
pub open spec fn ipv4_header_of(bytes: Seq<u8>) -> Result<(Ipv4Info, usize), Rejection> {
    let version = bytes[0] / 16;
    let words = bytes[0] % 16;
    if bytes.len() < 20 {
        Err(Rejection::BadIpHeader)
    } else if version != 4 {
        Err(Rejection::NotIpv4)
    } else if words < 5 || bytes.len() < words * 4 || be16(bytes, 2) < words * 4 {
        Err(Rejection::BadIpHeader)
    } else {
        Ok(
            (
                Ipv4Info {
                    source: be32(bytes, 12) as u32,
                    destination: be32(bytes, 16) as u32,
                    protocol: bytes[9],
                },
                (words * 4) as usize,
            ),
        )
    }
}

/// The TCP header at the start of `bytes`, with its length in bytes.
///
/// There is one if the fixed twenty bytes are there, the data offset counts
/// at least five words, and all of those words are there.
pub open spec fn tcp_header_of(bytes: Seq<u8>) -> Option<(TcpInfo, usize)> {
    let words = bytes[12] / 16;
    if bytes.len() >= 20 && words >= 5 && bytes.len() >= words * 4 {
        Some(
            (
                TcpInfo {
                    source_port: be16(bytes, 0) as u16,
                    destination_port: be16(bytes, 2) as u16,
                    sequence_number: be32(bytes, 4) as u32,
                    acknowledgment_number: be32(bytes, 8) as u32,
                    window_size: be16(bytes, 14) as u16,
                    syn: (bytes[13] / 2) % 2 == 1,
                    ack: (bytes[13] / 16) % 2 == 1,
                },
                (words * 4) as usize,
            ),
        )
    } else {
        None
    }
}

/// The TCP segment that a frame holds, or why it holds none.
pub open spec fn decoded(frame: Seq<u8>) -> Result<Segment, Rejection> {
    match ipv4_header_of(frame) {
        Err(why) => Err(why),
        Ok((ip, ip_len)) => if ip.protocol != IP_PROTOCOL_TCP {
            Err(Rejection::NotTcp)
        } else {
            match tcp_header_of(frame.skip(ip_len as int)) {
                None => Err(Rejection::BadTcpHeader),
                Some((tcp, tcp_len)) => Ok(
                    Segment { ip, tcp, payload_offset: (ip_len + tcp_len) as usize },
                ),
            }
        },
    }
}

/// The two bytes that spell `value`, most significant first.
pub open spec fn be16_bytes(value: u16) -> Seq<u8> {
    seq![(value / 0x100) as u8, (value % 0x100) as u8]
}

/// The four bytes that spell `value`, most significant first.
pub open spec fn be32_bytes(value: u32) -> Seq<u8> {
    seq![
        (value / 0x100_0000) as u8,
        ((value / 0x1_0000) % 0x100) as u8,
        ((value / 0x100) % 0x100) as u8,
        (value % 0x100) as u8,
    ]
}

/// The longest payload that fits behind a twenty-byte header when the whole
/// has to be counted in sixteen bits.
pub const MAX_PAYLOAD: usize = 65515;

/// The twenty bytes of an IPv4 header without options: version 4 and five
/// words, no service bits, the total length, identification zero, the flag
/// "don't fragment" and no fragment offset, then time to live, protocol,
/// header checksum and the two addresses.
pub open spec fn ipv4_header_layout(template: ReplyTemplate, payload_len: u16, checksum: u16) -> Seq<
    u8,
> {
    seq![0x45u8, 0x00u8] + be16_bytes((20 + payload_len) as u16) + seq![
        0x00u8,
        0x00u8,
        0x40u8,
        0x00u8,
        template.ttl,
        template.protocol,
    ] + be16_bytes(checksum) + be32_bytes(template.source) + be32_bytes(template.destination)
}

/// The byte of a TCP header that holds SYN, in bit 1, and ACK, in bit 4.
pub open spec fn tcp_flags(header: TcpInfo) -> u8 {
    ((if header.syn {
        2int
    } else {
        0int
    }) + (if header.ack {
        16int
    } else {
        0int
    })) as u8
}

/// The twenty bytes of a TCP header without options: the two ports, the two
/// numbers, a data offset of five words, the flags, the window, the checksum,
/// and an urgent pointer of zero.
pub open spec fn tcp_header_layout(header: TcpInfo, checksum: u16) -> Seq<u8> {
    be16_bytes(header.source_port) + be16_bytes(header.destination_port) + be32_bytes(
        header.sequence_number,
    ) + be32_bytes(header.acknowledgment_number) + seq![0x50u8, tcp_flags(header)] + be16_bytes(
        header.window_size,
    ) + be16_bytes(checksum) + seq![0x00u8, 0x00u8]
}

/// A number is read back from the two bytes that spell it.
pub proof fn lemma_be16_round_trip(value: u16)
    ensures
        be16_bytes(value).len() == 2,
        be16(be16_bytes(value), 0) == value,
{
}

/// A number is read back from the four bytes that spell it.
pub proof fn lemma_be32_round_trip(value: u32)
    ensures
        be32_bytes(value).len() == 4,
        be32(be32_bytes(value), 0) == value,
{
}

/// An IPv4 header as it is laid out reads back as what went into it.
pub proof fn lemma_ipv4_layout_reads_back(
    template: ReplyTemplate,
    payload_len: u16,
    checksum: u16,
    rest: Seq<u8>,
)
    requires
        payload_len <= MAX_PAYLOAD,
    ensures
        ipv4_header_layout(template, payload_len, checksum).len() == 20,
        ipv4_header_of(ipv4_header_layout(template, payload_len, checksum) + rest) == Ok::<
            (Ipv4Info, usize),
            Rejection,
        >(
            (
                Ipv4Info {
                    source: template.source,
                    destination: template.destination,
                    protocol: template.protocol,
                },
                20usize,
            ),
        ),
{
    let header = ipv4_header_layout(template, payload_len, checksum);
    let total = (20 + payload_len) as u16;
    let bytes = header + rest;
    lemma_be16_round_trip(total);
    lemma_be32_round_trip(template.source);
    lemma_be32_round_trip(template.destination);
    assert(header.len() == 20);
    assert(bytes[0] == 0x45u8);
    assert(bytes[2] == be16_bytes(total)[0] && bytes[3] == be16_bytes(total)[1]);
    assert(bytes[9] == template.protocol);
    assert(bytes[12] == be32_bytes(template.source)[0] && bytes[13] == be32_bytes(
        template.source,
    )[1] && bytes[14] == be32_bytes(template.source)[2] && bytes[15] == be32_bytes(
        template.source,
    )[3]);
    assert(bytes[16] == be32_bytes(template.destination)[0] && bytes[17] == be32_bytes(
        template.destination,
    )[1] && bytes[18] == be32_bytes(template.destination)[2] && bytes[19] == be32_bytes(
        template.destination,
    )[3]);
    assert(be16(bytes, 2) == total);
    assert(be32(bytes, 12) == template.source);
    assert(be32(bytes, 16) == template.destination);
}

/// A TCP header as it is laid out reads back as what went into it.
pub proof fn lemma_tcp_layout_reads_back(header: TcpInfo, checksum: u16, rest: Seq<u8>)
    ensures
        tcp_header_layout(header, checksum).len() == 20,
        tcp_header_of(tcp_header_layout(header, checksum) + rest) == Some((header, 20usize)),
{
    let layout = tcp_header_layout(header, checksum);
    let bytes = layout + rest;
    lemma_be16_round_trip(header.source_port);
    lemma_be16_round_trip(header.destination_port);
    lemma_be32_round_trip(header.sequence_number);
    lemma_be32_round_trip(header.acknowledgment_number);
    lemma_be16_round_trip(header.window_size);
    assert(layout.len() == 20);
    assert(bytes[0] == be16_bytes(header.source_port)[0] && bytes[1] == be16_bytes(
        header.source_port,
    )[1]);
    assert(bytes[2] == be16_bytes(header.destination_port)[0] && bytes[3] == be16_bytes(
        header.destination_port,
    )[1]);
    assert(bytes[4] == be32_bytes(header.sequence_number)[0] && bytes[5] == be32_bytes(
        header.sequence_number,
    )[1] && bytes[6] == be32_bytes(header.sequence_number)[2] && bytes[7] == be32_bytes(
        header.sequence_number,
    )[3]);
    assert(bytes[8] == be32_bytes(header.acknowledgment_number)[0] && bytes[9] == be32_bytes(
        header.acknowledgment_number,
    )[1] && bytes[10] == be32_bytes(header.acknowledgment_number)[2] && bytes[11] == be32_bytes(
        header.acknowledgment_number,
    )[3]);
    assert(bytes[12] == 0x50u8);
    assert(bytes[13] == tcp_flags(header));
    assert(bytes[14] == be16_bytes(header.window_size)[0] && bytes[15] == be16_bytes(
        header.window_size,
    )[1]);
    assert(be16(bytes, 0) == header.source_port);
    assert(be16(bytes, 2) == header.destination_port);
    assert(be32(bytes, 4) == header.sequence_number);
    assert(be32(bytes, 8) == header.acknowledgment_number);
    assert(be16(bytes, 14) == header.window_size);
}

/// A frame too short for the two fixed headers holds no TCP segment, whatever
/// its bytes are.
pub proof fn lemma_truncated_frame_rejected(frame: Seq<u8>)
    requires
        frame.len() < 40,
    ensures
        decoded(frame) is Err,
        frame.len() < 20 ==> decoded(frame) == Err::<Segment, Rejection>(Rejection::BadIpHeader),
{
}

/// Finds the TCP segment in a raw IPv4 datagram.
///
/// A frame is turned down, never faulted on: one that is cut short or
/// corrupt comes back as a [`Rejection`].
pub fn decode(frame: &[u8]) -> (found: Result<Segment, Rejection>)
    ensures
        found == decoded(frame@),
        found matches Ok(segment) ==> 40 <= segment.payload_offset <= frame@.len(),
{
    match parse_ipv4_header(frame) {
        Err(why) => Err(why),
        Ok((ip, ip_len)) => {
            if ip.protocol != IP_PROTOCOL_TCP {
                return Err(Rejection::NotTcp);
            }
            let rest = slice_subrange(frame, ip_len, frame.len());
            assert(rest@ == frame@.skip(ip_len as int));
            match parse_tcp_header(rest) {
                None => Err(Rejection::BadTcpHeader),
                Some((tcp, tcp_len)) => Ok(Segment { ip, tcp, payload_offset: ip_len + tcp_len }),
            }
        },
    }
}

} // verus!
