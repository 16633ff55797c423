//! The header codec: every use that the engine makes of `etherparse`.
//!
//! The engine neither picks header bytes apart nor lays them out nor sums
//! them up itself. Nothing in this module is proved. Each function here hands
//! one piece of work to the codec, and its contract is what the rest of the
//! engine takes on trust about that work.

use vstd::prelude::*;
use crate::wire::{
    ipv4_header_layout, ipv4_header_of, tcp_header_layout, tcp_header_of, Ipv4Info, Rejection,
    ReplyTemplate, TcpInfo, MAX_PAYLOAD,
};

verus! {

/// The header checksum that the codec computes for the IPv4 header built from
/// `template` for a payload of `payload_len` bytes; `None` where it writes no
/// header.
pub uninterp spec fn ipv4_header_checksum(template: ReplyTemplate, payload_len: u16) -> Option<u16>;

/// The checksum that the codec computes for a TCP segment: over the two
/// addresses, the protocol and the segment's length, the header `header`
/// without options, and `payload`.
pub uninterp spec fn tcp_checksum(
    source: u32,
    destination: u32,
    header: TcpInfo,
    payload: Seq<u8>,
) -> u16;

/// Whether the codec writes the TCP header built from `header` and `checksum`.
pub uninterp spec fn tcp_header_written(header: TcpInfo, checksum: u16) -> bool;

/// Trusted: `etherparse::Ipv4HeaderSlice::from_slice`, with the getters
/// `source`, `destination`, `protocol` and `slice`.
///
/// Claimed: the call succeeds exactly on the inputs that [`ipv4_header_of`]
/// describes, and fails over the version exactly where twenty bytes are there
/// and the version is not 4; the addresses are bytes 12 to 15 and 16 to 19,
/// the protocol is byte 9, and the header slice is as long as the header
/// length field says.
#[verifier::external_body]
pub(crate) fn parse_ipv4_header(bytes: &[u8]) -> (parsed: Result<(Ipv4Info, usize), Rejection>)
    ensures
        parsed == ipv4_header_of(bytes@),
{
    match etherparse::Ipv4HeaderSlice::from_slice(bytes) {
        Ok(h) => {
            let (s, d) = (h.source(), h.destination());
            let source = u32::from_be_bytes([s[0], s[1], s[2], s[3]]);
            let destination = u32::from_be_bytes([d[0], d[1], d[2], d[3]]);
            Ok((Ipv4Info { source, destination, protocol: h.protocol() }, h.slice().len()))
        },
        Err(etherparse::ReadError::Ipv4UnexpectedVersion(_)) => Err(Rejection::NotIpv4),
        Err(_) => Err(Rejection::BadIpHeader),
    }
}

/// Trusted: `etherparse::TcpHeaderSlice::from_slice`, with the getters for
/// the ports, the two numbers, the window, the SYN and ACK flags, and `slice`.
///
/// Claimed: the call succeeds exactly on the inputs that [`tcp_header_of`]
/// describes; the fields are read big-endian at their offsets in the fixed
/// header, SYN is bit 1 and ACK bit 4 of byte 13, and the header slice is as
/// long as the data offset says.
#[verifier::external_body]
pub(crate) fn parse_tcp_header(bytes: &[u8]) -> (parsed: Option<(TcpInfo, usize)>)
    ensures
        parsed == tcp_header_of(bytes@),
{
    let h = match etherparse::TcpHeaderSlice::from_slice(bytes) {
        Ok(h) => h,
        Err(_) => return None,
    };
    let info = TcpInfo {
        source_port: h.source_port(),
        destination_port: h.destination_port(),
        sequence_number: h.sequence_number(),
        acknowledgment_number: h.acknowledgment_number(),
        window_size: h.window_size(),
        syn: h.syn(),
        ack: h.ack(),
    };
    Some((info, h.slice().len()))
}

/// Trusted: `etherparse::Ipv4Header::write`, on a header made by
/// `etherparse::Ipv4Header::new`.
///
/// Claimed: the call fails where the payload is longer than [`MAX_PAYLOAD`];
/// whether it succeeds otherwise, and the checksum it computes, depend on the
/// template and the payload length alone; what it writes is
/// [`ipv4_header_layout`] with that checksum.
#[verifier::external_body]
pub(crate) fn encode_ipv4_header(template: &ReplyTemplate, payload_len: u16) -> (wire: Option<
    Vec<u8>,
>)
    ensures
        match wire {
            Some(bytes) => {
                &&& payload_len <= MAX_PAYLOAD
                &&& ipv4_header_checksum(*template, payload_len) matches Some(checksum)
                &&& bytes@ == ipv4_header_layout(*template, payload_len, checksum)
            },
            None => payload_len > MAX_PAYLOAD || ipv4_header_checksum(*template, payload_len)
                is None,
        },
{
    let mut h = etherparse::Ipv4Header::new(
        payload_len,
        template.ttl,
        etherparse::IpTrafficClass::Tcp,
        template.source.to_be_bytes(),
        template.destination.to_be_bytes(),
    );
    h.protocol = template.protocol;
    let mut out = Vec::new();
    match h.write(&mut out) {
        Ok(()) => Some(out),
        Err(_) => None,
    }
}

/// Trusted: `etherparse::TcpHeader::calc_checksum_ipv4_raw`, on a header made
/// by `etherparse::TcpHeader::new`.
///
/// Claimed: the call succeeds exactly where the payload is no longer than
/// [`MAX_PAYLOAD`], and the checksum depends on the two addresses, the header
/// fields and the payload alone.
#[verifier::external_body]
pub(crate) fn compute_tcp_checksum(
    source: u32,
    destination: u32,
    header: &TcpInfo,
    payload: &[u8],
) -> (checksum: Option<u16>)
    ensures
        checksum == if payload@.len() > MAX_PAYLOAD {
            None
        } else {
            Some(tcp_checksum(source, destination, *header, payload@))
        },
{
    let mut h = etherparse::TcpHeader::new(
        header.source_port,
        header.destination_port,
        header.sequence_number,
        header.window_size,
    );
    h.acknowledgment_number = header.acknowledgment_number;
    h.syn = header.syn;
    h.ack = header.ack;
    h.calc_checksum_ipv4_raw(source.to_be_bytes(), destination.to_be_bytes(), payload).ok()
}

/// Trusted: `etherparse::TcpHeader::write`, on a header made by
/// `etherparse::TcpHeader::new`.
///
/// Claimed: whether the call succeeds depends on the header fields and the
/// checksum alone, and what it writes is [`tcp_header_layout`].
#[verifier::external_body]
pub(crate) fn encode_tcp_header(header: &TcpInfo, checksum: u16) -> (wire: Option<Vec<u8>>)
    ensures
        match wire {
            Some(bytes) => tcp_header_written(*header, checksum) && bytes@ == tcp_header_layout(
                *header,
                checksum,
            ),
            None => !tcp_header_written(*header, checksum),
        },
{
    let mut h = etherparse::TcpHeader::new(
        header.source_port,
        header.destination_port,
        header.sequence_number,
        header.window_size,
    );
    h.acknowledgment_number = header.acknowledgment_number;
    h.syn = header.syn;
    h.ack = header.ack;
    h.checksum = checksum;
    let mut out = Vec::new();
    match h.write(&mut out) {
        Ok(()) => Some(out),
        Err(_) => None,
    }
}

} // verus!
