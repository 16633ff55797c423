//! The reply synthesizer: from the header fields of an outbound segment to
//! the bytes of the datagram that carries it.

use vstd::prelude::*;
use crate::codec::{
    compute_tcp_checksum, encode_ipv4_header, encode_tcp_header, ipv4_header_checksum,
    tcp_checksum, tcp_header_written,
};
use crate::wire::{
    decoded, ipv4_header_layout, lemma_ipv4_layout_reads_back, lemma_tcp_layout_reads_back,
    tcp_header_layout, Ipv4Info, Rejection, ReplyTemplate, Segment, TcpInfo, IP_PROTOCOL_TCP,
    MAX_PAYLOAD,
};

verus! {

/// Why no frame was built. Nothing is handed out in part: where one of these
/// comes back, there is no frame at all.
#[derive(Clone, Copy, Debug, PartialEq, Eq, Structural)]
pub enum SynthesisError {
    /// The codec gave no TCP checksum: the payload is longer than
    /// [`MAX_PAYLOAD`].
    Checksum,
    /// The codec did not write the TCP header.
    TcpHeader,
    /// The codec did not write the IPv4 header. It never does where the TCP
    /// header and the payload together are longer than [`MAX_PAYLOAD`].
    Ipv4Header,
}

/// The datagram that carries a segment: the IPv4 header of the template, the
/// TCP header with its checksum over both and the payload, then the payload.
/// Neither header has options.
pub open spec fn frame_wire(template: ReplyTemplate, header: TcpInfo, payload: Seq<u8>) -> Result<
    Seq<u8>,
    SynthesisError,
> {
    let checksum = tcp_checksum(template.source, template.destination, header, payload);
    let segment_len = (20 + payload.len()) as u16;
    if payload.len() > MAX_PAYLOAD {
        Err(SynthesisError::Checksum)
    } else if !tcp_header_written(header, checksum) {
        Err(SynthesisError::TcpHeader)
    } else if 20 + payload.len() > MAX_PAYLOAD {
        Err(SynthesisError::Ipv4Header)
    } else {
        match ipv4_header_checksum(template, segment_len) {
            None => Err(SynthesisError::Ipv4Header),
            Some(header_checksum) => Ok(
                ipv4_header_layout(template, segment_len, header_checksum) + tcp_header_layout(
                    header,
                    checksum,
                ) + payload,
            ),
        }
    }
}

/// The segment that a frame built from `template` and `header` holds.
pub open spec fn carried(template: ReplyTemplate, header: TcpInfo) -> Segment {
    Segment {
        ip: Ipv4Info {
            source: template.source,
            destination: template.destination,
            protocol: template.protocol,
        },
        tcp: header,
        payload_offset: 40,
    }
}

/// What is built can be read back: a frame is forty bytes of headers and then
/// the payload, and as long as the template says TCP it decodes to the very
/// fields it was built from.
pub proof fn lemma_frame_reads_back(template: ReplyTemplate, header: TcpInfo, payload: Seq<u8>)
    ensures
        frame_wire(template, header, payload) matches Ok(frame) ==> {
            &&& frame.len() == 40 + payload.len()
            &&& frame.skip(40) == payload
            &&& template.protocol == IP_PROTOCOL_TCP ==> decoded(frame) == Ok::<Segment, Rejection>(
                carried(template, header),
            )
        },
{
    if frame_wire(template, header, payload) is Ok {
        let frame = frame_wire(template, header, payload)->Ok_0;
        let checksum = tcp_checksum(template.source, template.destination, header, payload);
        let tcp = tcp_header_layout(header, checksum);
        let segment_len = (20 + payload.len()) as u16;
        let header_checksum = ipv4_header_checksum(template, segment_len)->Some_0;
        let ip = ipv4_header_layout(template, segment_len, header_checksum);
        lemma_tcp_layout_reads_back(header, checksum, payload);
        lemma_ipv4_layout_reads_back(template, segment_len, header_checksum, tcp + payload);
        assert(frame == ip + (tcp + payload));
        assert(frame.skip(20) == tcp + payload);
        assert(frame.skip(40) == payload);
    }
}

/// Joins the three parts of a datagram in the order they go on the wire.
pub fn assemble(ip_header: &[u8], tcp_header: &[u8], payload: &[u8]) -> (frame: Vec<u8>)
    ensures
        frame@ == ip_header@ + tcp_header@ + payload@,
{
    let mut frame: Vec<u8> = Vec::new();
    append(&mut frame, ip_header);
    append(&mut frame, tcp_header);
    append(&mut frame, payload);
    frame
}

/// Appends `bytes` to `frame`.
fn append(frame: &mut Vec<u8>, bytes: &[u8])
    ensures
        final(frame)@ == old(frame)@ + bytes@,
{
    let mut i: usize = 0;
    while i < bytes.len()
        invariant
            i <= bytes@.len(),
            frame@ == old(frame)@ + bytes@.take(i as int),
        decreases bytes@.len() - i,
    {
        frame.push(bytes[i]);
        i = i + 1;
    }
    assert(bytes@.take(i as int) == bytes@);
}

/// Builds the datagram that carries one outbound segment.
///
/// Either the whole frame comes back, or an error and nothing else.
pub fn synthesize(template: &ReplyTemplate, header: &TcpInfo, payload: &[u8]) -> (built: Result<
    Vec<u8>,
    SynthesisError,
>)
    ensures
        match built {
            Ok(frame) => frame_wire(*template, *header, payload@) == Ok::<
                Seq<u8>,
                SynthesisError,
            >(frame@),
            Err(e) => frame_wire(*template, *header, payload@) == Err::<Seq<u8>, SynthesisError>(
                e,
            ),
        },
{
    let checksum = match compute_tcp_checksum(
        template.source,
        template.destination,
        header,
        payload,
    ) {
        Some(checksum) => checksum,
        None => return Err(SynthesisError::Checksum),
    };
    let tcp = match encode_tcp_header(header, checksum) {
        Some(tcp) => tcp,
        None => return Err(SynthesisError::TcpHeader),
    };
    proof {
        lemma_tcp_layout_reads_back(*header, checksum, Seq::empty());
    }
    let segment_len: usize = tcp.len() + payload.len();
    match encode_ipv4_header(template, segment_len as u16) {
        Some(ip) => Ok(assemble(ip.as_slice(), tcp.as_slice(), payload)),
        None => Err(SynthesisError::Ipv4Header),
    }
}

} // verus!
