//! The transmission control block and its state machine.
//!
//! A [`Connection`] is born from an inbound SYN and answers it with a
//! SYN+ACK; the acknowledgment of that answer establishes it. What an
//! established connection does with further segments is not part of this
//! engine yet: it leaves them alone.

use vstd::prelude::*;
use vstd::wrapping::u32_specs::wrapping_add;
use crate::reply::{carried, frame_wire, lemma_frame_reads_back, synthesize, SynthesisError};
use crate::seqnum::{
    acceptable_ack, distance, is_acceptable_ack, lemma_acceptable_ack_keeps_order,
    lemma_distance_unwrapped, wrapped_le,
};
use crate::wire::{
    decoded, Ipv4Info, Rejection, ReplyTemplate, Segment, TcpInfo, IP_PROTOCOL_TCP,
};

verus! {

/// The initial send sequence number of every connection that [`Connection::accept`]
/// opens.
///
/// A fixed number is predictable. It is fit for a test bench and for nothing
/// else: an engine that faces a real network has to pick the number itself
/// and open its connections with [`Connection::from_syn`].
pub const INITIAL_SEND_SEQUENCE: u32 = 0;

/// The send window that a new connection advertises.
pub const INITIAL_SEND_WINDOW: u16 = 10;

/// The time to live of every datagram that a connection sends.
pub const REPLY_TTL: u8 = 64;

/// Where a connection stands in its life.
#[derive(Clone, Copy, Debug, PartialEq, Eq, Structural)]
pub enum State {
    /// A SYN came in and was answered; the answer is not acknowledged yet.
    SynReceived,
    /// The handshake is complete.
    Established,
}

/// State of the send sequence space.
///
/// ```text
///            1         2          3          4
///       ----------|----------|----------|----------
///              SND.UNA    SND.NXT    SND.UNA
///                                   +SND.WND
///
/// 1 - old sequence numbers which have been acknowledged
/// 2 - sequence numbers of unacknowledged data
/// 3 - sequence numbers allowed for new data transmission
/// 4 - future sequence numbers which are not yet allowed
/// ```
#[derive(Clone, Copy, Debug, PartialEq, Eq, Structural)]
pub struct SendSequenceSpace {
    /// send unacknowledged
    pub una: u32,
    /// send next
    pub nxt: u32,
    /// send window
    pub wnd: u16,
    /// send urgent pointer
    pub up: bool,
    /// segment sequence number used for last window update
    pub wl1: usize,
    /// segment acknowledgment number used for last window update
    pub wl2: usize,
    /// initial send sequence number
    pub iss: u32,
}

/// State of the receive sequence space.
///
/// ```text
///                 1          2          3
///             ----------|----------|----------
///                    RCV.NXT    RCV.NXT
///                              +RCV.WND
///
/// 1 - old sequence numbers which have been acknowledged
/// 2 - sequence numbers allowed for new reception
/// 3 - future sequence numbers which are not yet allowed
/// ```
#[derive(Clone, Copy, Debug, PartialEq, Eq, Structural)]
pub struct RecvSequenceSpace {
    /// receive next
    pub nxt: u32,
    /// receive window
    pub wnd: u16,
    /// receive urgent pointer
    pub up: bool,
    /// initial receive sequence number
    pub irs: u32,
}

/// The transmission control block: what is kept for one connection.
#[derive(Clone, Copy, Debug, PartialEq, Eq, Structural)]
pub struct Connection {
    pub state: State,
    pub send: SendSequenceSpace,
    pub recv: RecvSequenceSpace,
    /// The IPv4 header fields of everything this connection sends, taken once
    /// from the SYN that opened it.
    pub reply_template: ReplyTemplate,
}

impl SendSequenceSpace {
    /// The send space of a connection that has sent its SYN and nothing else:
    /// the SYN takes up the one sequence number `iss`.
    pub open spec fn after_syn(iss: u32) -> SendSequenceSpace {
        SendSequenceSpace {
            una: iss,
            nxt: wrapping_add(iss, 1),
            wnd: INITIAL_SEND_WINDOW,
            up: false,
            wl1: 0,
            wl2: 0,
            iss,
        }
    }

    /// The oldest unacknowledged number has not overtaken the next one to
    /// send.
    pub open spec fn wf(self) -> bool {
        wrapped_le(self.una, self.nxt)
    }

    /// Whether the peer may acknowledge `ack` now.
    pub open spec fn accepts(self, ack: u32) -> bool {
        acceptable_ack(self.una, ack, self.nxt)
    }

    /// The send space once `ack` is taken in: all before it is acknowledged.
    pub open spec fn acknowledged(self, ack: u32) -> SendSequenceSpace {
        SendSequenceSpace {
            una: ack,
            nxt: self.nxt,
            wnd: self.wnd,
            up: self.up,
            wl1: self.wl1,
            wl2: self.wl2,
            iss: self.iss,
        }
    }
}

impl RecvSequenceSpace {
    /// The receive space learned from a SYN with sequence number `irs` and
    /// window `wnd`: the SYN itself took up `irs`.
    pub open spec fn after_syn(irs: u32, wnd: u16) -> RecvSequenceSpace {
        RecvSequenceSpace { nxt: wrapping_add(irs, 1), wnd, up: false, irs }
    }
}

impl Connection {
    /// The invariant of a connection: that of its send space.
    pub open spec fn wf(self) -> bool {
        self.send.wf()
    }

    /// Whether a segment that belongs to no connection opens one: it has SYN
    /// set and carries no payload.
    pub open spec fn opens(tcp: TcpInfo, payload: Seq<u8>) -> bool {
        tcp.syn && payload.len() == 0
    }

    /// The connection that the SYN `tcp`, which came in the datagram `ip`,
    /// opens when `iss` is chosen as initial send sequence number.
    ///
    /// Replies go back where the SYN came from, so the template has the two
    /// addresses the other way round.
    pub open spec fn syn_received(iss: u32, ip: Ipv4Info, tcp: TcpInfo) -> Connection {
        Connection {
            state: State::SynReceived,
            send: SendSequenceSpace::after_syn(iss),
            recv: RecvSequenceSpace::after_syn(tcp.sequence_number, tcp.window_size),
            reply_template: ReplyTemplate {
                source: ip.destination,
                destination: ip.source,
                protocol: IP_PROTOCOL_TCP,
                ttl: REPLY_TTL,
            },
        }
    }

    /// The header of the SYN+ACK that answers the SYN `tcp`: the ports the
    /// other way round, our initial sequence number, and as acknowledgment the
    /// number we expect next from the peer.
    pub open spec fn syn_ack_of(self, tcp: TcpInfo) -> TcpInfo {
        TcpInfo {
            source_port: tcp.destination_port,
            destination_port: tcp.source_port,
            sequence_number: self.send.iss,
            acknowledgment_number: self.recv.nxt,
            window_size: self.send.wnd,
            syn: true,
            ack: true,
        }
    }

    /// Whether the segment `tcp` moves this connection on.
    pub open spec fn advances(self, tcp: TcpInfo) -> bool {
        self.state is SynReceived && self.send.accepts(tcp.acknowledgment_number)
    }

    /// The connection after the segment `tcp` has reached it.
    ///
    /// In `SynReceived` an acceptable acknowledgment establishes the
    /// connection and is taken in; any other segment changes nothing. An
    /// established connection is left as it is.
    pub open spec fn after_segment(self, tcp: TcpInfo) -> Connection {
        match self.state {
            State::SynReceived => if self.send.accepts(tcp.acknowledgment_number) {
                Connection {
                    state: State::Established,
                    send: self.send.acknowledged(tcp.acknowledgment_number),
                    recv: self.recv,
                    reply_template: self.reply_template,
                }
            } else {
                self
            },
            State::Established => self,
        }
    }

    /// Opens the connection for an inbound SYN, with `iss` as its initial
    /// send sequence number.
    pub fn from_syn(iss: u32, ip_header: &Ipv4Info, tcp_header: &TcpInfo) -> (conn: Connection)
        ensures
            conn == Connection::syn_received(iss, *ip_header, *tcp_header),
            conn.wf(),
    {
        proof {
            lemma_distance_unwrapped(wrapping_add(iss, 1), iss);
            lemma_distance_unwrapped(
                wrapping_add(iss, 1),
                wrapping_add(wrapping_add(iss, 1), 0x8000_0000),
            );
        }
        Connection {
            state: State::SynReceived,
            send: SendSequenceSpace {
                una: iss,
                nxt: iss.wrapping_add(1),
                wnd: INITIAL_SEND_WINDOW,
                up: false,
                wl1: 0,
                wl2: 0,
                iss,
            },
            recv: RecvSequenceSpace {
                nxt: tcp_header.sequence_number.wrapping_add(1),
                wnd: tcp_header.window_size,
                up: false,
                irs: tcp_header.sequence_number,
            },
            reply_template: ReplyTemplate {
                source: ip_header.destination,
                destination: ip_header.source,
                protocol: IP_PROTOCOL_TCP,
                ttl: REPLY_TTL,
            },
        }
    }

    /// The header of the SYN+ACK with which this connection answers the SYN
    /// that opened it.
    pub fn syn_ack(&self, tcp_header: &TcpInfo) -> (reply: TcpInfo)
        ensures
            reply == self.syn_ack_of(*tcp_header),
    {
        TcpInfo {
            source_port: tcp_header.destination_port,
            destination_port: tcp_header.source_port,
            sequence_number: self.send.iss,
            acknowledgment_number: self.recv.nxt,
            window_size: self.send.wnd,
            syn: true,
            ack: true,
        }
    }

    /// Takes in a segment for which no connection exists yet.
    ///
    /// A SYN without payload opens a connection: it comes back in state
    /// `SynReceived`, together with the one frame to send. That frame is forty
    /// bytes long and holds the SYN+ACK of [`Connection::syn_ack_of`], from the
    /// address the SYN was sent to back to the one it came from. Any other
    /// segment is dropped without an answer: `Ok(None)`. Where the SYN+ACK
    /// cannot be built there is no connection either, and the error says
    /// which part failed.
    ///
    /// The initial send sequence number is [`INITIAL_SEND_SEQUENCE`].
    pub fn accept(ip_header: &Ipv4Info, tcp_header: &TcpInfo, data: &[u8]) -> (accepted: Result<
        Option<(Connection, Vec<u8>)>,
        SynthesisError,
    >)
        ensures
            match accepted {
                Ok(None) => !Connection::opens(*tcp_header, data@),
                Ok(Some((conn, reply))) => {
                    &&& Connection::opens(*tcp_header, data@)
                    &&& conn == Connection::syn_received(
                        INITIAL_SEND_SEQUENCE,
                        *ip_header,
                        *tcp_header,
                    )
                    &&& conn.wf()
                    &&& frame_wire(
                        conn.reply_template,
                        conn.syn_ack_of(*tcp_header),
                        Seq::empty(),
                    ) == Ok::<Seq<u8>, SynthesisError>(reply@)
                    &&& reply@.len() == 40
                    &&& decoded(reply@) == Ok::<Segment, Rejection>(
                        carried(conn.reply_template, conn.syn_ack_of(*tcp_header)),
                    )
                },
                Err(e) => {
                    let conn = Connection::syn_received(
                        INITIAL_SEND_SEQUENCE,
                        *ip_header,
                        *tcp_header,
                    );
                    &&& Connection::opens(*tcp_header, data@)
                    &&& frame_wire(
                        conn.reply_template,
                        conn.syn_ack_of(*tcp_header),
                        Seq::empty(),
                    ) == Err::<Seq<u8>, SynthesisError>(e)
                },
            },
    {
        if !tcp_header.syn || data.len() != 0 {
            return Ok(None);
        }
        let conn = Connection::from_syn(INITIAL_SEND_SEQUENCE, ip_header, tcp_header);
        let syn_ack = conn.syn_ack(tcp_header);
        assert(data@ == Seq::<u8>::empty());
        proof {
            lemma_frame_reads_back(conn.reply_template, syn_ack, data@);
        }
        match synthesize(&conn.reply_template, &syn_ack, data) {
            Ok(reply) => Ok(Some((conn, reply))),
            Err(e) => Err(e),
        }
    }

    /// Takes in a segment that belongs to this connection.
    ///
    /// Returns whether the segment moved the connection on. One that did not
    /// has changed nothing. No segment is answered.
    #[allow(unused_variables)]
    pub fn on_packet(&mut self, ip_header: &Ipv4Info, tcp_header: &TcpInfo, data: &[u8]) -> (advanced:
        bool)
        ensures
            *final(self) == old(self).after_segment(*tcp_header),
            advanced == old(self).advances(*tcp_header),
            old(self).wf() ==> final(self).wf(),
    {
        match self.state {
            State::SynReceived => {
                let ack = tcp_header.acknowledgment_number;
                if is_acceptable_ack(self.send.una, ack, self.send.nxt) {
                    proof {
                        if self.wf() {
                            lemma_acceptable_ack_keeps_order(self.send.una, ack, self.send.nxt);
                        }
                    }
                    self.send.una = ack;
                    self.state = State::Established;
                    true
                } else {
                    false
                }
            },
            State::Established => false,
        }
    }
}

/// The acknowledgment of the SYN+ACK completes the handshake: a connection in
/// `SynReceived` whose SYN is all that is in flight becomes `Established` on
/// the acknowledgment number `iss + 1`, which is taken in as the new `una`.
/// Nothing else changes.
pub proof fn lemma_ack_of_syn_establishes(conn: Connection, tcp: TcpInfo)
    requires
        conn.state is SynReceived,
        conn.send.nxt == wrapping_add(conn.send.una, 1),
        tcp.acknowledgment_number == wrapping_add(conn.send.una, 1),
    ensures
        conn.advances(tcp),
        conn.after_segment(tcp).state is Established,
        conn.after_segment(tcp).send == conn.send.acknowledged(wrapping_add(conn.send.una, 1)),
        conn.after_segment(tcp).recv == conn.recv,
        conn.after_segment(tcp).reply_template == conn.reply_template,
{
    lemma_distance_unwrapped(conn.send.una, conn.send.nxt);
    lemma_distance_unwrapped(conn.send.una, wrapping_add(conn.send.nxt, 1));
}

/// An acknowledgment that acknowledges nothing new is ignored: a segment
/// whose acknowledgment number is still `una` leaves the connection as it was,
/// whatever its state.
pub proof fn lemma_stale_ack_ignored(conn: Connection, tcp: TcpInfo)
    requires
        tcp.acknowledgment_number == conn.send.una,
    ensures
        !conn.advances(tcp),
        conn.after_segment(tcp) == conn,
{
}

/// A segment that does not move the connection on changes none of its fields.
pub proof fn lemma_unacceptable_segment_ignored(conn: Connection, tcp: TcpInfo)
    requires
        !conn.advances(tcp),
    ensures
        conn.after_segment(tcp) == conn,
{
}

/// A segment never moves a sequence number backwards. The receive space is
/// untouched, so `recv.nxt` does not regress; `send.una` moves forward
/// or stays, and does not overtake `send.nxt`, which stays.
pub proof fn lemma_segment_keeps_order(conn: Connection, tcp: TcpInfo)
    requires
        conn.wf(),
    ensures
        conn.after_segment(tcp).wf(),
        conn.after_segment(tcp).recv == conn.recv,
        wrapped_le(conn.recv.nxt, conn.after_segment(tcp).recv.nxt),
        wrapped_le(conn.send.una, conn.after_segment(tcp).send.una),
        conn.after_segment(tcp).send.nxt == conn.send.nxt,
        distance(conn.after_segment(tcp).send.una, conn.send.nxt) <= distance(
            conn.send.una,
            conn.send.nxt,
        ),
{
    lemma_distance_unwrapped(conn.recv.nxt, conn.recv.nxt);
    lemma_distance_unwrapped(conn.send.una, conn.send.una);
    if conn.advances(tcp) {
        lemma_acceptable_ack_keeps_order(conn.send.una, tcp.acknowledgment_number, conn.send.nxt);
    }
}

/// The answer to a SYN, read off the wire: whatever frame is built for it
/// holds a segment with SYN and ACK set that acknowledges the peer's SYN by
/// the number after it, carries our initial sequence number, and goes from
/// the SYN's destination to its source, address and port.
pub proof fn lemma_syn_ack_reads_back(iss: u32, ip: Ipv4Info, tcp: TcpInfo)
    ensures
        ({
            let conn = Connection::syn_received(iss, ip, tcp);
            let built = frame_wire(conn.reply_template, conn.syn_ack_of(tcp), Seq::empty());
            built matches Ok(frame) ==> {
                &&& frame.len() == 40
                &&& decoded(frame) matches Ok(segment)
                &&& segment.payload_offset == frame.len()
                &&& segment.tcp.syn && segment.tcp.ack
                &&& segment.tcp.sequence_number == iss
                &&& segment.tcp.acknowledgment_number == wrapping_add(tcp.sequence_number, 1)
                &&& segment.tcp.source_port == tcp.destination_port
                &&& segment.tcp.destination_port == tcp.source_port
                &&& segment.ip.source == ip.destination
                &&& segment.ip.destination == ip.source
            }
        }),
{
    let conn = Connection::syn_received(iss, ip, tcp);
    lemma_frame_reads_back(conn.reply_template, conn.syn_ack_of(tcp), Seq::empty());
}

/// The three steps of the handshake, end to end: a SYN opens a connection in
/// `SynReceived`, the SYN+ACK that answers it acknowledges the peer's SYN, and
/// the segment that acknowledges the SYN+ACK establishes the connection.
pub proof fn lemma_handshake(iss: u32, ip: Ipv4Info, syn: TcpInfo, ack: TcpInfo)
    requires
        ack.acknowledgment_number == wrapping_add(iss, 1),
    ensures
        ({
            let conn = Connection::syn_received(iss, ip, syn);
            let syn_ack = conn.syn_ack_of(syn);
            &&& conn.wf()
            &&& conn.state is SynReceived
            &&& conn.send.una == iss
            &&& conn.send.nxt == wrapping_add(iss, 1)
            &&& conn.recv.irs == syn.sequence_number
            &&& conn.recv.nxt == wrapping_add(syn.sequence_number, 1)
            &&& conn.recv.wnd == syn.window_size
            &&& syn_ack.syn && syn_ack.ack
            &&& syn_ack.sequence_number == iss
            &&& syn_ack.acknowledgment_number == wrapping_add(syn.sequence_number, 1)
            &&& conn.after_segment(ack).state is Established
            &&& conn.after_segment(ack).send.una == wrapping_add(iss, 1)
        }),
{
    let conn = Connection::syn_received(iss, ip, syn);
    lemma_ack_of_syn_establishes(conn, ack);
    lemma_distance_unwrapped(wrapping_add(iss, 1), iss);
    lemma_distance_unwrapped(wrapping_add(iss, 1), wrapping_add(wrapping_add(iss, 1), 0x8000_0000));
}

} // verus!
