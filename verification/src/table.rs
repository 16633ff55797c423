//! The connection table and the ingress dispatcher.
//!
//! The table owns every connection, one per [`Quad`]. [`ConnectionTable::dispatch`]
//! takes one inbound frame, finds the connection it is for or opens one, and
//! says what is to be sent back. It performs no I/O and keeps nothing but the
//! table.

use std::collections::HashMap;
use vstd::arithmetic::div_mod::lemma_fundamental_div_mod_converse;
use vstd::prelude::*;
use vstd::set_lib::lemma_map_size;
use vstd::slice::slice_subrange;
use vstd::wrapping::u32_specs::wrapping_add;
use crate::reply::{frame_wire, SynthesisError};
use crate::tcp::{lemma_ack_of_syn_establishes, Connection, INITIAL_SEND_SEQUENCE};
use crate::wire::{decode, decoded, Ipv4Info, Rejection, TcpInfo};

verus! {

/// One end of a connection. The address is the number that its four octets
/// spell, first octet most significant.
#[derive(Clone, Copy, Debug, PartialEq, Eq, Hash, Structural)]
pub struct Endpoint {
    pub addr: u32,
    pub port: u16,
}

/// What identifies a connection: the two endpoints of a segment, as they
/// stand in the inbound frame.
#[derive(Clone, Copy, Debug, PartialEq, Eq, Hash, Structural)]
pub struct Quad {
    /// The sender.
    pub src: Endpoint,
    /// The receiver.
    pub dest: Endpoint,
}

/// What became of an inbound frame.
#[derive(Debug, PartialEq, Eq)]
pub enum Disposition {
    /// The frame holds no TCP segment and was dropped.
    Dropped(Rejection),
    /// The segment belongs to no connection and opens none; it was dropped.
    Unsolicited,
    /// The segment opened a connection. `reply` is the frame to send back.
    Opened { reply: Vec<u8> },
    /// The segment was handed to its connection, which it moved on or not.
    Delivered { advanced: bool },
}

/// Why a frame could not be dealt with.
#[derive(Clone, Copy, Debug, PartialEq, Eq, Structural)]
pub enum DispatchError {
    /// The answer that the frame calls for could not be built.
    Reply(SynthesisError),
}

/// The connections of one engine, each under its quad.
pub struct ConnectionTable {
    /// Each connection under the key of its quad, [`Quad::key_of`].
    connections: HashMap<u128, Connection>,
}

impl Quad {
    /// The quad of a segment with these two headers.
    pub open spec fn of_headers(ip: Ipv4Info, tcp: TcpInfo) -> Quad {
        Quad {
            src: Endpoint { addr: ip.source, port: tcp.source_port },
            dest: Endpoint { addr: ip.destination, port: tcp.destination_port },
        }
    }

    /// The quad as one number: the four fields side by side.
    pub open spec fn key_of(self) -> u128 {
        (self.src.addr * 0x1_0000_0000_0000_0000 + self.src.port * 0x1_0000_0000_0000
            + self.dest.addr * 0x1_0000 + self.dest.port) as u128
    }

    /// The quad whose fields lie side by side in `key`.
    pub open spec fn of_key(key: u128) -> Quad {
        Quad {
            src: Endpoint {
                addr: (key / 0x1_0000_0000_0000_0000) as u32,
                port: ((key / 0x1_0000_0000_0000) % 0x1_0000) as u16,
            },
            dest: Endpoint {
                addr: ((key / 0x1_0000) % 0x1_0000_0000) as u32,
                port: (key % 0x1_0000) as u16,
            },
        }
    }

    /// The quad of a segment, from its two headers.
    pub fn new(ip_header: &Ipv4Info, tcp_header: &TcpInfo) -> (quad: Quad)
        ensures
            quad == Quad::of_headers(*ip_header, *tcp_header),
    {
        Quad {
            src: Endpoint { addr: ip_header.source, port: tcp_header.source_port },
            dest: Endpoint { addr: ip_header.destination, port: tcp_header.destination_port },
        }
    }

    fn key(&self) -> (key: u128)
        ensures
            key == self.key_of(),
    {
        let src_addr: u128 = self.src.addr as u128;
        let src_port: u128 = self.src.port as u128;
        let dest_addr: u128 = self.dest.addr as u128;
        let dest_port: u128 = self.dest.port as u128;
        src_addr * 0x1_0000_0000_0000_0000 + src_port * 0x1_0000_0000_0000 + dest_addr * 0x1_0000
            + dest_port
    }
}

/// A quad can be read back from its key, so two quads with one key are one.
proof fn lemma_key_round_trip(quad: Quad)
    ensures
        Quad::of_key(quad.key_of()) == quad,
{
    let (a, b) = (quad.src.addr as int, quad.src.port as int);
    let (c, d) = (quad.dest.addr as int, quad.dest.port as int);
    let key = quad.key_of() as int;
    assert(key == a * 0x1_0000_0000_0000_0000 + b * 0x1_0000_0000_0000 + c * 0x1_0000 + d);
    let above_port = a * 0x1_0000_0000_0000 + b * 0x1_0000_0000 + c;
    lemma_fundamental_div_mod_converse(key, 0x1_0000, above_port, d);
    lemma_fundamental_div_mod_converse(above_port, 0x1_0000_0000, a * 0x1_0000 + b, c);
    lemma_fundamental_div_mod_converse(
        key,
        0x1_0000_0000_0000,
        a * 0x1_0000 + b,
        c * 0x1_0000 + d,
    );
    lemma_fundamental_div_mod_converse(a * 0x1_0000 + b, 0x1_0000, a, b);
    lemma_fundamental_div_mod_converse(
        key,
        0x1_0000_0000_0000_0000,
        a,
        b * 0x1_0000_0000_0000 + c * 0x1_0000 + d,
    );
}

impl View for ConnectionTable {
    type V = Map<Quad, Connection>;

    closed spec fn view(&self) -> Map<Quad, Connection> {
        Map::new(
            |quad: Quad| self.connections@.contains_key(quad.key_of()),
            |quad: Quad| self.connections@[quad.key_of()],
        )
    }
}

/// What [`ConnectionTable::route`] does with a segment, as a relation between
/// the table before, the segment, the table after and the result.
///
/// A segment for a known quad goes to that quad's connection and to no other.
/// One for an unknown quad opens a connection if it may, and then the table
/// gains that connection under the segment's quad and the SYN+ACK comes back;
/// if it may not, or if the SYN+ACK cannot be built, the table stays as it is.
pub open spec fn routed(
    before: Map<Quad, Connection>,
    ip: Ipv4Info,
    tcp: TcpInfo,
    payload: Seq<u8>,
    after: Map<Quad, Connection>,
    result: Result<Disposition, DispatchError>,
) -> bool {
    let quad = Quad::of_headers(ip, tcp);
    if before.contains_key(quad) {
        let conn = before[quad];
        &&& after == before.insert(quad, conn.after_segment(tcp))
        &&& result matches Ok(Disposition::Delivered { advanced })
        &&& advanced == conn.advances(tcp)
    } else if !Connection::opens(tcp, payload) {
        &&& after == before
        &&& result matches Ok(Disposition::Unsolicited)
    } else {
        let conn = Connection::syn_received(INITIAL_SEND_SEQUENCE, ip, tcp);
        match frame_wire(conn.reply_template, conn.syn_ack_of(tcp), Seq::empty()) {
            Ok(bytes) => {
                &&& after == before.insert(quad, conn)
                &&& result matches Ok(Disposition::Opened { reply })
                &&& reply@ == bytes
            },
            Err(e) => {
                &&& after == before
                &&& result == Err::<Disposition, DispatchError>(DispatchError::Reply(e))
            },
        }
    }
}

/// What [`ConnectionTable::dispatch`] does with a frame. A frame that holds no
/// TCP segment is dropped and changes nothing; a segment is routed, with all
/// that follows its two headers as payload.
pub open spec fn dispatched(
    before: Map<Quad, Connection>,
    frame: Seq<u8>,
    after: Map<Quad, Connection>,
    result: Result<Disposition, DispatchError>,
) -> bool {
    match decoded(frame) {
        Err(why) => {
            &&& after == before
            &&& result matches Ok(Disposition::Dropped(reason))
            &&& reason == why
        },
        Ok(segment) => routed(
            before,
            segment.ip,
            segment.tcp,
            frame.skip(segment.payload_offset as int),
            after,
            result,
        ),
    }
}

/// Every connection of the table is well formed.
pub open spec fn all_well_formed(connections: Map<Quad, Connection>) -> bool {
    forall|quad: Quad| #[trigger]
        connections.contains_key(quad) ==> connections[quad].wf()
}

impl ConnectionTable {
    /// Every key is the key of a quad, and every connection is well formed.
    #[verifier::type_invariant]
    spec fn inv(self) -> bool {
        forall|key: u128| #[trigger]
            self.connections@.contains_key(key) ==> Quad::of_key(key).key_of() == key
                && self.connections@[key].wf()
    }

    /// A table without connections.
    pub fn new() -> (table: ConnectionTable)
        ensures
            table@ == Map::<Quad, Connection>::empty(),
            all_well_formed(table@),
    {
        let table = ConnectionTable { connections: HashMap::new() };
        assert(table@ =~= Map::<Quad, Connection>::empty());
        table
    }

    /// The number of connections.
    pub fn len(&self) -> (count: usize)
        ensures
            count == self@.len(),
            self@.dom().finite(),
    {
        proof {
            use_type_invariant(self);
            let keys = self.connections@.dom();
            let quad_of = |key: u128| Quad::of_key(key);
            assert(keys.map(quad_of) =~= self@.dom()) by {
                assert forall|quad: Quad| self@.dom().contains(quad) implies keys.map(
                    quad_of,
                ).contains(quad) by {
                    lemma_key_round_trip(quad);
                    assert(keys.contains(quad.key_of()) && quad_of(quad.key_of()) == quad);
                }
            }
            lemma_map_size(keys, self@.dom(), quad_of);
        }
        self.connections.len()
    }

    /// The connection of a quad, if there is one.
    pub fn get(&self, quad: &Quad) -> (found: Option<Connection>)
        ensures
            found == if self@.contains_key(*quad) {
                Some(self@[*quad])
            } else {
                None
            },
            found matches Some(conn) ==> conn.wf(),
    {
        proof {
            use_type_invariant(self);
        }
        let key = quad.key();
        match self.connections.get(&key) {
            Some(conn) => Some(*conn),
            None => None,
        }
    }

    /// Puts `conn` under `quad`, in place of what was there.
    fn put(&mut self, quad: &Quad, conn: Connection)
        requires
            conn.wf(),
        ensures
            final(self)@ == old(self)@.insert(*quad, conn),
    {
        proof {
            use_type_invariant(&*self);
            lemma_key_round_trip(*quad);
        }
        let key = quad.key();
        // The map is taken out of the table for the insertion, so that the
        // table's invariant holds whenever the table can be seen.
        let mut connections: HashMap<u128, Connection> = HashMap::new();
        core::mem::swap(&mut self.connections, &mut connections);
        connections.insert(key, conn);
        core::mem::swap(&mut self.connections, &mut connections);
        proof {
            assert forall|other: Quad| other.key_of() == quad.key_of() implies other == *quad by {
                lemma_key_round_trip(other);
            }
            assert(self@ =~= old(self)@.insert(*quad, conn));
        }
    }

    /// Takes in one TCP segment: hands it to the connection of its quad, or,
    /// where there is none, lets it open one.
    pub fn route(&mut self, ip_header: &Ipv4Info, tcp_header: &TcpInfo, data: &[u8]) -> (result:
        Result<Disposition, DispatchError>)
        ensures
            routed(old(self)@, *ip_header, *tcp_header, data@, final(self)@, result),
            all_well_formed(final(self)@),
    {
        proof {
            use_type_invariant(&*self);
            assert(all_well_formed(self@));
        }
        let quad = Quad::new(ip_header, tcp_header);
        match self.get(&quad) {
            Some(existing) => {
                let mut conn = existing;
                let advanced = conn.on_packet(ip_header, tcp_header, data);
                if advanced {
                    self.put(&quad, conn);
                } else {
                    assert(self@ =~= self@.insert(quad, conn));
                }
                Ok(Disposition::Delivered { advanced })
            },
            None => match Connection::accept(ip_header, tcp_header, data) {
                Ok(Some((conn, reply))) => {
                    self.put(&quad, conn);
                    Ok(Disposition::Opened { reply })
                },
                Ok(None) => Ok(Disposition::Unsolicited),
                Err(e) => Err(DispatchError::Reply(e)),
            },
        }
    }

    /// Takes in one raw frame, as it came from the network interface.
    ///
    /// A frame that is cut short, corrupt, or not TCP over IPv4 is dropped:
    /// the call says so and changes nothing. Any other frame is a segment
    /// and is routed.
    pub fn dispatch(&mut self, frame: &[u8]) -> (result: Result<Disposition, DispatchError>)
        ensures
            dispatched(old(self)@, frame@, final(self)@, result),
            all_well_formed(final(self)@),
    {
        proof {
            use_type_invariant(&*self);
            assert(all_well_formed(self@));
        }
        match decode(frame) {
            Err(why) => Ok(Disposition::Dropped(why)),
            Ok(segment) => {
                let data = slice_subrange(frame, segment.payload_offset, frame.len());
                assert(data@ == frame@.skip(segment.payload_offset as int));
                self.route(&segment.ip, &segment.tcp, data)
            },
        }
    }
}

/// The handshake through the table. Once a SYN has opened a connection, the
/// segment from the same peer that acknowledges the SYN+ACK, by the number
/// after the initial send sequence number, finds that connection and
/// establishes it.
pub proof fn lemma_handshake_through_table(
    before: Map<Quad, Connection>,
    ip: Ipv4Info,
    syn: TcpInfo,
    opened: Map<Quad, Connection>,
    first: Result<Disposition, DispatchError>,
    tcp: TcpInfo,
    payload: Seq<u8>,
    after: Map<Quad, Connection>,
    second: Result<Disposition, DispatchError>,
)
    requires
        !before.contains_key(Quad::of_headers(ip, syn)),
        routed(before, ip, syn, Seq::empty(), opened, first),
        first matches Ok(Disposition::Opened { .. }),
        Quad::of_headers(ip, tcp) == Quad::of_headers(ip, syn),
        tcp.acknowledgment_number == wrapping_add(INITIAL_SEND_SEQUENCE, 1),
        routed(opened, ip, tcp, payload, after, second),
    ensures
        opened[Quad::of_headers(ip, syn)].state is SynReceived,
        after[Quad::of_headers(ip, syn)].state is Established,
        after[Quad::of_headers(ip, syn)].send.una == wrapping_add(INITIAL_SEND_SEQUENCE, 1),
        after[Quad::of_headers(ip, syn)].recv == opened[Quad::of_headers(ip, syn)].recv,
        after.dom() == opened.dom(),
        second matches Ok(Disposition::Delivered { advanced }) && advanced,
{
    let quad = Quad::of_headers(ip, syn);
    lemma_ack_of_syn_establishes(opened[quad], tcp);
    assert(after.dom() =~= opened.dom());
}

/// A segment without SYN for a quad that the table does not know is dropped:
/// no connection is made, nothing is sent back, and the table is as large as
/// it was.
pub proof fn lemma_unsolicited_segment_dropped(
    before: Map<Quad, Connection>,
    ip: Ipv4Info,
    tcp: TcpInfo,
    payload: Seq<u8>,
    after: Map<Quad, Connection>,
    result: Result<Disposition, DispatchError>,
)
    requires
        routed(before, ip, tcp, payload, after, result),
        !before.contains_key(Quad::of_headers(ip, tcp)),
        !tcp.syn,
    ensures
        after == before,
        after.len() == before.len(),
        result matches Ok(Disposition::Unsolicited),
{
}

/// A frame that holds no TCP segment is dropped without a fault: the call
/// succeeds, gives the reason, and leaves every connection as it was.
pub proof fn lemma_malformed_frame_dropped(
    before: Map<Quad, Connection>,
    frame: Seq<u8>,
    after: Map<Quad, Connection>,
    result: Result<Disposition, DispatchError>,
)
    requires
        dispatched(before, frame, after, result),
        decoded(frame) is Err,
    ensures
        after == before,
        result matches Ok(Disposition::Dropped(_)),
{
}

/// A segment touches the connection of its own quad and no other, and it
/// never puts a fresh connection in the place of one that exists: a known
/// quad keeps its connection, moved on by the segment or not at all, and the
/// table knows the same quads as before. A quad is new to the table exactly
/// when the segment opened a connection.
pub proof fn lemma_route_keeps_connections(
    before: Map<Quad, Connection>,
    ip: Ipv4Info,
    tcp: TcpInfo,
    payload: Seq<u8>,
    after: Map<Quad, Connection>,
    result: Result<Disposition, DispatchError>,
)
    requires
        routed(before, ip, tcp, payload, after, result),
    ensures
        ({
            let own = Quad::of_headers(ip, tcp);
            &&& forall|quad: Quad|
                quad != own ==> (before.contains_key(quad) <==> #[trigger] after.contains_key(quad))
            &&& forall|quad: Quad|
                quad != own && before.contains_key(quad) ==> #[trigger] after[quad] == before[quad]
            &&& before.contains_key(own) ==> after.dom() == before.dom()
            &&& before.contains_key(own) ==> after[own] == before[own].after_segment(tcp)
            &&& !before.contains_key(own) && after.contains_key(own) <==> result matches Ok(
                Disposition::Opened { .. },
            )
        }),
{
    let own = Quad::of_headers(ip, tcp);
    if before.contains_key(own) {
        assert(after.dom() =~= before.dom());
    }
}

} // verus!
