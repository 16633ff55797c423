use tcp_engine::table::{ConnectionTable, DispatchError, Disposition, Endpoint, Quad};
use tcp_engine::tcp::{Connection, State};
use tcp_engine::wire::{decode, Ipv4Info, Rejection, TcpInfo};

const PEER_ADDR: [u8; 4] = [10, 0, 0, 2];
const HOST_ADDR: [u8; 4] = [10, 0, 0, 1];

fn inbound(
    source_port: u16,
    sequence_number: u32,
    acknowledgment_number: u32,
    syn: bool,
    ack: bool,
    payload: &[u8],
) -> Vec<u8> {
    let mut tcp = etherparse::TcpHeader::new(source_port, 80, sequence_number, 64240);
    tcp.acknowledgment_number = acknowledgment_number;
    tcp.syn = syn;
    tcp.ack = ack;
    let ip = etherparse::Ipv4Header::new(
        20 + payload.len() as u16,
        64,
        etherparse::IpTrafficClass::Tcp,
        PEER_ADDR,
        HOST_ADDR,
    );
    let mut frame = Vec::new();
    ip.write(&mut frame).unwrap();
    tcp.write(&mut frame).unwrap();
    frame.extend_from_slice(payload);
    frame
}

fn peer_quad(port: u16) -> Quad {
    Quad {
        src: Endpoint { addr: 0x0a00_0002, port },
        dest: Endpoint { addr: 0x0a00_0001, port: 80 },
    }
}

fn table_with_one_connection() -> ConnectionTable {
    let mut table = ConnectionTable::new();
    let opened = table.dispatch(&inbound(55000, 1000, 0, true, false, &[]));
    assert!(matches!(opened, Ok(Disposition::Opened { .. })));
    table
}

#[test]
fn new_table_is_empty() {
    let table = ConnectionTable::new();
    assert_eq!(table.len(), 0);
    assert_eq!(table.get(&peer_quad(55000)), None);
}

#[test]
fn quad_is_taken_from_the_inbound_headers_as_they_stand() {
    let ip = Ipv4Info { source: 0x0a00_0002, destination: 0x0a00_0001, protocol: 6 };
    let tcp = TcpInfo {
        source_port: 55000,
        destination_port: 80,
        sequence_number: 0,
        acknowledgment_number: 0,
        window_size: 0,
        syn: false,
        ack: false,
    };
    assert_eq!(Quad::new(&ip, &tcp), peer_quad(55000));
}

#[test]
fn syn_for_an_unknown_quad_opens_a_connection() {
    let mut table = ConnectionTable::new();
    let result = table.dispatch(&inbound(55000, 1000, 0, true, false, &[]));
    let reply = match result {
        Ok(Disposition::Opened { reply }) => reply,
        other => panic!("no connection was opened: {:?}", other),
    };
    assert_eq!(table.len(), 1);
    let conn = table.get(&peer_quad(55000)).unwrap();
    assert_eq!(conn.state, State::SynReceived);
    assert_eq!(conn.recv.irs, 1000);
    assert_eq!(conn.recv.nxt, 1001);
    assert_eq!(conn.recv.wnd, 64240);
    assert_eq!(conn.send.nxt, conn.send.iss.wrapping_add(1));
    assert_eq!(conn.send.una, conn.send.iss);

    let segment = decode(&reply).unwrap();
    assert!(segment.tcp.syn && segment.tcp.ack);
    assert_eq!(segment.tcp.acknowledgment_number, 1001);
    assert_eq!(segment.tcp.sequence_number, conn.send.iss);
    assert_eq!((segment.tcp.source_port, segment.tcp.destination_port), (80, 55000));
    assert_eq!((segment.ip.source, segment.ip.destination), (0x0a00_0001, 0x0a00_0002));
    assert_eq!(reply.len(), 40);
}

#[test]
fn dispatch_opens_what_accept_opens() {
    let frame = inbound(55000, 1000, 0, true, false, &[]);
    let segment = decode(&frame).unwrap();
    let (conn, reply) = Connection::accept(&segment.ip, &segment.tcp, &[]).unwrap().unwrap();
    let mut table = ConnectionTable::new();
    assert_eq!(table.dispatch(&frame), Ok(Disposition::Opened { reply }));
    assert_eq!(table.get(&peer_quad(55000)), Some(conn));
}

#[test]
fn non_syn_for_an_unknown_quad_is_dropped() {
    let mut table = ConnectionTable::new();
    assert_eq!(
        table.dispatch(&inbound(55000, 1001, 1, false, true, &[])),
        Ok(Disposition::Unsolicited)
    );
    assert_eq!(table.len(), 0);

    let mut table = table_with_one_connection();
    let before = table.get(&peer_quad(55000));
    for frame in [
        inbound(55001, 1001, 1, false, true, &[]),
        inbound(55001, 1001, 1, false, false, &[]),
        inbound(55001, 1001, 1, false, true, b"data"),
    ] {
        assert_eq!(table.dispatch(&frame), Ok(Disposition::Unsolicited));
        assert_eq!(table.len(), 1);
        assert_eq!(table.get(&peer_quad(55001)), None);
        assert_eq!(table.get(&peer_quad(55000)), before);
    }
}

#[test]
fn syn_with_payload_for_an_unknown_quad_is_dropped() {
    let mut table = ConnectionTable::new();
    assert_eq!(
        table.dispatch(&inbound(55000, 1000, 0, true, false, b"x")),
        Ok(Disposition::Unsolicited)
    );
    assert_eq!(table.len(), 0);
}

#[test]
fn ack_of_the_syn_ack_establishes_the_connection() {
    let mut table = table_with_one_connection();
    let iss = table.get(&peer_quad(55000)).unwrap().send.iss;
    let result = table.dispatch(&inbound(55000, 1001, iss.wrapping_add(1), false, true, &[]));
    assert_eq!(result, Ok(Disposition::Delivered { advanced: true }));
    let conn = table.get(&peer_quad(55000)).unwrap();
    assert_eq!(conn.state, State::Established);
    assert_eq!(conn.send.una, iss.wrapping_add(1));
    assert_eq!(table.len(), 1);
}

#[test]
fn stale_ack_leaves_the_connection_in_syn_received() {
    let mut table = table_with_one_connection();
    let before = table.get(&peer_quad(55000)).unwrap();
    let result = table.dispatch(&inbound(55000, 1001, before.send.iss, false, true, &[]));
    assert_eq!(result, Ok(Disposition::Delivered { advanced: false }));
    assert_eq!(table.get(&peer_quad(55000)), Some(before));
}

#[test]
fn second_syn_does_not_replace_the_connection() {
    let mut table = table_with_one_connection();
    let before = table.get(&peer_quad(55000)).unwrap();
    // Another SYN on the same quad, with another sequence number.
    let result = table.dispatch(&inbound(55000, 777_777, 0, true, false, &[]));
    assert_eq!(result, Ok(Disposition::Delivered { advanced: false }));
    assert_eq!(table.len(), 1);
    assert_eq!(table.get(&peer_quad(55000)), Some(before));
    assert_eq!(table.get(&peer_quad(55000)).unwrap().recv.irs, 1000);
}

#[test]
fn quads_that_differ_in_one_field_are_different_connections() {
    let mut table = ConnectionTable::new();
    let ip = |source: u32, destination: u32| Ipv4Info { source, destination, protocol: 6 };
    let syn = |source_port: u16, destination_port: u16, sequence_number: u32| TcpInfo {
        source_port,
        destination_port,
        sequence_number,
        acknowledgment_number: 0,
        window_size: 1,
        syn: true,
        ack: false,
    };
    let segments = [
        (ip(1, 2), syn(3, 4, 10)),
        (ip(2, 1), syn(3, 4, 20)),
        (ip(1, 2), syn(4, 3, 30)),
        (ip(1, 3), syn(3, 4, 40)),
        (ip(1, 2), syn(3, 5, 50)),
        (ip(0, 2), syn(3, 4, 60)),
        (ip(1, 2), syn(0, 4, 70)),
        (ip(u32::MAX, u32::MAX), syn(u16::MAX, u16::MAX, 80)),
        (ip(0, 0), syn(0, 0, 90)),
        (ip(0, 1), syn(0, 0, 100)),
        (ip(0, 0), syn(1, 0, 110)),
        (ip(0, 0), syn(0, 1, 120)),
        (ip(1, 0), syn(0, 0, 130)),
    ];
    for (count, (ip, tcp)) in segments.iter().enumerate() {
        assert!(matches!(table.route(ip, tcp, &[]), Ok(Disposition::Opened { .. })));
        assert_eq!(table.len(), count + 1);
    }
    for (ip, tcp) in segments.iter() {
        let conn = table.get(&Quad::new(ip, tcp)).unwrap();
        assert_eq!(conn.recv.irs, tcp.sequence_number);
    }
}

#[test]
fn segment_reaches_only_the_connection_of_its_quad() {
    let mut table = table_with_one_connection();
    assert!(matches!(
        table.dispatch(&inbound(55001, 5000, 0, true, false, &[])),
        Ok(Disposition::Opened { .. })
    ));
    let other = table.get(&peer_quad(55001)).unwrap();
    let iss = other.send.iss;
    assert_eq!(
        table.dispatch(&inbound(55000, 1001, iss.wrapping_add(1), false, true, &[])),
        Ok(Disposition::Delivered { advanced: true })
    );
    assert_eq!(table.get(&peer_quad(55000)).unwrap().state, State::Established);
    assert_eq!(table.get(&peer_quad(55001)), Some(other));
    assert_eq!(table.len(), 2);
}

#[test]
fn established_connection_stays_in_the_table() {
    let mut table = table_with_one_connection();
    let iss = table.get(&peer_quad(55000)).unwrap().send.iss;
    let ack = inbound(55000, 1001, iss.wrapping_add(1), false, true, &[]);
    assert_eq!(table.dispatch(&ack), Ok(Disposition::Delivered { advanced: true }));
    let established = table.get(&peer_quad(55000)).unwrap();
    for frame in [ack, inbound(55000, 1001, 999, false, true, b"payload")] {
        assert_eq!(table.dispatch(&frame), Ok(Disposition::Delivered { advanced: false }));
        assert_eq!(table.get(&peer_quad(55000)), Some(established));
        assert_eq!(table.len(), 1);
    }
}

#[test]
fn malformed_frames_are_dropped_and_change_nothing() {
    let mut table = table_with_one_connection();
    let before = table.get(&peer_quad(55000));
    let good = inbound(55000, 1001, 1, false, true, &[]);

    let mut wrong_version = good.clone();
    wrong_version[0] = 0x65;
    let mut short_header = good.clone();
    short_header[0] = 0x44;
    let mut bad_offset = good.clone();
    bad_offset[32] = 0x40;
    let mut udp = good.clone();
    udp[9] = 17;

    let cases: Vec<(Vec<u8>, Rejection)> = vec![
        (vec![], Rejection::BadIpHeader),
        (vec![0x45], Rejection::BadIpHeader),
        (good[..19].to_vec(), Rejection::BadIpHeader),
        (wrong_version, Rejection::NotIpv4),
        (short_header, Rejection::BadIpHeader),
        (vec![0xff; 64], Rejection::NotIpv4),
        (vec![0x00; 64], Rejection::NotIpv4),
        (vec![0x4f; 59], Rejection::BadIpHeader),
        (udp, Rejection::NotTcp),
        (good[..20].to_vec(), Rejection::BadTcpHeader),
        (good[..39].to_vec(), Rejection::BadTcpHeader),
        (bad_offset, Rejection::BadTcpHeader),
    ];
    for (frame, why) in cases {
        assert_eq!(table.dispatch(&frame), Ok(Disposition::Dropped(why)));
        assert_eq!(table.len(), 1);
        assert_eq!(table.get(&peer_quad(55000)), before);
    }
}

#[test]
fn dispatch_goes_on_after_a_malformed_frame() {
    let mut table = ConnectionTable::new();
    let frames = [
        vec![0u8; 3],
        inbound(55000, 1000, 0, true, false, &[]),
        vec![0x45; 25],
        inbound(55000, 1001, 1, false, true, &[]),
    ];
    let outcomes: Vec<Result<Disposition, DispatchError>> =
        frames.iter().map(|frame| table.dispatch(frame)).collect();
    assert_eq!(outcomes[0], Ok(Disposition::Dropped(Rejection::BadIpHeader)));
    assert!(matches!(outcomes[1], Ok(Disposition::Opened { .. })));
    assert!(matches!(outcomes[2], Ok(Disposition::Dropped(_))));
    assert_eq!(outcomes[3], Ok(Disposition::Delivered { advanced: true }));
    assert_eq!(table.get(&peer_quad(55000)).unwrap().state, State::Established);
}

#[test]
fn payload_is_all_that_follows_the_two_headers() {
    // With options in the TCP header the SYN still has no payload and opens.
    let mut tcp = etherparse::TcpHeader::new(55000, 80, 1000, 64240);
    tcp.syn = true;
    tcp.set_options(&[etherparse::TcpOptionElement::MaximumSegmentSize(1460)]).unwrap();
    let ip = etherparse::Ipv4Header::new(
        tcp.header_len(),
        64,
        etherparse::IpTrafficClass::Tcp,
        PEER_ADDR,
        HOST_ADDR,
    );
    let mut frame = Vec::new();
    ip.write(&mut frame).unwrap();
    tcp.write(&mut frame).unwrap();
    assert_eq!(frame.len(), 44);

    let mut table = ConnectionTable::new();
    assert!(matches!(table.dispatch(&frame), Ok(Disposition::Opened { .. })));

    // One byte after the headers is payload, and the SYN opens nothing.
    frame.push(0);
    let mut table = ConnectionTable::new();
    assert_eq!(table.dispatch(&frame), Ok(Disposition::Unsolicited));
}
