use rcore_n::net::{
    analysis_tcp, arp_reply, build_arp_repr, build_eth_frame, build_eth_repr, build_ipv4_repr,
    build_tcp_ack_repr, build_tcp_repr, parse_frame, NetStack, RxFrame, TcpCtl, ARP_REPLY,
    ETHERTYPE_ARP, ETHERTYPE_IPV4, IP_PROTOCOL_TCP,
};
use rcore_n::ports::{accept, accept_syn, install_connection, listen, ListenTable};
use rcore_n::sockets::{add_socket, SeqNumber, Socket, TcpSegment};

const PEER_MAC: [u8; 6] = [0x02, 0x11, 0x22, 0x33, 0x44, 0x55];
const PEER_IP: u32 = 0xAC10_0101; // 172.16.1.1
const OWN_MAC: [u8; 6] = [0x00, 0x0A, 0x35, 0x01, 0x02, 0x03];
const OWN_IP: u32 = 0xAC10_0102; // 172.16.1.2

fn arp_frame(operation: u16) -> Vec<u8> {
    let mut f = vec![0xff; 6];
    f.extend_from_slice(&PEER_MAC);
    f.extend_from_slice(&[0x08, 0x06]);
    f.extend_from_slice(&[0x00, 0x01, 0x08, 0x00, 6, 4]);
    f.extend_from_slice(&operation.to_be_bytes());
    f.extend_from_slice(&PEER_MAC);
    f.extend_from_slice(&PEER_IP.to_be_bytes());
    f.extend_from_slice(&[0; 6]);
    f.extend_from_slice(&OWN_IP.to_be_bytes());
    f
}

/// A frame from the peer to us carrying a TCP segment.
fn tcp_frame(control: TcpCtl, seq: i32, ack: Option<i32>, payload: &[u8]) -> Vec<u8> {
    let tcp = build_tcp_repr(40000, 80, control, SeqNumber(seq), ack.map(SeqNumber), payload.to_vec());
    let ip = build_ipv4_repr(PEER_IP, OWN_IP, IP_PROTOCOL_TCP, 24 + payload.len());
    let eth = build_eth_repr(PEER_MAC, OWN_MAC, ETHERTYPE_IPV4);
    build_eth_frame(eth, None, Some((ip, tcp))).unwrap()
}

fn segment_of(frame: &[u8]) -> TcpSegment {
    match parse_frame(frame) {
        RxFrame::Tcp { seg: Some(s), .. } => s,
        _ => panic!("not a TCP frame"),
    }
}

#[test]
fn default_stack_addresses() {
    let s = NetStack::default();
    assert_eq!(s.mac_addr, OWN_MAC);
    assert_eq!(s.ipv4_addr, OWN_IP);
}

#[test]
fn arp_reply_frame_bytes() {
    let arp = build_arp_repr(OWN_MAC, OWN_IP, PEER_MAC, PEER_IP);
    assert_eq!(arp.operation, ARP_REPLY);
    let eth = build_eth_repr(OWN_MAC, PEER_MAC, ETHERTYPE_ARP);
    let frame = build_eth_frame(eth, Some(arp), None).unwrap();
    let mut expected = PEER_MAC.to_vec();
    expected.extend_from_slice(&OWN_MAC);
    expected.extend_from_slice(&[0x08, 0x06, 0x00, 0x01, 0x08, 0x00, 6, 4, 0x00, 0x02]);
    expected.extend_from_slice(&OWN_MAC);
    expected.extend_from_slice(&[172, 16, 1, 2]);
    expected.extend_from_slice(&PEER_MAC);
    expected.extend_from_slice(&[172, 16, 1, 1]);
    assert_eq!(frame, expected);
    assert_eq!(arp_reply(&NetStack::default(), &PEER_MAC.to_vec(), &vec![172, 16, 1, 1]), expected);
    assert!(build_eth_frame(eth, None, None).is_none());
}

#[test]
fn parse_arp_frames() {
    match parse_frame(&arp_frame(1)) {
        RxFrame::ArpRequest { sender_mac, sender_ip } => {
            assert_eq!(sender_mac, PEER_MAC.to_vec());
            assert_eq!(sender_ip, vec![172, 16, 1, 1]);
        }
        _ => panic!("expected an ARP request"),
    }
    assert!(matches!(parse_frame(&arp_frame(2)), RxFrame::ArpOther));
    // an ARP message cut short is ignored
    let f = arp_frame(1);
    assert!(matches!(parse_frame(&f[..30]), RxFrame::Ignored));
}

#[test]
fn parse_other_frames() {
    assert!(matches!(parse_frame(&[0u8; 10]), RxFrame::Ignored));
    let mut f = arp_frame(1);
    f[12] = 0x86;
    f[13] = 0xdd;
    assert!(matches!(parse_frame(&f), RxFrame::Ignored));
    // IPv4 cut short of its header, or of the length its header gives
    let g = tcp_frame(TcpCtl::Syn, 1, None, b"");
    assert!(matches!(parse_frame(&g[..30]), RxFrame::Ignored));
    assert!(matches!(parse_frame(&g[..g.len() - 1]), RxFrame::Ignored));
    // IPv4 carrying another protocol
    let mut h = g.clone();
    h[23] = 17;
    assert!(matches!(parse_frame(&h), RxFrame::Ignored));
}

#[test]
fn parse_tcp_frame_round_trip() {
    let f = tcp_frame(TcpCtl::Psh, 1000, Some(77), b"hi");
    match parse_frame(&f) {
        RxFrame::Tcp { src_mac, src_ip, dst_ip, seg } => {
            assert_eq!(src_mac, PEER_MAC);
            assert_eq!(src_ip, PEER_IP);
            assert_eq!(dst_ip, OWN_IP);
            let s = seg.unwrap();
            assert_eq!((s.src_port, s.dst_port), (40000, 80));
            assert!(s.seq_number == SeqNumber(1000));
            assert!(s.ack && s.ack_number == SeqNumber(77));
            assert!(s.psh && !s.syn && !s.fin);
            assert_eq!(s.payload, b"hi".to_vec());
        }
        _ => panic!("expected a TCP frame"),
    }
}

#[test]
fn ack_of_a_syn() {
    let seg = segment_of(&tcp_frame(TcpCtl::Syn, 500, None, b""));
    let ack = build_tcp_ack_repr(&seg);
    assert_eq!((ack.src_port, ack.dst_port), (80, 40000));
    assert!(ack.control == TcpCtl::Syn);
    assert!(ack.seq_number == SeqNumber(0));
    assert!(ack.ack_number == Some(SeqNumber(501)));
    assert_eq!(ack.window_scale, Some(8));
    assert_eq!(ack.max_seg_size, Some(1460));
    assert!(ack.payload.is_empty());
}

#[test]
fn syn_is_answered_only_when_accepted() {
    let stack = NetStack::default();
    let seg = segment_of(&tcp_frame(TcpCtl::Syn, 500, None, b""));
    let mut table: Vec<Option<Socket>> = Vec::new();
    let r = analysis_tcp(&stack, PEER_MAC, PEER_IP, OWN_IP, &seg, &mut table, false);
    assert!(r.frames.is_none() && r.woken.is_none());
    let r = analysis_tcp(&stack, PEER_MAC, PEER_IP, OWN_IP, &seg, &mut table, true);
    let frames = r.frames.unwrap();
    assert_eq!(frames.len(), 1);
    match parse_frame(&frames[0]) {
        RxFrame::Tcp { src_mac, src_ip, dst_ip, seg: Some(reply) } => {
            assert_eq!(src_mac, OWN_MAC);
            assert_eq!((src_ip, dst_ip), (OWN_IP, PEER_IP));
            assert!(reply.syn && reply.ack);
            assert!(reply.ack_number == SeqNumber(501));
            assert_eq!((reply.src_port, reply.dst_port), (80, 40000));
        }
        _ => panic!("expected the acknowledgement"),
    }
    assert_eq!(&frames[0][0..6], &PEER_MAC);
}

#[test]
fn fin_is_acknowledged() {
    let stack = NetStack::default();
    let seg = segment_of(&tcp_frame(TcpCtl::Fin, 900, Some(5), b""));
    let mut table: Vec<Option<Socket>> = Vec::new();
    let r = analysis_tcp(&stack, PEER_MAC, PEER_IP, OWN_IP, &seg, &mut table, false);
    let reply = segment_of(&r.frames.unwrap()[0]);
    assert!(reply.fin && reply.ack);
    assert!(reply.seq_number == SeqNumber(5));
    assert!(reply.ack_number == SeqNumber(901));
}

#[test]
fn data_is_delivered_to_its_connection() {
    let stack = NetStack::default();
    let mut table: Vec<Option<Socket>> = Vec::new();
    // the connection as the kernel knows it: remote address, then the
    // segment's source port and destination port
    add_socket(&mut table, PEER_IP, 40000, 80, SeqNumber(0), Some(SeqNumber(1000)));
    table[0].as_mut().unwrap().block_task = Some(9);
    let seg = segment_of(&tcp_frame(TcpCtl::Psh, 1000, Some(3), b"hello"));
    let r = analysis_tcp(&stack, PEER_MAC, PEER_IP, OWN_IP, &seg, &mut table, false);
    assert_eq!(r.woken, Some(9));
    let reply = segment_of(&r.frames.unwrap()[0]);
    assert!(reply.ack_number == SeqNumber(1005));
    let s = table[0].as_ref().unwrap();
    assert!(s.ack == Some(SeqNumber(1005)));
    assert_eq!(s.buffers.len(), 1);
    assert_eq!(s.buffers[0], b"hello".to_vec());

    // a segment that is not the next one expected is acknowledged only
    let stale = segment_of(&tcp_frame(TcpCtl::Psh, 1000, Some(3), b"hello"));
    let r = analysis_tcp(&stack, PEER_MAC, PEER_IP, OWN_IP, &stale, &mut table, false);
    assert!(r.frames.is_some() && r.woken.is_none());
    assert_eq!(table[0].as_ref().unwrap().buffers.len(), 1);
}

#[test]
fn segments_without_reply() {
    let stack = NetStack::default();
    let mut table: Vec<Option<Socket>> = Vec::new();
    // data for an unknown connection
    let seg = segment_of(&tcp_frame(TcpCtl::Psh, 1, Some(1), b"x"));
    let r = analysis_tcp(&stack, PEER_MAC, PEER_IP, OWN_IP, &seg, &mut table, false);
    assert!(r.frames.is_none() && r.woken.is_none());
    // a bare acknowledgement
    let seg = segment_of(&tcp_frame(TcpCtl::NoControl, 1, Some(1), b""));
    let r = analysis_tcp(&stack, PEER_MAC, PEER_IP, OWN_IP, &seg, &mut table, false);
    assert!(r.frames.is_none() && r.woken.is_none());
}

#[test]
fn accepting_a_syn_records_the_connection_and_wakes_the_task() {
    let mut ports = ListenTable::new();
    let index = listen(&mut ports, 80).unwrap();
    let mut sockets: Vec<Option<Socket>> = Vec::new();
    let seg = segment_of(&tcp_frame(TcpCtl::Syn, 1000, None, &[]));
    // nobody waits on the port yet: refused, nothing recorded
    assert!(accept_syn(&mut ports, &mut sockets, PEER_IP, &seg).is_none());
    assert!(sockets.is_empty());
    accept(&mut ports, index, 7);
    assert_eq!(accept_syn(&mut ports, &mut sockets, PEER_IP, &seg), Some((7, 0)));
    let s = sockets[0].as_ref().unwrap();
    assert_eq!((s.raddr, s.lport, s.rport), (PEER_IP, 40000, 80));
    assert!(s.seq == SeqNumber(0));
    // the SYN takes one number of the sequence space
    assert!(s.ack == Some(SeqNumber(1001)));
    // the slot no longer accepts
    assert!(accept_syn(&mut ports, &mut sockets, PEER_IP, &seg).is_none());
    // the connection's descriptor goes to the lowest free one
    let mut fds = vec![Some(10usize), None, Some(12)];
    assert_eq!(install_connection(&mut fds, 0), 1);
    assert_eq!(fds, vec![Some(10), Some(0), Some(12)]);
    assert_eq!(install_connection(&mut fds, 5), 3);
    assert_eq!(fds, vec![Some(10), Some(0), Some(12), Some(5)]);
}
