//! The kernel's network replies: answering ARP requests for its own
//! address, and acknowledging TCP segments, with frames built and parsed by
//! the `smoltcp` crate.
use vstd::prelude::*;
use crate::sockets::{
    find_socket_from, get_s_a_by_index, get_socket, lemma_seq_add_advances, push_data, seq_add,
    segment_len_spec, SeqNumber,
    Socket, TcpSegment, TcpSegmentView,
};
use smoltcp::phy::ChecksumCapabilities;
use smoltcp::wire::{
    ArpOperation, ArpPacket, ArpRepr, EthernetAddress, EthernetFrame, EthernetProtocol,
    EthernetRepr, IpAddress, IpProtocol, Ipv4Address, Ipv4Packet, Ipv4Repr, TcpControl,
    TcpPacket, TcpRepr, TcpSeqNumber,
};
use self::TcpCtl::{Fin, NoControl, Psh, Rst, Syn};

verus! {

/// Length of an Ethernet header.
pub const ETHERNET_HEADER_LEN: usize = 14;
/// Length of an IPv4 header without options.
pub const IPV4_HEADER_LEN: usize = 20;
/// Length of an Ethernet/IPv4 ARP message.
pub const ARP_LEN: usize = 28;
/// EtherType of IPv4.
pub const ETHERTYPE_IPV4: u16 = 0x0800;
/// EtherType of ARP.
pub const ETHERTYPE_ARP: u16 = 0x0806;
/// IP protocol number of TCP.
pub const IP_PROTOCOL_TCP: u8 = 6;
/// ARP operation: request.
pub const ARP_REQUEST: u16 = 1;
/// ARP operation: reply.
pub const ARP_REPLY: u16 = 2;

/// The kernel's own link and network address.
pub struct NetStack {
    pub mac_addr: [u8; 6],
    pub ipv4_addr: u32,
}

impl Default for NetStack {
    /// MAC 00:0A:35:01:02:03, IPv4 172.16.1.2.
    fn default() -> (r: Self)
        ensures
            r.mac_addr@ == seq![0x00u8, 0x0A, 0x35, 0x01, 0x02, 0x03],
            r.ipv4_addr == 0xAC10_0102,
    {
        NetStack { mac_addr: [0x00, 0x0A, 0x35, 0x01, 0x02, 0x03], ipv4_addr: 0xAC10_0102 }
    }
}

/// An Ethernet header to emit.
#[derive(Clone, Copy)]
pub struct EthRepr {
    pub src_addr: [u8; 6],
    pub dst_addr: [u8; 6],
    pub ethertype: u16,
}

/// An Ethernet/IPv4 ARP message to emit.
#[derive(Clone, Copy)]
pub struct ArpMsg {
    pub operation: u16,
    pub source_hardware_addr: [u8; 6],
    pub source_protocol_addr: u32,
    pub target_hardware_addr: [u8; 6],
    pub target_protocol_addr: u32,
}

/// An IPv4 header to emit.
#[derive(Clone, Copy, PartialEq, Eq, Structural)]
pub struct Ipv4Hdr {
    pub src_addr: u32,
    pub dst_addr: u32,
    pub next_header: u8,
    pub payload_len: usize,
    pub hop_limit: u8,
}

/// The control flag of a TCP segment to emit.
#[derive(Clone, Copy, PartialEq, Eq, Structural)]
pub enum TcpCtl {
    NoControl,
    Psh,
    Syn,
    Fin,
    Rst,
}

/// A TCP segment to emit; it never carries selective-acknowledgement
/// ranges.
pub struct TcpSegRepr {
    pub src_port: u16,
    pub dst_port: u16,
    pub control: TcpCtl,
    pub seq_number: SeqNumber,
    pub ack_number: Option<SeqNumber>,
    pub window_len: u16,
    pub window_scale: Option<u8>,
    pub max_seg_size: Option<u16>,
    pub sack_permitted: bool,
    pub payload: Vec<u8>,
}

/// Abstract value of a [`TcpSegRepr`].
pub struct TcpSegReprView {
    pub src_port: u16,
    pub dst_port: u16,
    pub control: TcpCtl,
    pub seq_number: SeqNumber,
    pub ack_number: Option<SeqNumber>,
    pub window_len: u16,
    pub window_scale: Option<u8>,
    pub max_seg_size: Option<u16>,
    pub sack_permitted: bool,
    pub payload: Seq<u8>,
}

impl View for TcpSegRepr {
    type V = TcpSegReprView;

    open spec fn view(&self) -> TcpSegReprView {
        TcpSegReprView {
            src_port: self.src_port,
            dst_port: self.dst_port,
            control: self.control,
            seq_number: self.seq_number,
            ack_number: self.ack_number,
            window_len: self.window_len,
            window_scale: self.window_scale,
            max_seg_size: self.max_seg_size,
            sack_permitted: self.sack_permitted,
            payload: self.payload@,
        }
    }
}

/// Length of the TCP header emitted for `r`: 20 bytes, 4 more for a
/// maximum segment size, 3 for a window scale, 2 for permitting selective
/// acknowledgements, rounded up to a multiple of 4.
pub open spec fn tcp_header_len_spec(r: TcpSegReprView) -> int {
    let l = 20 + (if r.max_seg_size is Some {
        4int
    } else {
        0
    }) + (if r.window_scale is Some {
        3int
    } else {
        0
    }) + (if r.sack_permitted {
        2int
    } else {
        0
    });
    if l % 4 != 0 {
        l + 4 - l % 4
    } else {
        l
    }
}

/// The two bytes of `v`, most significant first.
pub open spec fn be16(v: u16) -> Seq<u8> {
    seq![(v / 256) as u8, (v % 256) as u8]
}

/// The four bytes of `v`, most significant first.
pub open spec fn be32(v: u32) -> Seq<u8> {
    seq![
        (v / 0x100_0000) as u8,
        ((v / 0x1_0000) % 256) as u8,
        ((v / 256) % 256) as u8,
        (v % 256) as u8,
    ]
}

/// The bytes of the Ethernet header `h`: destination, source, EtherType.
pub open spec fn eth_header_bytes(h: EthRepr) -> Seq<u8> {
    h.dst_addr@ + h.src_addr@ + be16(h.ethertype)
}

/// The bytes of the Ethernet/IPv4 ARP message `a`.
pub open spec fn arp_bytes(a: ArpMsg) -> Seq<u8> {
    be16(1) + be16(0x0800) + seq![6u8, 4u8] + be16(a.operation) + a.source_hardware_addr@ + be32(
        a.source_protocol_addr,
    ) + a.target_hardware_addr@ + be32(a.target_protocol_addr)
}

/// The 20 bytes `smoltcp` emits for the IPv4 header `h`, checksum included.
pub uninterp spec fn ipv4_header_bytes(h: Ipv4Hdr) -> Seq<u8>;

/// The bytes `smoltcp` emits for the TCP segment `r` sent from `src_ip` to
/// `dst_ip`, checksum included.
pub uninterp spec fn tcp_segment_bytes(src_ip: u32, dst_ip: u32, r: TcpSegReprView) -> Seq<u8>;

/// Length of the segment `smoltcp` emits for `r`, from `TcpRepr::buffer_len`:
/// the header length that `tcp_header_len_spec` states, as the crate's
/// source computes it for a segment without selective-acknowledgement
/// ranges, plus the payload.
#[verifier::external_body]
fn tcp_buffer_len(r: &TcpSegRepr) -> (n: usize)
    ensures
        n == tcp_header_len_spec(r@) + r.payload@.len(),
{
    TcpRepr { src_port: r.src_port, dst_port: r.dst_port, control: TcpControl::None,
        seq_number: TcpSeqNumber(r.seq_number.0), ack_number: r.ack_number.map(|a| TcpSeqNumber(a.0)),
        window_len: r.window_len, window_scale: r.window_scale, max_seg_size: r.max_seg_size,
        sack_permitted: r.sack_permitted, sack_ranges: [None; 3], payload: &r.payload }.buffer_len()
}

/// Emits the segment `r` sent from `src_ip` to `dst_ip` with
/// `TcpRepr::emit` of `smoltcp`, checksum included, into a buffer of
/// `TcpRepr::buffer_len` bytes. The contract names the bytes.
#[verifier::external_body]
fn emit_tcp(src_ip: u32, dst_ip: u32, r: &TcpSegRepr) -> (b: Vec<u8>)
    ensures
        b@ == tcp_segment_bytes(src_ip, dst_ip, r@),
        b@.len() == tcp_header_len_spec(r@) + r.payload@.len(),
{
    let control = match r.control { NoControl => TcpControl::None, Psh => TcpControl::Psh, Syn => TcpControl::Syn,
        Fin => TcpControl::Fin, Rst => TcpControl::Rst };
    let repr = TcpRepr { src_port: r.src_port, dst_port: r.dst_port, control,
        seq_number: TcpSeqNumber(r.seq_number.0), ack_number: r.ack_number.map(|a| TcpSeqNumber(a.0)),
        window_len: r.window_len, window_scale: r.window_scale, max_seg_size: r.max_seg_size,
        sack_permitted: r.sack_permitted, sack_ranges: [None; 3], payload: &r.payload };
    let mut buf = vec![0u8; repr.buffer_len()];
    repr.emit(&mut TcpPacket::new_unchecked(&mut buf), &IpAddress::Ipv4(Ipv4Address(src_ip.to_be_bytes())),
        &IpAddress::Ipv4(Ipv4Address(dst_ip.to_be_bytes())), &ChecksumCapabilities::default());
    buf
}

/// Emits the IPv4 header `h` with `Ipv4Repr::emit` of `smoltcp`, checksum
/// included, into 20 bytes. The contract names the bytes.
#[verifier::external_body]
fn emit_ipv4_header(h: Ipv4Hdr) -> (b: Vec<u8>)
    requires
        (h.payload_len as u16) + 20 <= u16::MAX,
    ensures
        b@ == ipv4_header_bytes(h),
        b@.len() == IPV4_HEADER_LEN,
{
    let repr = Ipv4Repr { src_addr: Ipv4Address::from_bytes(&h.src_addr.to_be_bytes()),
        dst_addr: Ipv4Address::from_bytes(&h.dst_addr.to_be_bytes()), next_header: IpProtocol::from(h.next_header),
        payload_len: h.payload_len, hop_limit: h.hop_limit };
    let mut buf = vec![0u8; IPV4_HEADER_LEN];
    repr.emit(&mut Ipv4Packet::new_unchecked(&mut buf[..]), &ChecksumCapabilities::default());
    buf
}

/// Emits the Ethernet header `h` with `EthernetRepr::emit` of `smoltcp`:
/// destination, source, then the EtherType, most significant byte first.
#[verifier::external_body]
fn emit_eth_header(h: EthRepr) -> (b: Vec<u8>)
    ensures
        b@ == eth_header_bytes(h),
{
    let repr = EthernetRepr { src_addr: EthernetAddress(h.src_addr), dst_addr: EthernetAddress(h.dst_addr),
        ethertype: EthernetProtocol::from(h.ethertype) };
    let mut buf = vec![0u8; ETHERNET_HEADER_LEN];
    repr.emit(&mut EthernetFrame::new_unchecked(&mut buf[..]));
    buf
}

/// Emits the ARP message `a` with `ArpRepr::emit` of `smoltcp`: hardware
/// type Ethernet, protocol IPv4, address lengths 6 and 4, the operation,
/// then the four addresses, numbers most significant byte first.
#[verifier::external_body]
fn emit_arp(a: ArpMsg) -> (b: Vec<u8>)
    ensures
        b@ == arp_bytes(a),
{
    let repr = ArpRepr::EthernetIpv4 { operation: ArpOperation::from(a.operation),
        source_hardware_addr: EthernetAddress(a.source_hardware_addr),
        source_protocol_addr: Ipv4Address::from_bytes(&a.source_protocol_addr.to_be_bytes()),
        target_hardware_addr: EthernetAddress(a.target_hardware_addr),
        target_protocol_addr: Ipv4Address::from_bytes(&a.target_protocol_addr.to_be_bytes()) };
    let mut buf = vec![0u8; ARP_LEN];
    repr.emit(&mut ArpPacket::new_unchecked(&mut buf[..]));
    buf
}

/// The IPv4 header fields `smoltcp` reads from the Ethernet frame `frame`
/// (protocol, source, destination), when its payload is a well-formed IPv4
/// packet.
pub uninterp spec fn ipv4_info_of(frame: Seq<u8>) -> Option<(u8, u32, u32)>;

/// The TCP segment `smoltcp` reads from the IPv4 payload of the Ethernet
/// frame `frame`, when it is well formed.
pub uninterp spec fn tcp_segment_of(frame: Seq<u8>) -> Option<TcpSegmentView>;

/// The big-endian number of two bytes.
pub open spec fn be16_value(b: Seq<u8>) -> int {
    b[0] * 256 + b[1]
}

/// Reads the Ethernet header of `frame` with `EthernetFrame::new_checked`
/// of `smoltcp`: nothing when the frame is shorter than a header, else its
/// EtherType (bytes 12 and 13, most significant first) and source address
/// (bytes 6 to 11).
#[verifier::external_body]
fn read_ethernet(frame: &[u8]) -> (r: Option<(u16, [u8; 6])>)
    ensures
        r is None <==> frame@.len() < ETHERNET_HEADER_LEN,
        r matches Some(h) ==> h.0 == be16_value(frame@.subrange(12, 14)) && h.1@ == frame@.subrange(6, 12),
{
    let f = EthernetFrame::new_checked(frame).ok()?;
    Some((u16::from(f.ethertype()), f.src_addr().0))
}

/// An ARP message as received: operation, sender hardware and protocol
/// addresses.
pub struct ArpInfo {
    pub operation: u16,
    pub source_hardware_addr: Vec<u8>,
    pub source_protocol_addr: Vec<u8>,
}

/// The ARP message after the Ethernet header of `frame`.
pub open spec fn arp_part(frame: Seq<u8>) -> Seq<u8> {
    frame.subrange(14, frame.len() as int)
}

/// Whether the ARP message in `frame` holds its fixed part and the four
/// addresses whose lengths bytes 4 and 5 of the message give.
pub open spec fn arp_well_formed(frame: Seq<u8>) -> bool {
    let p = arp_part(frame);
    p.len() >= 8 && p.len() >= 8 + 2 * p[4] + 2 * p[5]
}

/// Reads the ARP message after the Ethernet header of `frame` with
/// `ArpPacket::new_checked` of `smoltcp`: nothing when the message is
/// shorter than its fixed part or than its addresses, whose lengths bytes 4
/// and 5 give; else the operation (bytes 6 and 7) and the sender's
/// addresses that follow.
#[verifier::external_body]
fn read_arp(frame: &[u8]) -> (r: Option<ArpInfo>)
    requires
        frame@.len() >= ETHERNET_HEADER_LEN,
    ensures
        r is None <==> !arp_well_formed(frame@),
        r matches Some(a) ==> a.operation == be16_value(arp_part(frame@).subrange(6, 8)),
        r matches Some(a) ==> a.source_hardware_addr@ == arp_part(frame@).subrange(8, 8 + arp_part(frame@)[4]),
        r matches Some(a) ==> a.source_protocol_addr@ == arp_part(frame@).subrange(
            8 + arp_part(frame@)[4],
            8 + arp_part(frame@)[4] + arp_part(frame@)[5],
        ),
{
    let p = ArpPacket::new_checked(&frame[ETHERNET_HEADER_LEN..]).ok()?;
    Some(ArpInfo { operation: u16::from(p.operation()), source_hardware_addr: p.source_hardware_addr().to_vec(),
        source_protocol_addr: p.source_protocol_addr().to_vec() })
}

/// Reads the IPv4 header after the Ethernet header of `frame` with
/// `Ipv4Packet::new_checked` of `smoltcp`: protocol, source and
/// destination, or nothing when the packet is malformed. The contract
/// names the result.
#[verifier::external_body]
fn read_ipv4(frame: &[u8]) -> (r: Option<(u8, u32, u32)>)
    requires
        frame@.len() >= ETHERNET_HEADER_LEN,
    ensures
        r == ipv4_info_of(frame@),
{
    let p = Ipv4Packet::new_checked(&frame[ETHERNET_HEADER_LEN..]).ok()?;
    Some((u8::from(p.next_header()), u32::from_be_bytes(p.src_addr().0), u32::from_be_bytes(p.dst_addr().0)))
}

/// Reads the TCP segment in the IPv4 payload of `frame` with
/// `TcpPacket::new_checked` of `smoltcp`: ports, numbers, window, flags and
/// payload, or nothing when the segment is malformed. The contract names
/// the result.
#[verifier::external_body]
fn read_tcp(frame: &[u8]) -> (r: Option<TcpSegment>)
    requires
        frame@.len() >= ETHERNET_HEADER_LEN,
        ipv4_info_of(frame@) is Some,
    ensures
        match r {
            Some(s) => tcp_segment_of(frame@) == Some(s@),
            None => tcp_segment_of(frame@) is None,
        },
{
    let ip = Ipv4Packet::new_checked(&frame[ETHERNET_HEADER_LEN..]).ok()?;
    let t = TcpPacket::new_checked(ip.payload()).ok()?;
    Some(TcpSegment { src_port: t.src_port(), dst_port: t.dst_port(), seq_number: SeqNumber(t.seq_number().0),
        ack_number: SeqNumber(t.ack_number().0), window_len: t.window_len(), syn: t.syn(), fin: t.fin(),
        psh: t.psh(), ack: t.ack(), payload: t.payload().to_vec() })
}

/// A received frame, as far as the kernel's network handler reads it.
pub enum RxFrame {
    /// A frame the handler does not answer: too short, of another type, a
    /// malformed ARP or IPv4 message, or IPv4 carrying another protocol.
    Ignored,
    /// An ARP message that is not a request.
    ArpOther,
    /// An ARP request, with the sender's addresses.
    ArpRequest { sender_mac: Vec<u8>, sender_ip: Vec<u8> },
    /// A TCP segment from `src_mac` and `src_ip` to `dst_ip`; `None` when
    /// the segment is malformed.
    Tcp { src_mac: [u8; 6], src_ip: u32, dst_ip: u32, seg: Option<TcpSegment> },
}

/// Reads the received Ethernet frame `frame` through `smoltcp`.
pub fn parse_frame(frame: &[u8]) -> (r: RxFrame)
    ensures
        frame@.len() < ETHERNET_HEADER_LEN ==> r is Ignored,
        frame@.len() >= ETHERNET_HEADER_LEN ==> {
            let t = be16_value(frame@.subrange(12, 14));
            let p = frame@.subrange(14, frame@.len() as int);
            &&& (t != ETHERTYPE_ARP && t != ETHERTYPE_IPV4) ==> r is Ignored
            &&& t == ETHERTYPE_ARP ==> {
                let hl = if p.len() >= 8 { p[4] as int } else { 0 };
                let pl = if p.len() >= 8 { p[5] as int } else { 0 };
                if p.len() < 8 || p.len() < 8 + 2 * hl + 2 * pl {
                    r is Ignored
                } else if be16_value(p.subrange(6, 8)) == ARP_REQUEST {
                    r matches RxFrame::ArpRequest { sender_mac, sender_ip } && sender_mac@
                        == p.subrange(8, 8 + hl) && sender_ip@ == p.subrange(8 + hl, 8 + hl + pl)
                } else {
                    r is ArpOther
                }
            }
            &&& t == ETHERTYPE_IPV4 ==> match ipv4_info_of(frame@) {
                None => r is Ignored,
                Some(ip) => if ip.0 != IP_PROTOCOL_TCP {
                    r is Ignored
                } else {
                    r matches RxFrame::Tcp { src_mac, src_ip, dst_ip, seg } && src_mac@ == frame@.subrange(6, 12)
                        && src_ip == ip.1 && dst_ip == ip.2 && match seg {
                        Some(s) => tcp_segment_of(frame@) == Some(s@),
                        None => tcp_segment_of(frame@) is None,
                    }
                },
            }
        },
{
    let (ethertype, src_mac) = match read_ethernet(frame) {
        Some(h) => h,
        None => {
            return RxFrame::Ignored;
        },
    };
    if ethertype == ETHERTYPE_ARP {
        match read_arp(frame) {
            Some(a) => {
                if a.operation == ARP_REQUEST {
                    RxFrame::ArpRequest { sender_mac: a.source_hardware_addr, sender_ip: a.source_protocol_addr }
                } else {
                    RxFrame::ArpOther
                }
            },
            None => RxFrame::Ignored,
        }
    } else if ethertype == ETHERTYPE_IPV4 {
        match read_ipv4(frame) {
            Some((proto, src_ip, dst_ip)) => {
                if proto != IP_PROTOCOL_TCP {
                    RxFrame::Ignored
                } else {
                    let seg = read_tcp(frame);
                    RxFrame::Tcp { src_mac, src_ip, dst_ip, seg }
                }
            },
            None => RxFrame::Ignored,
        }
    } else {
        RxFrame::Ignored
    }
}

/// An Ethernet header from `src_mac_addr` to `dst_mac_addr` of type
/// `ethertype`.
pub fn build_eth_repr(src_mac_addr: [u8; 6], dst_mac_addr: [u8; 6], ethertype: u16) -> (r: EthRepr)
    ensures
        r.src_addr == src_mac_addr,
        r.dst_addr == dst_mac_addr,
        r.ethertype == ethertype,
{
    EthRepr { src_addr: src_mac_addr, dst_addr: dst_mac_addr, ethertype }
}

/// An ARP reply from `src_mac_addr`/`src_ip` to `dst_mac_addr`/`dst_ip`.
pub fn build_arp_repr(src_mac_addr: [u8; 6], src_ip: u32, dst_mac_addr: [u8; 6], dst_ip: u32) -> (r: ArpMsg)
    ensures
        r.operation == ARP_REPLY,
        r.source_hardware_addr == src_mac_addr,
        r.source_protocol_addr == src_ip,
        r.target_hardware_addr == dst_mac_addr,
        r.target_protocol_addr == dst_ip,
{
    ArpMsg {
        operation: ARP_REPLY,
        source_hardware_addr: src_mac_addr,
        source_protocol_addr: src_ip,
        target_hardware_addr: dst_mac_addr,
        target_protocol_addr: dst_ip,
    }
}

/// An IPv4 header from `src_ip` to `dst_ip` carrying `payload_len` bytes of
/// `protocol`, with hop limit 128.
pub fn build_ipv4_repr(src_ip: u32, dst_ip: u32, protocol: u8, payload_len: usize) -> (r: Ipv4Hdr)
    ensures
        r == (Ipv4Hdr { src_addr: src_ip, dst_addr: dst_ip, next_header: protocol, payload_len, hop_limit: 128 }),
{
    Ipv4Hdr { src_addr: src_ip, dst_addr: dst_ip, next_header: protocol, payload_len, hop_limit: 128 }
}

/// The acknowledgement of the received segment `p`: ports swapped, the SYN
/// or FIN of `p` echoed, acknowledging `p`'s whole sequence space, numbered
/// by `p`'s acknowledgement (0 when `p` acknowledges nothing), `p`'s window,
/// window scale 8, maximum segment size 1460, no payload.
pub open spec fn tcp_ack_repr_spec(p: TcpSegmentView) -> TcpSegReprView {
    TcpSegReprView {
        src_port: p.dst_port,
        dst_port: p.src_port,
        control: if p.syn {
            TcpCtl::Syn
        } else if p.fin {
            TcpCtl::Fin
        } else {
            TcpCtl::NoControl
        },
        seq_number: if p.ack {
            p.ack_number
        } else {
            SeqNumber(0)
        },
        ack_number: Some(
            SeqNumber(
                seq_add(
                    p.seq_number.0,
                    p.payload.len() + (if p.syn {
                        1int
                    } else {
                        0
                    }) + (if p.fin {
                        1int
                    } else {
                        0
                    }),
                ),
            ),
        ),
        window_len: p.window_len,
        window_scale: Some(8),
        max_seg_size: Some(1460),
        sack_permitted: false,
        payload: Seq::empty(),
    }
}

/// The acknowledgement of the received segment `packet`; see
/// [`tcp_ack_repr_spec`].
pub fn build_tcp_ack_repr(packet: &TcpSegment) -> (r: TcpSegRepr)
    requires
        segment_len_spec(packet) <= i32::MAX,
    ensures
        r@ == tcp_ack_repr_spec(packet@),
        r.ack_number matches Some(a) && (a.0 - packet.seq_number.0) % 0x1_0000_0000
            == packet.payload@.len() + (if packet.syn {
            1int
        } else {
            0
        }) + (if packet.fin {
            1int
        } else {
            0
        }),
        r.src_port == packet.dst_port && r.dst_port == packet.src_port,
{
    let control = if packet.syn {
        TcpCtl::Syn
    } else if packet.fin {
        TcpCtl::Fin
    } else {
        TcpCtl::NoControl
    };
    let ack_number = packet.seq_number.add(packet.segment_len());
    let seq_number = if packet.ack {
        packet.ack_number
    } else {
        SeqNumber::default()
    };
    let r = TcpSegRepr {
        src_port: packet.dst_port,
        dst_port: packet.src_port,
        control,
        seq_number,
        ack_number: Some(ack_number),
        window_len: packet.window_len,
        window_scale: Some(8),
        max_seg_size: Some(1460),
        sack_permitted: false,
        payload: Vec::new(),
    };
    assert(r@.payload =~= Seq::<u8>::empty());
    proof {
        lemma_seq_add_advances(packet.seq_number.0, segment_len_spec(packet));
    }
    r
}

/// The acknowledgement of a segment acknowledges its whole length in
/// sequence space: its acknowledgement number lies the segment's payload
/// length, plus one for a SYN and one for a FIN, past the segment's
/// sequence number, whatever the flags; and it goes back to where the
/// segment came from.
pub proof fn lemma_ack_covers_whole_segment(p: TcpSegmentView)
    requires
        p.payload.len() + (if p.syn {
            1int
        } else {
            0
        }) + (if p.fin {
            1int
        } else {
            0
        }) <= i32::MAX,
    ensures
        tcp_ack_repr_spec(p).ack_number matches Some(a) && (a.0 - p.seq_number.0) % 0x1_0000_0000
            == p.payload.len() + (if p.syn {
            1int
        } else {
            0
        }) + (if p.fin {
            1int
        } else {
            0
        }),
        tcp_ack_repr_spec(p).src_port == p.dst_port,
        tcp_ack_repr_spec(p).dst_port == p.src_port,
{
    let n = p.payload.len() + (if p.syn {
        1int
    } else {
        0
    }) + (if p.fin {
        1int
    } else {
        0
    });
    lemma_seq_add_advances(p.seq_number.0, n);
}

/// A segment with window 1460 and maximum segment size 1460.
pub fn build_tcp_repr(
    src_port: u16,
    dst_port: u16,
    control: TcpCtl,
    seq_number: SeqNumber,
    ack_number: Option<SeqNumber>,
    payload: Vec<u8>,
) -> (r: TcpSegRepr)
    ensures
        r.src_port == src_port,
        r.dst_port == dst_port,
        r.control == control,
        r.seq_number == seq_number,
        r.ack_number == ack_number,
        r.window_len == 1460,
        r.window_scale is None,
        r.max_seg_size == Some(1460u16),
        !r.sack_permitted,
        r.payload@ == payload@,
{
    TcpSegRepr {
        src_port,
        dst_port,
        control,
        seq_number,
        ack_number,
        window_len: 1460,
        window_scale: None,
        max_seg_size: Some(1460),
        sack_permitted: false,
        payload,
    }
}

/// The frame of an Ethernet header and an ARP message, or of an Ethernet
/// header, an IPv4 header and a TCP segment.
pub open spec fn eth_frame_spec(eth: EthRepr, arp: Option<ArpMsg>, ipv4: Option<(Ipv4Hdr, TcpSegReprView)>) -> Option<Seq<u8>> {
    match arp {
        Some(a) => Some(eth_header_bytes(eth) + arp_bytes(a)),
        None => match ipv4 {
            Some((h, t)) => Some(
                eth_header_bytes(eth) + ipv4_header_bytes(h) + tcp_segment_bytes(h.src_addr, h.dst_addr, t),
            ),
            None => None,
        },
    }
}

/// Builds the frame for `eth` and `arp`, or else for `eth` and `ipv4`;
/// nothing when neither is given.
pub fn build_eth_frame(eth: EthRepr, arp: Option<ArpMsg>, ipv4: Option<(Ipv4Hdr, TcpSegRepr)>) -> (r: Option<Vec<u8>>)
    requires
        ipv4 matches Some(x) ==> (x.0.payload_len as u16) + 20 <= u16::MAX,
    ensures
        r matches Some(v) ==> eth_frame_spec(eth, arp, match ipv4 {
            Some(x) => Some((x.0, x.1@)),
            None => None,
        }) == Some(v@),
        r is None ==> arp is None && ipv4 is None,
{
    match arp {
        Some(a) => {
            let mut buf = emit_eth_header(eth);
            let mut body = emit_arp(a);
            buf.append(&mut body);
            Some(buf)
        },
        None => match ipv4 {
            Some((ip, tcp)) => {
                let mut buf = emit_eth_header(eth);
                let mut hdr = emit_ipv4_header(ip);
                let mut seg = emit_tcp(ip.src_addr, ip.dst_addr, &tcp);
                buf.append(&mut hdr);
                buf.append(&mut seg);
                Some(buf)
            },
            None => None,
        },
    }
}

/// The frame acknowledging `seg`, received in a frame from `peer_mac`,
/// sent to `peer_ip` from `local_ip` and `stack`'s MAC.
pub open spec fn ack_frame_spec(stack_mac: [u8; 6], peer_mac: [u8; 6], local_ip: u32, peer_ip: u32, seg: TcpSegmentView) -> Seq<u8> {
    let t = tcp_ack_repr_spec(seg);
    eth_header_bytes(EthRepr { src_addr: stack_mac, dst_addr: peer_mac, ethertype: ETHERTYPE_IPV4 })
        + ipv4_header_bytes(Ipv4Hdr { src_addr: local_ip, dst_addr: peer_ip, next_header: IP_PROTOCOL_TCP, payload_len: tcp_header_len_spec(t) as usize, hop_limit: 128 })
        + tcp_segment_bytes(local_ip, peer_ip, t)
}

/// Builds the frame acknowledging `seg`; see [`ack_frame_spec`].
fn ack_frame(stack: &NetStack, peer_mac: [u8; 6], local_ip: u32, peer_ip: u32, seg: &TcpSegment) -> (r: Vec<u8>)
    requires
        segment_len_spec(seg) <= i32::MAX,
    ensures
        r@ == ack_frame_spec(stack.mac_addr, peer_mac, local_ip, peer_ip, seg@),
{
    let tcp_repr = build_tcp_ack_repr(seg);
    let len = tcp_buffer_len(&tcp_repr);
    let ipv4_repr = build_ipv4_repr(local_ip, peer_ip, IP_PROTOCOL_TCP, len);
    let eth_repr = build_eth_repr(stack.mac_addr, peer_mac, ETHERTYPE_IPV4);
    let r = build_eth_frame(eth_repr, None, Some((ipv4_repr, tcp_repr)));
    r.unwrap()
}

/// The replies to a TCP segment and the task it wakes.
pub struct TcpReply {
    pub frames: Option<Vec<Vec<u8>>>,
    pub woken: Option<usize>,
}

/// Whether the socket lookup for a data segment finds a connection whose
/// acknowledgement number is unknown, which the handler does not accept.
pub open spec fn psh_lookup_ok(socket_table: Seq<Option<Socket>>, peer_ip: u32, seg: TcpSegmentView) -> bool {
    let i = find_socket_from(socket_table, peer_ip, seg.src_port, seg.dst_port, 0);
    i < socket_table.len() ==> socket_table[i]->Some_0.ack is Some
}

/// Whether [`psh_lookup_ok`] holds: a caller tests it before handing a
/// data segment to [`analysis_tcp`].
pub fn psh_lookup_ready(socket_table: &Vec<Option<Socket>>, peer_ip: u32, seg: &TcpSegment) -> (r: bool)
    ensures
        r == psh_lookup_ok(socket_table@, peer_ip, seg@),
{
    match get_socket(socket_table, peer_ip, seg.src_port, seg.dst_port) {
        Some(i) => match get_s_a_by_index(socket_table, i) {
            Some((_, ack)) => ack.is_some(),
            None => true,
        },
        None => true,
    }
}

/// `frames` is the one frame `bytes`.
pub open spec fn one_frame(frames: Option<Vec<Vec<u8>>>, bytes: Seq<u8>) -> bool {
    frames matches Some(f) && f@.len() == 1 && f@[0]@ == bytes
}

/// `t2` is the table `t` after the data segment `seg` was delivered to the
/// connection in slot `i`.
pub open spec fn delivered(t: Seq<Option<Socket>>, t2: Seq<Option<Socket>>, i: int, seg: TcpSegment) -> bool {
    let s = t[i]->Some_0;
    &&& t2.len() == t.len()
    &&& forall|k: int| 0 <= k < t.len() && k != i ==> t2[k] == t[k]
    &&& t2[i] matches Some(u) && u.raddr == s.raddr && u.lport == s.lport && u.rport == s.rport
        && u.ack == Some(SeqNumber(seq_add(seg.seq_number.0, segment_len_spec(&seg))))
        && u.seq == seg.ack_number && u.buffers@.len() == s.buffers@.len() + 1
        && u.buffers@.drop_last() == s.buffers@ && u.buffers@.last()@ == seg.payload@
        && u.block_task is None
}

/// Handles a TCP segment `seg` received in a frame from `peer_mac`, sent
/// from `peer_ip` to `local_ip`. A SYN is acknowledged when the listening
/// port accepted the connection (`syn_accepted`); a FIN is acknowledged; a
/// segment with PSH is acknowledged when it belongs to a known connection,
/// and its data is delivered when it is the next data the connection
/// expects, waking the task that waited for it; anything else gets no reply.
pub fn analysis_tcp(
    stack: &NetStack,
    peer_mac: [u8; 6],
    peer_ip: u32,
    local_ip: u32,
    seg: &TcpSegment,
    socket_table: &mut Vec<Option<Socket>>,
    syn_accepted: bool,
) -> (r: TcpReply)
    requires
        segment_len_spec(seg) <= i32::MAX,
        seg.psh && !seg.syn && !seg.fin ==> psh_lookup_ok(old(socket_table)@, peer_ip, seg@),
    ensures
        seg.syn && syn_accepted ==> one_frame(r.frames, ack_frame_spec(stack.mac_addr, peer_mac, local_ip, peer_ip, seg@)),
        seg.syn && !syn_accepted ==> r.frames is None,
        !seg.syn && seg.fin ==> one_frame(r.frames, ack_frame_spec(stack.mac_addr, peer_mac, local_ip, peer_ip, seg@)),
        !seg.syn && !seg.fin && !seg.psh ==> r.frames is None,
        !(!seg.syn && !seg.fin && seg.psh) ==> r.woken is None && final(socket_table)@ == old(socket_table)@,
        !seg.syn && !seg.fin && seg.psh ==> {
            let t = old(socket_table)@;
            let i = find_socket_from(t, peer_ip, seg.src_port, seg.dst_port, 0);
            if i >= t.len() {
                r.frames is None && r.woken is None && final(socket_table)@ == t
            } else {
                let s = t[i]->Some_0;
                &&& one_frame(r.frames, ack_frame_spec(stack.mac_addr, peer_mac, local_ip, peer_ip, seg@))
                &&& if s.ack == Some(seg.seq_number) && seg.payload@.len() > 0 {
                    r.woken == s.block_task && delivered(t, final(socket_table)@, i, *seg)
                } else {
                    r.woken is None && final(socket_table)@ == t
                }
            }
        },
{
    if seg.syn {
        if syn_accepted {
            let f = ack_frame(stack, peer_mac, local_ip, peer_ip, seg);
            let mut frames: Vec<Vec<u8>> = Vec::new();
            frames.push(f);
            TcpReply { frames: Some(frames), woken: None }
        } else {
            TcpReply { frames: None, woken: None }
        }
    } else if seg.fin {
        let f = ack_frame(stack, peer_mac, local_ip, peer_ip, seg);
        let mut frames: Vec<Vec<u8>> = Vec::new();
        frames.push(f);
        TcpReply { frames: Some(frames), woken: None }
    } else if seg.psh {
        let f = ack_frame(stack, peer_mac, local_ip, peer_ip, seg);
        let mut frames: Vec<Vec<u8>> = Vec::new();
        frames.push(f);
        match get_socket(socket_table, peer_ip, seg.src_port, seg.dst_port) {
            Some(socket_index) => {
                match get_s_a_by_index(socket_table, socket_index) {
                    Some((_, ack)) => {
                        let mut woken: Option<usize> = None;
                        if ack.unwrap() == seg.seq_number && seg.payload.len() > 0 {
                            woken = push_data(socket_table, socket_index, seg);
                        }
                        TcpReply { frames: Some(frames), woken }
                    },
                    None => TcpReply { frames: None, woken: None },
                }
            },
            None => TcpReply { frames: None, woken: None },
        }
    } else {
        TcpReply { frames: None, woken: None }
    }
}

/// The frame answering an ARP request from `sender_mac`/`sender_ip` with
/// `stack`'s addresses.
pub open spec fn arp_reply_spec(stack: &NetStack, sender_mac: [u8; 6], sender_ip: u32) -> Seq<u8> {
    eth_header_bytes(EthRepr { src_addr: stack.mac_addr, dst_addr: sender_mac, ethertype: ETHERTYPE_ARP })
        + arp_bytes(ArpMsg {
            operation: ARP_REPLY,
            source_hardware_addr: stack.mac_addr,
            source_protocol_addr: stack.ipv4_addr,
            target_hardware_addr: sender_mac,
            target_protocol_addr: sender_ip,
        })
}

/// Answers an ARP request from the sender with hardware address
/// `sender_mac` (6 bytes) and protocol address `sender_ip` (4 bytes, most
/// significant first): the reply gives `stack`'s addresses.
pub fn arp_reply(stack: &NetStack, sender_mac: &Vec<u8>, sender_ip: &Vec<u8>) -> (r: Vec<u8>)
    requires
        sender_mac@.len() == 6,
        sender_ip@.len() == 4,
    ensures
        exists|m: [u8; 6]| m@ == sender_mac@ && r@ == arp_reply_spec(
            stack,
            m,
            (sender_ip@[0] * 0x100_0000 + sender_ip@[1] * 0x1_0000 + sender_ip@[2] * 0x100
                + sender_ip@[3]) as u32,
        ),
{
    let m: [u8; 6] = [sender_mac[0], sender_mac[1], sender_mac[2], sender_mac[3], sender_mac[4], sender_mac[5]];
    let ip: u32 = (sender_ip[0] as u32) * 0x100_0000 + (sender_ip[1] as u32) * 0x1_0000 + (sender_ip[2] as u32) * 0x100
        + (sender_ip[3] as u32);
    assert(m@ =~= sender_mac@);
    let arp_repr = build_arp_repr(stack.mac_addr, stack.ipv4_addr, m, ip);
    let eth_repr = build_eth_repr(stack.mac_addr, m, ETHERTYPE_ARP);
    let r = build_eth_frame(eth_repr, Some(arp_repr), None);
    r.unwrap()
}


/// The board the kernel runs on.
#[derive(Clone, Copy, PartialEq, Eq, Structural)]
pub enum Board {
    Qemu,
    Axu15eg,
}

/// What the network interrupt handler does.
#[derive(Clone, Copy, PartialEq, Eq, Structural)]
pub enum NetIrqAction {
    /// Nothing.
    Nothing,
    /// Poll the network interface, which takes in the frames received.
    PollInterface,
    /// Acknowledge the device's transmit-complete interrupt.
    ClearTxComplete,
}

/// Decision of the network interrupt handler for interrupt `irq`: on QEMU,
/// interrupt 8 is the network device's; on the AXU15EG board, interrupt 3
/// is the DMA engine's, and the device's status says whether a receive
/// (`rx_complete`) or a transmit (`tx_complete`) completed.
pub fn net_interrupt_handler(board: Board, irq: u16, rx_complete: bool, tx_complete: bool) -> (r:
    NetIrqAction)
    ensures
        r == match board {
            Board::Qemu => if irq == 8 {
                NetIrqAction::PollInterface
            } else {
                NetIrqAction::Nothing
            },
            Board::Axu15eg => if irq == 3 && rx_complete {
                NetIrqAction::PollInterface
            } else if irq == 3 && tx_complete {
                NetIrqAction::ClearTxComplete
            } else {
                NetIrqAction::Nothing
            },
        },
{
    match board {
        Board::Qemu => {
            if irq == 8 {
                NetIrqAction::PollInterface
            } else {
                NetIrqAction::Nothing
            }
        },
        Board::Axu15eg => {
            if irq == 3 {
                if rx_complete {
                    NetIrqAction::PollInterface
                } else if tx_complete {
                    NetIrqAction::ClearTxComplete
                } else {
                    NetIrqAction::Nothing
                }
            } else {
                NetIrqAction::Nothing
            }
        },
    }
}

} // verus!
