//! Packets, RTCP, SDP, STUN and TCP reassembly.
use sipmon::analyze::media_stats::{MediaStatsAccumulator, RtpStatsHeader};
use sipmon::analyze::rtcp_rtt::rtt_units;
use sipmon::decode::frame::{
    decode, decode_etherparse, decode_fast, join_parts, Walk, DLT_EN10MB, DLT_LINUX_SLL,
    DLT_LINUX_SLL2, DLT_RAW, L4,
};
use sipmon::decode::rtcp::{parse_all, parse_first, ReportBlock, RtcpMessage, PT_RR, PT_SR};
use sipmon::decode::rtp::{
    classify, parse_rtp_header, rtp_clock_rate_for_payload_type, MediaKind,
};
use sipmon::decode::sdp;
use sipmon::decode::sip::{looks_like_sip, parse_sip, parse_start, Start};
use sipmon::decode::stun::{
    channel_data_payload, channel_number, is_channel_data, is_stun, parse, StunClass,
    ATTR_DATA, ATTR_ERROR_CODE, ATTR_LIFETIME, ATTR_USERNAME, ATTR_XOR_PEER_ADDRESS,
    ATTR_XOR_RELAYED_ADDRESS, MAGIC_COOKIE, METHOD_ALLOCATE, METHOD_SEND,
};
use sipmon::decode::tcp_reasm::{
    extract_content_length, find_double_crlf, take_frames, TcpReassembler, IDLE_US, MAX_STREAM_BUF,
};
use sipmon::model::addr::{IpAddr, SocketAddr};
use sipmon::model::addr_text::{ip_from_str, ip_string, socket_from_str, socket_string};
use sipmon::model::packet::{Flow5Tuple, Proto};
use sipmon::model::sip::Method;

fn sock(s: &str) -> SocketAddr {
    socket_from_str(s).unwrap()
}

fn ip(s: &str) -> IpAddr {
    ip_from_str(s).unwrap()
}

/// Deterministic generator so failures are reproducible.
struct Rng(u64);

impl Rng {
    fn next(&mut self) -> u64 {
        self.0 = self.0.wrapping_mul(6364136223846793005).wrapping_add(1442695040888963407);
        self.0
    }

    fn below(&mut self, n: u64) -> u64 {
        self.next() % n.max(1)
    }

    fn byte(&mut self) -> u8 {
        (self.next() >> 33) as u8
    }
}

fn hdr(seq: u16, ts: u32) -> RtpStatsHeader {
    RtpStatsHeader { payload_type: 0, sequence_number: seq, rtp_timestamp: ts, ssrc: 1 }
}

#[test]
fn reordered_packet_clears_pending_loss() {
    let mut s = MediaStatsAccumulator::new();
    s.observe(10_000, Some(hdr(10, 1_600)));
    s.observe(30_000, Some(hdr(12, 1_920)));
    s.observe(40_000, Some(hdr(11, 1_760)));
    let st = s.snapshot();
    assert_eq!(st.packet_count, 3);
    assert_eq!(st.lost_packets, 0);
}

#[test]
fn unfilled_gap_counts_as_loss() {
    let mut s = MediaStatsAccumulator::new();
    s.observe(10_000, Some(hdr(10, 1_600)));
    s.observe(30_000, Some(hdr(12, 1_920)));
    let st = s.snapshot();
    assert_eq!(st.lost_packets, 1);
    assert_eq!(st.expected_packets, 3);
}

#[test]
fn jitter_step_has_both_deltas() {
    let mut s = MediaStatsAccumulator::new();
    assert!(s.observe(10_000, Some(hdr(10, 1_600))).is_none());
    let step = s.observe(31_000, Some(hdr(11, 1_760))).unwrap();
    assert_eq!(step.arrival_delta_us, 21_000);
    assert_eq!(step.rtp_delta, 160);
    assert_eq!(step.clock_rate, 8000);
}

#[test]
fn rtt_round_trip_sane() {
    let t0 = 1_000_000_000.0_f64 + 2_208_988_800.0;
    let lsr = ((t0 * 65536.0).round() as u64 & 0xFFFF_FFFF) as u32;
    let block = ReportBlock {
        ssrc: 1,
        fraction_lost: 0,
        cumulative_lost: 0,
        highest_seq: 0,
        jitter: 0,
        lsr,
        dlsr: (0.5_f64 * 65536.0) as u32,
    };
    let arrival = (((t0 + 0.6) * 65536.0) as u64 & 0xFFFF_FFFF) as u32;
    let rtt = rtt_units(arrival, &block).unwrap() as f64 / 65536.0 * 1000.0;
    assert!(rtt > 50.0 && rtt < 200.0, "rtt={rtt}");
}

#[test]
fn rtt_needs_a_sender_report_and_sixty_seconds_at_most() {
    let mut block = ReportBlock {
        ssrc: 1,
        fraction_lost: 0,
        cumulative_lost: 0,
        highest_seq: 0,
        jitter: 0,
        lsr: 0,
        dlsr: 0,
    };
    assert_eq!(rtt_units(1000, &block), None);
    block.lsr = 1;
    assert_eq!(rtt_units(1, &block), Some(0));
    assert_eq!(rtt_units(1 + 3_932_160, &block), Some(3_932_160));
    assert_eq!(rtt_units(2 + 3_932_160, &block), None);
    // The clock wraps.
    block.lsr = 0xffff_fff0;
    assert_eq!(rtt_units(0x10, &block), Some(0x20));
}

fn eth_ipv4_udp(payload: &[u8]) -> Vec<u8> {
    let mut pkt = vec![0u8; 14 + 20 + 8 + payload.len()];
    pkt[12] = 0x08;
    pkt[13] = 0x00;
    pkt[14] = 0x45;
    let total = (20 + 8 + payload.len()) as u16;
    pkt[16..18].copy_from_slice(&total.to_be_bytes());
    pkt[23] = 17;
    pkt[26..30].copy_from_slice(&[10, 0, 0, 1]);
    pkt[30..34].copy_from_slice(&[10, 0, 0, 2]);
    pkt[34..36].copy_from_slice(&5060u16.to_be_bytes());
    pkt[36..38].copy_from_slice(&5060u16.to_be_bytes());
    let ulen = (8 + payload.len()) as u16;
    pkt[38..40].copy_from_slice(&ulen.to_be_bytes());
    pkt[42..].copy_from_slice(payload);
    pkt
}

#[test]
fn fast_path_ethernet_ipv4_udp() {
    let pkt = eth_ipv4_udp(b"INVITE sip:x SIP/2.0");
    let d = decode(DLT_EN10MB, &pkt).expect("decode");
    assert_eq!(d.flow.src.port, 5060);
    assert_eq!(d.flow.dst.port, 5060);
    match d.l4 {
        L4::Udp(p) => assert_eq!(p, b"INVITE sip:x SIP/2.0"),
        L4::Tcp(_) => panic!("expected UDP"),
    }
    assert!(matches!(decode_fast(DLT_EN10MB, &pkt), Walk::Hit(_)));
}

#[test]
fn vlan_ethernet_ipv4_udp() {
    let inner = eth_ipv4_udp(b"rtp");
    let mut pkt = Vec::with_capacity(inner.len() + 4);
    pkt.extend_from_slice(&inner[..12]);
    pkt.extend_from_slice(&[0x81, 0x00, 0x00, 0x01]);
    pkt.extend_from_slice(&inner[12..]);
    let d = decode(DLT_EN10MB, &pkt).expect("vlan decode");
    match d.l4 {
        L4::Udp(p) => assert_eq!(p, b"rtp"),
        L4::Tcp(_) => panic!("expected UDP"),
    }
}

#[test]
fn arp_is_skipped_without_fallback() {
    let mut pkt = vec![0u8; 42];
    pkt[12] = 0x08;
    pkt[13] = 0x06;
    assert!(matches!(decode_fast(DLT_EN10MB, &pkt), Walk::Miss));
    assert!(decode(DLT_EN10MB, &pkt).is_none());
}

#[test]
fn raw_ipv4_udp() {
    let eth = eth_ipv4_udp(b"x");
    let packet = &eth[14..];
    let d = decode(DLT_RAW, packet).expect("raw");
    match d.l4 {
        L4::Udp(p) => assert_eq!(p, b"x"),
        L4::Tcp(_) => panic!("expected UDP"),
    }
}

#[test]
fn full_parser_finds_flow_and_payload() {
    let mut pkt = eth_ipv4_udp(b"payload");
    // A valid header length and time to live for the strict parser.
    pkt[22] = 64;
    let d = decode_etherparse(DLT_EN10MB, &pkt).expect("ethernet");
    assert_eq!(d.flow.proto, Proto::Udp);
    assert_eq!(d.flow.src, sock("10.0.0.1:5060"));
    assert_eq!(d.flow.dst, sock("10.0.0.2:5060"));
    match d.l4 {
        L4::Udp(p) => assert_eq!(p, b"payload"),
        L4::Tcp(_) => panic!("expected UDP"),
    }
    let d = decode_etherparse(DLT_RAW, &pkt[14..]).expect("raw");
    assert_eq!(d.flow.src, sock("10.0.0.1:5060"));
    let mut sll = vec![0u8; 16];
    sll.extend_from_slice(&pkt[14..]);
    assert!(decode_etherparse(DLT_LINUX_SLL, &sll).is_some());
    assert!(decode_etherparse(DLT_LINUX_SLL, &sll[..15]).is_none());
    let mut sll2 = vec![0u8; 20];
    sll2.extend_from_slice(&pkt[14..]);
    assert!(decode_etherparse(DLT_LINUX_SLL2, &sll2).is_some());
    assert!(decode_etherparse(DLT_RAW, &[0u8; 3]).is_none());
}

#[test]
fn ipv6_extension_headers_reach_the_full_parser() {
    // IPv6 with a hop-by-hop header before UDP.
    let mut p = vec![0u8; 14];
    p[12] = 0x86;
    p[13] = 0xdd;
    let mut v6 = vec![0x60, 0, 0, 0, 0, 18, 0, 64];
    v6.extend_from_slice(&[0x20, 1, 0xd, 0xb8, 0, 0, 0, 0, 0, 0, 0, 0, 0, 0, 0, 1]);
    v6.extend_from_slice(&[0x20, 1, 0xd, 0xb8, 0, 0, 0, 0, 0, 0, 0, 0, 0, 0, 0, 2]);
    v6.extend_from_slice(&[17, 0, 1, 4, 0, 0, 0, 0]);
    v6.extend_from_slice(&[0x13, 0xc4, 0x13, 0xc5, 0, 10, 0, 0, b'o', b'k']);
    p.extend_from_slice(&v6);
    assert!(matches!(decode_fast(DLT_EN10MB, &p), Walk::Fallback));
    let d = decode(DLT_EN10MB, &p).expect("fallback");
    assert_eq!(socket_string(d.flow.src), "[2001:db8::1]:5060");
    assert_eq!(socket_string(d.flow.dst), "[2001:db8::2]:5061");
    match d.l4 {
        L4::Udp(q) => assert_eq!(q, b"ok"),
        L4::Tcp(_) => panic!("expected UDP"),
    }
}

fn build_rr() -> Vec<u8> {
    let mut p = vec![0x81, PT_RR, 0, 7];
    p.extend_from_slice(&0x1234_5678u32.to_be_bytes());
    p.extend_from_slice(&0xdead_beefu32.to_be_bytes());
    p.push(12);
    p.extend_from_slice(&[0, 0, 5]);
    p.extend_from_slice(&1_000u32.to_be_bytes());
    p.extend_from_slice(&40u32.to_be_bytes());
    p.extend_from_slice(&0x1122_3344u32.to_be_bytes());
    p.extend_from_slice(&32768u32.to_be_bytes());
    p
}

#[test]
fn parse_rr_report_block() {
    let msgs = parse_all(&build_rr());
    assert_eq!(msgs.len(), 1);
    match &msgs[0] {
        RtcpMessage::Rr(rr) => {
            assert_eq!(rr.ssrc, 0x1234_5678);
            assert_eq!(rr.reports.len(), 1);
            let b = &rr.reports[0];
            assert_eq!(b.ssrc, 0xdead_beef);
            assert_eq!(b.fraction_lost, 12);
            assert_eq!(b.cumulative_lost, 5);
            assert_eq!(b.highest_seq, 1000);
            assert_eq!(b.jitter, 40);
            assert_eq!(b.lsr, 0x1122_3344);
            assert_eq!(b.dlsr, 32768);
        }
        _ => panic!("expected RR"),
    }
}

#[test]
fn parse_sr() {
    let mut p = vec![0x80, PT_SR, 0, 6];
    p.extend_from_slice(&1u32.to_be_bytes());
    p.extend_from_slice(&3_700_000u32.to_be_bytes());
    p.extend_from_slice(&0u32.to_be_bytes());
    p.extend_from_slice(&160_000u32.to_be_bytes());
    p.extend_from_slice(&100u32.to_be_bytes());
    p.extend_from_slice(&1600u32.to_be_bytes());
    let msgs = parse_all(&p);
    match &msgs[0] {
        RtcpMessage::Sr(sr) => {
            assert_eq!(sr.sender.rtp_timestamp, 160_000);
            assert_eq!(sr.sender.sender_packet_count, 100);
            assert!(sr.reports.is_empty());
        }
        _ => panic!("expected SR"),
    }
}

#[test]
fn compound_rtcp_gives_every_member() {
    let mut p = build_rr();
    p.extend_from_slice(&[0x80, 203, 0, 1, 0, 0, 0, 1]);
    let msgs = parse_all(&p);
    assert_eq!(msgs.len(), 2);
    assert!(matches!(&msgs[1], RtcpMessage::Other(203)));
    assert!(matches!(parse_first(&p), Some(RtcpMessage::Rr(_))));
    assert!(parse_first(&[0x80]).is_none());
}

#[test]
fn fuzz_rtcp_like_no_panic() {
    let mut rng = Rng(0x1234_5678_9abc_def0);
    for _ in 0..20_000 {
        let len = 4 + rng.below(1200) as usize;
        let mut buf: Vec<u8> = (0..len).map(|_| rng.byte()).collect();
        buf[0] = 0x80 | (rng.below(2) as u8 * 0x20);
        buf[1] = 200 + (rng.below(8) as u8);
        let _ = parse_all(&buf);
    }
}

#[test]
fn fuzz_random_frames_decode() {
    let mut rng = Rng(0xdead_beef_cafe_1234);
    for _ in 0..5000 {
        let len = rng.below(1600) as usize;
        let buf: Vec<u8> = (0..len).map(|_| rng.byte()).collect();
        let lt = [1u32, 12, 113, 276, 999][(rng.below(5)) as usize];
        let _ = decode(lt, &buf);
    }
}

#[test]
fn parse_basic_sdp() {
    let body = b"v=0\r\no=- 1 1 IN IP4 10.0.0.1\r\ns=-\r\nc=IN IP4 10.0.0.1\r\nt=0 0\r\nm=audio 5004 RTP/AVP 0 8 101\r\na=rtpmap:0 PCMU/8000\r\na=rtpmap:101 telephone-event/8000\r\n";
    let s = sdp::parse(body).unwrap();
    assert_eq!(s.connection_ip, Some(ip("10.0.0.1")));
    let eps = s.endpoints();
    assert_eq!(eps.len(), 1);
    assert_eq!(socket_string(eps[0]), "10.0.0.1:5004");
    let pts = s.payload_types();
    assert!(pts.contains(&0) && pts.contains(&8) && pts.contains(&101));
    assert_eq!(s.codec_name_for_pt(0), Some("PCMU".into()));
    assert_eq!(s.codec_name_for_pt(101), Some("telephone-event".into()));
}

#[test]
fn sdp_media_level_address_wins() {
    let body = b"v=0\nc=IN IP4 10.0.0.1\nm=audio 5004 RTP/AVP 8\nc=IN IP4 10.0.0.9\nm=video 6000 RTP/AVP 96\n";
    let s = sdp::parse(body).unwrap();
    let eps: Vec<String> = s.endpoints().into_iter().map(socket_string).collect();
    assert_eq!(eps, vec!["10.0.0.9:5004".to_string(), "10.0.0.1:6000".to_string()]);
    assert_eq!(s.codec_name_for_pt(8), Some("PCMA".into()));
    assert_eq!(sdp::static_codec_name(18), Some("G.729"));
    assert_eq!(sdp::static_codec_name(127), None);
}

fn xor_addr_bytes(addr: SocketAddr, txn: &[u8; 12]) -> Vec<u8> {
    let key: Vec<u8> = MAGIC_COOKIE.to_be_bytes().iter().chain(txn.iter()).copied().collect();
    let mut out = vec![0u8, 0x01];
    let xport = addr.port ^ (MAGIC_COOKIE >> 16) as u16;
    out.extend_from_slice(&xport.to_be_bytes());
    if let IpAddr::V4(v4) = addr.ip {
        for (i, b) in v4.to_be_bytes().iter().enumerate() {
            out.push(b ^ key[i]);
        }
    }
    out
}

fn stun(typ: u16, txn: &[u8; 12], attrs: &[(u16, Vec<u8>)]) -> Vec<u8> {
    let mut body = Vec::new();
    for (at, av) in attrs {
        body.extend_from_slice(&at.to_be_bytes());
        body.extend_from_slice(&(av.len() as u16).to_be_bytes());
        body.extend_from_slice(av);
        while body.len() % 4 != 0 {
            body.push(0);
        }
    }
    let mut out = Vec::new();
    out.extend_from_slice(&typ.to_be_bytes());
    out.extend_from_slice(&(body.len() as u16).to_be_bytes());
    out.extend_from_slice(&MAGIC_COOKIE.to_be_bytes());
    out.extend_from_slice(txn);
    out.extend_from_slice(&body);
    out
}

#[test]
fn parse_allocate_request() {
    let txn = [7u8; 12];
    let data = stun(METHOD_ALLOCATE, &txn, &[(ATTR_USERNAME, b"alice".to_vec())]);
    assert!(is_stun(&data));
    let m = parse(&data).unwrap();
    assert_eq!(m.method, METHOD_ALLOCATE);
    assert_eq!(m.class, StunClass::Request);
    assert_eq!(m.attrs.len(), 1);
}

#[test]
fn parse_allocate_success_with_relayed() {
    let txn = [9u8; 12];
    let relayed = sock("203.0.113.7:50000");
    let av = xor_addr_bytes(relayed, &txn);
    let data = stun(
        METHOD_ALLOCATE | 0x0100,
        &txn,
        &[(ATTR_XOR_RELAYED_ADDRESS, av), (ATTR_LIFETIME, 600u32.to_be_bytes().to_vec())],
    );
    let m = parse(&data).unwrap();
    assert_eq!(m.class, StunClass::Success);
    assert_eq!(m.relayed_address(), Some(relayed));
    assert!(m.attrs.iter().any(|a| a.lifetime() == Some(600)));
}

#[test]
fn parse_allocate_error() {
    let txn = [1u8; 12];
    let mut ev = vec![0, 0, 4, 86];
    ev.extend_from_slice(b"Allocation Quota Reached");
    let data = stun(METHOD_ALLOCATE | 0x0110, &txn, &[(ATTR_ERROR_CODE, ev)]);
    let m = parse(&data).unwrap();
    assert!(m.is_allocate_error());
    let (code, reason) = m.error_code().unwrap();
    assert_eq!(code, 486);
    assert!(reason.contains("Quota"));
}

#[test]
fn parse_channel_data() {
    let rtp = [0x80u8, 0, 0, 1, 0, 0, 0, 0, 0, 0, 0, 1, 0xAA];
    let mut frame = vec![0x40, 0x01];
    frame.extend_from_slice(&(rtp.len() as u16).to_be_bytes());
    frame.extend_from_slice(&rtp);
    assert!(is_channel_data(&frame));
    assert!(!is_stun(&frame));
    assert_eq!(channel_number(&frame), Some(1));
    assert_eq!(channel_data_payload(&frame), Some(&rtp[..]));
}

#[test]
fn parse_send_indication_data_attr() {
    let txn = [3u8; 12];
    let inner = [0x80u8, 0, 5, 6, 0, 0, 0, 0, 0, 0, 0, 2];
    let data = stun(METHOD_SEND | 0x0010, &txn, &[(ATTR_DATA, inner.to_vec())]);
    let m = parse(&data).unwrap();
    assert_eq!(m.method, METHOD_SEND);
    assert_eq!(m.class, StunClass::Indication);
    assert_eq!(m.data_payload(), Some(&inner[..]));
}

#[test]
fn stun_peer_address_is_its_own_attribute() {
    let txn = [5u8; 12];
    let peer = sock("198.51.100.4:4000");
    let data = stun(
        METHOD_SEND | 0x0010,
        &txn,
        &[(ATTR_XOR_PEER_ADDRESS, xor_addr_bytes(peer, &txn))],
    );
    let m = parse(&data).unwrap();
    assert_eq!(m.peer_address(), Some(peer));
    assert_eq!(m.relayed_address(), None);
}

#[test]
fn stun_error_reason_keeps_broken_utf8_readable() {
    let txn = [1u8; 12];
    let data = stun(
        METHOD_ALLOCATE | 0x0110,
        &txn,
        &[(ATTR_ERROR_CODE, vec![0, 0, 4, 1, b'n', 0xff, b'o'])],
    );
    let (code, reason) = parse(&data).unwrap().error_code().unwrap();
    assert_eq!(code, 401);
    assert_eq!(reason, "n\u{fffd}o");
}

fn tcp_flow() -> Flow5Tuple {
    Flow5Tuple { proto: Proto::Tcp, src: sock("1.2.3.4:5060"), dst: sock("5.6.7.8:5060") }
}

#[test]
fn idle_flows_are_pruned() {
    let mut reasm = TcpReassembler::new();
    reasm.feed(tcp_flow(), b"INVITE sip:x SIP/2.0\r\n", 1_000_000);
    assert_eq!(reasm.flow_count(), 1);
    reasm.prune(30_000_000, IDLE_US);
    assert_eq!(reasm.flow_count(), 1);
    reasm.prune(1_000_000 + IDLE_US, IDLE_US);
    assert_eq!(reasm.flow_count(), 0);
}

#[test]
fn complete_message_releases_flow() {
    let mut reasm = TcpReassembler::new();
    let msg = b"INVITE sip:x SIP/2.0\r\nContent-Length: 0\r\n\r\n";
    let out = reasm.feed(tcp_flow(), msg, 1_000_000);
    assert_eq!(out.len(), 1);
    assert_eq!(reasm.flow_count(), 0);
}

#[test]
fn fuzz_tcp_reasm_bounded() {
    let mut reasm = TcpReassembler::new();
    let head = b"INVITE sip:x SIP/2.0\r\nContent-Length: 2000000000\r\n\r\n";
    reasm.feed(tcp_flow(), head, 0);
    let chunk = vec![0x41u8; 8192];
    for _ in 0..1024 {
        reasm.feed(tcp_flow(), &chunk, 0);
    }
    assert!(
        reasm.buffered_bytes() <= MAX_STREAM_BUF as u128,
        "reasm buffer must stay bounded"
    );
}

#[test]
fn segments_join_to_messages() {
    let msg = b"INVITE sip:x SIP/2.0\r\nl: 3\r\n\r\nabc".to_vec();
    let mut two = msg.clone();
    two.extend_from_slice(&msg);
    let mut reasm = TcpReassembler::new();
    let mut got: Vec<Vec<u8>> = Vec::new();
    for piece in two.chunks(7) {
        got.extend(reasm.feed(tcp_flow(), piece, 5));
    }
    assert_eq!(got, vec![msg.clone(), msg.clone()]);
    let (frames, rest) = take_frames(two[..two.len() - 1].to_vec());
    assert_eq!(frames, vec![msg.clone()]);
    assert_eq!(rest, two[msg.len()..two.len() - 1].to_vec());
    assert_eq!(find_double_crlf(&msg), Some(msg.len() - 7));
    assert_eq!(extract_content_length(b"Content-Length:  42 \r\n"), 42);
}

#[test]
fn addresses_read_back_what_they_write() {
    for s in [
        "10.0.0.1:5060",
        "[::1]:80",
        "[2001:db8::ff00:42:8329]:1",
        "[::ffff:0.0.0.0]:65535",
        "255.255.255.255:0",
        "[1:0:0:2::3]:9",
    ] {
        assert_eq!(socket_string(sock(s)), s);
    }
    for s in ["", "1.2.3", "1.2.3.4.5", "01.2.3.4", "256.1.1.1", "1:2", ":::", "1::2::3", "g::"] {
        assert!(ip_from_str(s).is_none(), "{s}");
    }
    assert_eq!(ip_string(ip("::ffff:1.2.3.4")), "::ffff:1.2.3.4");
    assert_eq!(ip_string(ip("FE80:0:0::1")), "fe80::1");
}

fn sip_flow() -> Flow5Tuple {
    Flow5Tuple { proto: Proto::Udp, src: sock("1.2.3.4:5060"), dst: sock("5.6.7.8:5060") }
}

#[test]
fn fuzz_sip_like_no_panic() {
    let mut rng = Rng(0x00fe_dcba_9876_5432);
    let flow = sip_flow();
    let seeds: Vec<Vec<u8>> = vec![
        b"INVITE sip:bob@example.com SIP/2.0\r\nVia: SIP/2.0/UDP x;branch=z9\r\n".to_vec(),
        b"SIP/2.0 200 OK\r\n".to_vec(),
        b"INVITE sip:x SIP/2.0\r\nCSeq: 999999999999 INVITE\r\nContent-Length: 999999999999\r\n\r\n".to_vec(),
        b"REGISTER sip:x SIP/2.0\r\nFrom: <sip:\xff\xfe>;tag=\x00\x01\r\n".to_vec(),
    ];
    for i in 0..20_000 {
        let mut buf = seeds[(rng.below(seeds.len() as u64)) as usize].clone();
        let extra = rng.below(400) as usize;
        for _ in 0..extra {
            buf.push(rng.byte());
        }
        if rng.below(2) == 1 && !buf.is_empty() {
            let pos = (rng.below(buf.len() as u64)) as usize;
            buf[pos] = rng.byte();
        }
        let _ = parse_sip(1_000_000 + (i as u64), flow, &buf, None);
    }
}

#[test]
fn sip_request_and_response() {
    let raw = b"INVITE sip:bob@10.0.0.2 SIP/2.0\r\n\
        Via: SIP/2.0/UDP 10.0.0.1:5060;branch=z9hG4bK-1;rport\r\n\
        Record-Route: <sip:p1>\r\n\
        Record-Route: <sip:p2>\r\n\
        f: \"Alice\" <sip:alice@10.0.0.1>;tag=a1\r\n\
        To: <sip:bob@10.0.0.2>\r\n\
        i: id-1@host\r\n\
        CSeq: 314 INVITE\r\n\
        Contact: <sip:alice@10.0.0.1:5070;transport=udp>\r\n\
        Content-Type: application/SDP\r\n\
        \r\n\
        v=0\r\nCall-ID: body\r\n";
    assert!(looks_like_sip(raw));
    let m = parse_sip(7, sip_flow(), raw, Some(20)).unwrap();
    assert_eq!((m.ts_us, m.flow), (7, sip_flow()));
    assert!(m.is_request && m.has_sdp);
    assert_eq!((m.method, m.status), (Some(Method::Invite), None));
    assert_eq!(m.call_id, "id-1@host");
    assert_eq!((m.cseq, m.cseq_method.as_deref()), (Some(314), Some("INVITE")));
    assert_eq!(m.branch.as_deref(), Some("z9hG4bK-1"));
    assert_eq!((m.from_tag.as_deref(), m.to_tag), (Some("a1"), None));
    assert_eq!(m.from_uri.as_deref(), Some("\"Alice\" <sip:alice@10.0.0.1>"));
    assert_eq!(m.contact_addr, Some(sock("10.0.0.1:5070")));
    assert_eq!((m.route_count, m.record_route_count), (0, 2));
    assert_eq!(m.raw, raw[..20].to_vec());

    let raw = b"SIP/2.0 486 Busy Here\r\nCall-ID: x\r\nm: sip:10.0.0.9\r\nTo: a;tag=t2\r\n\r\n";
    let m = parse_sip(0, sip_flow(), raw, None).unwrap();
    assert_eq!((m.is_request, m.status, m.method), (false, Some(486), None));
    assert_eq!(m.contact_addr, Some(sock("10.0.0.9:5060")));
    assert_eq!(m.to_tag.as_deref(), Some("t2"));
    assert_eq!(m.to_uri.as_deref(), Some("a"));
    assert_eq!(m.raw, raw.to_vec());
    // No Call-ID, or no proper first line.
    assert!(parse_sip(0, sip_flow(), b"SIP/2.0 200 OK\r\n\r\n", None).is_none());
    assert!(parse_sip(0, sip_flow(), b"SIP/2.0 99 ?\r\nCall-ID: x\r\n\r\n", None).is_none());
    assert!(!looks_like_sip(b"hello world"));
    let l: Vec<char> = "FOO sip:x SIP/2.0".chars().collect();
    assert_eq!(parse_start(&l), Some(Start::Request(Method::Other)));
}

#[test]
fn rtp_header_and_kind() {
    let mut p = vec![0x80u8, 0x88, 0x12, 0x34, 0, 0, 1, 0, 0xde, 0xad, 0xbe, 0xef, 1, 2];
    assert_eq!(classify(&p), MediaKind::Rtp);
    let h = parse_rtp_header(&p).unwrap();
    assert_eq!((h.version, h.payload_type, h.sequence_number), (2, 8, 0x1234));
    assert_eq!((h.timestamp, h.ssrc), (256, 0xdead_beef));
    assert!(parse_rtp_header(&p[..11]).is_none());
    p[1] = 201;
    assert_eq!(classify(&p), MediaKind::Rtcp);
    p[0] = 0x40;
    assert_eq!(classify(&p), MediaKind::Other);
    assert_eq!(rtp_clock_rate_for_payload_type(0), 8000);
    assert_eq!(rtp_clock_rate_for_payload_type(34), 90000);
}

#[test]
fn found_parts_make_a_flow() {
    let x = [1u8, 2];
    let v4 = vec![10, 0, 0, 1];
    let mut v6 = vec![0u8; 16];
    v6[15] = 1;
    let (f, p) = join_parts(Some(((v4.clone(), v6), (Proto::Tcp, 7, 9, &x[..])))).unwrap();
    assert_eq!((f.src, f.dst), (sock("10.0.0.1:7"), sock("[::1]:9")));
    assert_eq!((f.proto, p), (Proto::Tcp, &x[..]));
    assert!(join_parts(Some(((v4, vec![1]), (Proto::Udp, 7, 9, &x[..])))).is_none());
    assert!(join_parts(None).is_none());
}

#[test]
fn first_byte_tells_stun_from_channel_data() {
    let mut data = stun(METHOD_ALLOCATE, &[7u8; 12], &[]);
    assert!(is_stun(&data) && !is_channel_data(&data));
    data[0] = 0x40;
    assert!(!is_stun(&data) && is_channel_data(&data));
    assert!(parse(&data).is_none());
    data[0] = 0x80;
    assert!(!is_stun(&data) && !is_channel_data(&data));
}

#[test]
fn buffered_bytes_are_those_of_incomplete_messages() {
    let mut t = TcpReassembler::new();
    assert_eq!((t.flow_count(), t.buffered_bytes()), (0, 0));
    let flow = Flow5Tuple {
        proto: Proto::Tcp,
        src: sock("1.1.1.1:5060"),
        dst: sock("2.2.2.2:5060"),
    };
    let data = b"INVITE sip:x SIP/2.0\r\nContent-Length: 18446744073709551615\r\n\r\n";
    assert!(t.feed(flow, data, 1).is_empty());
    assert_eq!((t.flow_count(), t.buffered_bytes()), (1, data.len() as u128));
    assert!(t.feed(flow.reverse(), b"BYE", 2).is_empty());
    assert_eq!((t.flow_count(), t.buffered_bytes()), (2, data.len() as u128 + 3));
    assert_eq!(t.feed(flow.reverse(), b" sip:x SIP/2.0\r\n\r\n", 3).len(), 1);
    assert_eq!((t.flow_count(), t.buffered_bytes()), (1, data.len() as u128));
    t.prune(IDLE_US + 1, IDLE_US);
    assert_eq!((t.flow_count(), t.buffered_bytes()), (0, 0));
}
