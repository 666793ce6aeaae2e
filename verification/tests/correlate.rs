//! Calls, media and diagnostics, from messages and packets.
use sipmon::analyze::metrics::{classify_outcome, compute_pdd_ms, compute_setup_ms};
use sipmon::config::{resolve_local_ips, Bucket, Config};
use sipmon::correlate::call::{apply_sip, reason_from_raw, user_of};
use sipmon::correlate::correlator::Correlator;
use sipmon::correlate::frames::{dispatch_media, Work};
use sipmon::correlate::history::{History, MAX_POINTS};
use sipmon::correlate::media::RtpPacket;
use sipmon::correlate::route::{heat_entry, Route};
use sipmon::correlate::stream::RtpStream;
use sipmon::correlate::turn::{Encap, Leg, TurnTracker};
use sipmon::decode::rtcp::RtcpMessage;
use sipmon::decode::rtp::RtpHeader;
use sipmon::decode::sdp;
use sipmon::decode::stun;
use sipmon::decode::tcp_reasm::{TcpReassembler, MAX_STREAM_BUF};
use sipmon::diagnostics;
use sipmon::diagnostics::rules::{
    check_contact, check_pt_change, check_record_route, check_rtp_flow, check_rtp_pt, check_sdp,
    is_multicast, is_private, is_public,
};
use sipmon::diagnostics::Severity;
use sipmon::model::addr::{IpAddr, SocketAddr};
use sipmon::model::addr_text::{ip_from_str, socket_from_str};
use sipmon::model::media::{NegotiatedMedia, StreamSummary};
use sipmon::model::packet::{Flow5Tuple, Proto};
use sipmon::model::sip::{Call, CallState, HangupBy, Method, Outcome, SipMsg};
use sipmon::model::stats::Real64;
use sipmon::store::report_text::{ReportCells, WindowCells};
use sipmon::ui::heading::call_heading;
use sipmon::ui::pages::duration_summary;

fn ip(s: &str) -> IpAddr {
    ip_from_str(s).unwrap()
}

fn sock(s: &str) -> SocketAddr {
    socket_from_str(s).unwrap()
}

fn num(v: f64) -> Real64 {
    Real64 { bits: v.to_bits() }
}

// ----------------------------- one call -----------------------------

fn mk(
    ts: u64,
    is_req: bool,
    method: Option<Method>,
    status: Option<u16>,
    to_tag: Option<&str>,
) -> SipMsg {
    SipMsg {
        ts_us: ts,
        flow: Flow5Tuple {
            proto: Proto::Udp,
            src: sock("1.1.1.1:5060"),
            dst: sock("2.2.2.2:5060"),
        },
        is_request: is_req,
        method,
        status,
        call_id: "c1".into(),
        cseq: Some(1),
        cseq_method: Some("INVITE".into()),
        branch: Some("b".into()),
        from_tag: Some("f".into()),
        to_tag: to_tag.map(str::to_owned),
        from_uri: Some("<sip:alice@1.1.1.1>".into()),
        to_uri: Some("<sip:bob@2.2.2.2>".into()),
        raw: Vec::new(),
        contact_addr: None,
        route_count: 0,
        record_route_count: 0,
        has_sdp: false,
    }
}

#[test]
fn happy_path_state_machine() {
    let mut call = Call::new("c1".into());
    apply_sip(&mut call, &mk(1_000_000, true, Some(Method::Invite), None, None));
    apply_sip(&mut call, &mk(1_100_000, false, None, Some(180), None));
    assert_eq!(call.state, CallState::Ringing);
    assert_eq!(call.pdd_ms, Some(100));
    apply_sip(&mut call, &mk(1_500_000, false, None, Some(200), None));
    assert_eq!(call.state, CallState::Active);
    assert_eq!(call.setup_ms, Some(500));
    let mut bye = mk(3_000_000, true, Some(Method::Bye), None, Some("x"));
    bye.cseq_method = Some("BYE".into());
    apply_sip(&mut call, &bye);
    let mut bye_ok = mk(3_010_000, false, None, Some(200), Some("x"));
    bye_ok.cseq_method = Some("BYE".into());
    apply_sip(&mut call, &bye_ok);
    assert_eq!(call.state, CallState::Completed);
    assert_eq!(call.outcome, Outcome::Answered);
}

#[test]
fn rejected_path() {
    let mut call = Call::new("c1".into());
    apply_sip(&mut call, &mk(1_000_000, true, Some(Method::Invite), None, None));
    apply_sip(&mut call, &mk(1_200_000, false, None, Some(486), None));
    assert_eq!(call.state, CallState::Failed);
    assert_eq!(call.outcome, Outcome::Rejected);
}

#[test]
fn caller_and_callee_are_read_from_the_uris() {
    let mut call = Call::new("c1".into());
    apply_sip(&mut call, &mk(1_000_000, true, Some(Method::Invite), None, None));
    assert_eq!(call.from_user.as_deref(), Some("alice"));
    assert_eq!(call.to_user.as_deref(), Some("bob"));
    assert_eq!(user_of("\"A\" <sip:1001@h;x=y>"), Some("1001".to_string()));
    let raw = b"BYE sip:x SIP/2.0\r\nReason: Q.850;cause=17;text=\"User busy\"\r\n\r\n";
    // The text ends at white space.
    assert_eq!(reason_from_raw(raw), Some((17, "User".to_string())));
}

#[test]
fn pdd_and_setup_from_timestamps() {
    let mut c = Call::new("x".into());
    c.invite_ts = Some(1_000_000);
    c.ringing_ts = Some(1_150_000);
    c.answer_ts = Some(2_000_000);
    assert_eq!(compute_pdd_ms(&c), Some(150));
    assert_eq!(compute_setup_ms(&c), Some(1000));
}

#[test]
fn outcome_follows_state_and_code() {
    let mut c = Call::new("x".into());
    assert_eq!(classify_outcome(&c), Outcome::InProgress);
    c.state = CallState::Failed;
    c.hangup.code = Some(486);
    assert_eq!(classify_outcome(&c), Outcome::Rejected);
    c.hangup.code = Some(503);
    assert_eq!(classify_outcome(&c), Outcome::Failed);
    c.state = CallState::Canceled;
    assert_eq!(classify_outcome(&c), Outcome::Canceled);
}

// ----------------------------- settings -----------------------------

#[test]
fn explicit_local_ips_win_over_detection() {
    let explicit = vec![ip("10.20.0.8"), ip("10.20.0.9")];
    assert_eq!(resolve_local_ips(&explicit, &vec![ip("10.1.1.1")]), explicit);
}

#[test]
fn detection_never_returns_loopback() {
    let found = vec![
        ip("127.0.0.1"),
        ip("::1"),
        ip("169.254.1.1"),
        ip("fe80::1"),
        ip("10.1.1.1"),
        ip("2001:db8::1"),
    ];
    let ips = resolve_local_ips(&Vec::new(), &found);
    assert!(ips.iter().all(|a| *a != ip("127.0.0.1") && *a != ip("::1")), "loopback leaked");
    assert!(ips.contains(&ip("10.1.1.1")));
}

#[test]
fn bucket_sizes() {
    assert_eq!(Bucket::from_str_lossy("15m").seconds(), 900);
    assert_eq!(Bucket::from_str_lossy("1d").seconds(), 86_400);
    assert_eq!(Bucket::from_str_lossy("nonsense").seconds(), 3_600);
    assert_eq!(Config::default().bucket.seconds(), 900);
}

// ----------------------------- rules -----------------------------

#[test]
fn zero_contact_is_critical() {
    let mut msg = mk(0, true, Some(Method::Invite), None, None);
    msg.call_id = "c".into();
    msg.contact_addr = Some(sock("0.0.0.0:5060"));
    let d = check_contact(0, "c", &msg, false);
    assert_eq!(d.len(), 1);
    assert_eq!(d[0].severity, Severity::Critical);

    msg.contact_addr = Some(sock("10.0.0.5:5060"));
    let d = check_contact(0, "c", &msg, true);
    assert_eq!(d.len(), 1);
    assert_eq!(d[0].code, diagnostics::CONTACT_PRIVATE_NAT);
}

#[test]
fn rtp_pt_mismatch() {
    let neg = NegotiatedMedia {
        endpoints: vec![],
        pts: vec![0, 8],
        codecs: vec!["PCMU".into(), "PCMA".into()],
        clock_rates: vec![8000, 8000],
    };
    let d = check_rtp_pt(0, "c", 1, 18, &neg);
    assert!(d.is_some());
    let d = check_rtp_pt(0, "c", 1, 0, &neg);
    assert!(d.is_none());
}

#[test]
fn other_rules_find_what_they_look_for() {
    let mut msg = mk(0, true, Some(Method::Bye), None, Some("t"));
    msg.contact_addr = Some(sock("224.0.0.1:5060"));
    assert_eq!(check_contact(0, "c", &msg, false)[0].code, diagnostics::CONTACT_MCAST);
    assert_eq!(check_record_route(0, "c", &msg, 1)[0].code, diagnostics::RR_NOT_HONORED);
    assert!(check_record_route(0, "c", &msg, 0).is_empty());
    let s = sdp::parse(b"v=0\r\nc=IN IP4 0.0.0.0\r\nm=audio 5004 RTP/AVP 0\r\n").unwrap();
    assert_eq!(check_sdp(0, "c", &s)[0].code, diagnostics::SDP_HOLD);
    assert_eq!(
        check_pt_change(0, "c", 0x10, 8, Some(0)).unwrap().message,
        "RTP ssrc=0x10 payload type changed 0 -> 8"
    );
    assert!(check_pt_change(0, "c", 1, 8, Some(8)).is_none());
    let neg = NegotiatedMedia {
        endpoints: vec![sock("10.0.0.1:5004")],
        pts: vec![0],
        codecs: vec!["PCMU".into()],
        clock_rates: vec![8000],
    };
    let far = Flow5Tuple { proto: Proto::Udp, src: sock("9.9.9.9:1"), dst: sock("8.8.8.8:2") };
    assert_eq!(
        check_rtp_flow(0, "c", &far, &neg).unwrap().code,
        diagnostics::RTP_FLOW_UNEXPECTED
    );
    assert!(is_private(ip("10.0.0.1")) && !is_private(ip("8.8.8.8")));
    assert!(is_public(ip("8.8.8.8")) && !is_public(ip("10.0.0.1")));
    assert!(is_multicast(ip("224.0.0.1")) && !is_multicast(ip("ff02::1")));
    assert_eq!(Severity::from_level("crit"), Severity::Critical);
    assert_eq!(Severity::from_level("?"), Severity::Warn);
}

// ----------------------------- the correlator -----------------------------

fn sip(ts: u64, call_id: &str, method: Method, to_tag: bool) -> SipMsg {
    SipMsg {
        ts_us: ts,
        flow: Flow5Tuple {
            proto: Proto::Udp,
            src: sock("1.1.1.1:5060"),
            dst: sock("2.2.2.2:5060"),
        },
        is_request: true,
        method: Some(method),
        status: None,
        call_id: call_id.into(),
        cseq: Some(1),
        cseq_method: Some(method.name().into()),
        branch: Some("b".into()),
        from_tag: Some("f".into()),
        to_tag: if to_tag { Some("t".to_string()) } else { None },
        from_uri: Some("<sip:a@1.1.1.1>".into()),
        to_uri: Some("<sip:b@2.2.2.2>".into()),
        raw: Vec::new(),
        contact_addr: None,
        route_count: 0,
        record_route_count: 0,
        has_sdp: false,
    }
}

fn sip_resp(ts: u64, call_id: &str, status: u16, cseq_method: &str) -> SipMsg {
    SipMsg {
        ts_us: ts,
        flow: Flow5Tuple {
            proto: Proto::Udp,
            src: sock("2.2.2.2:5060"),
            dst: sock("1.1.1.1:5060"),
        },
        is_request: false,
        method: None,
        status: Some(status),
        call_id: call_id.into(),
        cseq: Some(2),
        cseq_method: Some(cseq_method.into()),
        branch: Some("b".into()),
        from_tag: Some("f".into()),
        to_tag: Some("t".into()),
        from_uri: None,
        to_uri: None,
        raw: Vec::new(),
        contact_addr: None,
        route_count: 0,
        record_route_count: 0,
        has_sdp: false,
    }
}

fn feed(corr: &mut Correlator, msg: SipMsg) {
    corr.handle_sip(msg, None);
}

fn summary(s: &RtpStream) -> StreamSummary {
    let st = s.stats.snapshot();
    StreamSummary {
        call_id: Some(s.call_id.clone()),
        ssrc: s.ssrc,
        flow: Some(s.flow),
        packets: st.packet_count,
        lost: st.lost_packets,
        expected: st.expected_packets,
        loss_pct: num(0.0),
        bytes: s.bytes,
        ..StreamSummary::default()
    }
}

fn tick(corr: &mut Correlator, ts: u64) {
    if corr.maybe_periodic_flush(ts) {
        let sums = corr.reg.streams.iter().map(summary).collect();
        corr.snap_streams(ts, &sums);
    }
}

fn complete_call(corr: &mut Correlator, ts: u64, i: u32) {
    let id = format!("leak-{i}");
    feed(corr, sip(ts, &id, Method::Invite, false));
    feed(corr, sip(ts + 100, &id, Method::Bye, true));
    // 200 OK to BYE terminates the call.
    feed(corr, sip_resp(ts + 200, &id, 200, "BYE"));
}

#[test]
fn long_session_bookkeeping_stays_bounded() {
    let cfg = Config { max_calls: 200, ..Config::default() };
    let mut corr = Correlator::new(&cfg, "memtest".into());
    let mut ts = 1_000_000u64;
    for i in 0..50_000u32 {
        complete_call(&mut corr, ts, i);
        ts += 1_000;
        if i % 200 == 0 {
            tick(&mut corr, ts);
        }
    }
    // Registry bounded.
    assert!(corr.reg.calls.len() <= 200, "calls={}", corr.reg.calls.len());
    // Bookkeeping pruned: it must not track all 50k.
    let invite_rr = corr.invite_rr.len();
    let terminal_done = corr.terminal_done.len();
    assert!(invite_rr <= 200 + 16, "invite_rr grew to {invite_rr} (50k calls)");
    assert!(terminal_done <= 200 + 16, "terminal_done grew to {terminal_done} (50k calls)");
}

#[test]
fn headless_drops_call_on_terminal() {
    let cfg = Config { keep_terminated: false, ..Config::default() };
    let mut corr = Correlator::new(&cfg, "headless".into());
    complete_call(&mut corr, 1_000_000, 1);
    assert!(corr.reg.calls.is_empty(), "terminated call retained: {}", corr.reg.calls.len());
    assert_eq!(corr.invite_rr.len(), 0);
    assert_eq!(corr.terminal_done.len(), 0);
    assert_eq!(corr.reg.completed + corr.reg.failed, 1);
}

#[test]
fn terminated_calls_evicted_by_ttl() {
    let cfg = Config { call_ttl_secs: 60, max_calls: 100_000, ..Config::default() };
    let mut corr = Correlator::new(&cfg, "ttl".into());
    complete_call(&mut corr, 1_000_000, 1);
    assert_eq!(corr.reg.calls.len(), 1);
    // Prime the flush clock, then jump past the 60s TTL.
    tick(&mut corr, 1_000_000);
    tick(&mut corr, 70_000_000);
    assert!(
        corr.reg.calls.is_empty(),
        "TTL did not drop terminated call: {}",
        corr.reg.calls.len()
    );
    assert_eq!(corr.invite_rr.len(), 0);
    assert_eq!(corr.terminal_done.len(), 0);
}

#[allow(clippy::too_many_arguments)]
fn sdp_msg(
    ts: u64,
    call_id: &str,
    is_req: bool,
    method: Method,
    status: Option<u16>,
    src: &str,
    dst: &str,
    sdp_ip: &str,
    port: u16,
    to_tag: bool,
) -> SipMsg {
    let body = format!(
        "v=0\r\no=- 1 1 IN IP4 {sdp_ip}\r\ns=-\r\nc=IN IP4 {sdp_ip}\r\nt=0 0\r\nm=audio {port} RTP/AVP 0\r\na=rtpmap:0 PCMU/8000\r\n"
    );
    let start_line = if is_req {
        format!("{} sip:x SIP/2.0", method.name())
    } else {
        format!("SIP/2.0 {} Something", status.unwrap_or(0))
    };
    let raw = format!(
        "{start_line}\r\nContent-Type: application/sdp\r\nContent-Length: {}\r\n\r\n{body}",
        body.len()
    );
    SipMsg {
        ts_us: ts,
        flow: Flow5Tuple { proto: Proto::Udp, src: sock(src), dst: sock(dst) },
        is_request: is_req,
        method: Some(method),
        status,
        call_id: call_id.into(),
        cseq: Some(1),
        cseq_method: Some("INVITE".into()),
        branch: Some("b".into()),
        from_tag: Some("f".into()),
        to_tag: if to_tag { Some("t".to_string()) } else { None },
        from_uri: Some("<sip:a@1.1.1.1>".into()),
        to_uri: Some("<sip:b@2.2.2.2>".into()),
        raw: raw.into_bytes(),
        contact_addr: None,
        route_count: 0,
        record_route_count: 0,
        has_sdp: true,
    }
}

fn rtp(ts_us: u64, flow: Flow5Tuple, header: RtpHeader, len: usize) -> RtpPacket {
    RtpPacket { ts_us, flow, header, len, encap: Encap::Direct, leg: None }
}

#[test]
fn last_lost_pruned_after_stream_evict() {
    let cfg = Config { keep_terminated: false, ..Config::default() };
    let mut corr = Correlator::new(&cfg, "lostmap".into());
    let id = "lost-prune";
    feed(
        &mut corr,
        sdp_msg(
            1_000_000,
            id,
            true,
            Method::Invite,
            None,
            "10.10.0.1:5060",
            "10.20.0.1:5060",
            "10.10.0.1",
            20000,
            false,
        ),
    );
    let hdr = RtpHeader { version: 2, payload_type: 0, sequence_number: 1, timestamp: 0, ssrc: 0x1111 };
    let flow = Flow5Tuple {
        proto: Proto::Udp,
        src: sock("10.10.0.1:20000"),
        dst: sock("10.20.0.1:20000"),
    };
    corr.ingest_rtp(rtp(2_000_000, flow, hdr, 172));
    tick(&mut corr, 2_000_000);
    tick(&mut corr, 8_000_000);
    assert!(!corr.last_lost.is_empty());
    feed(&mut corr, sip(9_000_000, id, Method::Bye, true));
    feed(&mut corr, sip_resp(9_100_000, id, 200, "BYE"));
    tick(&mut corr, 15_000_000);
    assert_eq!(corr.last_lost.len(), 0);
    assert!(corr.reg.streams.is_empty());
}

#[test]
fn call_message_buffer_is_capped() {
    let mut corr = Correlator::new(&Config::default(), "memtest".into());
    for i in 0..20_000u32 {
        let mut m = sip(1_000_000 + i as u64 * 1000, "hot-call", Method::Info, true);
        m.raw = vec![0x41u8; 500];
        feed(&mut corr, m);
    }
    let n = corr.reg.call("hot-call").unwrap().messages.len();
    assert!(n <= 2000, "messages grew to {n}");
}

fn dialog(corr: &mut Correlator, id: &str, packets: u16) {
    // INVITE (offer) + 200 OK (answer) with SDP.
    feed(
        corr,
        sdp_msg(
            1_000_000,
            id,
            true,
            Method::Invite,
            None,
            "10.10.0.1:5060",
            "10.20.0.1:5060",
            "10.10.0.1",
            20000,
            false,
        ),
    );
    feed(
        corr,
        sdp_msg(
            1_010_000,
            id,
            false,
            Method::Invite,
            Some(200),
            "10.20.0.1:5060",
            "10.10.0.1:5060",
            "10.20.0.1",
            30000,
            true,
        ),
    );
    // RTP toward the negotiated endpoints.
    let flow = Flow5Tuple {
        proto: Proto::Udp,
        src: sock("10.10.0.1:20000"),
        dst: sock("10.20.0.1:30000"),
    };
    for i in 0..packets {
        corr.ingest_rtp(rtp(
            1_100_000 + i as u64 * 20_000,
            flow,
            RtpHeader {
                version: 2,
                payload_type: 0,
                sequence_number: 1000 + i,
                timestamp: 16_000 + i as u32 * 160,
                ssrc: 0x1000,
            },
            160,
        ));
    }
}

#[test]
fn per_ip_rtp_stats_attributed() {
    let mut corr = Correlator::new(&Config::default(), "ipstats".into());
    let id = "ip-attr";
    dialog(&mut corr, id, 10);
    // Both endpoint IPs tracked with the right packet/byte counts.
    let stats = corr.reg.ipstats.snapshot();
    assert_eq!(stats.len(), 2, "both endpoints tracked");
    let a = stats.iter().find(|s| s.ip == ip("10.10.0.1")).unwrap();
    assert_eq!(a.tx.packets + a.rx.packets, 10);
    assert_eq!(a.tx.bytes + a.rx.bytes, 1600);
    let b = stats.iter().find(|s| s.ip == ip("10.20.0.1")).unwrap();
    assert_eq!(b.tx.packets + b.rx.packets, 10);
    // Call remembers the media IPs for the drill-down.
    let call = corr.reg.call(id).unwrap();
    assert!(call.ips.contains(&ip("10.10.0.1")));
    assert!(call.ips.contains(&ip("10.20.0.1")));
    // Active-call counters for both signaling endpoints.
    assert_eq!(a.active_calls, 1);
}

#[test]
fn clear_resets_state() {
    let mut corr = Correlator::new(&Config::default(), "clear".into());
    feed(&mut corr, sip(1_000_000, "x", Method::Invite, false));
    feed(&mut corr, sip(1_100_000, "x", Method::Bye, true));
    corr.reg.ipstats.observe_packet(ip("10.0.0.1"), 1_000_000, 100);
    assert!(!corr.reg.calls.is_empty());
    assert!(!corr.reg.ipstats.snapshot().is_empty());
    corr.clear();
    assert!(corr.reg.calls.is_empty());
    assert_eq!(corr.reg.ipstats.snapshot().len(), 0);
    assert_eq!(corr.reg.completed, 0);
    assert_eq!(corr.reg.failed, 0);
}

fn dash() -> String {
    "-".to_string()
}

#[test]
fn live_session_stats_from_memory() {
    let mut corr = Correlator::new(&Config::default(), "live-stats".into());
    corr.enable_session_stats();
    let id = "live-stats-call";
    dialog(&mut corr, id, 20);
    tick(&mut corr, 1_100_000);
    tick(&mut corr, 7_000_000);
    feed(&mut corr, sip(8_000_000, id, Method::Bye, true));
    feed(&mut corr, sip_resp(8_100_000, id, 200, "BYE"));
    let acc = corr.take_session_stats().expect("stats enabled");
    assert!(corr.take_session_stats().is_none());
    let pcts = acc.ip_loss.iter().map(|_| None).collect();
    let s = acc.finish("live:test".into(), 0, None, 10, &pcts);
    assert_eq!(s.reliability.seizures, 1);
    assert!(s.calls.invite >= 1);
    assert_eq!(s.calls.bye, 1);
    assert!(s.traffic.sip_msgs >= 3);
    assert!(s.loss.pkts > 0, "stream snaps should count RTP");
    let cells = ReportCells {
        asr: dash(),
        ccr: dash(),
        ner: dash(),
        cancel: dash(),
        notfound: dash(),
        reject: dash(),
        busy: dash(),
        timeout: dash(),
        fail: dash(),
        pdd_avg: dash(),
        pdd_p50: dash(),
        pdd_p95: dash(),
        setup: dash(),
        talk: dash(),
        call: dash(),
        loss: dash(),
        pps: dash(),
        bps: dash(),
        cps: dash(),
        mos: dash(),
        jitter: dash(),
        rtt: dash(),
        ips: s.top_ips.iter().map(|_| dash()).collect(),
        windows: s
            .windows
            .iter()
            .map(|_| WindowCells {
                asr: dash(),
                ner: dash(),
                ccr: dash(),
                cancel: dash(),
                notfound: dash(),
                reject: dash(),
                busy: dash(),
                timeout: dash(),
                fail: dash(),
                loss: dash(),
                rtt: dash(),
            })
            .collect(),
    };
    let text = s.render_text(&cells, 0);
    assert!(text.contains("in-memory"), "{text}");
    assert!(text.contains("Reliability"), "{text}");
    assert!(text.contains("live:test"), "{text}");
}

/// Deterministic generator so failures are reproducible.
struct Rng(u64);

impl Rng {
    fn next(&mut self) -> u64 {
        self.0 = self.0.wrapping_mul(6364136223846793005).wrapping_add(1442695040888963407);
        self.0
    }

    fn below(&mut self, n: u64) -> u64 {
        self.next() % n.max(1)
    }

    fn byte(&mut self) -> u8 {
        (self.next() >> 33) as u8
    }
}

fn analyse(corr: &mut Correlator, tcp: &mut TcpReassembler, ts: u64, linktype: u32, data: &[u8]) {
    let mut turn = TurnTracker::new(&[]);
    let (work, _) = corr.ingest_frame(tcp, &mut turn, ts, linktype, data);
    for w in work {
        match w {
            Work::Sip(m) => feed(corr, m),
            Work::Rtp(p) => {
                corr.ingest_rtp(p);
            }
            Work::Finding(d) => corr.add_diagnostic(d),
            Work::Rtcp(m) => {
                let n = match &m {
                    RtcpMessage::Sr(s) => s.reports.len(),
                    RtcpMessage::Rr(r) => r.reports.len(),
                    RtcpMessage::Other(_) => 0,
                };
                corr.ingest_rtcp(ts, &m, &vec![None; n], None);
            }
        }
    }
}

#[test]
fn fuzz_mutated_frames_no_panic() {
    let mut rng = Rng(0xdead_beef_cafe_1234);
    let mut corr = Correlator::new(&Config::default(), "fuzz".into());
    let mut tcp = TcpReassembler::new();
    // Pure random buffers across all supported link types (+ bogus ones).
    for _ in 0..5000 {
        let len = rng.below(1600) as usize;
        let buf: Vec<u8> = (0..len).map(|_| rng.byte()).collect();
        let lt = [1u32, 12, 113, 276, 999][(rng.below(5)) as usize];
        analyse(&mut corr, &mut tcp, rng.below(4_000_000_000_000), lt, &buf);
    }
    // Sanity: the pipeline survived and produced some state.
    assert!(corr.reg.pkts_total > 0);
    let _ = corr.reg.snapshot(10, &Vec::new());
}

#[test]
fn udp_payloads_are_routed() {
    let mut corr = Correlator::new(&Config::default(), "route".into());
    let chan = [0x40u8, 1, 0, 2, 9, 9];
    let mut media = vec![0x80u8, 0, 0, 1, 0, 0, 0, 0, 0, 0, 0, 1];
    assert_eq!(corr.route_udp(b"BYE sip:x SIP/2.0\r\n"), Route::Sip);
    assert_eq!(corr.route_udp(&media), Route::Rtp);
    media[1] = 200;
    assert_eq!(corr.route_udp(&media), Route::Rtcp);
    assert_eq!(corr.route_udp(&chan), Route::ChannelData);
    assert_eq!(corr.route_udp(b"x"), Route::Ignore);
    corr.no_media = true;
    assert_eq!(corr.route_udp(&media), Route::Ignore);
    assert_eq!(corr.route_udp(b"SIP/2.0 200 OK\r\n"), Route::Sip);
}

#[test]
fn a_rejected_call_counts_as_failed() {
    let mut corr = Correlator::new(&Config::default(), "t".into());
    feed(&mut corr, sip(1_000_000, "r", Method::Invite, false));
    feed(&mut corr, sip_resp(1_100_000, "r", 486, "INVITE"));
    let c = corr.reg.call("r").unwrap();
    assert_eq!(c.hangup.code, Some(486));
    assert_eq!(c.hangup_by, Some(HangupBy::Reject));
    let h = heat_entry(c).unwrap();
    assert!(h.failed && !h.answered);
    assert_eq!(h.key, "1.1.1.1");
    assert_eq!(corr.reg.failed, 1);
}

#[test]
fn a_call_knows_how_long_it_was() {
    let mut corr = Correlator::new(&Config::default(), "t".into());
    feed(&mut corr, sip(1_000_000, "c", Method::Invite, false));
    feed(&mut corr, sip_resp(3_000_000, "c", 200, "INVITE"));
    assert_eq!(corr.reg.calls[0].talk_ms(), None);
    feed(&mut corr, sip(8_500_000, "c", Method::Bye, true));
    assert_eq!(corr.reg.calls[0].talk_ms(), Some(5_500));
    assert_eq!(corr.reg.call_messages("c").unwrap().len(), 3);
    assert!(corr.reg.call_messages("d").is_none());
    let start = corr.reg.start_us;
    corr.reg.ensure_start(5);
    assert_eq!(corr.reg.start_us, Some(start.unwrap_or(5)));
}

#[test]
fn negotiated_clocks_win_over_defaults() {
    let n = NegotiatedMedia {
        endpoints: Vec::new(),
        pts: vec![0, 111, 9],
        codecs: Vec::new(),
        clock_rates: vec![16000, 48000, 0],
    };
    assert_eq!(n.clock_rate_for_pt(0), 16000);
    assert_eq!(n.clock_rate_for_pt(111), 48000);
    // A rate of zero is none, and 34 was not offered.
    assert_eq!(n.clock_rate_for_pt(9), 8000);
    assert_eq!(n.clock_rate_for_pt(34), 90000);
}

// ----------------------------- around the correlator -----------------------------

#[test]
fn an_answer_counts_for_the_caller() {
    let mut corr = Correlator::new(&Config::default(), "t".into());
    let invite = sip(1, "c", Method::Invite, false);
    let seen = corr.observation(&invite);
    assert_eq!((seen.ip, seen.ts_us, seen.initial_invite), (ip("1.1.1.1"), 1, true));
    assert_eq!(seen.answer_for_ip, None);
    assert_eq!(seen.method, Some(Method::Invite));

    let ok = sip_resp(2, "c", 200, "INVITE");
    // Nothing is known of the call yet.
    assert_eq!(corr.observation(&ok).answer_for_ip, None);
    feed(&mut corr, invite);
    let seen = corr.observation(&ok);
    assert_eq!(seen.ip, ip("2.2.2.2"));
    assert_eq!((seen.is_request, seen.status), (false, Some(200)));
    assert_eq!(seen.answer_for_ip, Some(ip("1.1.1.1")));
    assert!(!seen.initial_invite);
    // Another status and another method accept nothing.
    assert_eq!(corr.observation(&sip_resp(2, "c", 180, "INVITE")).answer_for_ip, None);
    assert_eq!(corr.observation(&sip_resp(2, "c", 200, "BYE")).answer_for_ip, None);
    // The second answer is none.
    feed(&mut corr, ok);
    assert_eq!(corr.observation(&sip_resp(3, "c", 200, "INVITE")).answer_for_ip, None);
}

#[test]
fn full_counters_have_no_room() {
    let mut corr = Correlator::new(&Config::default(), "t".into());
    let msg = sip(1, "c", Method::Invite, false);
    assert!(corr.has_sip_room(&msg));
    feed(&mut corr, msg);
    assert!(corr.has_sip_room(&sip(2, "c", Method::Bye, true)));
    corr.reg.calls[0].pkts_sip = u64::MAX;
    assert!(!corr.has_sip_room(&sip(2, "c", Method::Bye, true)));
    assert!(corr.has_sip_room(&sip(2, "other", Method::Bye, true)));
}

#[test]
fn a_dry_run_writes_no_log() {
    let cfg = Config { evlog: Some("a.evlog".into()), ..Config::default() };
    assert_eq!(cfg.log_path(), Some("a.evlog".to_string()));
    let dry = Config { dry_run: true, ..cfg };
    assert_eq!(dry.log_path(), None);
    let rec = dry.record_to("b.evlog".into());
    assert_eq!(rec.log_path(), Some("b.evlog".to_string()));
    assert_eq!(rec.max_calls, 100_000);
}

// ----------------------------- frames -----------------------------

/// A raw IPv4 packet between two hosts.
fn ipv4(proto: u8, l4: &[u8]) -> Vec<u8> {
    let mut p = vec![0x45u8, 0];
    p.extend(((20 + l4.len()) as u16).to_be_bytes());
    p.extend([0, 0, 0, 0, 64, proto, 0, 0, 10, 0, 0, 1, 10, 0, 0, 2]);
    p.extend(l4);
    p
}

fn udp(port: u16, payload: &[u8]) -> Vec<u8> {
    let mut p = port.to_be_bytes().to_vec();
    p.extend(port.to_be_bytes());
    p.extend(((8 + payload.len()) as u16).to_be_bytes());
    p.extend([0, 0]);
    p.extend(payload);
    ipv4(17, &p)
}

fn tcp_segment(payload: &[u8]) -> Vec<u8> {
    let mut p = 5060u16.to_be_bytes().to_vec();
    p.extend(5060u16.to_be_bytes());
    p.extend([0; 8]);
    p.extend([0x50, 0, 0, 0, 0, 0, 0, 0]);
    p.extend(payload);
    ipv4(6, &p)
}

const MEDIA: [u8; 14] = [0x80, 8, 0, 5, 0, 0, 0, 160, 0, 0, 0, 9, 1, 2];

#[test]
fn a_datagram_gives_what_it_holds() {
    let mut corr = Correlator::new(&Config::default(), "t".into());
    let mut tcp = TcpReassembler::new();
    let mut turn = TurnTracker::new(&[]);
    let sip = b"OPTIONS sip:x SIP/2.0\r\nCall-ID: c\r\nCSeq: 1 OPTIONS\r\n\r\n";
    let (w, _) = corr.ingest_frame(&mut tcp, &mut turn, 7, 12, &udp(5060, sip));
    match &w[..] {
        [Work::Sip(m)] => {
            assert_eq!((m.ts_us, m.call_id.as_str(), m.flow.proto), (7, "c", Proto::Udp));
        }
        _ => panic!("one message"),
    }
    let (w, _) = corr.ingest_frame(&mut tcp, &mut turn, 8, 12, &udp(4000, &MEDIA));
    match &w[..] {
        [Work::Rtp(p)] => {
            assert_eq!((p.ts_us, p.len, p.encap, p.leg), (8, 14, Encap::Direct, None));
            assert_eq!((p.header.payload_type, p.header.sequence_number), (8, 5));
            assert_eq!((p.header.timestamp, p.header.ssrc), (160, 9));
            assert_eq!(p.flow.src, sock("10.0.0.1:4000"));
        }
        _ => panic!("one packet"),
    }
    // A receiver report without blocks, twice in one packet.
    let rr = [0x80u8, 201, 0, 1, 0, 0, 0, 7];
    let two: Vec<u8> = [rr, rr].concat();
    let (w, _) = corr.ingest_frame(&mut tcp, &mut turn, 9, 12, &udp(4001, &two));
    assert_eq!(w.len(), 2);
    assert!(w.iter().all(|x| matches!(x, Work::Rtcp(RtcpMessage::Rr(r)) if r.ssrc == 7)));
    assert!(corr.ingest_frame(&mut tcp, &mut turn, 9, 12, &udp(4001, b"hello")).0.is_empty());
    assert!(corr.ingest_frame(&mut tcp, &mut turn, 9, 12, &[]).0.is_empty());
    assert_eq!(corr.reg.pkts_total, 5);
}

#[test]
fn relayed_media_is_unwrapped() {
    let corr = Correlator::new(&Config::default(), "t".into());
    let mut turn = TurnTracker::new(&[]);
    let flow = Flow5Tuple {
        proto: Proto::Udp,
        src: sock("1.1.1.1:4000"),
        dst: sock("2.2.2.2:3478"),
    };
    let mut channel = vec![0x40u8, 1, 0, 14];
    channel.extend(MEDIA);
    match &corr.handle_udp(&mut turn, 1, flow, &channel)[..] {
        [Work::Rtp(p)] => assert_eq!((p.encap, p.len), (Encap::ChannelData, 14)),
        _ => panic!("one packet"),
    }
    // A Send indication with a DATA attribute.
    let mut stun = vec![0x00u8, 0x16, 0, 20, 0x21, 0x12, 0xa4, 0x42];
    stun.extend([0; 12]);
    stun.extend([0x00, 0x13, 0, 14]);
    stun.extend(MEDIA);
    stun.extend([0, 0]);
    match &corr.handle_udp(&mut turn, 1, flow, &stun)[..] {
        [Work::Rtp(p)] => assert_eq!((p.encap, p.len), (Encap::SendIndication, 14)),
        _ => panic!("one packet"),
    }
    assert!(dispatch_media(1, flow, b"neither", Encap::ChannelData, None).is_empty());
    let quiet =
        Correlator::new(&Config { no_media: true, ..Config::default() }, "t".into());
    assert!(quiet.handle_udp(&mut turn, 1, flow, &channel).is_empty());
    assert!(quiet.handle_udp(&mut turn, 1, flow, &MEDIA).is_empty());
}

#[test]
fn a_message_in_two_segments_comes_with_the_second() {
    let mut corr = Correlator::new(&Config::default(), "t".into());
    let mut tcp = TcpReassembler::new();
    let mut turn = TurnTracker::new(&[]);
    let msg = b"BYE sip:x SIP/2.0\r\nCall-ID: c\r\nCSeq: 2 BYE\r\nContent-Length: 0\r\n\r\n";
    let (a, b) = msg.split_at(20);
    assert!(corr.ingest_frame(&mut tcp, &mut turn, 1, 12, &tcp_segment(a)).0.is_empty());
    let (w, _) = corr.ingest_frame(&mut tcp, &mut turn, 2, 12, &tcp_segment(b));
    match &w[..] {
        [Work::Sip(m)] => {
            assert_eq!((m.ts_us, m.method, m.flow.proto), (2, Some(Method::Bye), Proto::Tcp));
        }
        _ => panic!("one message"),
    }
}

fn ether_ip_tcp(payload: &[u8], sport: u16, dport: u16) -> Vec<u8> {
    let mut tcp = Vec::new();
    tcp.extend_from_slice(&sport.to_be_bytes());
    tcp.extend_from_slice(&dport.to_be_bytes());
    tcp.extend_from_slice(&1u32.to_be_bytes());
    tcp.extend_from_slice(&0u32.to_be_bytes());
    tcp.extend_from_slice(&[0x50, 0x18]);
    tcp.extend_from_slice(&65535u16.to_be_bytes());
    tcp.extend_from_slice(&[0, 0, 0, 0]);
    tcp.extend_from_slice(payload);
    let mut eth = vec![0x02, 0, 0, 0, 0, 1, 0x02, 0, 0, 0, 0, 2, 0x08, 0x00, 0x45, 0x00];
    eth.extend_from_slice(&((20 + tcp.len()) as u16).to_be_bytes());
    eth.extend_from_slice(&[0, 0, 0, 0, 64, 6, 0, 0, 10, 0, 0, 1, 10, 0, 0, 2]);
    eth.extend_from_slice(&tcp);
    eth
}

#[test]
fn huge_content_length_tcp_no_oom() {
    let mut corr = Correlator::new(&Config::default(), "tcp".into());
    let mut tcp = TcpReassembler::new();
    let ts = 1_800_000_000_000_000;
    let hdr = b"INVITE sip:x SIP/2.0\r\nContent-Length: 2000000000\r\n\r\n".to_vec();
    analyse(&mut corr, &mut tcp, ts, 1, &ether_ip_tcp(&hdr, 5060, 5060));
    let chunk = vec![0x41u8; 4096];
    for _ in 0..3000 {
        analyse(&mut corr, &mut tcp, ts, 1, &ether_ip_tcp(&chunk, 5060, 5060));
        assert!(
            tcp.buffered_bytes() <= MAX_STREAM_BUF as u128,
            "huge CL must terminate cleanly, not OOM"
        );
    }
    assert_eq!(corr.reg.pkts_total, 3001);
}

#[test]
fn random_sip_blast_no_crash() {
    let mut corr = Correlator::new(&Config::default(), "tcp".into());
    let mut tcp = TcpReassembler::new();
    let seeds: &[&[u8]] = &[
        b"INVITE sip:a SIP/2.0\r\nCSeq: 1 INVITE\r\nContent-Length: 999999999999\r\n\r\n",
        b"SIP/2.0 999 BAD\r\n\r\n",
        b"BYE sip:x SIP/2.0\r\nReason: SIP ;cause=99999\r\n\r\n",
        b"INVITE sip:a SIP/2.0\r\nContent-Type: application/sdp\r\n\r\nv=0\r\nc=IN IP4 notanip\r\nm=audio 0 RTP/AVP -1\r\n",
    ];
    for s in seeds {
        analyse(&mut corr, &mut tcp, 1_800_000_000_000_000, 1, &ether_ip_tcp(s, 5060, 5060));
    }
    assert_eq!(corr.reg.pkts_total, 4);
}

#[test]
fn elapsed_time_is_summed_up() {
    let corr = Correlator::new(&Config::default(), "t".into());
    let mut snap = corr.reg.snapshot(10, &Vec::new());
    for (us, text) in [
        (None, "-"),
        (Some(0), "0.0s"),
        (Some(12_399_999), "12.3s"),
        (Some(61_000_000), "1m1s"),
    ] {
        snap.elapsed_us = us;
        assert_eq!(duration_summary(&snap), text);
    }
}

fn call_of(msgs: &[SipMsg]) -> Call {
    let mut call = Call::new("c1".into());
    for m in msgs {
        apply_sip(&mut call, m);
    }
    call
}

#[test]
fn post_dial_delay_runs_to_the_first_provisional_response() {
    let call = call_of(&[
        sip(1_000_000, "c1", Method::Invite, false),
        sip_resp(1_050_000, "c1", 100, "INVITE"),
        sip_resp(1_100_000, "c1", 180, "INVITE"),
    ]);
    assert_eq!(call.pdd_ms, Some(50));
    assert_eq!(compute_pdd_ms(&call), Some(50));
    assert_eq!((call.trying_ts, call.ringing_ts), (Some(1_050_000), Some(1_100_000)));
    // Ringing alone counts too, and without an INVITE there is no delay.
    let call = call_of(&[
        sip(1_000_000, "c1", Method::Invite, false),
        sip_resp(1_100_000, "c1", 180, "INVITE"),
    ]);
    assert_eq!(call.pdd_ms, Some(100));
    assert_eq!(call_of(&[sip_resp(1_100_000, "c1", 180, "INVITE")]).pdd_ms, None);
}

#[test]
fn only_the_invite_is_answered() {
    let call = call_of(&[
        sip(1_000_000, "c1", Method::Invite, false),
        sip(2_000_000, "c1", Method::Cancel, false),
        sip_resp(2_100_000, "c1", 200, "CANCEL"),
    ]);
    assert_eq!(call.state, CallState::Canceled);
    assert_eq!((call.answer_ts, call.setup_ms), (None, None));
    assert_ne!(call.outcome, Outcome::Answered);
    assert_eq!(call.hangup_by, Some(HangupBy::Cancel));
    let mut unknown = sip_resp(2_100_000, "c1", 200, "");
    unknown.cseq_method = None;
    let call = call_of(&[sip(1_000_000, "c1", Method::Invite, false), unknown]);
    assert_eq!(call.setup_ms, Some(1_100));
}

#[test]
fn ringing_and_hangup_are_told() {
    let mut early = sip_resp(1_200_000, "c1", 183, "INVITE");
    early.has_sdp = true;
    let msgs = vec![
        sip(1_000_000, "c1", Method::Invite, false),
        early,
        sip_resp(1_300_000, "c1", 180, "INVITE"),
        sip_resp(3_200_000, "c1", 200, "INVITE"),
    ];
    let call = call_of(&msgs);
    assert_eq!(call.ring_ms, Some(2_000));
    assert_eq!(call.ring_code, Some(183));
    assert!(call.early_media);
    assert_eq!(call.hangup_by, None);
    let mut by_caller = msgs.clone();
    by_caller.push(sip(4_000_000, "c1", Method::Bye, true));
    assert_eq!(call_of(&by_caller).hangup_by, Some(HangupBy::Caller));
    let mut by_callee = msgs;
    let mut bye = sip(4_000_000, "c1", Method::Bye, true);
    bye.from_uri = Some("<sip:b@2.2.2.2>".into());
    by_callee.push(bye);
    assert_eq!(call_of(&by_callee).hangup_by, Some(HangupBy::Callee));
    let rejected =
        [sip(1_000_000, "c1", Method::Invite, false), sip_resp(1_100_000, "c1", 486, "INVITE")];
    assert_eq!(call_of(&rejected).hangup_by, Some(HangupBy::Reject));
    assert!(!call_of(&rejected).early_media);
}

#[test]
fn hold_is_told_by_direction_or_address() {
    let of = |body: &str| {
        let s = sdp::parse(body.as_bytes()).unwrap();
        check_sdp(7, "c", &s)
    };
    let r = of("v=0\r\nc=IN IP4 10.0.0.1\r\nm=audio 5004 RTP/AVP 0\r\na=sendonly\r\n");
    assert_eq!(r.len(), 1);
    assert_eq!(r[0].code, "SDP_HOLD");
    assert_eq!(of("v=0\r\na=inactive\r\nm=audio 5004 RTP/AVP 0\r\n").len(), 1);
    assert!(of("v=0\r\nm=audio 5004 RTP/AVP 0\r\na=sendrecv\r\n").is_empty());
    assert!(of("v=0\r\nm=audio 5004 RTP/AVP 0\r\na=recvonly\r\n").is_empty());
    let both = of("v=0\r\nc=IN IP4 0.0.0.0\r\nm=audio 5004 RTP/AVP 0\r\na=sendonly\r\n");
    assert_eq!(both.len(), 1);
    assert!(both[0].message.contains("0.0.0.0"));
}

#[test]
fn a_message_can_end_its_call() {
    let mut corr = Correlator::new(&Config::default(), "t".into());
    corr.keep_terminated = true;
    assert!(corr.handle_sip(sip(1_000_000, "c", Method::Invite, false), None).is_none());
    assert!(corr.handle_sip(sip_resp(1_500_000, "c", 200, "INVITE"), None).is_none());
    assert!(corr.handle_sip(sip(2_000_000, "c", Method::Bye, true), None).is_none());
    let e = corr.handle_sip(sip_resp(2_100_000, "c", 200, "BYE"), None).unwrap();
    assert_eq!((e.ts_us, e.key.as_str()), (2_100_000, "1.1.1.1"));
    assert!(e.answered && !e.failed);
    assert_eq!(corr.reg.completed, 1);
    assert!(corr.handle_sip(sip_resp(2_200_000, "c", 200, "BYE"), None).is_none());
}

// ----------------------------- TURN -----------------------------

fn stun_message(typ: u16, attrs: &[(u16, Vec<u8>)]) -> Vec<u8> {
    let mut body: Vec<u8> = Vec::new();
    for (t, v) in attrs {
        body.extend(t.to_be_bytes());
        body.extend((v.len() as u16).to_be_bytes());
        body.extend(v);
        body.resize(body.len().div_ceil(4) * 4, 0);
    }
    let mut out: Vec<u8> = Vec::new();
    out.extend(typ.to_be_bytes());
    out.extend((body.len() as u16).to_be_bytes());
    out.extend(stun::MAGIC_COOKIE.to_be_bytes());
    out.extend([1u8; 12]);
    out.extend(body);
    out
}

fn udp_flow(src: &str, dst: &str) -> Flow5Tuple {
    Flow5Tuple { proto: Proto::Udp, src: sock(src), dst: sock(dst) }
}

/// 203.0.113.1:40000 as an XOR address.
fn relayed() -> (u16, Vec<u8>) {
    let mut v = vec![0u8, 1];
    v.extend((40000u16 ^ 0x2112).to_be_bytes());
    v.extend((0xcb00_7101u32 ^ stun::MAGIC_COOKIE).to_be_bytes());
    (stun::ATTR_XOR_RELAYED_ADDRESS, v)
}

#[test]
fn turn_tracker_capped() {
    let mut t = TurnTracker::new(&[]);
    let mut f = udp_flow("10.0.0.1:3000", "203.0.113.1:3478");
    let request = stun::parse(&stun_message(stun::METHOD_ALLOCATE, &[])).unwrap();
    for i in 0..40_000u32 {
        f.src = sock(&format!("10.0.{}.{}:3000", (i / 250) % 250, i % 250 + 1));
        let _ = t.ingest(i as u64, &f, &request);
    }
    assert!(t.allocs.len() <= 8192, "allocs={}", t.allocs.len());
    assert!(t.turn_servers.len() <= 512);
    // The latest stay.
    assert_eq!(t.allocs.last().unwrap().client, f.src);
    assert_eq!(t.turn_servers, vec![ip("203.0.113.1")]);
}

#[test]
fn an_allocation_is_learned() {
    let corr = Correlator::new(&Config::default(), "t".into());
    let mut turn = TurnTracker::new(&[]);
    let up = udp_flow("10.0.0.1:3000", "203.0.113.1:3478");
    let media = udp_flow("10.0.0.1:3002", "203.0.113.1:3478");
    let beyond = udp_flow("203.0.113.1:40000", "198.51.100.7:5004");
    assert_eq!(turn.leg_of(&media), None);
    assert!(corr.handle_udp(&mut turn, 1, up, &stun_message(stun::METHOD_ALLOCATE, &[])).is_empty());
    assert_eq!(turn.leg_of(&media), Some(Leg::Client));
    let ok = stun_message(stun::METHOD_ALLOCATE | 0x0100, &[relayed()]);
    match &corr.handle_udp(&mut turn, 2, up.reverse(), &ok)[..] {
        [Work::Finding(d)] => {
            assert_eq!((d.ts_us, d.code, d.severity), (2, "TURN_ALLOC_OK", Severity::Info));
            assert_eq!(
                d.message,
                "TURN allocation of 10.0.0.1:3000 on 203.0.113.1:3478: relay 203.0.113.1:40000"
            );
            assert!(corr.has_diag_room(d));
        }
        _ => panic!("one finding"),
    }
    assert_eq!(turn.allocs.len(), 1);
    for f in [beyond, beyond.reverse()] {
        assert_eq!(turn.leg_of(&f), Some(Leg::Peer));
        match &corr.handle_udp(&mut turn, 3, f, &MEDIA)[..] {
            [Work::Rtp(p)] => assert_eq!((p.leg, p.encap), (Some(Leg::Peer), Encap::Direct)),
            _ => panic!("one packet"),
        }
    }
    assert_eq!(turn.leg_of(&udp_flow("10.0.0.1:1", "10.0.0.2:2")), None);
    // A server that is named beforehand needs no exchange.
    let named = TurnTracker::new(&[ip("203.0.113.1")]);
    assert_eq!(named.leg_of(&media), Some(Leg::Client));
    assert_eq!(named.leg_of(&beyond), Some(Leg::Client));
}

#[test]
fn refused_allocations_are_found() {
    let corr = Correlator::new(&Config::default(), "t".into());
    let mut turn = TurnTracker::new(&[]);
    let down = udp_flow("203.0.113.1:3478", "10.0.0.1:3000");
    let error = (stun::ATTR_ERROR_CODE, b"\0\0\x04\x56Quota".to_vec());
    for (method, code, message) in [
        (
            stun::METHOD_ALLOCATE,
            "TURN_ALLOC_FAILED",
            "TURN allocation failed for 10.0.0.1:3000 on 203.0.113.1:3478: 486 Quota",
        ),
        (
            stun::METHOD_REFRESH,
            "TURN_REFRESH_FAILED",
            "TURN refresh failed for 10.0.0.1:3000 on 203.0.113.1:3478: 486 Quota",
        ),
    ] {
        let b = stun_message(method | 0x0110, &[error.clone()]);
        match &corr.handle_udp(&mut turn, 5, down, &b)[..] {
            [Work::Finding(d)] => {
                assert_eq!((d.code, d.severity, d.call_id.as_str()), (code, Severity::Warn, ""));
                assert_eq!(d.message, message);
            }
            _ => panic!("one finding"),
        }
    }
    assert!(turn.allocs.is_empty() && turn.turn_servers.is_empty());
}

// ----------------------------- samples over time -----------------------------

#[test]
fn samples_tell_what_passed_between_them() {
    let mut h = History::new();
    let mut sum = StreamSummary::default();
    sum.loss_pct = num(1.5);
    sum.mos = Some(num(4.2));
    (sum.bytes, sum.packets) = (1_000, 10);
    h.sample(5_000_000, &sum);
    (sum.bytes, sum.packets) = (1_600, 13);
    h.sample(10_000_000, &sum);
    let p = h.points();
    assert_eq!(p.len(), 2);
    assert_eq!((p[0].ts_us, p[0].bytes, p[0].packets), (5_000_000, 1_000, 10));
    assert_eq!((p[1].ts_us, p[1].bytes, p[1].packets), (10_000_000, 600, 3));
    assert_eq!((p[1].loss_pct, p[1].jitter_ms, p[1].mos), (num(1.5), None, Some(num(4.2))));
    assert_eq!(p.iter().map(|x| x.bytes).sum::<u64>(), sum.bytes);
    for i in 0..2 * MAX_POINTS as u64 {
        h.sample(15_000_000 + i, &sum);
    }
    assert_eq!(h.points.len(), MAX_POINTS);
    assert_eq!(h.points[MAX_POINTS - 1].ts_us, 15_000_000 + 2 * MAX_POINTS as u64 - 1);
    assert_eq!(h.points[MAX_POINTS - 1].bytes, 0);
}

#[test]
fn a_full_stream_has_no_room() {
    let mut corr = Correlator::new(&Config::default(), "t".into());
    let flow = udp_flow("10.10.0.1:20000", "10.20.0.1:20000");
    let hdr =
        RtpHeader { version: 2, payload_type: 0, sequence_number: 1, timestamp: 0, ssrc: 0x1111 };
    feed(
        &mut corr,
        sdp_msg(
            1_000_000,
            "c",
            true,
            Method::Invite,
            None,
            "10.10.0.1:5060",
            "10.20.0.1:5060",
            "10.10.0.1",
            20000,
            false,
        ),
    );
    let p = rtp(2_000_000, flow, hdr, 172);
    assert!(corr.has_rtp_room(&p));
    corr.ingest_rtp(rtp(2_000_000, flow, hdr, 172));
    assert_eq!(corr.reg.streams.len(), 1);
    assert!(corr.has_snap_room(&vec![StreamSummary::default()]));
    corr.reg.streams[0].bytes = u64::MAX;
    assert!(!corr.has_rtp_room(&p));
}

// ----------------------------- what SDP says of payload types -----------------------------

fn offer(sdp: &str) -> SipMsg {
    let mut m = sip(1_000_000, "c", Method::Invite, false);
    m.raw = format!("INVITE sip:b SIP/2.0\r\n\r\n{sdp}").into_bytes();
    m.has_sdp = true;
    m
}

#[test]
fn payload_types_keep_their_names_and_clocks() {
    let mut corr = Correlator::new(&Config::default(), "t".into());
    let sdp = "v=0\r\nc=IN IP4 10.0.0.1\r\nm=audio 4000 RTP/AVP 2 8 96\r\na=rtpmap:96 FOO/16000\r\n";
    feed(&mut corr, offer(sdp));
    let n = &corr.reg.calls[0].negotiated;
    assert_eq!(n.pts, vec![2, 8, 96]);
    assert_eq!(n.codecs, vec!["", "PCMA", "FOO"]);
    assert_eq!(n.clock_rates, vec![0, 0, 16000]);
    assert_eq!(n.codec_for_pt(2), None);
    assert_eq!(n.codec_for_pt(8).as_deref(), Some("PCMA"));
    assert_eq!(n.clock_rate_for_pt(96), 16000);
    assert_eq!(n.clock_rate_for_pt(8), 8000);
    // The answer adds what the offer lacks, and leaves what it has.
    let answer =
        "v=0\r\nc=IN IP4 10.0.0.2\r\nm=audio 4002 RTP/AVP 96 97\r\na=rtpmap:96 BAR/8000\r\na=rtpmap:97 BAZ/48000\r\n";
    feed(&mut corr, offer(answer));
    let n = &corr.reg.calls[0].negotiated;
    assert_eq!(n.pts, vec![2, 8, 96, 97]);
    assert_eq!(n.codecs, vec!["", "PCMA", "FOO", "BAZ"]);
    assert_eq!(n.clock_rates, vec![0, 0, 16000, 48000]);
    // A stream runs by the clock that was negotiated for its first payload type.
    let flow = udp_flow("10.0.0.1:4000", "10.0.0.2:4002");
    let mut hdr =
        RtpHeader { version: 2, payload_type: 96, sequence_number: 1, timestamp: 0, ssrc: 7 };
    assert!(corr.ingest_rtp(rtp(2_000_000, flow, hdr, 100)).is_none());
    (hdr.sequence_number, hdr.timestamp) = (2, 320);
    let step = corr.ingest_rtp(rtp(2_020_000, flow, hdr, 100)).unwrap();
    assert_eq!((step.clock_rate, step.rtp_delta), (16000, 320));
    assert_eq!(corr.reg.streams[0].codec.as_deref(), Some("FOO"));
    // A type outside the set is reported with the names that there are.
    (hdr.payload_type, hdr.ssrc) = (5, 8);
    corr.ingest_rtp(rtp(2_040_000, flow, hdr, 100));
    let d = corr.reg.diagnostics.iter().find(|d| d.code == "RTP_PT_MISMATCH").unwrap();
    assert!(d.message.ends_with("not in negotiated codecs {PCMA,FOO,BAZ}"), "{}", d.message);
}

#[test]
fn recorded_routes_are_compared_by_depth() {
    let mut corr = Correlator::new(&Config::default(), "t".into());
    let mut invite = sip(1_000_000, "c", Method::Invite, false);
    invite.record_route_count = 2;
    feed(&mut corr, invite);
    for (routes, code) in [(2, None), (0, Some("RR_NOT_HONORED")), (1, Some("RR_DEPTH_MISMATCH"))] {
        let mut m = sip(2_000_000, "c", Method::Info, true);
        m.route_count = routes;
        let before = corr.reg.diagnostics.len();
        feed(&mut corr, m);
        let found: Vec<&str> = corr.reg.diagnostics[before..].iter().map(|d| d.code).collect();
        assert_eq!(found, code.into_iter().collect::<Vec<&str>>());
    }
    let last = corr.reg.diagnostics.last().unwrap();
    assert_eq!(
        last.message,
        "in-dialog INFO has 1 Route header(s) but INVITE carried 2 Record-Route"
    );
}

#[test]
fn session_statistics_count_each_event_once() {
    let mut corr = Correlator::new(&Config::default(), "t".into());
    assert!(corr.take_session_stats().is_none());
    corr.enable_session_stats();
    feed(&mut corr, sip(1_000_000, "c", Method::Invite, false));
    assert!(!corr.take_events().is_empty());
    feed(&mut corr, sip(2_000_000, "c", Method::Ack, true));
    let acc = corr.take_session_stats().unwrap();
    assert_eq!(acc.events.sip, 2);
    // What is still buffered goes to the log all the same.
    assert!(!corr.take_events().is_empty());
    corr.enable_session_stats();
    corr.clear();
    assert_eq!(corr.take_session_stats().unwrap().events.sip, 0);
}

// ----------------------------- the heading of a call -----------------------------

#[test]
fn a_call_is_headed_by_its_parties_and_times() {
    let mut corr = Correlator::new(&Config::default(), "t".into());
    corr.keep_terminated = true;
    feed(&mut corr, sip(1_000_000, "c", Method::Invite, false));
    feed(&mut corr, sip_resp(1_250_000, "c", 180, "INVITE"));
    corr.set_focus(Some("c".into()));
    let f = corr.reg.snapshot_full(&Vec::new()).focus.unwrap();
    let lines = call_heading(&f, false, &None);
    assert_eq!(lines.len(), 4);
    assert_eq!(lines[0], "Call c (a → b) [Ringing]");
    assert_eq!(lines[1], "Caller ← ? @ 1.1.1.1:5060");
    assert!(lines[2].starts_with("Callee → ? @ "));
    assert_eq!(lines[3], "PDD 0.25s | Setup - | Ring - | EarlyMedia -   End: -");
    feed(&mut corr, sip_resp(2_000_000, "c", 486, "INVITE"));
    let live = vec![StreamSummary {
        call_id: Some("c".into()),
        via_turn: true,
        ..StreamSummary::default()
    }];
    let mut f = corr.reg.snapshot_full(&Vec::new()).focus.unwrap();
    f.streams = live;
    let lines = call_heading(&f, true, &Some("other".into()));
    assert!(lines[0].ends_with("[Failed]  ⇄ b-leg other  ⚙ via-TURN"), "{}", lines[0]);
    assert_eq!(lines[1], "Caller ← ? @ 1.*.*.1:5060");
    assert!(lines[3].ends_with("   End: REJ 486"), "{}", lines[3]);
}
