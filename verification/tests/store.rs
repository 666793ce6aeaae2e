//! Statistics, the registry, the event log and its report.
use sipmon::diagnostics::Severity;
use sipmon::export::import::replay_stream;
use sipmon::export::rebuild::{diag_note, query_label, stream_note, Found, Hit, Rebuilt};
use sipmon::model::addr::{IpAddr, SocketAddr};
use sipmon::model::addr_text::{ip_from_str, socket_from_str};
use sipmon::model::media::StreamSummary;
use sipmon::model::packet::{Flow5Tuple, Proto};
use sipmon::model::sip::{Method, SipMsg};
use sipmon::model::stats::{HealthBucket, MetricSet, Real64};
use sipmon::store::dialog::{common_flow_ip, dialog_legs, sip_header};
use sipmon::store::evlog::{
    encode_event_payload, CallEvt, DiagEvt, ErrorEvt, Event, EvlogReader, EvlogWriter,
    RtcpRttEvt, SipMsgEvt, StreamSnapEvt, TxnEvt, MAGIC, MAX_RECORD_LEN,
};
use sipmon::store::evstats::{classify_fail, FailKind, StatsAcc};
use sipmon::store::heatmap::Heatmap;
use sipmon::store::intern::Interner;
use sipmon::store::ipstats::{loss_window, next_loss_window, Dir, IpStats, IpStatsStore};
use sipmon::store::registry::Registry;
use sipmon::store::report::{percentile, scan, top_codes, EvlogStats};
use sipmon::store::report_json::{ReportFigures, WindowFigures};
use sipmon::store::report_text::{ReportCells, WindowCells};
use sipmon::store::sipstats::{
    req_idx, req_label, resp_idx, resp_label, ring_bump, SipIpStats, SipObs, SipStatsStore,
};
use sipmon::store::wire::{CallEvtKind, EvlogError};

fn ip_of(s: &str) -> IpAddr {
    ip_from_str(s).unwrap()
}

fn sock(s: &str) -> SocketAddr {
    socket_from_str(s).unwrap()
}

fn ip() -> IpAddr {
    ip_of("10.10.0.8")
}

fn num(v: f64) -> Real64 {
    Real64 { bits: v.to_bits() }
}

fn pct(part: u64, whole: u64) -> Option<f64> {
    if whole == 0 {
        None
    } else {
        Some(part as f64 / whole as f64 * 100.0)
    }
}

fn asr_pct(s: &SipIpStats, secs: u64) -> Option<f64> {
    let (inv, ans) = s.series_totals(secs);
    pct(ans, inv)
}

// ----------------------------- SIP statistics -----------------------------

#[test]
fn response_codes_map_to_columns() {
    assert_eq!(resp_idx(100), 0);
    assert_eq!(resp_idx(180), 1);
    assert_eq!(resp_idx(183), 2);
    assert_eq!(resp_idx(200), 3);
    assert_eq!(resp_idx(486), 4);
    assert_eq!(resp_idx(404), 5);
    assert_eq!(resp_idx(403), 6);
    assert_eq!(resp_idx(408), 7);
    assert_eq!(resp_idx(480), 8);
    assert_eq!(resp_idx(487), 9);
    assert_eq!(resp_idx(302), 10);
    assert_eq!(resp_idx(415), 11); // not listed: 4xx bucket
    assert_eq!(resp_idx(500), 12);
    assert_eq!(resp_idx(603), 13);
    assert_eq!(resp_idx(181), 14); // not listed: oth
    assert_eq!(resp_idx(202), 14);
}

#[test]
fn request_methods_map_to_columns() {
    assert_eq!(req_idx(Method::Invite), 0);
    assert_eq!(req_idx(Method::Ack), 1);
    assert_eq!(req_idx(Method::Bye), 2);
    assert_eq!(req_idx(Method::Cancel), 3);
    assert_eq!(req_idx(Method::Options), 4);
    assert_eq!(req_idx(Method::Info), 5);
    assert_eq!(req_idx(Method::Register), 6);
    assert_eq!(req_idx(Method::Message), 7);
    assert_eq!(req_idx(Method::Subscribe), 8);
    assert_eq!(req_idx(Method::Other), 8);
}

fn request(ip: IpAddr, ts_us: u64, method: Method, initial_invite: bool) -> SipObs {
    SipObs {
        ip,
        ts_us,
        is_request: true,
        method: Some(method),
        status: None,
        answer_for_ip: None,
        initial_invite,
    }
}

#[test]
fn invite_answer_series_and_asr() {
    let mut st = SipStatsStore::new();
    let t0 = 1_800_000_000_000_000u64;
    for i in 0..4u64 {
        st.observe(&request(ip(), t0 + i * 1_000_000, Method::Invite, true));
    }
    for i in 0..2u64 {
        st.observe(&SipObs {
            ip: ip_of("2.2.2.2"),
            ts_us: t0 + i * 5_000_000 + 2_000_000,
            is_request: false,
            method: None,
            status: Some(200),
            answer_for_ip: Some(ip()),
            initial_invite: false,
        });
    }
    let rows = st.snapshot();
    assert_eq!(rows.len(), 3);
    let all = &rows[0];
    assert_eq!(all.stats.req[0], 4);
    assert_eq!(all.stats.resp[3], 2);
    assert_eq!(asr_pct(&all.stats, 60), Some(50.0));
    let caller = rows.iter().find(|r| r.ip == Some(ip())).unwrap();
    assert_eq!(caller.stats.series_totals(60), (4, 2));
    assert_eq!(asr_pct(&caller.stats, 60), Some(50.0));
    let sbc = rows.iter().find(|r| r.ip.is_some() && r.ip != Some(ip())).unwrap();
    assert_eq!(sbc.stats.series_totals(60), (0, 0), "SBC has no invites");
    assert_eq!(sbc.stats.resp[3], 2, "200 still in the SBC's distribution");
}

#[test]
fn ring_gaps_zero_fill_and_cap() {
    let mut ring = Vec::new();
    let b = 60_000_000u64;
    let t0 = 1_800_000_000_000_000u64;
    ring_bump(&mut ring, b, t0, 1, 0);
    ring_bump(&mut ring, b, t0 + 3 * b, 1, 1);
    assert_eq!(ring.len(), 4);
    assert_eq!(ring[1], (t0 + b, 0, 0));
    assert_eq!(ring[3], (t0 + 3 * b, 1, 1));
    ring_bump(&mut ring, b, t0 + 3 * b + 1_000, 0, 1);
    assert_eq!(ring.len(), 4);
    assert_eq!(ring[3].2, 2);
    ring_bump(&mut ring, b, t0 + 100 * b, 1, 0);
    assert_eq!(ring.len(), 1);
    ring_bump(&mut ring, b, t0 + 100 * b + b, 1, 0);
    ring_bump(&mut ring, b, t0 + 100 * b, 0, 1);
    assert_eq!(ring[0].2, 1);
}

#[test]
fn reinvite_ack_and_others_not_counted_as_attempts() {
    let mut st = SipStatsStore::new();
    let t0 = 1_800_000_000_000_000u64;
    st.observe(&request(ip(), t0, Method::Invite, false));
    for m in [
        Method::Ack,
        Method::Register,
        Method::Message,
        Method::Options,
        Method::Info,
        Method::Subscribe,
    ] {
        st.observe(&request(ip(), t0, m, false));
    }
    for code in [408u16, 480, 487] {
        st.observe(&SipObs {
            ip: ip(),
            ts_us: t0,
            is_request: false,
            method: None,
            status: Some(code),
            answer_for_ip: None,
            initial_invite: false,
        });
    }
    let rows = st.snapshot();
    let all = &rows[0];
    assert_eq!(all.stats.req[0], 1, "INVITE column counts every INVITE");
    assert_eq!(all.stats.req[1], 1, "ACK has its own column");
    assert_eq!(all.stats.series_totals(60), (0, 0), "no initial INVITE");
    assert_eq!(all.stats.req[4], 1); // OPTION
    assert_eq!(all.stats.req[5], 1); // INFO
    assert_eq!(all.stats.req[6], 1); // REGISTER
    assert_eq!(all.stats.req[7], 1); // MESSAGE
    assert_eq!(all.stats.req[8], 1); // SUBSCRIBE
    assert_eq!(all.stats.resp[7], 1, "408 own column");
    assert_eq!(all.stats.resp[8], 1, "480 own column");
    assert_eq!(all.stats.resp[9], 1, "487 own column");
    assert_eq!(all.stats.resp_errors(), 2, "408+480 are errors, 487 is not");
}

#[test]
fn prune_and_clear() {
    let mut st = SipStatsStore::new();
    st.observe(&request(ip(), 1_000_000, Method::Invite, true));
    st.observe(&request(ip_of("2.2.2.2"), 10_000_000_000, Method::Invite, true));
    st.prune_idle(5_000_000_000);
    assert_eq!(st.snapshot().len(), 2, "idle IP dropped, ALL stays");
    st.clear();
    assert_eq!(st.snapshot().len(), 1);
    assert_eq!(st.snapshot()[0].stats.total_msgs(), 0);
}

// ----------------------------- per-IP statistics -----------------------------

fn loss_pct(s: &IpStats, secs: u64) -> Option<f64> {
    let (pkts, lost) = s.window(secs);
    pct(lost, pkts)
}

#[test]
fn windows_and_totals() {
    let mut st = IpStatsStore::new();
    let ip = ip_of("10.1.2.3");
    for i in 0..30 {
        let ts = 1_000_000 + i * 1_000_000;
        for _ in 0..10 {
            st.observe_packet(ip, ts, 160);
        }
        if i % 10 == 0 {
            st.observe_lost(ip, ts, 1); // 1 lost / 100 pkts = 1%
        }
    }
    let s = st.snapshot().pop().unwrap();
    assert_eq!(s.pkts_total, 300);
    assert_eq!(s.bytes_total, 300 * 160);
    assert_eq!(s.lost_total, 3);
    assert!((loss_pct(&s, 0).unwrap() - 1.0).abs() < 1e-9); // all-time
    assert!((loss_pct(&s, 10).unwrap() - 1.0).abs() < 1e-9); // 10s window: one lost
    assert_eq!(loss_pct(&s, 1).unwrap(), 0.0); // last 1s: no loss
    assert_eq!(s.pkts_in(10), 100);
    assert_eq!(s.bytes_in(5), 5 * 10 * 160);
}

#[test]
fn active_call_counting() {
    let mut st = IpStatsStore::new();
    let ip = ip_of("10.1.2.3");
    st.add_active(ip, 1);
    st.add_active(ip, 1);
    st.add_active(ip, -1);
    let s = st.snapshot().pop().unwrap();
    assert_eq!(s.active_calls, 1);
}

#[test]
fn heatmap_columns_produce_loss_pct() {
    let mut st = IpStatsStore::new();
    let ip = ip_of("10.1.2.3");
    let ts = 1_000_000;
    for _ in 0..8 {
        st.observe_packet(ip, ts, 160);
    }
    st.observe_lost(ip, ts, 2);
    let s = st.snapshot().pop().unwrap();
    let cols = s.heatmap_columns(60, 60);
    assert_eq!(cols.len(), 1);
    assert!((pct(cols[0].2, cols[0].1).unwrap() - 25.0).abs() < 1e-9);
}

#[test]
fn directions_are_kept_apart() {
    let mut st = IpStatsStore::new();
    let a = ip_of("10.0.0.1");
    let b = ip_of("10.0.0.2");
    let flow = Flow5Tuple { proto: Proto::Udp, src: sock("10.0.0.1:4000"), dst: sock("10.0.0.2:4000") };
    st.observe_flow(flow, 5_000_000, 10, 1600);
    st.observe_flow_lost(flow, 5_000_000, 3);
    st.observe_packets(a, 5_000_000, 1, 100, Dir::Rx);
    st.observe_lost_on(a, 5_000_000, 1, Dir::Rx);
    let v = st.snapshot();
    assert_eq!(v.iter().map(|s| s.ip).collect::<Vec<_>>(), vec![a, b]);
    assert_eq!((v[0].tx.packets, v[0].tx.lost, v[0].rx.packets, v[0].rx.lost), (10, 3, 1, 1));
    assert_eq!((v[1].tx.packets, v[1].rx.packets, v[1].rx.lost), (0, 10, 3));
    assert_eq!((v[0].pkts_total, v[0].bytes_total), (11, 1700));
    st.clear();
    assert!(st.snapshot().is_empty());
}

#[test]
fn loss_windows_cycle() {
    let mut secs = loss_window(0).0;
    let mut seen = vec![secs];
    loop {
        let i = next_loss_window(secs);
        secs = loss_window(i).0;
        if secs == seen[0] {
            break;
        }
        seen.push(secs);
    }
    assert_eq!(seen.len(), 8);
}

// ----------------------------- dialogs and the registry -----------------------------

fn mk_sip(from_tag: Option<&str>, from: &str, to: &str) -> SipMsg {
    SipMsg {
        ts_us: 0,
        flow: Flow5Tuple { proto: Proto::Udp, src: sock(from), dst: sock(to) },
        is_request: true,
        method: Some(Method::Invite),
        status: None,
        call_id: "c1".into(),
        cseq: Some(1),
        cseq_method: Some("INVITE".into()),
        branch: Some("b".into()),
        from_tag: from_tag.map(str::to_owned),
        to_tag: None,
        from_uri: None,
        to_uri: None,
        raw: Vec::new(),
        contact_addr: None,
        route_count: 0,
        record_route_count: 0,
        has_sdp: false,
    }
}

#[test]
fn dialog_legs_groups_by_from_tag() {
    let msgs = vec![
        mk_sip(Some("t1"), "1.1.1.1:5060", "2.2.2.2:5060"),
        mk_sip(Some("t2"), "2.2.2.2:5060", "3.3.3.3:5060"),
        mk_sip(Some("t1"), "2.2.2.2:5060", "1.1.1.1:5060"),
    ];
    let (legs, n) = dialog_legs(&msgs);
    assert_eq!(legs, vec![0, 1, 0]);
    assert_eq!(n, 2);
    let msgs2 = vec![
        mk_sip(Some("t1"), "1.1.1.1:5060", "2.2.2.2:5060"),
        mk_sip(Some("t1"), "1.1.1.1:5060", "2.2.2.2:5060"),
    ];
    let (_, n2) = dialog_legs(&msgs2);
    assert_eq!(n2, 1);
}

#[test]
fn common_flow_ip_finds_same_call_id_b2bua() {
    let msgs = vec![
        mk_sip(Some("t1"), "1.1.1.1:5060", "2.2.2.2:5060"),
        mk_sip(Some("t2"), "2.2.2.2:5060", "3.3.3.3:5060"),
    ];
    let (legs, _) = dialog_legs(&msgs);
    assert_eq!(
        common_flow_ip(&msgs, &legs),
        Some(ip_of("2.2.2.2")),
        "shared flow IP (the B2BUA) must be found"
    );
    let msgs2 = vec![
        mk_sip(Some("t1"), "1.1.1.1:5060", "2.2.2.2:5060"),
        mk_sip(Some("t2"), "3.3.3.3:5060", "4.4.4.4:5060"),
    ];
    let (legs2, _) = dialog_legs(&msgs2);
    assert_eq!(common_flow_ip(&msgs2, &legs2), None);
}

#[test]
fn focus_detail_exposes_legs_and_b2bua() {
    let mut reg = Registry::with_source("t".into());
    let call = reg.get_or_create_call("c1");
    call.from_user = Some("alice".into());
    call.to_user = Some("bob".into());
    call.invite_ts = Some(1_000_000);
    let msgs = vec![
        mk_sip(Some("t1"), "1.1.1.1:5060", "2.2.2.2:5060"),
        mk_sip(Some("t2"), "2.2.2.2:5060", "3.3.3.3:5060"),
    ];
    call.messages = msgs;
    reg.focus_hint = Some("c1".into());
    let focus = reg.snapshot_full(&Vec::new()).focus.expect("focus detail present");
    assert_eq!(focus.legs, vec![0, 1]);
    let b2bua = focus.b2bua.expect("same Call-ID split must be detected");
    assert_eq!(b2bua.legs, 2);
    assert_eq!(b2bua.addr, Some(ip_of("2.2.2.2")));
}

#[test]
fn focus_detail_no_b2bua_for_single_dialog() {
    let mut reg = Registry::with_source("t".into());
    let call = reg.get_or_create_call("c1");
    call.from_user = Some("alice".into());
    call.to_user = Some("bob".into());
    call.invite_ts = Some(1_000_000);
    call.messages = vec![
        mk_sip(Some("t1"), "1.1.1.1:5060", "2.2.2.2:5060"),
        mk_sip(Some("t1"), "2.2.2.2:5060", "1.1.1.1:5060"),
    ];
    reg.focus_hint = Some("c1".into());
    let focus = reg.snapshot_full(&Vec::new()).focus.expect("focus detail present");
    assert_eq!(focus.legs, vec![0, 0]);
    assert!(focus.b2bua.is_none(), "single dialog must not be a B2BUA");
}

#[test]
fn imported_streams_surface_in_snapshot_focus_and_summary() {
    let mut reg = Registry::with_source("replay".into());
    reg.get_or_create_call("c1");
    let mut st = StreamSummary {
        ssrc: 0x1000,
        packets: 500,
        lost: 4,
        loss_pct: num(0.8),
        bytes: 4000,
        mos: Some(num(4.3)),
        ..StreamSummary::default()
    };
    st.call_id = Some("c1".into());
    reg.add_imported_stream(st);

    let snap = reg.snapshot_full(&Vec::new());
    assert_eq!(snap.streams.len(), 1);
    assert_eq!(snap.streams[0].ssrc, 0x1000);

    reg.focus_hint = Some("c1".into());
    let snap = reg.snapshot_full(&Vec::new());
    let focus = snap.focus.expect("focus detail present");
    assert_eq!(focus.streams.len(), 1, "media table must show the stream");
    assert_eq!(focus.streams[0].packets, 500);
    assert_eq!(focus.streams[0].bytes, 4000);

    let call = &snap.calls[0];
    assert_eq!(call.pkts_rtp, 500);
    assert_eq!(call.best_mos, Some(num(4.3)));
    assert_eq!(call.stream_count, 1);
}

fn media_flow() -> Flow5Tuple {
    Flow5Tuple { proto: Proto::Udp, src: sock("10.10.0.8:4000"), dst: sock("10.20.0.8:4000") }
}

#[test]
fn import_stream_snap_feeds_ip_stats_and_upserts() {
    let mut reg = Registry::with_source("replay".into());
    let mut snap = StreamSummary {
        ssrc: 0xabc,
        packets: 100,
        lost: 2,
        bytes: 16000,
        loss_pct: num(2.0),
        ..StreamSummary::default()
    };
    snap.call_id = Some("c1".into());
    snap.flow = Some(media_flow());

    reg.import_stream_snap(1_000_000, snap.clone());
    snap.packets = 250;
    snap.lost = 5;
    snap.bytes = 40000;
    reg.import_stream_snap(6_000_000, snap);

    let ip_stats = reg.snapshot_full(&Vec::new()).ip_stats;
    assert_eq!(ip_stats.len(), 2, "both endpoints must appear");
    let src = ip_stats.iter().find(|s| s.ip == ip_of("10.10.0.8")).unwrap();
    let dst = ip_stats.iter().find(|s| s.ip == ip_of("10.20.0.8")).unwrap();
    assert_eq!(src.tx.packets, 250);
    assert_eq!(src.tx.lost, 5);
    assert_eq!(dst.rx.packets, 250);
    assert_eq!(dst.rx.lost, 5);
    let src_loss = pct(src.tx.lost, src.tx.packets).unwrap();
    assert!((src_loss - 2.0).abs() < 1e-9, "all-time TX loss {src_loss}");

    assert_eq!(reg.snapshot_full(&Vec::new()).streams.len(), 1);
    assert_eq!(reg.snapshot_full(&Vec::new()).streams[0].packets, 250);
}

#[test]
fn import_many_stream_snaps_stays_fast() {
    let mut reg = Registry::with_source("replay".into());
    let t0 = std::time::Instant::now();
    for i in 0..20_000u64 {
        let mut s = StreamSummary {
            ssrc: (i % 200) as u32,
            packets: 100 + i,
            lost: i / 40,
            bytes: (100 + i) * 160,
            loss_pct: num(1.0),
            ..StreamSummary::default()
        };
        s.call_id = Some("c1".into());
        s.flow = Some(media_flow());
        reg.import_stream_snap(1_000_000 + i * 5_000_000, s);
    }
    let snap = reg.snapshot_full(&Vec::new());
    assert!(
        t0.elapsed().as_millis() < 1_000,
        "20k stream snaps must stay O(n), took {:?}",
        t0.elapsed()
    );
    assert_eq!(snap.streams.len(), 200, "upsert keeps one row per ssrc");
    assert_eq!(snap.ip_stats.len(), 2);
    assert!(snap.calls.is_empty()); // snaps don't create calls
}

#[test]
fn sip_header_is_found_by_name() {
    let raw = b"INVITE sip:x SIP/2.0\r\nUser-Agent:  phone/1 \r\n\r\n";
    assert_eq!(sip_header(raw, "user-agent"), Some("phone/1".to_string()));
    assert_eq!(sip_header(raw, "Server"), None);
}

#[test]
fn interned_text_keeps_its_index() {
    let mut t = Interner::new();
    let a = t.intern("call-a");
    let b = t.intern("call-b");
    assert_ne!(a, b);
    assert_eq!(t.intern("call-a"), a);
    assert_eq!(t.len(), 2);
}

// ----------------------------- the event log -----------------------------

fn flow() -> Flow5Tuple {
    Flow5Tuple { proto: Proto::Udp, src: sock("10.10.0.8:4000"), dst: sock("10.20.0.8:4000") }
}

fn sip(ts: u64, method: &str, call: &str) -> Event {
    Event::SipMsg(SipMsgEvt {
        ts_us: ts,
        flow: Flow5Tuple {
            proto: Proto::Udp,
            src: sock("10.10.0.8:5060"),
            dst: sock("10.20.0.8:5060"),
        },
        is_request: true,
        method: Some(method.into()),
        status: None,
        call_id: call.into(),
        cseq: Some(1),
        branch: Some("z9hG4bK".into()),
        from_tag: Some("ft".into()),
        to_tag: None,
        raw: b"INVITE sip:x SIP/2.0\r\n\r\n".to_vec(),
    })
}

fn snap(ts: u64, call: &str, packets: u64, lost: u64, bytes: u64) -> Event {
    Event::StreamSnap(StreamSnapEvt {
        ts_us: ts,
        call_id: call.into(),
        ssrc: 0xabc,
        flow: flow(),
        codec: Some("PCMU".into()),
        payload_type: Some(0),
        packets,
        lost,
        expected: packets + lost,
        loss_pct: num(if packets == 0 { 0.0 } else { lost as f64 / packets as f64 * 100.0 }),
        jitter_ms: Some(num(2.0)),
        mos: Some(num(4.1)),
        direction: None,
        bytes,
        first_ts_us: Some(ts),
        last_ts_us: Some(ts),
        rtt_min_ms: None,
        rtt_avg_ms: Some(num(40.0)),
        rtt_max_ms: None,
        oneway_ms: None,
        leg: None,
        via_turn: false,
    })
}

fn teardown(ts: u64, call: &str, answered: bool, pdd: u32) -> Event {
    Event::Call(CallEvt {
        ts_us: ts,
        call_id: call.into(),
        kind: CallEvtKind::Teardown,
        from_user: Some("a".into()),
        to_user: Some("b".into()),
        from_uri: None,
        to_uri: None,
        state: if answered { 3 } else { 5 },
        outcome: 0,
        invite_ts: Some(ts.saturating_sub(5_000_000)),
        trying_ts: Some(ts.saturating_sub(4_900_000)),
        ringing_ts: Some(ts.saturating_sub(4_800_000)),
        answer_ts: if answered { Some(ts.saturating_sub(4_000_000)) } else { None },
        bye_ts: Some(ts.saturating_sub(100_000)),
        end_ts: Some(ts),
        pdd_ms: Some(pdd),
        setup_ms: if answered { Some(1000) } else { None },
        hangup_code: if answered { None } else { Some(487) },
        hangup_reason: None,
        pkts_sip: 10,
        pkts_rtp: 100,
        pkts_rtcp: 2,
        bytes: 20_000,
    })
}

fn teardown_fail(ts: u64, call: &str, code: u32) -> Event {
    Event::Call(CallEvt {
        ts_us: ts,
        call_id: call.into(),
        kind: CallEvtKind::Teardown,
        from_user: Some("a".into()),
        to_user: Some("b".into()),
        from_uri: None,
        to_uri: None,
        state: 4,
        outcome: 0,
        invite_ts: Some(ts.saturating_sub(5_000_000)),
        trying_ts: Some(ts.saturating_sub(4_900_000)),
        ringing_ts: None,
        answer_ts: None,
        bye_ts: None,
        end_ts: Some(ts),
        pdd_ms: Some(50),
        setup_ms: None,
        hangup_code: Some(code),
        hangup_reason: None,
        pkts_sip: 4,
        pkts_rtp: 0,
        pkts_rtcp: 0,
        bytes: 800,
    })
}

fn log_of(events: &[Event]) -> Vec<u8> {
    let mut w = EvlogWriter::new(0);
    for e in events {
        w.write(e);
    }
    w.flush()
}

#[test]
fn roundtrip_basic() {
    let buf = log_of(&[
        Event::SipMsg(SipMsgEvt {
            ts_us: 1_000_000,
            flow: Flow5Tuple {
                proto: Proto::Udp,
                src: sock("1.2.3.4:5060"),
                dst: sock("5.6.7.8:5060"),
            },
            is_request: true,
            method: Some("INVITE".into()),
            status: None,
            call_id: "abc@host".into(),
            cseq: Some(1),
            branch: Some("z9hG4bKx".into()),
            from_tag: Some("ft".into()),
            to_tag: None,
            raw: b"INVITE sip:bob@x SIP/2.0\r\n\r\n".to_vec(),
        }),
        Event::RtcpRtt(RtcpRttEvt {
            ts_us: 1_500_000,
            call_id: "abc@host".into(),
            ssrc: 42,
            rtt_ms: num(23.5),
            oneway_ms: Some(num(12.0)),
        }),
    ]);
    let mut r = EvlogReader::new(buf);
    let e1 = r.next_event().unwrap().unwrap();
    let e2 = r.next_event().unwrap().unwrap();
    assert!(matches!(e1, Event::SipMsg(_)));
    assert!(matches!(e2, Event::RtcpRtt(_)));
    assert_eq!(e1.ts_us(), 1_000_000);
    assert_eq!(e2.ts_us(), 1_500_000);
    assert!(r.next_event().unwrap().is_none());
}

fn every_event() -> Vec<Event> {
    vec![
        sip(1_000_000, "INVITE", "c1"),
        Event::Txn(TxnEvt {
            ts_us: 1_000_500,
            call_id: "c1".into(),
            branch: "z9hG4bKx".into(),
            method: "INVITE".into(),
            response_code: Some(200),
            delay_ms: Some(400),
        }),
        snap(2_000_000, "c1", 100, 2, 16_000),
        Event::RtcpRtt(RtcpRttEvt {
            ts_us: 2_500_000,
            call_id: "c\u{e9}".into(),
            ssrc: u32::MAX,
            rtt_ms: num(f64::NAN),
            oneway_ms: None,
        }),
        teardown(3_000_000, "c1", true, 80),
        Event::HealthBucket(HealthBucket {
            bucket_us: 60_000_000,
            dim_key: "all".into(),
            metrics: MetricSet {
                calls: 1,
                answered: 2,
                failed: 3,
                pdd_sum_ms: num(1.5),
                pdd_n: 4,
                jitter_sum_ms: num(-0.0),
                jitter_n: 5,
                loss_sum_pct: num(f64::INFINITY),
                loss_n: 6,
                rtt_sum_ms: num(7.0),
                rtt_n: u64::MAX,
                mos_sum: num(4.2),
                mos_n: 1,
            },
        }),
        Event::Error(ErrorEvt { ts_us: 60_000_009, kind: "io".into(), msg: String::new() }),
        Event::Diag(DiagEvt {
            ts_us: u64::MAX,
            call_id: "c1".into(),
            severity: 2,
            code: "SIP-001".into(),
            message: "m".into(),
        }),
    ]
}

#[test]
fn every_event_reads_back_as_written() {
    let events = every_event();
    let mut r = EvlogReader::new(log_of(&events));
    assert_eq!(r.tz_offset_secs(), Some(0));
    for e in &events {
        let got = r.next_event().unwrap().unwrap();
        assert_eq!(format!("{got:?}"), format!("{e:?}"));
    }
    assert!(r.next_event().unwrap().is_none());
}

#[test]
fn writer_counts_its_bytes() {
    let mut w = EvlogWriter::new(-7200);
    for e in every_event() {
        w.write(&e);
    }
    let n = w.bytes_written();
    let buf = w.flush();
    assert_eq!(n, buf.len() as u64);
    assert_eq!(&buf[..4], &MAGIC);
    assert_eq!(w.bytes_written(), n);
    assert_eq!(EvlogReader::new(buf).tz_offset_secs(), Some(-7200));
}

/// Deterministic generator so failures are reproducible.
struct Rng(u64);

impl Rng {
    fn next(&mut self) -> u64 {
        self.0 = self.0.wrapping_mul(6364136223846793005).wrapping_add(1442695040888963407);
        self.0
    }

    fn below(&mut self, n: u64) -> u64 {
        self.next() % n.max(1)
    }

    fn byte(&mut self) -> u8 {
        (self.next() >> 33) as u8
    }
}

#[test]
fn fuzz_evlog_reader_corruption_no_panic() {
    let mut events = Vec::new();
    for i in 0..100u64 {
        events.push(Event::Error(ErrorEvt {
            ts_us: i * 1000,
            kind: "t".into(),
            msg: "m".repeat(50),
        }));
    }
    let buf = log_of(&events);
    let mut rng = Rng(0xfeed_face);
    for round in 0..200 {
        let mut data = buf.clone();
        let flips = 1 + rng.below(6);
        for _ in 0..flips {
            if data.is_empty() {
                break;
            }
            let pos = (rng.below(data.len() as u64)) as usize;
            data[pos] = rng.byte();
        }
        // Truncation rounds.
        if round % 3 == 0 {
            let cut = (rng.below(data.len() as u64 + 1)) as usize;
            data.truncate(cut);
        }
        let mut r = EvlogReader::new(data);
        while let Ok(Some(_)) = r.next_event() {}
    }
}

fn header() -> Vec<u8> {
    let mut data = Vec::new();
    data.extend_from_slice(b"SMON");
    data.extend_from_slice(&1u16.to_be_bytes());
    data.extend_from_slice(&0u16.to_be_bytes());
    data.extend_from_slice(&0i32.to_be_bytes());
    data
}

#[test]
fn evlog_reader_rejects_huge_record_length() {
    // Header + delta varint(1) + type(1) + length varint(2^40-ish).
    let mut data = header();
    data.push(1); // ts delta
    data.push(1); // type
    // 10-byte varint encoding a huge value (0x01 << 63).
    for _i in 0..9 {
        data.push(0xFF);
    }
    data.push(0x7F);
    let mut r = EvlogReader::new(data);
    let res = r.next_event();
    assert!(res.is_err(), "huge record length must fail cleanly");
}

#[test]
fn each_way_a_log_breaks_has_its_error() {
    // Longer than the cap by one.
    let mut data = header();
    data.extend_from_slice(&[1, 1, 0x81, 0x80, 0x80, 0x10]);
    let mut r = EvlogReader::new(data);
    assert_eq!(r.next_event().unwrap_err(), EvlogError::RecordTooLong);
    // A number of eleven bytes.
    let mut data = header();
    data.extend_from_slice(&[1, 1]);
    data.extend_from_slice(&[0x80; 10]);
    data.push(0);
    let mut r = EvlogReader::new(data);
    assert_eq!(r.next_event().unwrap_err(), EvlogError::VarintTooLong);
    // The payload ends early.
    let mut data = header();
    data.extend_from_slice(&[1, 1, 9, 0]);
    let mut r = EvlogReader::new(data);
    assert_eq!(r.next_event().unwrap_err(), EvlogError::UnexpectedEof);
    assert_eq!(MAX_RECORD_LEN, 32 * 1024 * 1024);
}

#[test]
fn payload_types_are_distinct() {
    let mut tys: Vec<u8> = Vec::new();
    for e in every_event() {
        let mut b = Vec::new();
        tys.push(encode_event_payload(&mut b, &e));
    }
    let mut sorted = tys.clone();
    sorted.sort();
    sorted.dedup();
    assert_eq!(sorted.len(), tys.len());
}

// ----------------------------- the report -----------------------------

fn cell(v: Option<f64>) -> String {
    match v {
        Some(x) => format!("{x:.1}%"),
        None => "-".to_string(),
    }
}

fn stats_of(buf: Vec<u8>) -> EvlogStats {
    let bytes = buf.len() as u64;
    let mut reader = EvlogReader::new(buf);
    let tz = reader.tz_offset_secs();
    let acc: StatsAcc = scan(&mut reader);
    let pcts = acc.ip_loss.iter().map(|(_, c)| pct(c.lost, c.pkts).map(num)).collect();
    acc.finish("t.evlog".into(), bytes, tz, 10, &pcts)
}

fn text_of(s: &EvlogStats) -> String {
    let seiz = s.reliability.seizures as u64;
    let f = s.reliability.fail;
    let cells = ReportCells {
        asr: cell(pct(s.reliability.answered, seiz)),
        ccr: cell(None),
        ner: cell(pct(s.reliability.effective, seiz)),
        cancel: cell(None),
        notfound: cell(pct(f.notfound, seiz)),
        reject: cell(pct(f.reject, seiz)),
        busy: cell(pct(f.busy, seiz)),
        timeout: cell(pct(f.timeout, seiz)),
        fail: cell(pct(f.fail, seiz)),
        pdd_avg: cell(None),
        pdd_p50: cell(None),
        pdd_p95: cell(None),
        setup: cell(None),
        talk: cell(None),
        call: cell(None),
        loss: cell(pct(s.loss.lost, s.loss.pkts)),
        pps: cell(None),
        bps: cell(None),
        cps: cell(None),
        mos: cell(None),
        jitter: cell(None),
        rtt: cell(None),
        ips: s.top_ips.iter().map(|i| cell(pct(i.lost, i.pkts))).collect(),
        windows: s
            .windows
            .iter()
            .map(|w| WindowCells {
                asr: cell(pct(w.answered, w.teardowns)),
                ner: cell(pct(w.effective, w.teardowns)),
                ccr: cell(pct(w.completed, w.teardowns)),
                cancel: cell(pct(w.canceled, w.teardowns)),
                notfound: cell(pct(w.fail.notfound, w.teardowns)),
                reject: cell(pct(w.fail.reject, w.teardowns)),
                busy: cell(pct(w.fail.busy, w.teardowns)),
                timeout: cell(pct(w.fail.timeout, w.teardowns)),
                fail: cell(pct(w.fail.fail, w.teardowns)),
                loss: cell(pct(w.lost, w.pkts)),
                rtt: cell(None),
            })
            .collect(),
    };
    s.render_text(&cells, 0)
}

/// A number as JSON, with two decimals.
fn figure(v: Option<f64>) -> Option<String> {
    v.map(|x| format!("{x:.2}"))
}

fn json_text_of(s: &EvlogStats) -> String {
    let seiz = s.reliability.seizures as u64;
    let r = &s.reliability;
    let f = r.fail;
    let figures = ReportFigures {
        asr: figure(pct(r.answered, seiz)),
        ccr: figure(pct(s.calls.completed, seiz)),
        ner: figure(pct(r.effective, seiz)),
        cancel: figure(pct(s.calls.canceled, seiz)),
        notfound: figure(pct(f.notfound, seiz)),
        reject: figure(pct(f.reject, seiz)),
        busy: figure(pct(f.busy, seiz)),
        timeout: figure(pct(f.timeout, seiz)),
        fail: figure(pct(f.fail, seiz)),
        pdd_avg: None,
        setup: None,
        talk: None,
        call: None,
        loss: figure(pct(s.loss.lost, s.loss.pkts)),
        pps: None,
        bps: None,
        cps: None,
        mos: None,
        jitter: None,
        rtt: None,
        ips: s.top_ips.iter().map(|i| figure(pct(i.lost, i.pkts))).collect(),
        windows: s
            .windows
            .iter()
            .map(|w| WindowFigures {
                asr: figure(pct(w.answered, w.teardowns)),
                ner: figure(pct(w.effective, w.teardowns)),
                ccr: figure(pct(w.completed, w.teardowns)),
                cancel: figure(pct(w.canceled, w.teardowns)),
                notfound: figure(pct(w.fail.notfound, w.teardowns)),
                reject: figure(pct(w.fail.reject, w.teardowns)),
                busy: figure(pct(w.fail.busy, w.teardowns)),
                timeout: figure(pct(w.fail.timeout, w.teardowns)),
                fail: figure(pct(w.fail.fail, w.teardowns)),
                loss: figure(pct(w.lost, w.pkts)),
                rtt: None,
            })
            .collect(),
    };
    s.to_json(&figures, 3600)
}

#[test]
fn five_minute_windows_and_call_counts() {
    let t2 = 6 * 60 * 1_000_000 + 1_000_000;
    let buf = log_of(&[
        // Window A: 00:00
        sip(1_000_000, "INVITE", "c1"),
        snap(2_000_000, "c1", 100, 2, 16_000),
        teardown(3_000_000, "c1", true, 80),
        // Window B: +6 minutes
        sip(t2, "INVITE", "c2"),
        sip(t2 + 1000, "BYE", "c1"),
        snap(t2, "c1", 250, 5, 40_000), // delta 150 pkts / 3 lost
        teardown(t2 + 2_000_000, "c2", false, 200),
    ]);
    let s = stats_of(buf);
    assert_eq!(s.calls.unique, 2);
    assert_eq!(s.calls.invite, 2);
    assert_eq!(s.calls.bye, 1);
    assert_eq!(s.reliability.seizures, 2);
    assert_eq!(s.reliability.answered, 1);
    assert!((pct(s.reliability.answered, s.reliability.seizures as u64).unwrap() - 50.0).abs() < 1e-9);
    // Bytes of the latest snapshot of each stream.
    let rtp_bytes: u64 = s.traffic.quality.iter().flatten().map(|e| e.bytes).sum();
    assert_eq!(rtp_bytes, 40_000);
    assert!(s.traffic.quality.iter().flatten().any(|e| e.mos.is_some()));
    assert_eq!(s.windows.len(), 2);
    assert_eq!(s.windows[0].pkts, 100);
    assert_eq!(s.windows[0].lost, 2);
    assert_eq!(s.windows[0].rtp_bytes, 16_000);
    assert_eq!(s.windows[0].invites, 1);
    let w = &s.windows[0];
    assert_eq!(pct(w.answered, w.teardowns), Some(100.0));
    assert_eq!(pct(w.effective, w.teardowns), Some(100.0));
    assert_eq!(pct(w.completed, w.teardowns), Some(100.0));
    assert_eq!(pct(w.fail.fail, w.teardowns), Some(0.0));
    assert_eq!(pct(w.canceled, w.teardowns), Some(0.0));
    let w = &s.windows[1];
    assert_eq!(w.pkts, 150);
    assert_eq!(w.lost, 3);
    assert_eq!(pct(w.answered, w.teardowns), Some(0.0));
    assert_eq!(pct(w.fail.fail, w.teardowns), Some(0.0));
    assert_eq!(pct(w.canceled, w.teardowns), Some(100.0));
    assert_eq!(s.loss.pkts, 250);
    assert_eq!(s.loss.lost, 5);
    assert_eq!(s.top_ips.len(), 2);
    let text = text_of(&s);
    assert!(text.contains("Reliability"), "{text}");
    assert!(text.contains("ASR"), "{text}");
    assert!(text.contains("answered / seizures"), "{text}");
    assert!(text.contains("Definitions"), "{text}");
    assert!(text.contains("Traffic"), "{text}");
    assert!(text.contains("5-minute call availability"), "{text}");
    assert!(text.contains("5-minute network"), "{text}");
    assert!(text.contains("CANCEL%"), "{text}");
    assert!(text.contains("NF%"), "{text}");
    assert!(text.contains("LOSS%"), "{text}");
    let j: serde_json::Value = serde_json::from_str(&json_text_of(&s)).unwrap();
    assert_eq!(j["calls"]["unique"], 2);
    assert_eq!(j["reliability"]["seizures"], 2);
    assert_eq!(j["reliability"]["answered"], 1);
    assert_eq!(j["traffic"]["rtp_bytes"], 40_000);
    assert_eq!(j["windows"].as_array().unwrap().len(), 2);
    assert_eq!(j["windows"][1]["cancel_pct"], 100.0);
    assert_eq!(s.events.skipped, 0);
    // The rest of the report.
    assert_eq!(j["file"], "t.evlog");
    assert_eq!(j["bytes"], s.bytes);
    assert_eq!(j["start_ts_us"], 1_000_000);
    assert_eq!(j["events"]["total"], 7);
    assert_eq!(j["events"]["stream_snap"], 2);
    assert_eq!(j["reliability"]["asr_pct"], 50.0);
    assert_eq!(j["reliability"]["avg_pdd_ms"], serde_json::Value::Null);
    assert_eq!(j["reliability"]["hangup_codes"][0]["code"], 487);
    assert_eq!(j["reliability"]["hangup_codes"][0]["count"], 1);
    assert_eq!(j["traffic"]["sip_msgs"], 3);
    assert_eq!(j["traffic"]["sip_class"]["2xx"], 0);
    assert_eq!(j["loss"]["pkts"], 250);
    assert_eq!(j["loss"]["pct"], 2.0);
    assert_eq!(j["windows"][0]["time"], "01:00:00");
    assert_eq!(j["windows"][0]["streams"], 1);
    assert_eq!(j["top_ips"].as_array().unwrap().len(), 2);
    assert_eq!(j["top_ips"][0]["loss_pct"], 2.0);
    assert_eq!(j.as_object().unwrap().len(), 12);
}

#[test]
fn classify_fail_maps_sip_and_q850() {
    assert_eq!(classify_fail(Some(404)), FailKind::NotFound);
    assert_eq!(classify_fail(Some(1)), FailKind::NotFound);
    assert_eq!(classify_fail(Some(486)), FailKind::Busy);
    assert_eq!(classify_fail(Some(17)), FailKind::Busy);
    assert_eq!(classify_fail(Some(480)), FailKind::Timeout);
    assert_eq!(classify_fail(Some(408)), FailKind::Timeout);
    assert_eq!(classify_fail(Some(403)), FailKind::Reject);
    assert_eq!(classify_fail(Some(607)), FailKind::Reject);
    assert_eq!(classify_fail(Some(500)), FailKind::Fail);
    assert_eq!(classify_fail(Some(482)), FailKind::Fail);
    assert_eq!(classify_fail(None), FailKind::Fail);
}

#[test]
fn fail_split_and_ner_from_teardowns() {
    let buf = log_of(&[
        sip(1_000_000, "INVITE", "ok"),
        teardown(2_000_000, "ok", true, 20),
        sip(3_000_000, "INVITE", "nf"),
        teardown_fail(4_000_000, "nf", 404),
        sip(5_000_000, "INVITE", "bz"),
        teardown_fail(6_000_000, "bz", 486),
        sip(7_000_000, "INVITE", "tm"),
        teardown_fail(8_000_000, "tm", 480),
        sip(9_000_000, "INVITE", "rj"),
        teardown_fail(10_000_000, "rj", 403),
        sip(11_000_000, "INVITE", "fl"),
        teardown_fail(12_000_000, "fl", 500),
    ]);
    let s = stats_of(buf);
    assert_eq!(s.reliability.seizures, 6);
    assert_eq!(s.reliability.answered, 1);
    assert_eq!(s.reliability.fail.notfound, 1);
    assert_eq!(s.reliability.fail.reject, 1);
    assert_eq!(s.reliability.fail.busy, 1);
    assert_eq!(s.reliability.fail.timeout, 1);
    assert_eq!(s.reliability.fail.fail, 1);
    // NER = (answered + nf + rej + busy) / 6 = 4/6
    let ner = pct(s.reliability.effective, s.reliability.seizures as u64).unwrap();
    assert!((ner - 400.0 / 6.0).abs() < 1e-9);
    let w0 = &s.windows[0];
    assert!(pct(w0.fail.notfound, w0.teardowns).is_some());
    assert_eq!(s.reliability.p50_pdd_ms, Some(50));
    assert_eq!(
        s.reliability.hangup_codes,
        vec![(403, 1), (404, 1), (480, 1), (486, 1), (500, 1)]
    );
    let text = text_of(&s);
    assert!(text.contains("NF%"), "{text}");
    assert!(text.contains("BUSY%"), "{text}");
    assert!(text.contains("TMO%"), "{text}");
    assert!(text.contains("NER"), "{text}");
}

#[test]
fn truncated_tail_is_ignored() {
    let buf = log_of(&[
        sip(1_000_000, "INVITE", "c1"),
        snap(2_000_000, "c1", 100, 2, 16_000),
        teardown(3_000_000, "c1", true, 80),
    ]);
    let full = stats_of(buf.clone());
    assert_eq!(full.calls.invite, 1);
    assert_eq!(full.events.skipped, 0);

    let cut = buf.len().saturating_sub(17);
    assert!(cut > 12 && cut < buf.len());
    let s = stats_of(buf[..cut].to_vec());
    assert_eq!(s.calls.invite, 1, "complete prefix must still count");
    assert_eq!(s.reliability.seizures, 1);
    // Trailing garbage that looks like a framed but undecodable body.
    let mut dirty = buf.clone();
    dirty.extend_from_slice(&[1, 4, 8, 0, 1, 2, 3, 4, 5, 6, 7]);
    let dirty_s = stats_of(dirty);
    assert_eq!(dirty_s.calls.invite, 1);
    assert!(dirty_s.events.skipped >= 1, "undecodable tail must be skipped");
    let text = text_of(&dirty_s);
    assert!(text.contains("skipped"), "{text}");
}

#[test]
fn repeated_snapshot_counts_once() {
    let s = snap(2_000_000, "c1", 100, 2, 16_000);
    let once = stats_of(log_of(&[s.clone()]));
    let twice = stats_of(log_of(&[s.clone(), s]));
    assert_eq!(once.loss.pkts, twice.loss.pkts);
    assert_eq!(once.loss.lost, twice.loss.lost);
    assert_eq!(twice.events.stream_snap, 2);
}

#[test]
fn median_and_codes() {
    let v = vec![10, 20, 30, 40];
    assert_eq!(percentile(&Vec::new(), 50), None);
    assert_eq!(percentile(&v, 0), Some(10));
    assert_eq!(percentile(&v, 100), Some(40));
    assert_eq!(percentile(&vec![5], 95), Some(5));
    let codes = vec![(486, 2), (404, 5), (403, 2), (500, 1)];
    assert_eq!(top_codes(&codes, 3), vec![(404, 5), (403, 2), (486, 2)]);
}

// ----------------------------- logs taken up again -----------------------------

fn bucket_at(bucket_us: u64) -> Event {
    Event::HealthBucket(HealthBucket {
        bucket_us,
        dim_key: "k".into(),
        metrics: MetricSet {
            calls: 1,
            answered: 1,
            failed: 0,
            pdd_sum_ms: num(0.0),
            pdd_n: 0,
            jitter_sum_ms: num(0.0),
            jitter_n: 0,
            loss_sum_pct: num(0.0),
            loss_n: 0,
            rtt_sum_ms: num(0.0),
            rtt_n: 0,
            mos_sum: num(0.0),
            mos_n: 0,
        },
    })
}

#[test]
fn an_export_takes_a_range_of_a_log() {
    let mut r = Rebuilt::new();
    let (from, to) = (Some(2), Some(3));
    // The bounds are in seconds, and both count.
    assert!(r.take(&sip(1_999_999, "INVITE", "a"), from, to).is_none());
    let m = r.take(&sip(2_000_000, "INVITE", "a"), from, to).unwrap();
    assert_eq!(m.method, Some(Method::Invite));
    assert!(r.take(&sip(3_000_000, "BYE", "a"), from, to).is_some());
    assert!(r.take(&sip(3_000_001, "BYE", "a"), from, to).is_none());
    assert!(r.take(&snap(2_500_000, "a", 10, 1, 1600), from, to).is_none());
    assert!(r.take(&snap(9_000_000, "a", 10, 1, 1600), from, to).is_none());
    let diag = Event::Diag(DiagEvt {
        ts_us: 2_000_001,
        call_id: "a".into(),
        severity: 1,
        code: "SDP_HOLD".into(),
        message: "held".into(),
    });
    assert!(r.take(&diag, from, to).is_none());
    // A bucket is taken whenever it was.
    assert!(r.take(&bucket_at(0), from, to).is_none());
    assert!(r.take(&teardown(2_500_000, "a", true, 1), from, to).is_none());
    assert_eq!((r.streams.len(), r.diagnostics.len(), r.buckets.len()), (1, 1, 1));
    assert_eq!(r.streams[0].packets, 10);
    assert_eq!(r.streams[0].call_id, Some("a".to_string()));
    assert_eq!(r.diagnostics[0].severity, Severity::Warn);
    assert_eq!(r.diagnostics[0].message, "held");
    assert_eq!(r.buckets[0].dim_key, "k");
    // Without a range, everything is.
    let mut all = Rebuilt::new();
    assert!(all.take(&sip(1, "INVITE", "a"), None, None).is_some());
    all.take(&snap(9_000_000, "a", 10, 1, 1600), None, None);
    assert_eq!(all.streams.len(), 1);
}

#[test]
fn a_query_counts_what_it_finds() {
    let mut f = Found::none();
    assert_eq!(f.see(&sip(1, "INVITE", "a"), "a"), Some(Hit::Message));
    assert_eq!(f.see(&sip(1, "INVITE", "b"), "a"), None);
    assert_eq!(f.see(&snap(2, "a", 1, 0, 160), "a"), Some(Hit::Stream));
    assert_eq!(f.see(&snap(2, "b", 1, 0, 160), "a"), None);
    let rtt = Event::RtcpRtt(RtcpRttEvt {
        ts_us: 3,
        call_id: "a".into(),
        ssrc: 1,
        rtt_ms: num(1.0),
        oneway_ms: None,
    });
    assert_eq!(f.see(&rtt, "a"), Some(Hit::Rtt));
    assert_eq!(f.see(&teardown(4, "a", true, 1), "a"), None);
    assert_eq!(f, Found { messages: 1, streams: 1, rtts: 1 });
    assert_eq!(f.summary("a"), "query: 1 sip msgs, 1 stream snaps, 1 rtt samples for a");
    if let Event::SipMsg(mut e) = sip(1, "INVITE", "a") {
        assert_eq!(query_label(&e), "INVITE");
        e.method = None;
        assert_eq!(query_label(&e), "");
        e.is_request = false;
        e.status = Some(486);
        assert_eq!(query_label(&e), "486");
    }
}

#[test]
fn a_replay_notes_streams_and_findings() {
    if let Event::StreamSnap(e) = snap(1, "call-1", 50, 1, 8000) {
        assert_eq!(stream_note(&e, "2.0"), "stream call-1 ssrc=0xabc pkts=50 loss=2.0%");
    }
    let d = DiagEvt {
        ts_us: 1,
        call_id: "a".into(),
        severity: 2,
        code: "ONE_WAY".into(),
        message: "no media back".into(),
    };
    assert_eq!(diag_note(&d), "[2] ONE_WAY no media back");
}

#[test]
fn columns_have_headings() {
    assert_eq!(req_label(0), "INVITE");
    assert_eq!(req_label(8), "oth");
    assert_eq!(resp_label(resp_idx(486)), "486");
    assert_eq!(resp_label(resp_idx(302)), "3xx");
    assert_eq!(resp_label(resp_idx(603)), "6xx");
    assert_eq!(resp_label(14), "oth");
}

#[test]
fn shared_ip_is_found_however_often_it_shows() {
    let mut msgs = vec![
        mk_sip(Some("t1"), "1.1.1.1:5060", "2.2.2.2:5060"),
        mk_sip(Some("t2"), "2.2.2.2:5060", "3.3.3.3:5060"),
        mk_sip(Some("t1"), "2.2.2.2:5060", "1.1.1.1:5060"),
    ];
    let (legs, _) = dialog_legs(&msgs);
    assert_eq!(legs, vec![0, 1, 0]);
    assert_eq!(common_flow_ip(&msgs, &legs), Some(ip_of("2.2.2.2")));
    // A second shared IP makes it ambiguous.
    msgs.push(mk_sip(Some("t2"), "1.1.1.1:5060", "3.3.3.3:5060"));
    let (legs, _) = dialog_legs(&msgs);
    assert_eq!(common_flow_ip(&msgs, &legs), None);
}

#[test]
fn heatmap_prunes_old_buckets() {
    let mut h = Heatmap::new(900);
    let base = 1_800_000_000_000_000u64;
    for i in 0..20u64 {
        h.record_call(base + i * 900_000_000, &format!("k{i}"), true, false);
    }
    assert_eq!(h.cell_count(), 20);
    let cutoff = base + 15 * 900_000_000;
    h.prune_older_than(cutoff);
    assert_eq!(h.cell_count(), 5);
}

#[test]
fn heatmap_counts_calls_by_bucket_and_key() {
    let mut h = Heatmap::new(60);
    assert_eq!(h.record_call(61_000_000, "a", true, false), 0);
    assert_eq!(h.record_call(119_999_999, "a", false, true), 0);
    assert_eq!(h.record_call(120_000_000, "a", true, false), 1);
    assert_eq!(h.record_call(61_000_000, "b", false, false), 2);
    let m = &h.cells[0].metrics;
    assert_eq!((h.cells[0].bucket_us, m.calls, m.answered, m.failed), (60_000_000, 2, 1, 1));
    h.clear();
    assert_eq!(h.cell_count(), 0);
}

#[test]
fn rings_take_any_width() {
    let mut ring = Vec::new();
    let b = 3_600_000_000u64;
    ring_bump(&mut ring, b, 5 * b + 7, 1, 0);
    ring_bump(&mut ring, b, 6 * b, 0, 1);
    assert_eq!(ring, vec![(5 * b, 1, 0), (6 * b, 0, 1)]);
}

#[test]
fn error_responses_are_counted() {
    let st = SipStatsStore::new();
    let o = SipObs {
        ip: ip_of("1.1.1.1"),
        ts_us: 1,
        is_request: false,
        method: None,
        status: Some(486),
        answer_for_ip: None,
        initial_invite: false,
    };
    assert!(st.has_room(&o));
    let mut st = st;
    for code in [486, 404, 487, 302, 503, 200] {
        st.observe(&SipObs { status: Some(code), ..o });
    }
    let rows = st.snapshot();
    assert_eq!(rows[0].stats.resp_errors(), 3);
    assert_eq!(rows.len(), 2);
}

#[test]
fn percentiles_are_shown_as_counted() {
    let s = stats_of(log_of(&[
        sip(1_000_000, "INVITE", "a"),
        teardown(2_000_000, "a", true, 20),
        sip(3_000_000, "INVITE", "b"),
        teardown(4_000_000, "b", true, 80),
        sip(5_000_000, "INVITE", "c"),
        teardown(6_000_000, "c", true, 140),
    ]));
    assert_eq!(s.reliability.p50_pdd_ms, Some(80));
    let p95 = s.reliability.p95_pdd_ms.unwrap();
    let j: serde_json::Value = serde_json::from_str(&json_text_of(&s)).unwrap();
    assert_eq!(j["reliability"]["p50_pdd_ms"], 80.0);
    assert_eq!(j["reliability"]["p95_pdd_ms"], p95 as f64);
    let text = text_of(&s);
    assert!(text.contains(&format!(" p50=80ms p95={p95}ms | ")), "{text}");
    // Without a call there is nothing to show.
    assert!(text_of(&stats_of(log_of(&[]))).contains(" p50=- p95=- | "));
}

#[test]
fn windows_add_up_to_the_whole() {
    let step = 150_000_000u64;
    let mut events: Vec<Event> = Vec::new();
    for i in 0..20u64 {
        let id = format!("c{i}");
        events.push(sip(i * step, "INVITE", &id));
        events.push(teardown(i * step + 1_000_000, &id, i % 3 != 0, 10));
    }
    let s = stats_of(log_of(&events));
    assert_eq!(s.windows.len(), 10);
    assert!(s.windows.iter().all(|w| w.start_ts_us % 300_000_000 == 0));
    assert_eq!(s.windows.iter().map(|w| w.sip_msgs).sum::<u64>(), 20);
    assert_eq!(s.windows.iter().map(|w| w.teardowns).sum::<u64>(), 20);
    assert_eq!(s.windows.iter().map(|w| w.answered).sum::<u64>(), s.reliability.answered);
}

#[test]
fn a_replayed_stream_keeps_its_figures() {
    let Event::StreamSnap(mut e) = snap(7_000_000, "c", 90, 10, 1_234) else {
        panic!("a snapshot");
    };
    e.leg = Some("peer".into());
    e.via_turn = true;
    let s = replay_stream(&e);
    assert_eq!((s.packets, s.lost, s.bytes), (90, 10, 1_234));
    assert_eq!((s.leg.as_deref(), s.via_turn), (Some("peer"), true));
    assert_eq!(s.rtt_avg_ms, Some(num(40.0)));
    assert_eq!((s.first_ts_us, s.last_ts_us), (Some(7_000_000), Some(7_000_000)));
    let mut reg = Registry::with_source("t".into());
    assert!(reg.has_import_room(&s));
    reg.import_stream_snap(7_000_000, s.clone());
    let full = StreamSummary { packets: u64::MAX, ..s.clone() };
    assert!(!reg.has_import_room(&full));
    let nowhere = StreamSummary { flow: None, ..full };
    assert!(reg.has_import_room(&nowhere));
    let rows = reg.snapshot_full(&Vec::new()).ip_stats;
    assert_eq!(rows.len(), 2);
    assert!(rows.iter().all(|r| r.bytes_total == 1_234));
}

#[test]
fn heatmap_columns_cover_their_window() {
    let mut st = IpStatsStore::new();
    // One packet a second for two hours.
    for i in 0..7_200u64 {
        st.observe_packet(ip(), i * 1_000_000, 100);
    }
    let s = st.snapshot().pop().unwrap();
    let minute = s.heatmap_columns(60, 60);
    assert_eq!(minute.len(), 60);
    assert_eq!(minute[0], (7_140_000_000, 1, 0));
    assert_eq!(minute[59], (7_199_000_000, 1, 0));
    let ten = s.heatmap_columns(600, 60);
    assert_eq!(ten.len(), 60);
    assert!(ten.iter().all(|c| c.1 == 10));
    assert_eq!(ten[0].0, 6_600_000_000);
    // An hour is read from the minutes.
    let hour = s.heatmap_columns(3_600, 60);
    assert_eq!(hour.len(), 60);
    assert!(hour.iter().all(|c| c.1 == 60));
    assert_eq!(hour[0].0, 3_600_000_000);
    assert_eq!(s.heatmap_columns(20, 60).len(), 20);
    assert_eq!(s.heatmap_columns(90, 60).len(), 45);
    assert_eq!(s.heatmap_columns(0, 60).len(), 60);
    // Columns begin at multiples of their width: one that the window only touches is
    // left out where there is no place for it.
    st.observe_packet(ip(), 7_203_000_000, 100);
    let s = st.snapshot().pop().unwrap();
    let ten = s.heatmap_columns(600, 60);
    assert_eq!((ten.len(), ten[0].0, ten[59].0), (60, 6_610_000_000, 7_200_000_000));
}

#[test]
fn the_byte_count_is_the_length_of_the_log() {
    let mut w = EvlogWriter::new(3600);
    let mut sink: Vec<u8> = Vec::new();
    for (i, e) in every_event().iter().enumerate() {
        w.write(e);
        assert!((sink.len() as u64) < w.bytes_written());
        if i % 3 == 0 {
            sink.extend(w.flush());
            assert_eq!(sink.len() as u64, w.bytes_written());
        }
    }
    sink.extend(w.flush());
    assert_eq!(sink.len() as u64, w.bytes_written());
}
