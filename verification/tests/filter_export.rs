//! The filter, and exported snapshots read back.
use sipmon::diagnostics;
use sipmon::diagnostics::Severity;
use sipmon::export::event_lines::{brief_line, event_line, query_line};
use sipmon::export::import::{
    build_jsonl_focus, count_states, evt_to_sipmsg, export_diag, import_bucket, import_lines,
    in_range, read_call, read_diag, read_stream,
};
use sipmon::export::lines::{
    bucket_line, call_line, diag_line, export_snapshot, stream_line, BucketLine, StreamFigures,
};
use sipmon::export::tables::{
    code_from_str, outcome_word, parse_method, parse_outcome, parse_severity, parse_ssrc,
    parse_state, severity_from, ssrc_string,
};
use sipmon::filter::{parse, Rule};
use sipmon::model::addr::IpAddr;
use sipmon::model::addr_text::{ip_from_str, socket_from_str};
use sipmon::model::media::StreamSummary;
use sipmon::model::packet::{Flow5Tuple, Proto};
use sipmon::model::sip::{Call, CallState, Method, Outcome};
use sipmon::model::stats::{HealthBucket, MetricSet, Real64};
use sipmon::store::evlog::{
    CallEvt, DiagEvt, ErrorEvt, Event, RtcpRttEvt, SipMsgEvt, StreamSnapEvt, TxnEvt,
};
use sipmon::store::snapshot::CallSummary;
use sipmon::store::wire::CallEvtKind;

fn ip(s: &str) -> IpAddr {
    ip_from_str(s).unwrap()
}

fn summary(
    call_id: &str,
    from: Option<&str>,
    to: Option<&str>,
    caller_ip: Option<IpAddr>,
    ips: &[&str],
) -> CallSummary {
    CallSummary {
        call_id: call_id.into(),
        from_user: from.map(Into::into),
        to_user: to.map(Into::into),
        caller_ip,
        state: CallState::Completed,
        outcome: Outcome::Answered,
        invite_ts: Some(1),
        duration_ms: None,
        pdd_ms: None,
        setup_ms: None,
        ring_ms: None,
        ring_code: None,
        early_media: false,
        hangup_by: None,
        hangup_code: None,
        pkts_sip: 0,
        pkts_rtp: 0,
        best_mos: None,
        warn_count: 0,
        critical_count: 0,
        stream_count: 0,
        via_turn: false,
        ips: ips.iter().map(|s| ip(s)).collect(),
    }
}

fn rules(q: &str) -> Vec<Rule> {
    parse(q)
}

#[test]
fn parse_recognizes_prefixes_and_bare_words() {
    assert_eq!(rules("callid:abc"), vec![Rule::CallId("abc".into())]);
    assert_eq!(rules("caller:1001"), vec![Rule::Caller("1001".into())]);
    assert_eq!(
        rules("CALLEE:2002"),
        vec![Rule::Callee("2002".into())],
        "prefix matching is case-insensitive"
    );
    let r = rules("ip:10.0.0.1:5060");
    match r.as_slice() {
        [Rule::Ip { addr, .. }] => {
            assert_eq!(*addr, Some(ip("10.0.0.1")), "port ignored")
        }
        _ => panic!("expected Ip rule, got {r:?}"),
    }
    assert_eq!(rules("1001"), vec![Rule::Any { needle: "1001".into(), addr: None }]);
    assert!(rules("ip:").is_empty(), "empty values are dropped");
}

#[test]
fn empty_rules_match_everything() {
    let c = summary("c1", None, None, None, &[]);
    assert!(sipmon::filter::matches(&c, &Vec::new()));
    assert!(sipmon::filter::matches(&c, &rules("   ")));
}

#[test]
fn bare_word_matches_any_field() {
    let c = summary("inv-123", Some("alice"), Some("2002"), None, &["10.1.2.3"]);
    assert!(sipmon::filter::matches(&c, &rules("123")));
    assert!(sipmon::filter::matches(&c, &rules("ALICE")));
    assert!(sipmon::filter::matches(&c, &rules("2002")));
    assert!(sipmon::filter::matches(&c, &rules("10.1.2.3")));
    assert!(!sipmon::filter::matches(&c, &rules("bob")));
}

#[test]
fn rules_combine_with_and() {
    let c = summary("c1", Some("1001"), Some("2002"), None, &[]);
    assert!(sipmon::filter::matches(&c, &rules("caller:1001 callee:2002")));
    assert!(!sipmon::filter::matches(&c, &rules("caller:1001 callee:2003")));
}

#[test]
fn exact_ip_does_not_substring_match() {
    let c = summary("c1", None, None, None, &["10.0.0.10"]);
    assert!(!sipmon::filter::matches(&c, &rules("ip:10.0.0.1")), "exact, not prefix");
    assert!(sipmon::filter::matches(&c, &rules("ip:10.0.0.10")));
    assert!(sipmon::filter::matches(&c, &rules("ip:10.0.0.10:5060")), "port is ignored");
    assert!(sipmon::filter::matches(&c, &rules("10.0.0.10:5060")), "bare addr:port");
    // Unparseable values fall back to substring matching.
    assert!(sipmon::filter::matches(&c, &rules("ip:10.0.0.")));
}

#[test]
fn ip_rule_matches_caller_ip_and_any_call_ip() {
    let c = summary("c1", None, None, Some(ip("192.168.1.1")), &["192.168.1.2"]);
    assert!(sipmon::filter::matches(&c, &rules("ip:192.168.1.1")));
    assert!(sipmon::filter::matches(&c, &rules("ip:192.168.1.2")));
    assert!(!sipmon::filter::matches(&c, &rules("ip:192.168.1.3")));
}

#[test]
fn pipeline_call_matches_via_invite_key() {
    let mut call = Call::new("abc".into());
    call.from_user = Some("3003".into());
    call.invite_key = Some("172.16.0.9".into());
    call.ips.push(ip("172.16.0.9"));
    assert!(sipmon::filter::matches(&call, &rules("callid:abc ip:172.16.0.9:5060")));
    assert!(sipmon::filter::matches(&call, &rules("caller:3003")));
    assert!(!sipmon::filter::matches(&call, &rules("callee:3003")));
}

// ----------------------------- exports -----------------------------

#[test]
fn export_import_roundtrip() {
    let mut call = summary("abc@x", Some("1001"), Some("1002"), None, &[]);
    call.invite_ts = Some(1_000_000);
    call.duration_ms = Some(5_000);
    call.pdd_ms = Some(150);
    call.setup_ms = Some(200);
    call.hangup_code = Some(200);
    (call.pkts_sip, call.pkts_rtp) = (8, 100);
    call.best_mos = Some(Real64 { bits: 4.2f64.to_bits() });
    (call.warn_count, call.critical_count, call.stream_count) = (1, 0, 1);
    let stream = StreamSummary {
        call_id: Some("abc@x".into()),
        ssrc: 0xdeadbeef,
        flow: Some(Flow5Tuple {
            proto: Proto::Udp,
            src: socket_from_str("10.0.0.1:5004").unwrap(),
            dst: socket_from_str("10.0.0.2:5004").unwrap(),
        }),
        codec: Some("PCMU".into()),
        payload_type: Some(0),
        packets: 100,
        lost: 2,
        expected: 102,
        direction: Some("sendrecv".into()),
        ..StreamSummary::default()
    };
    let figures = StreamFigures {
        loss_pct: n("2.0"),
        jitter_ms: n("1.5"),
        rtt_avg_ms: n("12.3"),
        oneway_ms: n("6.1"),
        mos: n("4.2"),
    };
    let finding = diagnostics::Diagnostic {
        ts_us: 1_001_000,
        call_id: "abc@x".into(),
        severity: Severity::Warn,
        code: diagnostics::RTP_PT_MISMATCH,
        message: "PT=8 not in negotiated codecs".into(),
    };
    let bucket = BucketLine {
        bucket_us: 900_000,
        dim_key: "10.0.0.1".into(),
        calls: 2,
        answered: 1,
        failed: 1,
        asr_pct: n("50.0"),
        avg_pdd_ms: None,
        avg_jitter_ms: None,
        avg_loss_pct: None,
        avg_rtt_ms: None,
        avg_mos: None,
    };
    let text = export_snapshot(
        &vec![call],
        &vec![n("4.2")],
        &vec![stream],
        &vec![figures],
        &vec![finding],
        &vec![bucket],
    );
    let loaded = import_lines(&text);
    assert_eq!(loaded.calls.len(), 1);
    assert_eq!(loaded.calls[0].call_id, "abc@x");
    assert_eq!(loaded.calls[0].state, CallState::Completed);
    assert_eq!(loaded.calls[0].outcome, Outcome::Answered);
    assert_eq!(loaded.calls[0].pdd_ms, Some(150));
    assert_eq!(loaded.calls[0].best_mos, Some(Real64 { bits: 4.2f64.to_bits() }));
    assert_eq!(loaded.streams.len(), 1);
    assert_eq!(loaded.streams[0].call_id.as_deref(), Some("abc@x"));
    assert_eq!(loaded.streams[0].ssrc, 0xdeadbeef);
    assert_eq!(loaded.streams[0].codec.as_deref(), Some("PCMU"));
    assert_eq!(loaded.streams[0].jitter_ms, Some(Real64 { bits: 1.5f64.to_bits() }));
    assert_eq!(
        loaded.streams[0].flow,
        Some(Flow5Tuple {
            proto: Proto::Udp,
            src: socket_from_str("10.0.0.1:5004").unwrap(),
            dst: socket_from_str("10.0.0.2:5004").unwrap(),
        })
    );
    assert_eq!(loaded.diagnostics.len(), 1);
    assert_eq!(loaded.diagnostics[0].code, diagnostics::RTP_PT_MISMATCH);
    assert_eq!(loaded.diagnostics[0].severity, Severity::Warn);
    assert_eq!(loaded.buckets.len(), 1);
    let b = import_bucket(&loaded.buckets[0]);
    assert_eq!((b.bucket_us, b.dim_key.as_str()), (900_000, "10.0.0.1"));
    assert_eq!((b.calls, b.answered, b.failed), (2, 1, 1));
    assert_eq!(b.answered as f64 / b.calls as f64 * 100.0, 50.0);
    // Summary aggregates recomputed from the imported rows.
    assert_eq!(loaded.completed, 1);
}

#[test]
fn import_ignores_unrelated_lines() {
    let snap = import_lines(
        "not json\n{\"kind\":\"call\",\"call_id\":\"x\",\"state\":\"Active\"}\ngarbage line\n",
    );
    assert_eq!(snap.calls.len(), 1);
    assert_eq!(snap.calls[0].call_id, "x");
    assert_eq!((snap.active, snap.completed, snap.failed), (1, 0, 0));
}

#[test]
fn words_read_back() {
    for s in [
        CallState::Dialing,
        CallState::Ringing,
        CallState::Active,
        CallState::Completed,
        CallState::Failed,
        CallState::Canceled,
    ] {
        assert_eq!(parse_state(&Some(s.label().to_string())), s);
    }
    for o in [
        Outcome::InProgress,
        Outcome::Answered,
        Outcome::Rejected,
        Outcome::NoAnswer,
        Outcome::Canceled,
        Outcome::Failed,
    ] {
        assert_eq!(outcome_word(o), format!("{o:?}"));
        assert_eq!(parse_outcome(&Some(outcome_word(o).to_string())), o);
    }
    for (n, s) in [(0, Severity::Info), (1, Severity::Warn), (2, Severity::Critical)] {
        assert_eq!(severity_from(n), s);
        assert_eq!(parse_severity(&Some(s.label().to_string())), s);
    }
    for n in [0u32, 1, 0xdead_beef, u32::MAX] {
        assert_eq!(ssrc_string(n), format!("{n:#x}"));
        assert_eq!(parse_ssrc(&ssrc_string(n)), n);
    }
    assert_eq!(parse_ssrc("zz"), 0);
    assert_eq!(parse_method("INVITE"), Method::Invite);
    assert_eq!(parse_method("FOO"), Method::Other);
    assert_eq!(code_from_str("SDP_HOLD"), diagnostics::SDP_HOLD);
    assert_eq!(code_from_str("?"), "UNKNOWN");
}

#[test]
fn events_become_rows() {
    assert!(in_range(5_000_000, Some(5), Some(5)));
    assert!(!in_range(4_999_999, Some(5), None));
    assert!(!in_range(5_000_001, None, Some(5)));
    let d = export_diag(&DiagEvt {
        ts_us: 7,
        call_id: "c".into(),
        severity: 2,
        code: "SDP_HOLD".into(),
        message: "m".into(),
    });
    assert_eq!(d.severity, Severity::Critical);
    assert_eq!(d.code, diagnostics::SDP_HOLD);
    let m = evt_to_sipmsg(&SipMsgEvt {
            ts_us: 9,
            flow: Flow5Tuple {
                proto: Proto::Tcp,
                src: socket_from_str("1.1.1.1:1").unwrap(),
                dst: socket_from_str("2.2.2.2:2").unwrap(),
            },
            is_request: true,
            method: Some("BYE".into()),
            status: None,
            call_id: "c".into(),
            cseq: Some(3),
            branch: None,
            from_tag: None,
            to_tag: Some("t".into()),
            raw: b"BYE".to_vec(),
    });
    assert_eq!(m.method, Some(Method::Bye));
    assert_eq!(m.cseq, Some(3));
    assert_eq!(m.raw, b"BYE".to_vec());
    let m = evt_to_sipmsg(&SipMsgEvt {
        ts_us: 9,
        flow: m.flow,
        is_request: true,
        method: None,
        status: None,
        call_id: "c".into(),
        cseq: None,
        branch: None,
        from_tag: None,
        to_tag: None,
        raw: b"ACK sip:x SIP/2.0\r\nCall-ID: other\r\nCSeq: 7 ACK\r\n\r\n".to_vec(),
    });
    assert_eq!((m.call_id.as_str(), m.cseq, m.method), ("other", Some(7), Some(Method::Ack)));
    let calls = vec![summary("c", None, None, None, &[])];
    assert_eq!(count_states(&calls), (0, 1, 0));
    let f = build_jsonl_focus(&calls, &vec![d], "c").unwrap();
    assert_eq!(f.call_id, "c");
    assert_eq!(f.diagnostics.len(), 1);
    assert!(build_jsonl_focus(&calls, &Vec::new(), "other").is_none());
}

// ----------------------------- written as JSON -----------------------------

fn n(t: &str) -> Option<String> {
    Some(t.to_string())
}

fn flow_of(proto: Proto) -> Flow5Tuple {
    Flow5Tuple {
        proto,
        src: socket_from_str("10.0.0.1:4000").unwrap(),
        dst: socket_from_str("10.0.0.2:4002").unwrap(),
    }
}

fn stream() -> StreamSummary {
    StreamSummary {
        call_id: Some("c\n1".into()),
        ssrc: 0xabc,
        flow: Some(flow_of(Proto::Udp)),
        codec: Some("PCMU".into()),
        payload_type: Some(0),
        packets: 100,
        lost: 2,
        bytes: 16_000,
        leg: Some("client".into()),
        via_turn: true,
        ..StreamSummary::default()
    }
}

fn stream_figures() -> StreamFigures {
    StreamFigures {
        loss_pct: n("1.96"),
        jitter_ms: n("0.5"),
        rtt_avg_ms: None,
        oneway_ms: n("nonsense"),
        mos: n("4.25"),
    }
}

fn bucket() -> BucketLine {
    BucketLine {
        bucket_us: 900,
        dim_key: "10.0.0.1".into(),
        calls: 4,
        answered: 3,
        failed: 1,
        asr_pct: n("75.0"),
        avg_pdd_ms: n("120.5"),
        avg_jitter_ms: None,
        avg_loss_pct: n("0.0"),
        avg_rtt_ms: n("1e3"),
        avg_mos: n("4"),
    }
}

#[test]
fn lines_are_written_by_key() {
    let mut c = summary("c1", Some("al\"ice"), None, None, &["10.0.0.1"]);
    c.pdd_ms = Some(120);
    assert_eq!(
        call_line(&c, &n("4.4")),
        concat_text(&[
            r#"{"best_mos":4.4,"call_id":"c1","critical_count":0,"duration_ms":null,"#,
            r#""from":"al\"ice","hangup_code":null,"invite_ts_us":1,"kind":"call","#,
            r#""outcome":"Answered","pdd_ms":120,"pkts_rtp":0,"pkts_sip":0,"setup_ms":null,"#,
            r#""state":"Completed","stream_count":0,"to":null,"via_turn":false,"warn_count":0}"#,
        ])
    );
    assert_eq!(
        stream_line(&stream(), &stream_figures()),
        concat_text(&[
            r#"{"bytes":16000,"call_id":"c\n1","codec":"PCMU","direction":null,"#,
            r#""flow_dst":"10.0.0.2:4002","flow_src":"10.0.0.1:4000","jitter_ms":0.5,"#,
            r#""kind":"stream","leg":"client","loss_pct":1.96,"lost":2,"mos":4.25,"#,
            r#""oneway_ms":null,"packets":100,"pt":0,"rtt_avg_ms":null,"ssrc":"0xabc","#,
            r#""via_turn":true}"#,
        ])
    );
    assert_eq!(
        bucket_line(&bucket()),
        concat_text(&[
            r#"{"answered":3,"asr_pct":75.0,"avg_jitter_ms":null,"avg_loss_pct":0.0,"#,
            r#""avg_mos":4,"avg_pdd_ms":120.5,"avg_rtt_ms":1000.0,"bucket_us":900,"calls":4,"#,
            r#""dim_key":"10.0.0.1","failed":1,"kind":"bucket"}"#,
        ])
    );
    assert_eq!(
        brief_line(&c),
        concat_text(&[
            r#"{"call_id":"c1","crit":0,"kind":"call","pdd_ms":120,"setup_ms":null,"#,
            r#""state":"Completed","warn":0}"#,
        ])
    );
}

fn concat_text(parts: &[&str]) -> String {
    parts.concat()
}

#[test]
fn an_export_is_read_back() {
    let mut c = summary("c1", Some("alice"), Some("bob"), Some(ip("10.0.0.1")), &["10.0.0.1"]);
    c.state = CallState::Failed;
    c.outcome = Outcome::Rejected;
    c.hangup_code = Some(486);
    c.pkts_rtp = u64::MAX;
    c.invite_ts = Some(7);
    let mut later = summary("c2", None, None, None, &[]);
    later.invite_ts = Some(8);
    let d = diagnostics::Diagnostic {
        ts_us: 5,
        call_id: "c1".into(),
        severity: Severity::Critical,
        code: diagnostics::SDP_HOLD,
        message: "two\r\nlines \u{1F600}".into(),
    };
    assert!(!diag_line(&d).contains('\n'));
    let text = export_snapshot(
        &vec![c.clone(), later],
        &vec![n("4.5"), None],
        &vec![stream()],
        &vec![stream_figures()],
        &vec![d],
        &vec![bucket()],
    );
    assert_eq!(text.lines().count(), 5);
    let back = import_lines(&text);
    assert_eq!(back.calls.len(), 2);
    // Newest first.
    assert_eq!(back.calls[0].call_id, "c2");
    let r = &back.calls[1];
    assert_eq!((r.call_id.as_str(), r.state, r.outcome), ("c1", c.state, c.outcome));
    assert_eq!((&r.from_user, &r.to_user), (&c.from_user, &c.to_user));
    assert_eq!((r.hangup_code, r.pkts_rtp, r.invite_ts), (Some(486), u64::MAX, Some(7)));
    assert_eq!(r.best_mos, Some(Real64 { bits: 4.5f64.to_bits() }));
    // What is not written is not there.
    assert_eq!(r.caller_ip, None);
    assert!(r.ips.is_empty());
    let s = &back.streams[0];
    assert_eq!((s.call_id.as_deref(), s.ssrc, s.flow), (Some("c\n1"), 0xabc, stream().flow));
    assert_eq!((s.packets, s.lost, s.expected, s.bytes), (100, 2, 102, 16_000));
    assert_eq!((s.leg.as_deref(), s.via_turn), (Some("client"), true));
    assert_eq!((s.rtt_avg_ms, s.oneway_ms), (None, None));
    let d = &back.diagnostics[0];
    assert_eq!((d.code, d.severity), (diagnostics::SDP_HOLD, Severity::Critical));
    assert_eq!(d.message, "two\r\nlines \u{1F600}");
    assert_eq!((back.active, back.completed, back.failed), (0, 1, 1));
    let b = import_bucket(&back.buckets[0]);
    assert_eq!((b.bucket_us, b.dim_key.as_str()), (900, "10.0.0.1"));
    assert_eq!((b.calls, b.answered, b.failed), (4, 3, 1));
    assert_eq!(b.avg_rtt_ms, Some(1000f64.to_bits()));
    assert_eq!((b.avg_jitter_ms, b.avg_mos), (None, Some(4f64.to_bits())));
    let none = import_bucket("no JSON");
    assert_eq!((none.bucket_us, none.dim_key.as_str(), none.calls), (0, "", 0));
}

fn message() -> SipMsgEvt {
    SipMsgEvt {
        ts_us: 9,
        flow: flow_of(Proto::Tcp),
        is_request: false,
        method: None,
        status: Some(200),
        call_id: "c".into(),
        cseq: Some(3),
        branch: None,
        from_tag: Some("f".into()),
        to_tag: None,
        raw: b"12345".to_vec(),
    }
}

fn snap_event() -> Event {
    Event::StreamSnap(StreamSnapEvt {
        ts_us: 1,
        call_id: "c".into(),
        ssrc: 16,
        flow: flow_of(Proto::Udp),
        codec: None,
        payload_type: None,
        packets: 10,
        lost: 1,
        expected: 11,
        loss_pct: Real64 { bits: 0 },
        jitter_ms: None,
        mos: None,
        direction: None,
        bytes: 0,
        first_ts_us: None,
        last_ts_us: None,
        rtt_min_ms: None,
        rtt_avg_ms: None,
        rtt_max_ms: None,
        oneway_ms: None,
        leg: None,
        via_turn: false,
    })
}

#[test]
fn events_are_printed() {
    let zero = Real64 { bits: 0 };
    let none: Vec<Option<String>> = Vec::new();
    assert_eq!(
        event_line(&Event::SipMsg(message()), &none),
        concat_text(&[
            r#"{"branch":null,"call_id":"c","cseq":3,"dst":"10.0.0.2:4002","method":null,"#,
            r#""src":"10.0.0.1:4000","status":200,"ts_us":9,"type":"sip"}"#,
        ])
    );
    let txn = Event::Txn(TxnEvt {
        ts_us: 1,
        call_id: "c".into(),
        branch: "b".into(),
        method: "BYE".into(),
        response_code: None,
        delay_ms: Some(4),
    });
    assert_eq!(
        event_line(&txn, &none),
        r#"{"call_id":"c","code":null,"delay_ms":4,"method":"BYE","ts_us":1,"type":"txn"}"#
    );
    let call = Event::Call(CallEvt {
        ts_us: 1,
        call_id: "c".into(),
        kind: CallEvtKind::Teardown,
        from_user: None,
        to_user: None,
        from_uri: None,
        to_uri: None,
        state: 3,
        outcome: 1,
        invite_ts: None,
        trying_ts: None,
        ringing_ts: None,
        answer_ts: None,
        bye_ts: None,
        end_ts: None,
        pdd_ms: None,
        setup_ms: Some(7),
        hangup_code: None,
        hangup_reason: None,
        pkts_sip: 0,
        pkts_rtp: 0,
        pkts_rtcp: 0,
        bytes: 0,
    });
    assert_eq!(
        event_line(&call, &none),
        concat_text(&[
            r#"{"call_id":"c","hangup":null,"kind":"Teardown","pdd_ms":null,"setup_ms":7,"#,
            r#""state":3,"ts_us":1,"type":"call"}"#,
        ])
    );
    assert_eq!(
        event_line(&snap_event(), &vec![n("9.09"), None, n("4.1")]),
        concat_text(&[
            r#"{"call_id":"c","jitter_ms":null,"loss_pct":9.09,"lost":1,"mos":4.1,"#,
            r#""packets":10,"ssrc":"0x10","ts_us":1,"type":"stream"}"#,
        ])
    );
    let rtt = Event::RtcpRtt(RtcpRttEvt {
        ts_us: 1,
        call_id: "c".into(),
        ssrc: 1,
        rtt_ms: zero,
        oneway_ms: None,
    });
    assert_eq!(
        event_line(&rtt, &vec![n("20.5"), None]),
        concat_text(&[
            r#"{"call_id":"c","oneway_ms":null,"rtt_ms":20.5,"ssrc":"0x1","ts_us":1,"#,
            r#""type":"rtcp_rtt"}"#,
        ])
    );
    let health = Event::HealthBucket(HealthBucket {
        bucket_us: 60,
        dim_key: "k".into(),
        metrics: MetricSet {
            calls: 1,
            answered: 2,
            failed: 3,
            pdd_sum_ms: zero,
            pdd_n: 4,
            jitter_sum_ms: zero,
            jitter_n: 5,
            loss_sum_pct: zero,
            loss_n: 6,
            rtt_sum_ms: zero,
            rtt_n: 7,
            mos_sum: zero,
            mos_n: 8,
        },
    });
    assert_eq!(
        event_line(&health, &vec![n("1.5"), n("2.5"), n("3.5"), n("4.5"), n("5.5")]),
        concat_text(&[
            r#"{"bucket_us":60,"key":"k","metrics":{"answered":2,"calls":1,"failed":3,"#,
            r#""jitter_n":5,"jitter_sum_ms":2.5,"loss_n":6,"loss_sum_pct":3.5,"mos_n":8,"#,
            r#""mos_sum":5.5,"pdd_n":4,"pdd_sum_ms":1.5,"rtt_n":7,"rtt_sum_ms":4.5},"#,
            r#""type":"bucket"}"#,
        ])
    );
    let error = Event::Error(ErrorEvt { ts_us: 1, kind: "io".into(), msg: "gone".into() });
    assert_eq!(
        event_line(&error, &none),
        r#"{"kind":"io","msg":"gone","ts_us":1,"type":"error"}"#
    );
    let diag = Event::Diag(DiagEvt {
        ts_us: 1,
        call_id: "c".into(),
        severity: 2,
        code: "X".into(),
        message: "m".into(),
    });
    assert_eq!(
        event_line(&diag, &none),
        r#"{"call_id":"c","code":"X","message":"m","severity":2,"ts_us":1,"type":"diag"}"#
    );
    // A query prints four of the eight types.
    assert_eq!(
        query_line(&Event::SipMsg(message()), &none).unwrap(),
        concat_text(&[
            r#"{"branch":null,"cseq":3,"dst":"10.0.0.2:4002","from_tag":"f","msg":"200","#,
            r#""raw_len":5,"src":"10.0.0.1:4000","to_tag":null,"ts_us":9}"#,
        ])
    );
    assert_eq!(
        query_line(&snap_event(), &vec![n("0.125"), None, None]).unwrap(),
        concat_text(&[
            r#"{"codec":null,"jitter_ms":null,"loss_pct":0.125,"lost":1,"mos":null,"#,
            r#""packets":10,"stream":"0x10","ts_us":1}"#,
        ])
    );
    assert_eq!(
        query_line(&rtt, &vec![n("20.5"), n("10.0")]).unwrap(),
        r#"{"oneway_ms":10.0,"rtt_ms":20.5,"ssrc":"0x1","ts_us":1}"#
    );
    assert_eq!(
        query_line(&diag, &none).unwrap(),
        r#"{"diag":"X","message":"m","severity":2,"ts_us":1}"#
    );
    assert_eq!(query_line(&error, &none), None);
    assert_eq!(query_line(&call, &none), None);
}

#[test]
fn fields_are_read_by_their_type() {
    let c = read_call(r#" {"call_id":7,"from":"a\u0000\"b","pdd_ms":-1,"setup_ms":2.0,"best_mos":4,"via_turn":"yes"}"#);
    assert_eq!(c.call_id, None);
    assert_eq!(c.from.as_deref(), Some("a\0\"b"));
    assert_eq!((c.pdd_ms, c.setup_ms), (None, None));
    assert_eq!(c.best_mos, Some(4f64.to_bits()));
    assert_eq!(c.via_turn, None);
    let s = read_stream(r#"{"loss_pct":-0.5,"mos":null,"lost":18446744073709551615,"via_turn":true}"#);
    assert_eq!(s.loss_pct, Some((-0.5f64).to_bits()));
    assert_eq!((s.mos, s.lost, s.via_turn), (None, Some(u64::MAX), Some(true)));
    for line in ["[]", "3", "\"ts_us\"", "{\"ts_us\":1", "{\"ts_us\":1} 2"] {
        assert_eq!(read_diag(line).ts_us, None, "{line}");
    }
    assert_eq!(read_diag("{\"ts_us\":1}").ts_us, Some(1));
}

/// Numbers of up to fifteen digits, with a fraction.
fn fine_numbers() -> Vec<String> {
    let mut x: u64 = 1;
    let mut out: Vec<String> = vec!["0.0".into(), "-0.0".into(), "0.1".into(), "4.35".into()];
    for i in 0..3_000u64 {
        x = x.wrapping_mul(6364136223846793005).wrapping_add(1442695040888963407);
        let decimals = 1 + (i % 14) as usize;
        let whole = (x >> 20) % 10u64.pow(15 - decimals as u32);
        let part = (x >> 7) % 10u64.pow(decimals as u32);
        out.push(format!("{whole}.{part:0decimals$}"));
    }
    out
}

#[test]
fn figures_of_few_digits_come_back_bit_for_bit() {
    for t in fine_numbers() {
        assert!(t.len() <= 16);
        let figures = StreamFigures {
            loss_pct: Some(t.clone()),
            jitter_ms: Some(t.clone()),
            rtt_avg_ms: None,
            oneway_ms: None,
            mos: n("3"),
        };
        let c = summary("c", None, None, None, &[]);
        let text = export_snapshot(
            &vec![c],
            &vec![Some(t.clone())],
            &vec![stream()],
            &vec![figures],
            &Vec::new(),
            &Vec::new(),
        );
        let back = import_lines(&text);
        let spelled = Real64 { bits: t.parse::<f64>().unwrap().to_bits() };
        assert_eq!(back.streams[0].loss_pct, spelled, "{t}");
        assert_eq!(back.streams[0].jitter_ms, Some(spelled), "{t}");
        assert_eq!(back.streams[0].mos, Some(Real64 { bits: 3f64.to_bits() }));
        assert_eq!(back.calls[0].best_mos, Some(spelled), "{t}");
    }
}
