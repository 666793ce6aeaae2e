//! The screens: masking, colours, lanes, keys and orders.
use sipmon::model::addr::{IpAddr, SocketAddr};
use sipmon::model::addr_text::{ip_from_str, socket_from_str};
use sipmon::model::media::StreamSummary;
use sipmon::model::packet::{Flow5Tuple, Proto};
use sipmon::model::sip::{CallState, HangupBy, Method, Outcome, SipMsg};
use sipmon::model::stats::Real64;
use sipmon::store::ipstats::IpStatsStore;
use sipmon::store::sipstats::{SipObs, SipStatsStore};
use sipmon::store::snapshot::CallSummary;
use sipmon::ui::app::{
    b_leg_candidates, calls_for_ip, list_calls, table_nudge, App, Key, Seen, PAGE_ROWS,
};
use sipmon::ui::highlight::{highlight_raw, is_sip_method, msg_ink, next_token, Ink, TokenKind};
use sipmon::ui::lanes::{
    classify_lanes, common_flow_ip_for_lanes, dir_flow, display_socket, display_user, flow_ip,
    flow_parties, label_of, mid_socket, party_centers, party_index, resolve_party_pair,
    swim_header, swim_row, two_parties, tx_streams, CallTimes, Phase,
};
use sipmon::ui::mask::{mask_ip, mask_raw, mask_socket, mask_user};
use sipmon::ui::order::{fmt_end, heat_grid, loss_column_secs, ordered_rows, sorted_rows};
use sipmon::ui::pages::{page_keys, CallFilter, IpSort, Page, SipSort, PAGES};

fn ip(s: &str) -> IpAddr {
    ip_from_str(s).unwrap()
}

fn sock(s: &str) -> SocketAddr {
    socket_from_str(s).unwrap()
}

fn num(v: f64) -> Real64 {
    Real64 { bits: v.to_bits() }
}

// ----------------------------- masking -----------------------------

#[test]
fn mask_raw_obfuscates_uris_ips_and_display_names() {
    let raw = "INVITE sip:13812345678@10.20.0.8:5060 SIP/2.0\r\n\
               Via: SIP/2.0/UDP 10.10.0.8:5060;branch=z9hG4bK-1\r\n\
               From: \"Alice\" <sip:13812345678@10.10.0.8>;tag=a1\r\n\
               To: <sip:bob@10.20.0.8>\r\n\
               Contact: <sip:13812345678@10.10.0.8:5060>\r\n\
               CSeq: 1 INVITE\r\n\
               \r\n\
               v=0\r\n\
               o=- 1 1 IN IP4 10.10.0.8\r\n\
               s=session\r\n\
               c=IN IP4 10.10.0.8\r\n\
               m=audio 20014 RTP/AVP 0\r\n";
    let masked = mask_raw(raw);
    // No raw IPs, numbers, or display names may survive.
    assert!(!masked.contains("10.10.0.8"), "source IP leaked");
    assert!(!masked.contains("10.20.0.8"), "dest IP leaked");
    assert!(!masked.contains("13812345678"), "number leaked");
    assert!(!masked.contains("Alice"), "display name leaked");
    assert!(!masked.contains("alice"), "display name leaked");
    // Masked forms are in place.
    assert!(masked.contains("sip:138…5678@10.*.*.8:5060"), "request URI not masked");
    assert!(masked.contains("10.*.*.8:5060;branch=z9hG4bK-1"), "Via IP/port not masked");
    assert!(masked.contains("\"Ali*ce\" <sip:138…5678@10.*.*.8>"), "From header not masked");
    assert!(masked.contains("sip:b**@10.*.*.8"), "To URI not masked");
    assert!(masked.contains("c=IN IP4 10.*.*.8"), "SDP connection not masked");
    assert!(masked.contains("IN IP4 10.*.*.8"), "SDP origin not masked");
    // Non-IP tokens are preserved.
    assert!(masked.contains("CSeq: 1 INVITE"), "non-sensitive data changed");
    assert!(masked.contains("m=audio 20014 RTP/AVP 0"), "SDP media line changed");
    // Layout (line count) is unchanged.
    assert_eq!(masked.lines().count(), raw.lines().count(), "layout changed");
}

#[test]
fn mask_raw_leaves_non_privacy_text_alone() {
    let raw = "100 Trying\r\nFrom: alice <sip:alice@10.1.2.3>\r\n";
    let masked = mask_raw(raw);
    assert!(masked.contains("sip:ali*ce@10.*.*.3"));
    assert!(!masked.contains("10.1.2.3"));
}

#[test]
fn users_and_addresses_are_masked() {
    assert_eq!(mask_user("13812345678"), "138…5678");
    assert_eq!(mask_user("bob"), "b**");
    assert_eq!(mask_ip(ip("10.20.0.8")), "10.*.*.8");
    assert_eq!(mask_socket("10.20.0.8:5060"), "10.*.*.8:5060");
    assert!(!mask_ip(ip("2001:db8::1:2")).contains("db8"));
}

// ----------------------------- colours -----------------------------

#[test]
fn highlight_colors_request_status_header_and_sdp() {
    let raw = "INVITE sip:bob@10.0.0.2 SIP/2.0\r\n\
               Via: SIP/2.0/UDP 10.0.0.1:5060;branch=z9hG4bK-1\r\n\
               From: <sip:alice@10.0.0.1>;tag=abc\r\n\
               \r\n\
               v=0\r\n\
               m=audio 20014 RTP/AVP 0\r\n";
    let lines = highlight_raw(raw);
    // Request line: method bold success, URI info, version muted.
    assert_eq!(lines[0][0].content, "INVITE");
    assert_eq!(lines[0][0].ink, Ink::Success);
    assert!(lines[0][0].bold);
    assert_eq!(lines[0][2].content, "sip:bob@10.0.0.2");
    assert_eq!(lines[0][2].ink, Ink::Info);
    // Header: name accent, branch= value warning.
    assert_eq!(lines[1][0].content, "Via:");
    assert_eq!(lines[1][0].ink, Ink::Accent);
    let branch =
        lines[1].iter().find(|s| s.content.contains("branch=")).expect("branch token present");
    assert_eq!(branch.ink, Ink::Warning);
    // From header: ;tag= accent.
    let tag = lines[2].iter().find(|s| s.content.contains(";tag=")).expect("tag token present");
    assert_eq!(tag.ink, Ink::Accent);
    // Blank line is the header/body separator, uncolored.
    assert!(lines[3].is_empty());
    // SDP: v= muted, m= warning.
    assert_eq!(lines[4][0].content, "v=");
    assert_eq!(lines[4][0].ink, Ink::Muted);
    assert_eq!(lines[5][0].content, "m=");
    assert_eq!(lines[5][0].ink, Ink::Warning);
}

#[test]
fn highlight_status_line_colors_code_by_class() {
    let lines = highlight_raw("SIP/2.0 404 Not Found\r\n");
    assert_eq!(lines[0][0].content, "SIP/2.0");
    assert_eq!(lines[0][0].ink, Ink::Muted);
    assert_eq!(lines[0][2].content, "404");
    assert_eq!(lines[0][2].ink, Ink::Error);
    assert_eq!(lines[0][3].content, " Not Found");

    let ok = highlight_raw("SIP/2.0 200 OK\r\n");
    assert_eq!(ok[0][2].ink, Ink::Success);
    let trying = highlight_raw("SIP/2.0 100 Trying\r\n");
    assert_eq!(trying[0][2].ink, Ink::Info);
}

#[test]
fn highlight_applies_after_privacy_masking() {
    let raw = "INVITE sip:13812345678@10.20.0.8:5060 SIP/2.0\r\n\
               From: <sip:13812345678@10.10.0.8>;tag=a1\r\n";
    let masked = mask_raw(raw);
    assert!(!masked.contains("10.20.0.8"));
    let lines = highlight_raw(&masked);
    // Request-URI span is the masked form.
    assert_eq!(lines[0][2].content, "sip:138…5678@10.*.*.8:5060");
}

#[test]
fn tokens_of_a_header_value() {
    let t: Vec<char> = " <sip:a@b>;tag=x1;branch=z".chars().collect();
    let (a, b, kind) = next_token(&t, 0).unwrap();
    assert_eq!(kind, TokenKind::Uri);
    assert_eq!(t[a..b].iter().collect::<String>(), "sip:a@b");
    let (a, b, kind) = next_token(&t, b).unwrap();
    assert_eq!(kind, TokenKind::Tag);
    assert_eq!(t[a..b].iter().collect::<String>(), ";tag=x1");
    let (_, b, kind) = next_token(&t, b).unwrap();
    assert_eq!(kind, TokenKind::Branch);
    assert!(next_token(&t, b).is_none());
    // No character is lost between the spans.
    let text: String =
        highlight_raw("From: <sip:a@b>;tag=x1;branch=z")[0].iter().map(|s| s.content.as_str()).collect();
    assert_eq!(text, "From: <sip:a@b>;tag=x1;branch=z");
    let m: Vec<char> = "INVITE".chars().collect();
    assert!(is_sip_method(&m));
    assert!(!is_sip_method(&m[1..]));
}

// ----------------------------- lanes -----------------------------

fn mk_msg(ts: u64, src: &str, dst: &str, from_tag: &str) -> SipMsg {
    SipMsg {
        ts_us: ts,
        flow: Flow5Tuple { proto: Proto::Udp, src: sock(src), dst: sock(dst) },
        is_request: true,
        method: Some(Method::Invite),
        status: None,
        call_id: "c1".into(),
        cseq: Some(1),
        cseq_method: Some("INVITE".into()),
        branch: Some(format!("b-{from_tag}")),
        from_tag: Some(from_tag.into()),
        to_tag: None,
        from_uri: None,
        to_uri: None,
        raw: Vec::new(),
        contact_addr: None,
        route_count: 0,
        record_route_count: 0,
        has_sdp: false,
    }
}

#[test]
fn classify_lanes_assigns_ingress_and_egress() {
    let msgs = vec![
        mk_msg(1_000_000, "1.1.1.1:5060", "2.2.2.2:5060", "t1"),
        mk_msg(1_100_000, "2.2.2.2:5060", "3.3.3.3:5060", "t2"),
    ];
    let local = vec![ip("2.2.2.2")];
    let lanes = classify_lanes(&msgs, &vec![0, 1], &local).expect("lanes classified");
    assert_eq!(lanes.a_leg, 0);
    assert_eq!(lanes.b_leg, 1);
    assert_eq!(lanes.a_remote, sock("1.1.1.1:5060"));
    assert_eq!(lanes.b_remote, sock("3.3.3.3:5060"));
    assert_eq!(lanes.pbx, ip("2.2.2.2"));
    // Reversed arrival order must still classify by direction.
    let msgs2 = vec![
        mk_msg(1_000_000, "2.2.2.2:5060", "3.3.3.3:5060", "t2"),
        mk_msg(1_100_000, "1.1.1.1:5060", "2.2.2.2:5060", "t1"),
    ];
    let lanes2 = classify_lanes(&msgs2, &vec![0, 1], &local).expect("lanes classified");
    assert_eq!(lanes2.a_leg, 1, "inbound leg must be a-leg");
    assert_eq!(lanes2.b_leg, 0);
}

#[test]
fn classify_lanes_falls_back_when_pbx_unknown() {
    let msgs = vec![
        mk_msg(1_000_000, "1.1.1.1:5060", "2.2.2.2:5060", "t1"),
        mk_msg(1_100_000, "2.2.2.2:5060", "3.3.3.3:5060", "t2"),
    ];
    // No local anchor but a unique shared mid IP: still classified.
    let shared = classify_lanes(&msgs, &vec![0, 1], &Vec::new()).expect("shared mid IP");
    assert_eq!(shared.pbx, ip("2.2.2.2"));
    // No shared IP between legs: cannot classify.
    let disjoint = vec![
        mk_msg(1_000_000, "1.1.1.1:5060", "2.2.2.2:5060", "t1"),
        mk_msg(1_100_000, "3.3.3.3:5060", "4.4.4.4:5060", "t2"),
    ];
    assert!(classify_lanes(&disjoint, &vec![0, 1], &Vec::new()).is_none());
    // Single dialog: never a lane layout.
    assert!(classify_lanes(&msgs, &vec![0, 0], &vec![ip("2.2.2.2")]).is_none());
}

#[test]
fn parties_and_columns() {
    let msgs = vec![
        mk_msg(1, "1.1.1.1:5060", "2.2.2.2:5060", "t1"),
        mk_msg(2, "2.2.2.2:5060", "3.3.3.3:5060", "t2"),
    ];
    let local = vec![ip("2.2.2.2")];
    let ps = flow_parties(&msgs, &vec![0, 1], &local);
    assert_eq!(ps, vec![sock("1.1.1.1:5060"), sock("2.2.2.2:5060"), sock("3.3.3.3:5060")]);
    assert_eq!(party_index(&ps, sock("3.3.3.3:5060")), Some(2));
    assert_eq!(resolve_party_pair(msgs[1].flow, &ps, Some(1)), (1, 2));
    assert_eq!(two_parties(&Vec::new()), None);
    assert_eq!(two_parties(&msgs), Some((ps[0], ps[1])));
    assert_eq!(mid_socket(ip("2.2.2.2"), &msgs), sock("2.2.2.2:5060"));
    assert_eq!(common_flow_ip_for_lanes(&msgs, &vec![0, 1]), Some(ip("2.2.2.2")));
    assert_eq!(label_of(&msgs[0]), "INVITE");
    let centers = party_centers(3, 60);
    assert_eq!(centers.len(), 3);
    assert!(centers.iter().all(|c| *c < 60));
    let head = swim_header(&vec!["left".to_string(), "right".to_string()], 40);
    assert!(head.find("left").unwrap() < head.find("right").unwrap());
}

#[test]
fn dir_flow_pins_local_to_right_with_arrows() {
    let local = vec![ip("10.20.0.8")];
    // Inbound: remote -> local (arrow points at the local box).
    let s = dir_flow(ip("10.10.0.8"), ip("10.20.0.8"), "10.10.0.8", "10.20.0.8", &local, 9);
    assert!(s.contains("->"), "inbound must use ->: {s}");
    assert!(s.trim_start().starts_with("10.10.0.8"), "remote must stay left: {s}");
    assert!(s.ends_with("10.20.0.8"), "local must stay right: {s}");
    // Outbound: remote <- local.
    let s = dir_flow(ip("10.20.0.8"), ip("10.10.0.8"), "10.20.0.8", "10.10.0.8", &local, 9);
    assert!(s.contains("<-"), "outbound must use <-: {s}");
    assert!(s.trim_start().starts_with("10.10.0.8"));
    assert!(s.ends_with("10.20.0.8"));
    // No local match: raw arrow, endpoints unchanged.
    let s = dir_flow(ip("10.1.0.1"), ip("10.1.0.2"), "10.1.0.1", "10.1.0.2", &local, 9);
    assert!(s.contains('→'), "no anchor must keep →: {s}");
    assert!(s.trim_start().starts_with("10.1.0.1"));
    assert!(s.ends_with("10.1.0.2"));
    // Both local (loopback): raw arrow too.
    let local_lo = vec![ip("127.0.0.1")];
    let s = dir_flow(ip("127.0.0.1"), ip("127.0.0.1"), "127.0.0.1", "127.0.0.1", &local_lo, 9);
    assert!(s.contains('→'), "loopback must fall back to raw: {s}");
}

#[test]
fn swim_row_paints_bars_and_arrows() {
    let right = swim_row(2, 0, 1, "INVITE", 40);
    assert!(right.contains('|'), "{right}");
    assert!(right.contains("-- INVITE ->"), "{right}");
    // Centered: leading/trailing spaces around the glyph inside the bars.
    let inner = right.trim_matches(|c| c == '|' || c == ' ');
    assert_eq!(inner, "-- INVITE ->", "{right}");
    let left = swim_row(2, 1, 0, "100", 40);
    assert!(left.contains("<- 100 --"), "{left}");
}

#[test]
fn masked_where_privacy_is_on() {
    assert_eq!(display_user(&Some("13812345678".into()), true, "-"), "138…5678");
    assert_eq!(display_user(&Some("bob".into()), false, "-"), "bob");
    assert_eq!(display_user(&None, true, "-"), "-");
    assert_eq!(display_socket(sock("10.20.0.8:5060"), true), "10.*.*.8:5060");
    let f = Flow5Tuple {
        proto: Proto::Udp,
        src: sock("10.10.0.8:20014"),
        dst: sock("10.20.0.8:30014"),
    };
    let s = flow_ip(Some(f), true, &Vec::new(), 9);
    assert!(s.contains("10.*.*.8") && !s.contains("10.10.0.8"), "{s}");
}

#[test]
fn timeline_phases() {
    let t = CallTimes {
        invite_ts: Some(1_000_000),
        trying_ts: Some(1_050_000),
        ringing_ts: Some(1_100_000),
        answer_ts: Some(1_500_000),
        bye_ts: Some(11_000_000),
        end_ts: None,
    };
    let p = t.phases();
    assert!(p.contains(&Phase::Ring(1_100_000, 1_500_000)), "{p:?}");
    assert!(p.contains(&Phase::Setup(1_000_000, 1_500_000)), "{p:?}");
    assert!(p.contains(&Phase::Talk(1_500_000, 11_000_000)), "{p:?}");
    assert!(p.contains(&Phase::Total(1_000_000, 11_000_000)), "{p:?}");
}

#[test]
fn streams_split_by_sender() {
    let mut a = StreamSummary { ssrc: 1, ..StreamSummary::default() };
    a.flow = Some(Flow5Tuple { proto: Proto::Udp, src: sock("1.1.1.1:10"), dst: sock("2.2.2.2:20") });
    let mut b = StreamSummary { ssrc: 2, ..StreamSummary::default() };
    b.flow = Some(Flow5Tuple { proto: Proto::Udp, src: sock("2.2.2.2:20"), dst: sock("1.1.1.1:10") });
    assert_eq!(tx_streams(&vec![a, b], Some(ip("1.1.1.1"))), vec![true, false]);
}

// ----------------------------- keys -----------------------------

fn call(id: &str, user: &str) -> CallSummary {
    CallSummary {
        call_id: id.into(),
        from_user: Some(user.into()),
        to_user: Some("x".into()),
        caller_ip: None,
        state: CallState::Completed,
        outcome: Outcome::Answered,
        invite_ts: Some(1_000_000),
        duration_ms: Some(1_000),
        pdd_ms: None,
        setup_ms: None,
        ring_ms: None,
        ring_code: None,
        early_media: false,
        hangup_by: None,
        hangup_code: None,
        pkts_sip: 1,
        pkts_rtp: 0,
        best_mos: None,
        warn_count: 0,
        critical_count: 0,
        stream_count: 0,
        via_turn: false,
        ips: vec![ip("10.0.0.1")],
    }
}

fn three_calls() -> Vec<CallSummary> {
    vec![call("call-alice", "alice"), call("call-bob", "bob"), call("call-bobby", "bobby")]
}

fn press(a: &mut App, calls: &Vec<CallSummary>, key: Key) {
    let seen = Seen { calls, focus: &None, messages: 0, streams: 0, sip_rows: 0, ips: 0 };
    a.on_key(&seen, key, false);
}

#[test]
fn tab_cycles_all_six_pages_including_call_detail() {
    let none = Vec::new();
    let mut a = App::new();
    // From Call Detail, Tab advances to the next page (not the pane).
    a.page = Page::CallDetail;
    press(&mut a, &none, Key::Tab);
    assert_eq!(a.page, Page::Heatmap);
    // Shift-Tab goes back to the previous page.
    press(&mut a, &none, Key::BackTab);
    assert_eq!(a.page, Page::CallDetail);
    // A full wrap of 6 Tab presses lands back on the start page.
    a.page = Page::Overview;
    for _ in 0..PAGES {
        press(&mut a, &none, Key::Tab);
    }
    assert_eq!(a.page, Page::Overview);
}

#[test]
fn call_detail_l_opens_picker_and_unlinks() {
    let none = Vec::new();
    let mut a = App::new();
    a.page = Page::CallDetail;
    a.selected_call = Some("a".into());
    a.focus_pending = Some("a".into());
    press(&mut a, &none, Key::Char('l'));
    assert!(a.b_leg_picker, "l must open the b-leg picker");
    press(&mut a, &none, Key::Esc);
    assert!(!a.b_leg_picker, "Esc closes picker without leaving detail");
    assert_eq!(a.page, Page::CallDetail);

    a.linked_call_id = Some("b".into());
    press(&mut a, &none, Key::Char('L'));
    assert!(a.linked_call_id.is_none(), "L unlinks the b-leg");
    let hint = a.focus_hint.as_ref().unwrap();
    assert_eq!(hint.primary, "a", "unlinking republishes primary-only focus");
    assert_eq!(hint.linked, None);
}

#[test]
fn filter_edit_mode_navigates_and_enter_commits() {
    let calls = three_calls();
    let mut a = App::new();
    // `/` jumps to Overview and enters edit mode with row 0 preselected.
    a.page = Page::IpStats;
    press(&mut a, &calls, Key::Char('/'));
    assert_eq!(a.page, Page::Overview);
    assert!(a.filter_editing);
    assert_eq!(a.table_state, Some(0), "row 0 preselected");
    // Typing filters live; the arrows move the selection without leaving edit mode.
    for c in "bob".chars() {
        press(&mut a, &calls, Key::Char(c));
    }
    assert!(a.filter_editing);
    press(&mut a, &calls, Key::Down);
    assert!(a.filter_editing, "arrows stay in edit mode");
    // Enter commits the filter (no page change), then opens the selected call on a
    // second Enter.
    press(&mut a, &calls, Key::Enter);
    assert!(!a.filter_editing);
    assert_eq!(a.page, Page::Overview);
    press(&mut a, &calls, Key::Enter);
    assert_eq!(a.page, Page::CallDetail);
    assert_eq!(
        a.selected_call.as_deref(),
        Some("call-bobby"),
        "Enter must open the highlighted row, not the first match"
    );
}

#[test]
fn filter_esc_rolls_back_and_c_clears() {
    let calls = three_calls();
    let mut a = App::new();
    a.filter_query = "caller:alice".into();
    press(&mut a, &calls, Key::Char('/'));
    for c in "caller:zzz".chars() {
        press(&mut a, &calls, Key::Char(c));
    }
    // Esc restores the query from before the edit.
    press(&mut a, &calls, Key::Esc);
    assert_eq!(a.filter_query, "caller:alice", "Esc must roll back");
    // `c` on Overview clears the filter in one keystroke.
    press(&mut a, &calls, Key::Char('c'));
    assert!(a.filter_query.is_empty());
    assert!(a.search_pin.is_none(), "cleared filter must drop the pin");
    // `c` with no filter is a harmless no-op.
    press(&mut a, &calls, Key::Char('c'));
    assert!(a.filter_query.is_empty());
}

#[test]
fn filter_selection_clamps_when_query_shrinks_results() {
    let calls = three_calls();
    let mut a = App::new();
    press(&mut a, &calls, Key::Char('/'));
    for c in "999".chars() {
        press(&mut a, &calls, Key::Char(c));
    }
    assert_eq!(a.table_state, None, "no results: no selection");
    // Removing the query restores a valid selection.
    press(&mut a, &calls, Key::Backspace);
    press(&mut a, &calls, Key::Backspace);
    press(&mut a, &calls, Key::Backspace);
    assert_eq!(a.table_state, Some(0));
}

#[test]
fn page_up_down_scrolls_lists() {
    let none = Vec::new();
    let mut a = App::new();
    a.page = Page::EventLog;
    press(&mut a, &none, Key::PageDown);
    assert_eq!(a.eventlog_scroll, PAGE_ROWS);
    press(&mut a, &none, Key::PageUp);
    assert_eq!(a.eventlog_scroll, 0);

    // Call Detail raw pane: jump a page of lines, not one.
    a.page = Page::CallDetail;
    press(&mut a, &none, Key::PageDown);
    assert_eq!(a.raw_scroll, PAGE_ROWS as usize);
    press(&mut a, &none, Key::PageUp);
    assert_eq!(a.raw_scroll, 0);

    // IP Stats: PageDown selects a row (empty list stays unselected).
    a.page = Page::IpStats;
    press(&mut a, &none, Key::PageDown);
    assert_eq!(a.ip_table_state, None);
}

#[test]
fn selection_follows_its_call() {
    let mut calls = three_calls();
    let mut a = App::new();
    a.selected_call = Some("call-bob".into());
    a.table_state = Some(1);
    calls.insert(0, call("call-new", "new"));
    let seen = Seen { calls: &calls, focus: &None, messages: 0, streams: 0, sip_rows: 0, ips: 0 };
    a.anchor_overview_selection(&seen);
    assert_eq!(a.table_state, Some(2));
    assert_eq!(a.filtered_calls(&seen), vec![0, 1, 2, 3]);
}

#[test]
fn keys_that_leave() {
    let none = Vec::new();
    let mut a = App::new();
    press(&mut a, &none, Key::Char(' '));
    assert!(a.paused);
    press(&mut a, &none, Key::Char('q'));
    assert!(a.should_quit);
    let mut sel = None;
    table_nudge(&mut sel, Key::Down, 3);
    assert_eq!(sel, Some(0));
    table_nudge(&mut sel, Key::PageDown, 3);
    assert_eq!(sel, Some(2));
    table_nudge(&mut sel, Key::Up, 3);
    assert_eq!(sel, Some(1));
    assert!(Key::PageUp.is_nav() && !Key::Enter.is_nav());
}

#[test]
fn rows_for_a_screen() {
    let calls = three_calls();
    assert_eq!(b_leg_candidates(&calls, "call-bob", ""), vec![0, 2]);
    assert_eq!(b_leg_candidates(&calls, "call-bob", "caller:bob"), vec![2]);
    assert_eq!(calls_for_ip(&calls, ip("10.0.0.1")), vec![0, 1, 2]);
    assert!(calls_for_ip(&calls, ip("10.0.0.2")).is_empty());
    assert!(list_calls(&calls, CallFilter::Active, &Vec::new()).is_empty());
    assert_eq!(CallFilter::All.next().label(), CallFilter::Dialing.label());
    assert!(page_keys(Page::Overview).contains("open call detail"));
}

// ----------------------------- orders -----------------------------

#[test]
fn ip_rows_by_loss_and_by_age() {
    let mut st = IpStatsStore::new();
    st.observe_packet(ip("10.0.0.1"), 1_000_000, 100);
    st.observe_packet(ip("10.0.0.2"), 3_000_000, 100);
    st.observe_packet(ip("10.0.0.3"), 2_000_000, 100);
    let rows = st.snapshot();
    let losses = vec![Some(num(5.0)), None, Some(num(10.0))];
    assert_eq!(sorted_rows(&rows, &losses, IpSort::Newest), vec![1, 2, 0]);
    let max = sorted_rows(&rows, &losses, IpSort::MaxLoss);
    assert_eq!(max[0], 2);
    assert_eq!(max[1], 0);
}

#[test]
fn sip_rows_by_invites() {
    let mut st = SipStatsStore::new();
    for (a, n) in [("10.0.0.1", 1), ("10.0.0.2", 3)] {
        for i in 0..n {
            st.observe(&SipObs {
                ip: ip(a),
                ts_us: 60_000_000 + i,
                is_request: true,
                method: Some(Method::Invite),
                status: None,
                answer_for_ip: None,
                initial_invite: true,
            });
        }
    }
    let rows = st.snapshot();
    // Busiest first, behind the row for all.
    let asrs = vec![None, Some(num(50.0)), Some(num(0.0))];
    let order: Vec<_> =
        ordered_rows(&rows, &asrs, SipSort::Invites).into_iter().map(|i| rows[i].ip).collect();
    assert_eq!(order, vec![Some(ip("10.0.0.2")), Some(ip("10.0.0.1"))]);
    let order = ordered_rows(&rows, &asrs, SipSort::Asr);
    assert_eq!(rows[order[0]].ip, Some(ip("10.0.0.1")));
}

#[test]
fn heat_columns_and_ends() {
    assert_eq!(heat_grid(&vec![0, 60, 180], 0, 60, 4), vec![None, Some(1), None, Some(2)]);
    assert_eq!(loss_column_secs(0), 1);
    assert_eq!(loss_column_secs(120), 2);
    assert_eq!(loss_column_secs(3600), 60);
    assert_eq!(fmt_end(Some(HangupBy::Reject), Some(486)), format!("{}·486", HangupBy::Reject.label()));
    assert_eq!(fmt_end(None, None), "-");
}

#[test]
fn messages_have_their_colours() {
    let mut m = mk_msg(1, "1.1.1.1:5060", "2.2.2.2:5060", "f");
    m.is_request = true;
    m.method = Some(Method::Invite);
    assert_eq!(msg_ink(&m), Ink::Success);
    m.method = Some(Method::Cancel);
    assert_eq!(msg_ink(&m), Ink::Error);
    m.method = Some(Method::Options);
    assert_eq!(msg_ink(&m), Ink::Info);
    m.is_request = false;
    for (status, ink) in [
        (Some(180), Ink::Warning),
        (Some(200), Ink::Success),
        (Some(299), Ink::Success),
        (Some(300), Ink::Error),
        (Some(603), Ink::Error),
        (None, Ink::Warning),
    ] {
        m.status = status;
        assert_eq!(msg_ink(&m), ink);
    }
}

#[test]
fn mask_raw_masks_bare_ipv6() {
    for (raw, masked) in [
        ("c=IN IP6 2001:db8::1", "c=IN IP6 2001:…:1"),
        ("o=- 1 1 IN IP6 fe80::2/64", "o=- 1 1 IN IP6 fe80:…:2/64"),
        ("Via: SIP/2.0/UDP x;received=2001:db8::7;rport", "Via: SIP/2.0/UDP x;received=2001:…:7;rport"),
        ("X-Peer:2001:db8::9.", "X-Peer:2001:…:9."),
        ("c=IN IP4 10.1.2.3", "c=IN IP4 10.*.*.3"),
        ("Date: Mon, 12:34:56 GMT", "Date: Mon, 12:34:56 GMT"),
        ("a=fingerprint:sha-1 AA:BB:CC:DD:EE:FF:00:11:22:33", "a=fingerprint:sha-1 AA:BB:CC:DD:EE:FF:00:11:22:33"),
        ("std::fs::read", "std::fs::read"),
    ] {
        assert_eq!(mask_raw(raw), masked);
    }
}
