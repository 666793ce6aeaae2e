//! Snapshots of the state for display and export.
use crate::correlate::stream::StreamView;
use crate::diagnostics;
use crate::diagnostics::{DiagView, Diagnostic};
use crate::model::addr::{IpAddr, SocketAddr};
use crate::model::addr_text;
use crate::model::addr_text::ip_from_str;
use crate::model::media;
use crate::model::media::{StreamSummary, SummaryView};
use crate::model::sip;
use crate::model::sip::{B2buaInfo, Call, CallState, CallView, HangupBy, MsgView, Outcome, SipMsg};
use crate::model::stats::Real64;
use crate::store::dialog;
use crate::store::dialog::{common_flow_ip, dialog_legs, sip_header};
use crate::store::ipstats::IpStats;
use crate::store::registry;
use crate::store::registry::{RegView, Registry};
use crate::store::sipstats;
use crate::text;
use crate::text::{clone_opt, copy_texts, str_eq};
use vstd::prelude::*;

verus! {

/// Messages shown of the call in focus.
pub const FOCUS_MESSAGES: usize = 1000;

// ----------------------------- call summaries -----------------------------

/// One row of the call list.
#[derive(Debug, Clone)]
pub struct CallSummary {
    pub call_id: String,
    pub from_user: Option<String>,
    pub to_user: Option<String>,
    /// Source IP of the initial INVITE (the caller side).
    pub caller_ip: Option<IpAddr>,
    pub state: CallState,
    pub outcome: Outcome,
    pub invite_ts: Option<u64>,
    pub duration_ms: Option<u64>,
    pub pdd_ms: Option<u32>,
    pub setup_ms: Option<u32>,
    /// Ringing duration (ring to answer).
    pub ring_ms: Option<u32>,
    /// Provisional code that started ringing: 180 or 183.
    pub ring_code: Option<u16>,
    /// True if early media (183 with SDP) was negotiated.
    pub early_media: bool,
    /// Who initiated the hangup.
    pub hangup_by: Option<HangupBy>,
    pub hangup_code: Option<u32>,
    pub pkts_sip: u64,
    pub pkts_rtp: u64,
    pub best_mos: Option<Real64>,
    pub warn_count: u32,
    pub critical_count: u32,
    pub stream_count: usize,
    /// True if the call's media traversed a learned TURN relay.
    pub via_turn: bool,
    /// Distinct IPs involved in the call.
    pub ips: Vec<IpAddr>,
}

/// A row of the call list by its contents.
pub struct RowView {
    pub call_id: Seq<char>,
    pub from_user: Option<Seq<char>>,
    pub to_user: Option<Seq<char>>,
    pub caller_ip: Option<IpAddr>,
    pub state: CallState,
    pub outcome: Outcome,
    pub invite_ts: Option<u64>,
    pub duration_ms: Option<u64>,
    pub pdd_ms: Option<u32>,
    pub setup_ms: Option<u32>,
    pub ring_ms: Option<u32>,
    pub ring_code: Option<u16>,
    pub early_media: bool,
    pub hangup_by: Option<HangupBy>,
    pub hangup_code: Option<u32>,
    pub pkts_sip: u64,
    pub pkts_rtp: u64,
    pub best_mos: Option<Real64>,
    pub warn_count: u32,
    pub critical_count: u32,
    pub stream_count: nat,
    pub via_turn: bool,
    pub ips: Seq<IpAddr>,
}

impl View for CallSummary {
    type V = RowView;

    open spec fn view(&self) -> RowView {
        RowView {
            call_id: self.call_id@,
            from_user: text::opt_text(self.from_user),
            to_user: text::opt_text(self.to_user),
            caller_ip: self.caller_ip,
            state: self.state,
            outcome: self.outcome,
            invite_ts: self.invite_ts,
            duration_ms: self.duration_ms,
            pdd_ms: self.pdd_ms,
            setup_ms: self.setup_ms,
            ring_ms: self.ring_ms,
            ring_code: self.ring_code,
            early_media: self.early_media,
            hangup_by: self.hangup_by,
            hangup_code: self.hangup_code,
            pkts_sip: self.pkts_sip,
            pkts_rtp: self.pkts_rtp,
            best_mos: self.best_mos,
            warn_count: self.warn_count,
            critical_count: self.critical_count,
            stream_count: self.stream_count as nat,
            via_turn: self.via_turn,
            ips: self.ips@,
        }
    }
}

pub open spec fn row_views(v: Seq<CallSummary>) -> Seq<RowView> {
    v.map_values(|s: CallSummary| s@)
}

/// The summaries of a call's own streams, among the first `n`.
pub open spec fn live_of(
    streams: Seq<StreamView>,
    live: Seq<SummaryView>,
    id: Seq<char>,
    n: int,
) -> Seq<SummaryView>
    decreases n,
{
    if n <= 0 {
        Seq::empty()
    } else {
        let s = live_of(streams, live, id, n - 1);
        if streams[n - 1].call_id == id {
            s.push(live[n - 1])
        } else {
            s
        }
    }
}

/// The imported summaries of a call, among the first `n`.
pub open spec fn imported_of(v: Seq<SummaryView>, id: Seq<char>, n: int) -> Seq<SummaryView>
    decreases n,
{
    if n <= 0 || id.len() == 0 {
        Seq::empty()
    } else {
        let s = imported_of(v, id, n - 1);
        if v[n - 1].call_id == Some(id) {
            s.push(v[n - 1])
        } else {
            s
        }
    }
}

/// All streams of a call: those that are observed, then the imported ones.
pub open spec fn streams_of(r: RegView, live: Seq<SummaryView>, id: Seq<char>) -> Seq<SummaryView> {
    live_of(r.streams, live, id, r.streams.len() as int) + imported_of(
        r.imported_streams,
        id,
        r.imported_streams.len() as int,
    )
}

pub open spec fn worse(a: Option<Real64>, b: Option<Real64>) -> Option<Real64> {
    match (a, b) {
        (Some(x), Some(y)) => Some(x.spec_lesser(y)),
        (Some(x), None) => Some(x),
        (None, b) => b,
    }
}

/// The worst MOS of the first `n` streams.
pub open spec fn worst_mos(v: Seq<SummaryView>, n: int) -> Option<Real64>
    decreases n,
{
    if n <= 0 {
        None
    } else {
        worse(worst_mos(v, n - 1), v[n - 1].mos)
    }
}

/// The packets of the first `n` streams.
pub open spec fn packet_sum(v: Seq<SummaryView>, n: int) -> nat
    decreases n,
{
    if n <= 0 {
        0
    } else {
        packet_sum(v, n - 1) + v[n - 1].packets as nat
    }
}

/// A count, as far as it can go.
pub open spec fn capped(n: int) -> u64 {
    if n <= u64::MAX {
        n as u64
    } else {
        u64::MAX
    }
}

pub open spec fn imported_packets(r: RegView, id: Seq<char>) -> nat {
    let v = imported_of(r.imported_streams, id, r.imported_streams.len() as int);
    packet_sum(v, v.len() as int)
}

pub open spec fn caller_ip_of(c: CallView) -> Option<IpAddr> {
    match c.invite_key {
        Some(k) => addr_text::ip_of(k),
        None => None,
    }
}

/// The row of a call. `live` holds the summary of each observed stream.
pub open spec fn row_of(r: RegView, live: Seq<SummaryView>, c: CallView) -> RowView {
    let all = streams_of(r, live, c.call_id);
    RowView {
        call_id: c.call_id,
        from_user: c.from_user,
        to_user: c.to_user,
        caller_ip: caller_ip_of(c),
        state: c.state,
        outcome: c.outcome,
        invite_ts: c.invite_ts,
        duration_ms: sip::ms_between(c.invite_ts, c.ended()),
        pdd_ms: c.pdd_ms,
        setup_ms: c.setup_ms,
        ring_ms: c.ring_ms,
        ring_code: c.ring_code,
        early_media: c.early_media,
        hangup_by: c.hangup_by,
        hangup_code: c.hangup.code,
        pkts_sip: c.pkts_sip,
        pkts_rtp: capped(c.pkts_rtp + imported_packets(r, c.call_id)),
        best_mos: worst_mos(all, all.len() as int),
        warn_count: c.warn_count,
        critical_count: c.critical_count,
        stream_count: all.len(),
        via_turn: c.via_turn,
        ips: c.ips,
    }
}

/// The row of each call can count its streams.
pub open spec fn rows_fit(r: RegView) -> bool {
    r.streams.len() + r.imported_streams.len() <= usize::MAX
}

pub fn copy_ips(v: &Vec<IpAddr>) -> (r: Vec<IpAddr>)
    ensures
        r@ == v@,
{
    let mut out: Vec<IpAddr> = Vec::new();
    let mut i: usize = 0;
    while i < v.len()
        invariant
            i <= v.len(),
            out@ == v@.take(i as int),
        decreases v.len() - i,
    {
        out.push(v[i]);
        i += 1;
        assert(out@ =~= v@.take(i as int));
    }
    assert(out@ =~= v@);
    out
}

fn worse_of(a: Option<Real64>, b: Option<Real64>) -> (r: Option<Real64>)
    ensures
        r == worse(a, b),
{
    match (a, b) {
        (Some(x), Some(y)) => Some(x.lesser(y)),
        (Some(x), None) => Some(x),
        (None, b) => b,
    }
}

proof fn lemma_worst_mos_concat(a: Seq<SummaryView>, b: Seq<SummaryView>, n: int)
    requires
        0 <= n <= a.len(),
    ensures
        worst_mos(a + b, n) == worst_mos(a, n),
    decreases n,
{
    if n > 0 {
        lemma_worst_mos_concat(a, b, n - 1);
    }
}

proof fn lemma_packet_sum_prefix(a: Seq<SummaryView>, b: Seq<SummaryView>, n: int)
    requires
        0 <= n <= a.len(),
        a.len() <= b.len(),
        forall|k: int| 0 <= k < a.len() ==> #[trigger] a[k] == b[k],
    ensures
        packet_sum(a, n) == packet_sum(b, n),
    decreases n,
{
    if n > 0 {
        lemma_packet_sum_prefix(a, b, n - 1);
    }
}

/// What comes later only adds to the imported summaries of a call.
proof fn lemma_imported_prefix(v: Seq<SummaryView>, id: Seq<char>, m: int, n: int)
    requires
        0 <= m <= n,
    ensures
        imported_of(v, id, m).len() <= imported_of(v, id, n).len() <= n,
        forall|k: int|
            0 <= k < imported_of(v, id, m).len() ==> #[trigger] imported_of(v, id, m)[k]
                == imported_of(v, id, n)[k],
    decreases n,
{
    if m < n {
        lemma_imported_prefix(v, id, m, n - 1);
    } else if n > 0 {
        lemma_imported_prefix(v, id, m - 1, n - 1);
    }
}

proof fn lemma_live_len(streams: Seq<StreamView>, live: Seq<SummaryView>, id: Seq<char>, n: int)
    requires
        0 <= n,
    ensures
        live_of(streams, live, id, n).len() <= n,
    decreases n,
{
    if n > 0 {
        lemma_live_len(streams, live, id, n - 1);
    }
}

impl Registry {
    /// Streams, worst MOS and imported packets of a call.
    fn stream_totals(&self, live: &Vec<StreamSummary>, id: &str) -> (r: (
        usize,
        Option<Real64>,
        u64,
    ))
        requires
            live@.len() == self.streams@.len(),
            self@.streams.len() + self@.imported_streams.len() <= usize::MAX,
        ensures
            r.0 == streams_of(self@, media::summary_views(live@), id@).len(),
            r.1 == worst_mos(
                streams_of(self@, media::summary_views(live@), id@),
                streams_of(self@, media::summary_views(live@), id@).len() as int,
            ),
            r.2 == capped(imported_packets(self@, id@) as int),
    {
        let ghost lv = media::summary_views(live@);
        let ghost sv = self@.streams;
        let ghost iv = self@.imported_streams;
        let mut count: usize = 0;
        let mut mos: Option<Real64> = None;
        let mut i: usize = 0;
        while i < self.streams.len()
            invariant
                i <= self.streams.len(),
                live@.len() == self.streams@.len(),
                lv == media::summary_views(live@),
                sv == self@.streams,
                count == live_of(sv, lv, id@, i as int).len(),
                count <= i,
                mos == worst_mos(live_of(sv, lv, id@, i as int), count as int),
            decreases self.streams.len() - i,
        {
            assert(sv[i as int] == self.streams@[i as int]@);
            assert(lv[i as int] == live@[i as int]@);
            if str_eq(self.streams[i].call_id.as_str(), id) {
                proof {
                    let before = live_of(sv, lv, id@, i as int);
                    lemma_worst_mos_concat(before, seq![lv[i as int]], count as int);
                    assert(before + seq![lv[i as int]] =~= before.push(lv[i as int]));
                }
                mos = worse_of(mos, live[i].mos);
                count += 1;
            }
            i += 1;
        }
        let ghost own = live_of(sv, lv, id@, sv.len() as int);
        let mut packets: u64 = 0;
        if str_eq(id, "") {
            proof {
                reveal_strlit("");
                assert(own + Seq::<SummaryView>::empty() =~= own);
            }
            return (count, mos, packets);
        }
        proof {
            reveal_strlit("");
            if id@.len() == 0 {
                assert(id@ =~= ""@);
            }
            assert(own + imported_of(iv, id@, 0) =~= own);
        }
        let mut j: usize = 0;
        while j < self.imported_streams.len()
            invariant
                j <= self.imported_streams.len(),
                iv == self@.imported_streams,
                id@.len() > 0,
                own.len() <= self.streams@.len(),
                self.streams@.len() + self.imported_streams@.len() <= usize::MAX,
                count == own.len() + imported_of(iv, id@, j as int).len(),
                mos == worst_mos(own + imported_of(iv, id@, j as int), count as int),
                packets == capped(
                    packet_sum(
                        imported_of(iv, id@, j as int),
                        imported_of(iv, id@, j as int).len() as int,
                    ) as int,
                ),
            decreases self.imported_streams.len() - j,
        {
            assert(iv[j as int] == self.imported_streams@[j as int]@);
            let mine: bool = match &self.imported_streams[j].call_id {
                Some(c) => str_eq(c.as_str(), id),
                None => false,
            };
            proof {
                lemma_imported_prefix(iv, id@, j as int, iv.len() as int);
                lemma_imported_prefix(iv, id@, j + 1, iv.len() as int);
                lemma_imported_prefix(iv, id@, j as int, j as int);
            }
            if mine {
                proof {
                    let before = imported_of(iv, id@, j as int);
                    let after = imported_of(iv, id@, j + 1);
                    lemma_worst_mos_concat(own + before, seq![iv[j as int]], count as int);
                    assert((own + before) + seq![iv[j as int]] =~= own + after);
                    lemma_packet_sum_prefix(before, after, before.len() as int);
                }
                mos = worse_of(mos, self.imported_streams[j].mos);
                count += 1;
                packets = packets.saturating_add(self.imported_streams[j].packets);
            }
            j += 1;
        }
        (count, mos, packets)
    }

    /// The row of a call in the call list.
    pub fn summarize(&self, c: &Call, live: &Vec<StreamSummary>) -> (r: CallSummary)
        requires
            live@.len() == self.streams@.len(),
            self@.streams.len() + self@.imported_streams.len() <= usize::MAX,
        ensures
            r@ == row_of(self@, media::summary_views(live@), c@),
    {
        let (stream_count, best_mos, packets) = self.stream_totals(live, c.call_id.as_str());
        let caller_ip = match &c.invite_key {
            Some(k) => ip_from_str(k.as_str()),
            None => None,
        };
        CallSummary {
            call_id: c.call_id.clone(),
            from_user: clone_opt(&c.from_user),
            to_user: clone_opt(&c.to_user),
            caller_ip,
            state: c.state,
            outcome: c.outcome,
            invite_ts: c.invite_ts,
            duration_ms: c.duration_ms(),
            pdd_ms: c.pdd_ms,
            setup_ms: c.setup_ms,
            ring_ms: c.ring_ms,
            ring_code: c.ring_code,
            early_media: c.early_media,
            hangup_by: c.hangup_by,
            hangup_code: c.hangup.code,
            pkts_sip: c.pkts_sip,
            pkts_rtp: c.pkts_rtp.saturating_add(packets),
            best_mos,
            warn_count: c.warn_count,
            critical_count: c.critical_count,
            stream_count,
            via_turn: c.via_turn,
            ips: copy_ips(&c.ips),
        }
    }
}

// ----------------------------- the call in focus -----------------------------

/// Detail of one call.
#[derive(Debug, Clone)]
pub struct Focus {
    pub call_id: String,
    pub state: CallState,
    pub from_user: Option<String>,
    pub to_user: Option<String>,
    /// Caller-side UA string (User-Agent of the initial INVITE).
    pub caller_ua: Option<String>,
    /// Callee-side UA string (Server/User-Agent of the first response).
    pub callee_ua: Option<String>,
    /// Caller signaling address (src of the initial INVITE).
    pub caller_addr: Option<SocketAddr>,
    /// Caller signaling IP; survives message trimming.
    pub caller_ip: Option<IpAddr>,
    /// Callee signaling address (src of the first response).
    pub callee_addr: Option<SocketAddr>,
    pub messages: Vec<SipMsg>,
    /// Dialog (leg) index per message, parallel to `messages`.
    pub legs: Vec<u8>,
    /// Evidence of two dialogs within this Call-ID.
    pub b2bua: Option<B2buaInfo>,
    pub streams: Vec<StreamSummary>,
    pub diagnostics: Vec<Diagnostic>,
    pub negotiated_endpoints: Vec<SocketAddr>,
    pub pdd_ms: Option<u32>,
    pub setup_ms: Option<u32>,
    pub ring_ms: Option<u32>,
    pub early_media: bool,
    pub invite_ts: Option<u64>,
    pub trying_ts: Option<u64>,
    pub ringing_ts: Option<u64>,
    pub answer_ts: Option<u64>,
    pub bye_ts: Option<u64>,
    pub end_ts: Option<u64>,
    pub hangup_by: Option<HangupBy>,
    pub hangup_code: Option<u32>,
    pub hangup_reason: Option<String>,
}

/// The detail of a call by its contents.
pub struct FocusView {
    pub call_id: Seq<char>,
    pub state: CallState,
    pub from_user: Option<Seq<char>>,
    pub to_user: Option<Seq<char>>,
    pub caller_ua: Option<Seq<char>>,
    pub callee_ua: Option<Seq<char>>,
    pub caller_addr: Option<SocketAddr>,
    pub caller_ip: Option<IpAddr>,
    pub callee_addr: Option<SocketAddr>,
    pub messages: Seq<MsgView>,
    pub legs: Seq<u8>,
    pub b2bua: Option<B2buaInfo>,
    pub streams: Seq<SummaryView>,
    pub diagnostics: Seq<DiagView>,
    pub negotiated_endpoints: Seq<SocketAddr>,
    pub pdd_ms: Option<u32>,
    pub setup_ms: Option<u32>,
    pub ring_ms: Option<u32>,
    pub early_media: bool,
    pub invite_ts: Option<u64>,
    pub trying_ts: Option<u64>,
    pub ringing_ts: Option<u64>,
    pub answer_ts: Option<u64>,
    pub bye_ts: Option<u64>,
    pub end_ts: Option<u64>,
    pub hangup_by: Option<HangupBy>,
    pub hangup_code: Option<u32>,
    pub hangup_reason: Option<Seq<char>>,
}

impl View for Focus {
    type V = FocusView;

    open spec fn view(&self) -> FocusView {
        FocusView {
            call_id: self.call_id@,
            state: self.state,
            from_user: text::opt_text(self.from_user),
            to_user: text::opt_text(self.to_user),
            caller_ua: text::opt_text(self.caller_ua),
            callee_ua: text::opt_text(self.callee_ua),
            caller_addr: self.caller_addr,
            caller_ip: self.caller_ip,
            callee_addr: self.callee_addr,
            messages: sip::msg_views(self.messages@),
            legs: self.legs@,
            b2bua: self.b2bua,
            streams: media::summary_views(self.streams@),
            diagnostics: diagnostics::diag_views(self.diagnostics@),
            negotiated_endpoints: self.negotiated_endpoints@,
            pdd_ms: self.pdd_ms,
            setup_ms: self.setup_ms,
            ring_ms: self.ring_ms,
            early_media: self.early_media,
            invite_ts: self.invite_ts,
            trying_ts: self.trying_ts,
            ringing_ts: self.ringing_ts,
            answer_ts: self.answer_ts,
            bye_ts: self.bye_ts,
            end_ts: self.end_ts,
            hangup_by: self.hangup_by,
            hangup_code: self.hangup_code,
            hangup_reason: text::opt_text(self.hangup_reason),
        }
    }
}

/// The first initial INVITE, or the first response, from `i` on.
pub open spec fn first_msg(msgs: Seq<MsgView>, invite: bool, i: int) -> Option<MsgView>
    decreases msgs.len() - i,
{
    if i >= msgs.len() {
        None
    } else if (invite && msgs[i].is_initial_invite()) || (!invite && !msgs[i].is_request) {
        Some(msgs[i])
    } else {
        first_msg(msgs, invite, i + 1)
    }
}

/// The diagnostics of a call, among the first `n`.
pub open spec fn diags_of(v: Seq<DiagView>, id: Seq<char>, n: int) -> Seq<DiagView>
    decreases n,
{
    if n <= 0 {
        Seq::empty()
    } else {
        let s = diags_of(v, id, n - 1);
        if v[n - 1].call_id == id {
            s.push(v[n - 1])
        } else {
            s
        }
    }
}

pub open spec fn header_of(m: Option<MsgView>, name: Seq<char>) -> Option<Seq<char>> {
    match m {
        Some(m) => dialog::header_in(m.raw, name),
        None => None,
    }
}

pub open spec fn source_of(m: Option<MsgView>) -> Option<SocketAddr> {
    match m {
        Some(m) => Some(m.flow.src),
        None => None,
    }
}

/// The detail of a call.
pub open spec fn detail_of(r: RegView, live: Seq<SummaryView>, c: CallView) -> FocusView {
    let msgs = registry::last_n(c.messages, FOCUS_MESSAGES as int);
    let invite = first_msg(msgs, true, 0);
    let response = first_msg(msgs, false, 0);
    let legs = dialog::legs_of(msgs, msgs.len() as int);
    let n = dialog::leg_count(msgs);
    FocusView {
        call_id: c.call_id,
        state: c.state,
        from_user: c.from_user,
        to_user: c.to_user,
        caller_ua: header_of(invite, "User-Agent"@),
        callee_ua: if header_of(response, "Server"@) is Some {
            header_of(response, "Server"@)
        } else {
            header_of(response, "User-Agent"@)
        },
        caller_addr: source_of(invite),
        caller_ip: match invite {
            Some(m) => Some(m.flow.src.ip),
            None => caller_ip_of(c),
        },
        callee_addr: source_of(response),
        messages: msgs,
        legs,
        b2bua: if n >= 2 {
            Some(B2buaInfo { addr: dialog::meeting_ip(msgs, legs), legs: n })
        } else {
            None
        },
        streams: streams_of(r, live, c.call_id),
        diagnostics: diags_of(r.diagnostics, c.call_id, r.diagnostics.len() as int),
        negotiated_endpoints: c.negotiated.endpoints,
        pdd_ms: c.pdd_ms,
        setup_ms: c.setup_ms,
        ring_ms: c.ring_ms,
        early_media: c.early_media,
        invite_ts: c.invite_ts,
        trying_ts: c.trying_ts,
        ringing_ts: c.ringing_ts,
        answer_ts: c.answer_ts,
        bye_ts: c.bye_ts,
        end_ts: c.end_ts,
        hangup_by: c.hangup_by,
        hangup_code: c.hangup.code,
        hangup_reason: c.hangup.reason,
    }
}

fn copy_last_msgs(v: &Vec<SipMsg>) -> (r: Vec<SipMsg>)
    ensures
        sip::msg_views(r@) == registry::last_n(sip::msg_views(v@), FOCUS_MESSAGES as int),
{
    let start: usize = if v.len() > FOCUS_MESSAGES {
        v.len() - FOCUS_MESSAGES
    } else {
        0
    };
    let ghost s = sip::msg_views(v@).skip(start as int);
    let mut out: Vec<SipMsg> = Vec::new();
    let mut i: usize = start;
    assert(sip::msg_views(out@) =~= s.take(0));
    while i < v.len()
        invariant
            start <= i <= v.len(),
            s == sip::msg_views(v@).skip(start as int),
            sip::msg_views(out@) == s.take(i - start),
        decreases v.len() - i,
    {
        let ghost before = out@;
        let m = v[i].copy();
        out.push(m);
        i += 1;
        assert(sip::msg_views(out@) =~= sip::msg_views(before).push(m@));
        assert(s.take(i - start) =~= s.take(i - 1 - start).push(m@));
    }
    assert(s.take(i - start) =~= s);
    assert(sip::msg_views(v@).skip(0) =~= sip::msg_views(v@));
    out
}

fn find_msg(msgs: &Vec<SipMsg>, invite: bool) -> (r: Option<usize>)
    ensures
        match first_msg(sip::msg_views(msgs@), invite, 0) {
            Some(m) => r is Some && r->Some_0 < msgs@.len() && msgs@[r->Some_0 as int]@ == m,
            None => r is None,
        },
{
    let ghost mv = sip::msg_views(msgs@);
    let mut i: usize = 0;
    while i < msgs.len()
        invariant
            i <= msgs.len(),
            mv == sip::msg_views(msgs@),
            first_msg(mv, invite, 0) == first_msg(mv, invite, i as int),
        decreases msgs.len() - i,
    {
        assert(mv[i as int] == msgs@[i as int]@);
        let hit: bool = if invite {
            msgs[i].is_initial_invite()
        } else {
            !msgs[i].is_request
        };
        if hit {
            return Some(i);
        }
        i += 1;
    }
    None
}

fn copy_endpoints(v: &Vec<SocketAddr>) -> (r: Vec<SocketAddr>)
    ensures
        r@ == v@,
{
    let mut out: Vec<SocketAddr> = Vec::new();
    let mut i: usize = 0;
    while i < v.len()
        invariant
            i <= v.len(),
            out@ == v@.take(i as int),
        decreases v.len() - i,
    {
        out.push(v[i]);
        i += 1;
        assert(out@ =~= v@.take(i as int));
    }
    assert(out@ =~= v@);
    out
}

impl Registry {
    fn call_streams(&self, live: &Vec<StreamSummary>, id: &str) -> (r: Vec<StreamSummary>)
        requires
            live@.len() == self.streams@.len(),
        ensures
            media::summary_views(r@) == streams_of(self@, media::summary_views(live@), id@),
    {
        let ghost lv = media::summary_views(live@);
        let ghost sv = self@.streams;
        let ghost iv = self@.imported_streams;
        let mut out: Vec<StreamSummary> = Vec::new();
        let mut i: usize = 0;
        assert(media::summary_views(out@) =~= Seq::<SummaryView>::empty());
        while i < self.streams.len()
            invariant
                i <= self.streams.len(),
                live@.len() == self.streams@.len(),
                lv == media::summary_views(live@),
                sv == self@.streams,
                media::summary_views(out@) == live_of(sv, lv, id@, i as int),
            decreases self.streams.len() - i,
        {
            assert(sv[i as int] == self.streams@[i as int]@);
            assert(lv[i as int] == live@[i as int]@);
            if str_eq(self.streams[i].call_id.as_str(), id) {
                let ghost before = out@;
                let s = live[i].copy();
                out.push(s);
                assert(media::summary_views(out@) =~= media::summary_views(before).push(s@));
            }
            i += 1;
        }
        let ghost own = live_of(sv, lv, id@, sv.len() as int);
        if str_eq(id, "") {
            proof {
                reveal_strlit("");
                assert(own + Seq::<SummaryView>::empty() =~= own);
            }
            return out;
        }
        proof {
            reveal_strlit("");
            if id@.len() == 0 {
                assert(id@ =~= ""@);
            }
            assert(own + imported_of(iv, id@, 0) =~= own);
        }
        let mut j: usize = 0;
        while j < self.imported_streams.len()
            invariant
                j <= self.imported_streams.len(),
                iv == self@.imported_streams,
                id@.len() > 0,
                media::summary_views(out@) == own + imported_of(iv, id@, j as int),
            decreases self.imported_streams.len() - j,
        {
            assert(iv[j as int] == self.imported_streams@[j as int]@);
            let mine: bool = match &self.imported_streams[j].call_id {
                Some(c) => str_eq(c.as_str(), id),
                None => false,
            };
            if mine {
                let ghost before = out@;
                let s = self.imported_streams[j].copy();
                out.push(s);
                assert(media::summary_views(out@) =~= media::summary_views(before).push(s@));
                assert(own + imported_of(iv, id@, j as int).push(s@) =~= (own + imported_of(
                    iv,
                    id@,
                    j as int,
                )).push(s@));
            }
            j += 1;
        }
        out
    }

    fn call_diagnostics(&self, id: &str) -> (r: Vec<Diagnostic>)
        ensures
            diagnostics::diag_views(r@) == diags_of(
                self@.diagnostics,
                id@,
                self@.diagnostics.len() as int,
            ),
    {
        let mut out: Vec<Diagnostic> = Vec::new();
        let mut i: usize = 0;
        assert(diagnostics::diag_views(out@) =~= Seq::<DiagView>::empty());
        while i < self.diagnostics.len()
            invariant
                i <= self.diagnostics.len(),
                diagnostics::diag_views(out@) == diags_of(self@.diagnostics, id@, i as int),
            decreases self.diagnostics.len() - i,
        {
            assert(self@.diagnostics[i as int] == self.diagnostics@[i as int]@);
            if str_eq(self.diagnostics[i].call_id.as_str(), id) {
                let ghost before = out@;
                let d = self.diagnostics[i].copy();
                out.push(d);
                assert(diagnostics::diag_views(out@) =~= diagnostics::diag_views(before).push(d@));
            }
            i += 1;
        }
        out
    }

    /// The detail of a call, if there is one of that ID.
    pub fn focus_detail(&self, call_id: &str, live: &Vec<StreamSummary>) -> (r: Option<Focus>)
        requires
            live@.len() == self.streams@.len(),
        ensures
            match registry::call_index(self@.calls, call_id@, 0) {
                Some(i) => r is Some && r->Some_0@ == detail_of(
                    self@,
                    media::summary_views(live@),
                    self@.calls[i],
                ),
                None => r is None,
            },
    {
        proof {
            registry::lemma_call_index(self@.calls, call_id@, 0);
        }
        let at: usize = match self.find_call(call_id) {
            Some(at) => at,
            None => return None,
        };
        let call = &self.calls[at];
        assert(self@.calls[at as int] == call@);
        let msgs = copy_last_msgs(&call.messages);
        let invite = find_msg(&msgs, true);
        let response = find_msg(&msgs, false);
        let caller_ua = match invite {
            Some(i) => sip_header(msgs[i].raw.as_slice(), "User-Agent"),
            None => None,
        };
        let callee_ua = match response {
            Some(i) => {
                let server = sip_header(msgs[i].raw.as_slice(), "Server");
                if server.is_some() {
                    server
                } else {
                    sip_header(msgs[i].raw.as_slice(), "User-Agent")
                }
            },
            None => None,
        };
        let caller_addr = match invite {
            Some(i) => Some(msgs[i].flow.src),
            None => None,
        };
        let callee_addr = match response {
            Some(i) => Some(msgs[i].flow.src),
            None => None,
        };
        let caller_ip = match invite {
            Some(i) => Some(msgs[i].flow.src.ip),
            None => match &call.invite_key {
                Some(k) => ip_from_str(k.as_str()),
                None => None,
            },
        };
        let (legs, n) = dialog_legs(&msgs);
        let b2bua = if n >= 2 {
            Some(B2buaInfo { addr: common_flow_ip(&msgs, &legs), legs: n })
        } else {
            None
        };
        Some(
            Focus {
                call_id: call.call_id.clone(),
                state: call.state,
                from_user: clone_opt(&call.from_user),
                to_user: clone_opt(&call.to_user),
                caller_ua,
                callee_ua,
                caller_addr,
                caller_ip,
                callee_addr,
                messages: msgs,
                legs,
                b2bua,
                streams: self.call_streams(live, call.call_id.as_str()),
                diagnostics: self.call_diagnostics(call.call_id.as_str()),
                negotiated_endpoints: copy_endpoints(&call.negotiated.endpoints),
                pdd_ms: call.pdd_ms,
                setup_ms: call.setup_ms,
                ring_ms: call.ring_ms,
                early_media: call.early_media,
                invite_ts: call.invite_ts,
                trying_ts: call.trying_ts,
                ringing_ts: call.ringing_ts,
                answer_ts: call.answer_ts,
                bye_ts: call.bye_ts,
                end_ts: call.end_ts,
                hangup_by: call.hangup_by,
                hangup_code: call.hangup.code,
                hangup_reason: clone_opt(&call.hangup.reason),
            },
        )
    }
}

// ----------------------------- snapshots -----------------------------

/// Lightweight snapshot for display and export.
pub struct Snapshot {
    pub source: String,
    pub elapsed_us: Option<u64>,
    /// Time of the first observed frame.
    pub start_us: Option<u64>,
    /// UTC offset (seconds) of the recording machine, when known.
    pub tz_offset_secs: Option<i32>,
    pub pkts_total: u64,
    pub pkts_dropped: u64,
    pub calls_total: u64,
    /// Calls that have ended with a BYE, since the beginning.
    pub answered_total: u64,
    pub active: usize,
    pub completed: usize,
    pub failed: usize,
    /// Newest first.
    pub calls: Vec<CallSummary>,
    pub streams: Vec<StreamSummary>,
    pub events: Vec<String>,
    pub diagnostics: Vec<Diagnostic>,
    /// Per-IP network stats, in order of address.
    pub ip_stats: Vec<IpStats>,
    /// Detail of the call in focus.
    pub focus: Option<Focus>,
}

/// A snapshot by its contents, but for the per-IP stats.
pub struct SnapshotView {
    pub source: Seq<char>,
    pub elapsed_us: Option<u64>,
    pub start_us: Option<u64>,
    pub tz_offset_secs: Option<i32>,
    pub pkts_total: u64,
    pub pkts_dropped: u64,
    pub calls_total: u64,
    pub answered_total: u64,
    pub active: nat,
    pub completed: nat,
    pub failed: nat,
    pub calls: Seq<RowView>,
    pub streams: Seq<SummaryView>,
    pub events: Seq<Seq<char>>,
    pub diagnostics: Seq<DiagView>,
    pub focus: Option<FocusView>,
}

pub open spec fn focus_view(f: Option<Focus>) -> Option<FocusView> {
    match f {
        Some(f) => Some(f@),
        None => None,
    }
}

impl View for Snapshot {
    type V = SnapshotView;

    open spec fn view(&self) -> SnapshotView {
        SnapshotView {
            source: self.source@,
            elapsed_us: self.elapsed_us,
            start_us: self.start_us,
            tz_offset_secs: self.tz_offset_secs,
            pkts_total: self.pkts_total,
            pkts_dropped: self.pkts_dropped,
            calls_total: self.calls_total,
            answered_total: self.answered_total,
            active: self.active as nat,
            completed: self.completed as nat,
            failed: self.failed as nat,
            calls: row_views(self.calls@),
            streams: media::summary_views(self.streams@),
            events: text::texts(self.events@),
            diagnostics: diagnostics::diag_views(self.diagnostics@),
            focus: focus_view(self.focus),
        }
    }
}

/// The rows of the latest `n` calls, the latest first.
pub open spec fn recent_rows(r: RegView, live: Seq<SummaryView>, n: int) -> Seq<RowView>
    decreases n,
{
    if n <= 0 {
        Seq::empty()
    } else {
        recent_rows(r, live, n - 1).push(row_of(r, live, r.calls[r.calls.len() - n]))
    }
}

pub open spec fn row_time(s: RowView) -> u64 {
    match s.invite_ts {
        Some(t) => t,
        None => 0,
    }
}

/// Where a row goes among the first `n`: behind those that are not older.
pub open spec fn row_place(rows: Seq<RowView>, t: u64, n: int) -> int
    decreases n,
{
    if n > 0 && row_time(rows[n - 1]) < t {
        row_place(rows, t, n - 1)
    } else {
        n
    }
}

/// The first `n` rows, newest INVITE first; rows of the same time keep their
/// order.
pub open spec fn sorted_rows(rows: Seq<RowView>, n: int) -> Seq<RowView>
    decreases n,
{
    if n <= 0 {
        Seq::empty()
    } else {
        let s = sorted_rows(rows, n - 1);
        s.insert(row_place(s, row_time(rows[n - 1]), s.len() as int), rows[n - 1])
    }
}

/// Which of the three counts a state goes to: active, completed or failed.
pub open spec fn state_class(s: CallState) -> int {
    match s {
        CallState::Dialing | CallState::Ringing | CallState::Active => 0,
        CallState::Completed => 1,
        CallState::Failed | CallState::Canceled => 2,
    }
}

/// How many of the first `n` rows are in a class.
pub open spec fn count_class(rows: Seq<RowView>, class: int, n: int) -> nat
    decreases n,
{
    if n <= 0 {
        0
    } else {
        count_class(rows, class, n - 1) + if state_class(rows[n - 1].state) == class {
            1nat
        } else {
            0nat
        }
    }
}

pub open spec fn at_most_of(n: int, max: usize) -> int {
    if n <= max {
        n
    } else {
        max as int
    }
}

/// The snapshot with up to `limit` calls and `stream_limit` streams.
pub open spec fn snapshot_of(
    r: RegView,
    live: Seq<SummaryView>,
    limit: usize,
    stream_limit: usize,
) -> SnapshotView {
    let rows = recent_rows(r, live, at_most_of(r.calls.len() as int, limit));
    let n = rows.len() as int;
    let active = count_class(rows, 0, n);
    let total = r.completed + r.failed + active;
    let all = live + r.imported_streams;
    SnapshotView {
        source: r.source,
        elapsed_us: match (r.start_us, r.last_us) {
            (Some(a), Some(b)) => Some(registry::grown(b, a)),
            _ => None,
        },
        start_us: r.start_us,
        tz_offset_secs: r.tz_offset_secs,
        pkts_total: r.pkts_total,
        pkts_dropped: r.pkts_dropped,
        calls_total: if total >= r.calls.len() {
            total as u64
        } else {
            r.calls.len() as u64
        },
        answered_total: r.completed,
        active,
        completed: count_class(rows, 1, n),
        failed: count_class(rows, 2, n),
        calls: sorted_rows(rows, n),
        streams: all.take(at_most_of(all.len() as int, stream_limit)),
        events: r.events,
        diagnostics: r.diagnostics,
        focus: match r.focus_hint {
            Some(id) => match registry::call_index(r.calls, id, 0) {
                Some(i) => Some(detail_of(r, live, r.calls[i])),
                None => None,
            },
            None => None,
        },
    }
}

fn copy_diagnostics(v: &Vec<Diagnostic>) -> (r: Vec<Diagnostic>)
    ensures
        diagnostics::diag_views(r@) == diagnostics::diag_views(v@),
{
    let ghost all = diagnostics::diag_views(v@);
    let mut out: Vec<Diagnostic> = Vec::new();
    let mut i: usize = 0;
    assert(diagnostics::diag_views(out@) =~= all.take(0));
    while i < v.len()
        invariant
            i <= v.len(),
            all == diagnostics::diag_views(v@),
            diagnostics::diag_views(out@) == all.take(i as int),
        decreases v.len() - i,
    {
        let ghost before = out@;
        let d = v[i].copy();
        out.push(d);
        i += 1;
        assert(diagnostics::diag_views(out@) =~= diagnostics::diag_views(before).push(d@));
        assert(all.take(i as int) =~= all.take(i - 1).push(d@));
    }
    assert(all.take(i as int) =~= all);
    out
}

fn insert_row(rows: &mut Vec<CallSummary>, s: CallSummary)
    ensures
        row_views(final(rows)@) == row_views(old(rows)@).insert(
            row_place(row_views(old(rows)@), row_time(s@), old(rows)@.len() as int),
            s@,
        ),
{
    let t: u64 = match s.invite_ts {
        Some(t) => t,
        None => 0,
    };
    let ghost rv = row_views(rows@);
    let mut p: usize = rows.len();
    let mut going: bool = true;
    while going && p > 0
        invariant
            p <= rows.len(),
            rv == row_views(rows@),
            *rows == *old(rows),
            t == row_time(s@),
            row_place(rv, t, rv.len() as int) == row_place(rv, t, p as int),
            !going ==> row_place(rv, t, p as int) == p,
        decreases p + if going {
            1int
        } else {
            0int
        },
    {
        assert(rv[p - 1] == rows@[p - 1]@);
        let u: u64 = match rows[p - 1].invite_ts {
            Some(u) => u,
            None => 0,
        };
        if u < t {
            p -= 1;
        } else {
            going = false;
        }
    }
    let ghost before = rows@;
    let ghost sv = s@;
    rows.insert(p, s);
    assert(row_views(rows@) =~= row_views(before).insert(p as int, sv));
}

impl Registry {
    fn all_streams(&self, live: &Vec<StreamSummary>, limit: usize) -> (r: Vec<StreamSummary>)
        ensures
            ({
                let all = media::summary_views(live@) + self@.imported_streams;
                media::summary_views(r@) == all.take(at_most_of(all.len() as int, limit))
            }),
    {
        let ghost lv = media::summary_views(live@);
        let ghost all = lv + self@.imported_streams;
        let mut out: Vec<StreamSummary> = Vec::new();
        let mut i: usize = 0;
        assert(media::summary_views(out@) =~= all.take(0));
        while i < live.len() && i < limit
            invariant
                i <= live.len(),
                i <= limit,
                lv == media::summary_views(live@),
                all == lv + self@.imported_streams,
                media::summary_views(out@) == all.take(i as int),
            decreases live.len() - i,
        {
            let ghost before = out@;
            let s = live[i].copy();
            assert(all[i as int] == live@[i as int]@);
            out.push(s);
            i += 1;
            assert(media::summary_views(out@) =~= media::summary_views(before).push(s@));
            assert(all.take(i as int) =~= all.take(i - 1).push(s@));
        }
        let ghost first = i;
        let mut j: usize = 0;
        while j < self.imported_streams.len() && j < limit - i
            invariant
                i <= limit,
                i == first,
                i <= live.len(),
                i == live.len() || i == limit,
                j <= self.imported_streams.len(),
                j <= limit - i,
                lv == media::summary_views(live@),
                all == lv + self@.imported_streams,
                media::summary_views(out@) == all.take(i + j),
            decreases self.imported_streams.len() - j,
        {
            let ghost before = out@;
            let s = self.imported_streams[j].copy();
            assert(self@.imported_streams[j as int] == self.imported_streams@[j as int]@);
            assert(all[i + j] == s@);
            out.push(s);
            assert(media::summary_views(out@) =~= media::summary_views(before).push(s@));
            assert(all.take(i + j + 1) =~= all.take(i + j).push(s@));
            j += 1;
        }
        out
    }

    fn recent(&self, live: &Vec<StreamSummary>, limit: usize) -> (r: Vec<CallSummary>)
        requires
            live@.len() == self.streams@.len(),
            rows_fit(self@),
        ensures
            row_views(r@) == recent_rows(
                self@,
                media::summary_views(live@),
                at_most_of(self@.calls.len() as int, limit),
            ),
    {
        let ghost lv = media::summary_views(live@);
        let mut out: Vec<CallSummary> = Vec::new();
        let mut k: usize = 0;
        assert(row_views(out@) =~= Seq::<RowView>::empty());
        while k < self.calls.len() && k < limit
            invariant
                k <= self.calls.len(),
                k <= limit,
                live@.len() == self.streams@.len(),
                rows_fit(self@),
                lv == media::summary_views(live@),
                row_views(out@) == recent_rows(self@, lv, k as int),
            decreases self.calls.len() - k,
        {
            let i: usize = self.calls.len() - 1 - k;
            assert(self@.calls[i as int] == self.calls@[i as int]@);
            let ghost before = out@;
            let s = self.summarize(&self.calls[i], live);
            out.push(s);
            k += 1;
            assert(row_views(out@) =~= row_views(before).push(s@));
        }
        out
    }

    /// A snapshot of up to `limit` recent calls and `stream_limit` streams.
    /// `live` holds the summary of each observed stream.
    pub fn snapshot_with(
        &self,
        limit: usize,
        stream_limit: usize,
        live: &Vec<StreamSummary>,
    ) -> (r: Snapshot)
        requires
            self.wf(),
            live@.len() == self.streams@.len(),
            rows_fit(self@),
            self@.completed + self@.failed + self@.calls.len() <= u64::MAX,
        ensures
            r@ == snapshot_of(self@, media::summary_views(live@), limit, stream_limit),
            forall|i: int|
                0 <= i < r.ip_stats@.len() ==> self@.ipstats.contains_pair(
                    (#[trigger] r.ip_stats@[i])@.ip,
                    r.ip_stats@[i]@,
                ),
            forall|ip: IpAddr|
                #[trigger] self@.ipstats.contains_key(ip) ==> exists|i: int|
                    0 <= i < r.ip_stats@.len() && r.ip_stats@[i]@.ip == ip,
            forall|i: int, j: int|
                0 <= i < j < r.ip_stats@.len() ==> sipstats::ip_less(
                    (#[trigger] r.ip_stats@[i])@.ip,
                    (#[trigger] r.ip_stats@[j])@.ip,
                ),
    {
        let ghost lv = media::summary_views(live@);
        let rows = self.recent(live, limit);
        let ghost rv = row_views(rows@);
        proof {
            lemma_recent_len(self@, lv, at_most_of(self@.calls.len() as int, limit));
        }
        let mut active: usize = 0;
        let mut completed: usize = 0;
        let mut failed: usize = 0;
        let mut i: usize = 0;
        while i < rows.len()
            invariant
                i <= rows.len(),
                rv == row_views(rows@),
                active == count_class(rv, 0, i as int),
                completed == count_class(rv, 1, i as int),
                failed == count_class(rv, 2, i as int),
                active + completed + failed == i,
            decreases rows.len() - i,
        {
            assert(rv[i as int] == rows@[i as int]@);
            match rows[i].state {
                CallState::Dialing | CallState::Ringing | CallState::Active => {
                    active += 1;
                },
                CallState::Completed => {
                    completed += 1;
                },
                CallState::Failed | CallState::Canceled => {
                    failed += 1;
                },
            }
            i += 1;
        }
        let calls = sort_rows(rows);
        let total: u64 = self.completed + self.failed + active as u64;
        let focus = match &self.focus_hint {
            Some(id) => self.focus_detail(id.as_str(), live),
            None => None,
        };
        Snapshot {
            source: self.source.clone(),
            elapsed_us: match (self.start_us, self.last_us) {
                (Some(a), Some(b)) => Some(b.saturating_sub(a)),
                _ => None,
            },
            start_us: self.start_us,
            tz_offset_secs: self.tz_offset_secs,
            pkts_total: self.pkts_total,
            pkts_dropped: self.pkts_dropped,
            calls_total: if total >= self.calls.len() as u64 {
                total
            } else {
                self.calls.len() as u64
            },
            answered_total: self.completed,
            active,
            completed,
            failed,
            calls,
            streams: self.all_streams(live, stream_limit),
            events: copy_texts(&self.events),
            diagnostics: copy_diagnostics(&self.diagnostics),
            ip_stats: self.ipstats.snapshot(),
            focus,
        }
    }

    /// A snapshot for display: up to `limit` calls and 1000 streams.
    pub fn snapshot(&self, limit: usize, live: &Vec<StreamSummary>) -> (r: Snapshot)
        requires
            self.wf(),
            live@.len() == self.streams@.len(),
            rows_fit(self@),
            self@.completed + self@.failed + self@.calls.len() <= u64::MAX,
        ensures
            r@ == snapshot_of(self@, media::summary_views(live@), limit, 1000),
            forall|i: int|
                0 <= i < r.ip_stats@.len() ==> self@.ipstats.contains_pair(
                    (#[trigger] r.ip_stats@[i])@.ip,
                    r.ip_stats@[i]@,
                ),
            forall|ip: IpAddr|
                #[trigger] self@.ipstats.contains_key(ip) ==> exists|i: int|
                    0 <= i < r.ip_stats@.len() && r.ip_stats@[i]@.ip == ip,
            forall|i: int, j: int|
                0 <= i < j < r.ip_stats@.len() ==> sipstats::ip_less(
                    (#[trigger] r.ip_stats@[i])@.ip,
                    (#[trigger] r.ip_stats@[j])@.ip,
                ),
    {
        self.snapshot_with(limit, 1000, live)
    }

    /// A snapshot of everything, for exports and end-of-run output.
    pub fn snapshot_full(&self, live: &Vec<StreamSummary>) -> (r: Snapshot)
        requires
            self.wf(),
            live@.len() == self.streams@.len(),
            rows_fit(self@),
            self@.completed + self@.failed + self@.calls.len() <= u64::MAX,
        ensures
            r@ == snapshot_of(self@, media::summary_views(live@), usize::MAX, usize::MAX),
            forall|i: int|
                0 <= i < r.ip_stats@.len() ==> self@.ipstats.contains_pair(
                    (#[trigger] r.ip_stats@[i])@.ip,
                    r.ip_stats@[i]@,
                ),
            forall|ip: IpAddr|
                #[trigger] self@.ipstats.contains_key(ip) ==> exists|i: int|
                    0 <= i < r.ip_stats@.len() && r.ip_stats@[i]@.ip == ip,
            forall|i: int, j: int|
                0 <= i < j < r.ip_stats@.len() ==> sipstats::ip_less(
                    (#[trigger] r.ip_stats@[i])@.ip,
                    (#[trigger] r.ip_stats@[j])@.ip,
                ),
    {
        self.snapshot_with(usize::MAX, usize::MAX, live)
    }
}

pub fn sort_rows(rows: Vec<CallSummary>) -> (r: Vec<CallSummary>)
    ensures
        row_views(r@) == sorted_rows(row_views(rows@), rows@.len() as int),
{
    let ghost rv = row_views(rows@);
    let n: usize = rows.len();
    let mut given = rows;
    let mut rest: Vec<CallSummary> = Vec::new();
    let mut k: usize = 0;
    while k < n
        invariant
            k <= n,
            given@.len() == n - k,
            rv.len() == n,
            rest@.len() == k,
            forall|j: int| 0 <= j < n - k ==> (#[trigger] given@[j])@ == rv[j],
            forall|j: int| 0 <= j < k ==> (#[trigger] rest@[j])@ == rv[n - 1 - j],
        decreases n - k,
    {
        if let Some(s) = given.pop() {
            rest.push(s);
        }
        k += 1;
    }
    let mut out: Vec<CallSummary> = Vec::new();
    let mut i: usize = 0;
    assert(row_views(out@) =~= Seq::<RowView>::empty());
    while i < n
        invariant
            i <= n,
            rest@.len() == n - i,
            rv.len() == n,
            forall|k: int| 0 <= k < n - i ==> (#[trigger] rest@[k])@ == rv[n - 1 - k],
            row_views(out@) == sorted_rows(rv, i as int),
        decreases n - i,
    {
        assert(rest@[n - i - 1]@ == rv[i as int]);
        if let Some(s) = rest.pop() {
            insert_row(&mut out, s);
        }
        i += 1;
    }
    out
}

proof fn lemma_recent_len(r: RegView, live: Seq<SummaryView>, n: int)
    requires
        0 <= n,
    ensures
        recent_rows(r, live, n).len() == n,
    decreases n,
{
    if n > 0 {
        lemma_recent_len(r, live, n - 1);
    }
}

// ----------------------------- laws -----------------------------

/// The rows of a snapshot stand in the order of their INVITEs, newest first.
pub proof fn law_newest_first(rows: Seq<RowView>, n: int)
    requires
        0 <= n <= rows.len(),
    ensures
        sorted_rows(rows, n).len() == n,
        forall|i: int, j: int|
            0 <= i <= j < n ==> row_time(#[trigger] sorted_rows(rows, n)[i]) >= row_time(
                #[trigger] sorted_rows(rows, n)[j],
            ),
    decreases n,
{
    if n > 0 {
        law_newest_first(rows, n - 1);
        let s = sorted_rows(rows, n - 1);
        let x = rows[n - 1];
        let p = row_place(s, row_time(x), s.len() as int);
        lemma_row_place(s, row_time(x), s.len() as int);
        let t = sorted_rows(rows, n);
        assert(t == s.insert(p, x));
        assert forall|i: int, j: int| 0 <= i <= j < n implies row_time(#[trigger] t[i])
            >= row_time(#[trigger] t[j]) by {
            let i2 = if i < p {
                i
            } else {
                i - 1
            };
            let j2 = if j < p {
                j
            } else {
                j - 1
            };
            if i == p && j > p {
                assert(row_time(s[j2]) < row_time(x));
            } else if j == p && i < p {
                assert(row_time(s[p - 1]) >= row_time(x));
                assert(row_time(s[i]) >= row_time(s[p - 1]));
            }
        }
    }
}

proof fn lemma_row_place(rows: Seq<RowView>, t: u64, n: int)
    requires
        0 <= n <= rows.len(),
    ensures
        0 <= row_place(rows, t, n) <= n,
        row_place(rows, t, n) > 0 ==> row_time(rows[row_place(rows, t, n) - 1]) >= t,
        forall|k: int| row_place(rows, t, n) <= k < n ==> row_time(#[trigger] rows[k]) < t,
    decreases n,
{
    if n > 0 && row_time(rows[n - 1]) < t {
        lemma_row_place(rows, t, n - 1);
    }
}

/// Sorting loses no row and invents none.
pub proof fn law_sorting_keeps_rows(rows: Seq<RowView>, n: int)
    requires
        0 <= n <= rows.len(),
    ensures
        sorted_rows(rows, n).to_multiset() == rows.take(n).to_multiset(),
    decreases n,
{
    broadcast use vstd::seq_lib::group_to_multiset_ensures;

    if n > 0 {
        law_sorting_keeps_rows(rows, n - 1);
        law_newest_first(rows, n - 1);
        let s = sorted_rows(rows, n - 1);
        lemma_row_place(s, row_time(rows[n - 1]), s.len() as int);
        assert(rows.take(n) =~= rows.take(n - 1).push(rows[n - 1]));
    } else {
        assert(rows.take(0) =~= Seq::<RowView>::empty());
    }
}

/// Every call of a snapshot is active, completed or failed, and only one of
/// these.
pub proof fn law_counts_add_up(rows: Seq<RowView>, n: int)
    requires
        0 <= n <= rows.len(),
    ensures
        count_class(rows, 0, n) + count_class(rows, 1, n) + count_class(rows, 2, n) == n,
    decreases n,
{
    if n > 0 {
        law_counts_add_up(rows, n - 1);
    }
}

} // verus!
