//! The report as text.
//!
//! Ratios and averages come in as cells, already spelled out; everything else is
//! laid out here.
use crate::model::addr_text;
use crate::model::addr_text::ip_string;
use crate::numfmt;
use crate::numfmt::{
    fmt_bytes_short, fmt_size, fmt_span, fmt_time_tz, push_dec_right, push_left, push_right,
};
use crate::store::report::{EvlogStats, IpLoss, LossWindow, Reliability};
use crate::text;
use crate::text::push_dec;
use vstd::prelude::*;

verus! {

/// The ratios and averages of a report, as text.
pub struct ReportCells {
    pub asr: String,
    pub ccr: String,
    pub ner: String,
    pub cancel: String,
    pub notfound: String,
    pub reject: String,
    pub busy: String,
    pub timeout: String,
    pub fail: String,
    pub pdd_avg: String,
    /// The percentiles in seconds: shown from one second on.
    pub pdd_p50: String,
    pub pdd_p95: String,
    pub setup: String,
    pub talk: String,
    pub call: String,
    pub loss: String,
    pub pps: String,
    pub bps: String,
    pub cps: String,
    pub mos: String,
    pub jitter: String,
    pub rtt: String,
    /// The share that each ranked IP lost.
    pub ips: Vec<String>,
    /// The ratios of each window.
    pub windows: Vec<WindowCells>,
}

/// The ratios of a window, as text.
pub struct WindowCells {
    pub asr: String,
    pub ner: String,
    pub ccr: String,
    pub cancel: String,
    pub notfound: String,
    pub reject: String,
    pub busy: String,
    pub timeout: String,
    pub fail: String,
    pub loss: String,
    pub rtt: String,
}

// ----------------------------- lines -----------------------------

/// How many events there were, by type.
pub open spec fn events_line(out: Seq<char>, s: EvlogStats) -> Seq<char> {
    out + "  events    "@ + text::dec(s.events.spec_total() as nat) + "  (sip "@
        + text::dec(s.events.sip as nat) + "  stream-snap "@
        + text::dec(s.events.stream_snap as nat) + "  call "@ + text::dec(s.events.call as nat)
        + "  diag "@ + text::dec(s.events.diag as nat) + "  rtt "@
        + text::dec(s.events.rtcp_rtt as nat) + ")\n"@
}

fn push_events_line(out: &mut String, s: &EvlogStats)
    ensures
        final(out)@ == events_line(old(out)@, *s),
{
    out.push_str("  events    ");
    push_dec(out, s.events.total());
    out.push_str("  (sip ");
    push_dec(out, s.events.sip);
    out.push_str("  stream-snap ");
    push_dec(out, s.events.stream_snap);
    out.push_str("  call ");
    push_dec(out, s.events.call);
    out.push_str("  diag ");
    push_dec(out, s.events.diag);
    out.push_str("  rtt ");
    push_dec(out, s.events.rtcp_rtt);
    out.push_str(")\n");
}

/// Seizures, answers and ends of calls.
pub open spec fn answer_lines(out: Seq<char>, s: EvlogStats, c: ReportCells) -> Seq<char> {
    out + "\n== Reliability ==\n"@ + "  seizures  "@ + text::dec(s.reliability.seizures as nat)
        + " unique INVITE Call-IDs\n"@ + "  answered  "@
        + text::dec(s.reliability.answered as nat) + "  (ASR "@ + c.asr@ + ")\n"@
        + "  teardown  completed="@ + text::dec(s.calls.completed as nat) + "  failed="@
        + text::dec(s.calls.failed as nat) + "  canceled="@ + text::dec(s.calls.canceled as nat)
        + "\n"@ + "  rates     ASR="@ + c.asr@ + "  CCR="@ + c.ccr@ + "  NER="@ + c.ner@
        + "  cancel="@ + c.cancel@ + "\n"@
}

fn push_answer_lines(out: &mut String, s: &EvlogStats, c: &ReportCells)
    ensures
        final(out)@ == answer_lines(old(out)@, *s, *c),
{
    out.push_str("\n== Reliability ==\n");
    out.push_str("  seizures  ");
    push_dec(out, s.reliability.seizures as u64);
    out.push_str(" unique INVITE Call-IDs\n");
    out.push_str("  answered  ");
    push_dec(out, s.reliability.answered);
    out.push_str("  (ASR ");
    out.push_str(c.asr.as_str());
    out.push_str(")\n");
    out.push_str("  teardown  completed=");
    push_dec(out, s.calls.completed);
    out.push_str("  failed=");
    push_dec(out, s.calls.failed);
    out.push_str("  canceled=");
    push_dec(out, s.calls.canceled);
    out.push_str("\n");
    out.push_str("  rates     ASR=");
    out.push_str(c.asr.as_str());
    out.push_str("  CCR=");
    out.push_str(c.ccr.as_str());
    out.push_str("  NER=");
    out.push_str(c.ner.as_str());
    out.push_str("  cancel=");
    out.push_str(c.cancel.as_str());
    out.push_str("\n");
}

/// Failed calls by reason.
pub open spec fn fail_line(out: Seq<char>, s: EvlogStats, c: ReportCells) -> Seq<char> {
    out + "  fail      notfound="@ + text::dec(s.reliability.fail.notfound as nat) + " ("@
        + c.notfound@ + ")  reject="@ + text::dec(s.reliability.fail.reject as nat) + " ("@
        + c.reject@ + ")  busy="@ + text::dec(s.reliability.fail.busy as nat) + " ("@ + c.busy@
        + ")  timeout="@ + text::dec(s.reliability.fail.timeout as nat) + " ("@ + c.timeout@
        + ")  fail="@ + text::dec(s.reliability.fail.fail as nat) + " ("@ + c.fail@ + ")\n"@
}

fn push_fail_line(out: &mut String, s: &EvlogStats, c: &ReportCells)
    ensures
        final(out)@ == fail_line(old(out)@, *s, *c),
{
    out.push_str("  fail      notfound=");
    push_dec(out, s.reliability.fail.notfound);
    out.push_str(" (");
    out.push_str(c.notfound.as_str());
    out.push_str(")  reject=");
    push_dec(out, s.reliability.fail.reject);
    out.push_str(" (");
    out.push_str(c.reject.as_str());
    out.push_str(")  busy=");
    push_dec(out, s.reliability.fail.busy);
    out.push_str(" (");
    out.push_str(c.busy.as_str());
    out.push_str(")  timeout=");
    push_dec(out, s.reliability.fail.timeout);
    out.push_str(" (");
    out.push_str(c.timeout.as_str());
    out.push_str(")  fail=");
    push_dec(out, s.reliability.fail.fail);
    out.push_str(" (");
    out.push_str(c.fail.as_str());
    out.push_str(")\n");
}

/// A delay: milliseconds below one second, from there on what `secs` says.
pub open spec fn delay_cell(ms: Option<u32>, secs: Seq<char>) -> Seq<char> {
    match ms {
        None => "-"@,
        Some(ms) => if ms < 1000 {
            text::dec(ms as nat) + "ms"@
        } else {
            secs
        },
    }
}

fn push_delay(out: &mut String, ms: Option<u32>, secs: &str)
    ensures
        final(out)@ == old(out)@ + delay_cell(ms, secs@),
{
    let ghost start = out@;
    match ms {
        None => {
            out.push_str("-");
        },
        Some(ms) => {
            if ms < 1000 {
                push_dec(out, ms as u64);
                out.push_str("ms");
            } else {
                out.push_str(secs);
            }
        },
    }
    assert(out@ =~= start + delay_cell(ms, secs@));
}

/// Delays and durations.
pub open spec fn timing_line(out: Seq<char>, r: Reliability, c: ReportCells) -> Seq<char> {
    out + "  timing    PDD avg="@ + c.pdd_avg@ + " p50="@ + delay_cell(r.p50_pdd_ms, c.pdd_p50@)
        + " p95="@ + delay_cell(r.p95_pdd_ms, c.pdd_p95@) + " | setup="@ + c.setup@ + " | ACD="@
        + c.talk@ + " | call="@ + c.call@ + "\n"@
}

fn push_timing_line(out: &mut String, r: &Reliability, c: &ReportCells)
    ensures
        final(out)@ == timing_line(old(out)@, *r, *c),
{
    out.push_str("  timing    PDD avg=");
    out.push_str(c.pdd_avg.as_str());
    out.push_str(" p50=");
    push_delay(out, r.p50_pdd_ms, c.pdd_p50.as_str());
    out.push_str(" p95=");
    push_delay(out, r.p95_pdd_ms, c.pdd_p95.as_str());
    out.push_str(" | setup=");
    out.push_str(c.setup.as_str());
    out.push_str(" | ACD=");
    out.push_str(c.talk.as_str());
    out.push_str(" | call=");
    out.push_str(c.call.as_str());
    out.push_str("\n");
}

/// What the figures mean.
pub open spec fn definitions(out: Seq<char>) -> Seq<char> {
    out
        + "\n== Definitions ==\n"@
        + "  ASR      answered / seizures × 100\n"@
        + "           seizures = unique Call-IDs that sent an INVITE request\n"@
        + "           answered = teardowns with answer_ts (INVITE 2xx)\n"@
        + "  CCR      completed / seizures × 100  (teardown state Completed)\n"@
        + "  NER      (answered + notfound + reject + busy) / seizures × 100\n"@
        + "           user-side failures still count as network-effective\n"@
        + "  cancel   canceled / seizures × 100  (CANCEL / 487)\n"@
        + "  NF       404/410/604 / Q.850-1     unallocated / not found\n"@
        + "  REJ      403/603/488/607 / Q.850-21  forbidden / decline\n"@
        + "  BUSY     486/600 / Q.850-17\n"@
        + "  TMO      408/480/504 / Q.850-18/19   timeout / no answer\n"@
        + "  FAIL     other Failed teardowns (5xx, 482, …)\n"@
        + "  PDD      INVITE → first 1xx (100/180/183), milliseconds\n"@
        + "  setup    INVITE → 2xx answer\n"@
        + "  ACD      talk time: answer → BYE/end (answered calls only)\n"@
        + "  call     INVITE → BYE/end\n"@
        + "  windows  call-availability rates use teardowns in that 5-minute bucket\n"@
}

fn push_definitions(out: &mut String)
    ensures
        final(out)@ == definitions(old(out)@),
{
    out.push_str("\n== Definitions ==\n");
    out.push_str("  ASR      answered / seizures × 100\n");
    out.push_str("           seizures = unique Call-IDs that sent an INVITE request\n");
    out.push_str("           answered = teardowns with answer_ts (INVITE 2xx)\n");
    out.push_str("  CCR      completed / seizures × 100  (teardown state Completed)\n");
    out.push_str("  NER      (answered + notfound + reject + busy) / seizures × 100\n");
    out.push_str("           user-side failures still count as network-effective\n");
    out.push_str("  cancel   canceled / seizures × 100  (CANCEL / 487)\n");
    out.push_str("  NF       404/410/604 / Q.850-1     unallocated / not found\n");
    out.push_str("  REJ      403/603/488/607 / Q.850-21  forbidden / decline\n");
    out.push_str("  BUSY     486/600 / Q.850-17\n");
    out.push_str("  TMO      408/480/504 / Q.850-18/19   timeout / no answer\n");
    out.push_str("  FAIL     other Failed teardowns (5xx, 482, …)\n");
    out.push_str("  PDD      INVITE → first 1xx (100/180/183), milliseconds\n");
    out.push_str("  setup    INVITE → 2xx answer\n");
    out.push_str("  ACD      talk time: answer → BYE/end (answered calls only)\n");
    out.push_str("  call     INVITE → BYE/end\n");
    out.push_str("  windows  call-availability rates use teardowns in that 5-minute bucket\n");
}

/// Volume and media quality.
pub open spec fn traffic_lines(out: Seq<char>, s: EvlogStats, c: ReportCells) -> Seq<char> {
    out + "\n== Traffic ==\n"@ + "  RTP       "@ + numfmt::size_text(s.loss.bytes) + "  pkts="@
        + text::dec(s.loss.pkts as nat) + "  lost="@ + text::dec(s.loss.lost as nat) + " ("@
        + c.loss@ + ")  ~"@ + c.pps@ + " pps  ~"@ + c.bps@ + "\n"@ + "  SIP       "@
        + text::dec(s.traffic.sip_msgs as nat) + " msgs  "@
        + numfmt::size_text(s.traffic.sip_bytes) + "  responses 1xx="@
        + text::dec(s.traffic.sip_class@[1] as nat) + " 2xx="@
        + text::dec(s.traffic.sip_class@[2] as nat) + " 4xx="@
        + text::dec(s.traffic.sip_class@[4] as nat) + " 5xx="@
        + text::dec(s.traffic.sip_class@[5] as nat) + " 6xx="@
        + text::dec(s.traffic.sip_class@[6] as nat) + "\n"@ + "  load      ~"@ + c.cps@
        + " CPS over span\n"@ + "  quality   MOS "@ + c.mos@ + "  jitter "@ + c.jitter@
        + "  RTT "@ + c.rtt@ + " ("@ + text::dec(s.traffic.rtts@.len()) + " samples)\n"@
}

fn push_traffic_lines(out: &mut String, s: &EvlogStats, c: &ReportCells)
    requires
        s.traffic.sip_class@.len() == 7,
    ensures
        final(out)@ == traffic_lines(old(out)@, *s, *c),
{
    out.push_str("\n== Traffic ==\n");
    out.push_str("  RTP       ");
    let t = fmt_size(s.loss.bytes);
    out.push_str(t.as_str());
    out.push_str("  pkts=");
    push_dec(out, s.loss.pkts);
    out.push_str("  lost=");
    push_dec(out, s.loss.lost);
    out.push_str(" (");
    out.push_str(c.loss.as_str());
    out.push_str(")  ~");
    out.push_str(c.pps.as_str());
    out.push_str(" pps  ~");
    out.push_str(c.bps.as_str());
    out.push_str("\n");
    out.push_str("  SIP       ");
    push_dec(out, s.traffic.sip_msgs);
    out.push_str(" msgs  ");
    let t = fmt_size(s.traffic.sip_bytes);
    out.push_str(t.as_str());
    out.push_str("  responses 1xx=");
    push_dec(out, s.traffic.sip_class[1]);
    out.push_str(" 2xx=");
    push_dec(out, s.traffic.sip_class[2]);
    out.push_str(" 4xx=");
    push_dec(out, s.traffic.sip_class[4]);
    out.push_str(" 5xx=");
    push_dec(out, s.traffic.sip_class[5]);
    out.push_str(" 6xx=");
    push_dec(out, s.traffic.sip_class[6]);
    out.push_str("\n");
    out.push_str("  load      ~");
    out.push_str(c.cps.as_str());
    out.push_str(" CPS over span\n");
    out.push_str("  quality   MOS ");
    out.push_str(c.mos.as_str());
    out.push_str("  jitter ");
    out.push_str(c.jitter.as_str());
    out.push_str("  RTT ");
    out.push_str(c.rtt.as_str());
    out.push_str(" (");
    push_dec(out, s.traffic.rtts.len() as u64);
    out.push_str(" samples)\n");
}

/// Dialogs and requests, and the loss in all.
pub open spec fn call_lines(out: Seq<char>, s: EvlogStats, c: ReportCells) -> Seq<char> {
    out + "\n== Calls ==\n"@ + "  dialogs   "@ + text::dec(s.calls.unique as nat)
        + " unique Call-IDs\n"@ + "  SIP       INVITE="@ + text::dec(s.calls.invite as nat)
        + "  BYE="@ + text::dec(s.calls.bye as nat) + "  CANCEL="@
        + text::dec(s.calls.cancel as nat) + "\n"@ + "\n== Loss ==\n"@ + "  all-time  "@
        + c.loss@ + "  (pkts "@ + text::dec(s.loss.pkts as nat) + "  lost "@
        + text::dec(s.loss.lost as nat) + "  bytes "@ + numfmt::size_text(s.loss.bytes) + ")\n"@
}

fn push_call_lines(out: &mut String, s: &EvlogStats, c: &ReportCells)
    ensures
        final(out)@ == call_lines(old(out)@, *s, *c),
{
    out.push_str("\n== Calls ==\n");
    out.push_str("  dialogs   ");
    push_dec(out, s.calls.unique as u64);
    out.push_str(" unique Call-IDs\n");
    out.push_str("  SIP       INVITE=");
    push_dec(out, s.calls.invite);
    out.push_str("  BYE=");
    push_dec(out, s.calls.bye);
    out.push_str("  CANCEL=");
    push_dec(out, s.calls.cancel);
    out.push_str("\n");
    out.push_str("\n== Loss ==\n");
    out.push_str("  all-time  ");
    out.push_str(c.loss.as_str());
    out.push_str("  (pkts ");
    push_dec(out, s.loss.pkts);
    out.push_str("  lost ");
    push_dec(out, s.loss.lost);
    out.push_str("  bytes ");
    let t = fmt_size(s.loss.bytes);
    out.push_str(t.as_str());
    out.push_str(")\n");
}

/// The columns of the ranking by loss.
pub open spec fn ip_heading(out: Seq<char>) -> Seq<char> {
    out + "  "@ + numfmt::left("IP"@, 15) + " "@ + numfmt::right("LOSS%"@, 7) + " "@
        + numfmt::right("PKTS"@, 12) + " "@ + numfmt::right("LOST"@, 10) + " "@
        + numfmt::right("BYTES"@, 10) + "\n"@
}

fn push_ip_heading(out: &mut String)
    ensures
        final(out)@ == ip_heading(old(out)@),
{
    out.push_str("  ");
    push_left(out, "IP", 15);
    out.push_str(" ");
    push_right(out, "LOSS%", 7);
    out.push_str(" ");
    push_right(out, "PKTS", 12);
    out.push_str(" ");
    push_right(out, "LOST", 10);
    out.push_str(" ");
    push_right(out, "BYTES", 10);
    out.push_str("\n");
}

/// One IP of the ranking.
pub open spec fn ip_row(out: Seq<char>, i: IpLoss, pct: Seq<char>) -> Seq<char> {
    out + "  "@ + numfmt::left(addr_text::ip_text(i.ip), 15) + " "@ + numfmt::right(pct, 7)
        + " "@ + numfmt::right(text::dec(i.pkts as nat), 12) + " "@
        + numfmt::right(text::dec(i.lost as nat), 10) + " "@
        + numfmt::right(numfmt::size_text(i.bytes), 10) + "\n"@
}

fn push_ip_row(out: &mut String, i: &IpLoss, pct: &String)
    ensures
        final(out)@ == ip_row(old(out)@, *i, pct@),
{
    out.push_str("  ");
    let t = ip_string(i.ip);
    push_left(out, t.as_str(), 15);
    out.push_str(" ");
    push_right(out, pct.as_str(), 7);
    out.push_str(" ");
    push_dec_right(out, i.pkts, 12);
    out.push_str(" ");
    push_dec_right(out, i.lost, 10);
    out.push_str(" ");
    let t = fmt_size(i.bytes);
    push_right(out, t.as_str(), 10);
    out.push_str("\n");
}

/// The columns of the call availability.
pub open spec fn availability_heading(out: Seq<char>) -> Seq<char> {
    out + "\n== 5-minute call availability ==\n"@ + "  "@ + numfmt::left("TIME"@, 8) + " "@
        + numfmt::right("INVITE"@, 6) + " "@ + numfmt::right("TEARD"@, 5) + " "@
        + numfmt::right("ASR%"@, 5) + " "@ + numfmt::right("NER%"@, 5) + " "@
        + numfmt::right("CCR%"@, 5) + " "@ + numfmt::right("CANCEL%"@, 7) + " "@
        + numfmt::right("NF%"@, 5) + " "@ + numfmt::right("REJ%"@, 5) + " "@
        + numfmt::right("BUSY%"@, 5) + " "@ + numfmt::right("TMO%"@, 5) + " "@
        + numfmt::right("FAIL%"@, 5) + "\n"@
}

fn push_availability_heading(out: &mut String)
    ensures
        final(out)@ == availability_heading(old(out)@),
{
    out.push_str("\n== 5-minute call availability ==\n");
    out.push_str("  ");
    push_left(out, "TIME", 8);
    out.push_str(" ");
    push_right(out, "INVITE", 6);
    out.push_str(" ");
    push_right(out, "TEARD", 5);
    out.push_str(" ");
    push_right(out, "ASR%", 5);
    out.push_str(" ");
    push_right(out, "NER%", 5);
    out.push_str(" ");
    push_right(out, "CCR%", 5);
    out.push_str(" ");
    push_right(out, "CANCEL%", 7);
    out.push_str(" ");
    push_right(out, "NF%", 5);
    out.push_str(" ");
    push_right(out, "REJ%", 5);
    out.push_str(" ");
    push_right(out, "BUSY%", 5);
    out.push_str(" ");
    push_right(out, "TMO%", 5);
    out.push_str(" ");
    push_right(out, "FAIL%", 5);
    out.push_str("\n");
}

/// The call availability of one window.
pub open spec fn availability_row(out: Seq<char>, w: LossWindow, c: WindowCells, offset: i32) -> Seq<char> {
    out + "  "@ + numfmt::left(numfmt::time_text(w.start_ts_us, offset), 8) + " "@
        + numfmt::right(text::dec(w.invites as nat), 6) + " "@
        + numfmt::right(text::dec(w.teardowns as nat), 5) + " "@ + numfmt::right(c.asr@, 5)
        + " "@ + numfmt::right(c.ner@, 5) + " "@ + numfmt::right(c.ccr@, 5) + " "@
        + numfmt::right(c.cancel@, 7) + " "@ + numfmt::right(c.notfound@, 5) + " "@
        + numfmt::right(c.reject@, 5) + " "@ + numfmt::right(c.busy@, 5) + " "@
        + numfmt::right(c.timeout@, 5) + " "@ + numfmt::right(c.fail@, 5) + "\n"@
}

fn push_availability_row(out: &mut String, w: &LossWindow, c: &WindowCells, offset: i32)
    requires
        numfmt::has_clock(w.start_ts_us, offset),
    ensures
        final(out)@ == availability_row(old(out)@, *w, *c, offset),
{
    out.push_str("  ");
    let t = fmt_time_tz(w.start_ts_us, offset);
    push_left(out, t.as_str(), 8);
    out.push_str(" ");
    push_dec_right(out, w.invites as u64, 6);
    out.push_str(" ");
    push_dec_right(out, w.teardowns, 5);
    out.push_str(" ");
    push_right(out, c.asr.as_str(), 5);
    out.push_str(" ");
    push_right(out, c.ner.as_str(), 5);
    out.push_str(" ");
    push_right(out, c.ccr.as_str(), 5);
    out.push_str(" ");
    push_right(out, c.cancel.as_str(), 7);
    out.push_str(" ");
    push_right(out, c.notfound.as_str(), 5);
    out.push_str(" ");
    push_right(out, c.reject.as_str(), 5);
    out.push_str(" ");
    push_right(out, c.busy.as_str(), 5);
    out.push_str(" ");
    push_right(out, c.timeout.as_str(), 5);
    out.push_str(" ");
    push_right(out, c.fail.as_str(), 5);
    out.push_str("\n");
}

/// The columns of the network figures.
pub open spec fn network_heading(out: Seq<char>) -> Seq<char> {
    out + "\n== 5-minute network ==\n"@ + "  "@ + numfmt::left("TIME"@, 8) + " "@
        + numfmt::right("RTP_BYTES"@, 10) + " "@ + numfmt::right("PKTS"@, 10) + " "@
        + numfmt::right("LOSS%"@, 6) + " "@ + numfmt::right("SIP"@, 7) + " "@
        + numfmt::right("RTT"@, 7) + "\n"@
}

fn push_network_heading(out: &mut String)
    ensures
        final(out)@ == network_heading(old(out)@),
{
    out.push_str("\n== 5-minute network ==\n");
    out.push_str("  ");
    push_left(out, "TIME", 8);
    out.push_str(" ");
    push_right(out, "RTP_BYTES", 10);
    out.push_str(" ");
    push_right(out, "PKTS", 10);
    out.push_str(" ");
    push_right(out, "LOSS%", 6);
    out.push_str(" ");
    push_right(out, "SIP", 7);
    out.push_str(" ");
    push_right(out, "RTT", 7);
    out.push_str("\n");
}

/// The network figures of one window.
pub open spec fn network_row(out: Seq<char>, w: LossWindow, c: WindowCells, offset: i32) -> Seq<char> {
    out + "  "@ + numfmt::left(numfmt::time_text(w.start_ts_us, offset), 8) + " "@
        + numfmt::right(numfmt::short_bytes_text(w.rtp_bytes), 10) + " "@
        + numfmt::right(text::dec(w.pkts as nat), 10) + " "@ + numfmt::right(c.loss@, 6) + " "@
        + numfmt::right(text::dec(w.sip_msgs as nat), 7) + " "@ + numfmt::right(c.rtt@, 7)
        + "\n"@
}

fn push_network_row(out: &mut String, w: &LossWindow, c: &WindowCells, offset: i32)
    requires
        numfmt::has_clock(w.start_ts_us, offset),
    ensures
        final(out)@ == network_row(old(out)@, *w, *c, offset),
{
    out.push_str("  ");
    let t = fmt_time_tz(w.start_ts_us, offset);
    push_left(out, t.as_str(), 8);
    out.push_str(" ");
    let t = fmt_bytes_short(w.rtp_bytes);
    push_right(out, t.as_str(), 10);
    out.push_str(" ");
    push_dec_right(out, w.pkts, 10);
    out.push_str(" ");
    push_right(out, c.loss.as_str(), 6);
    out.push_str(" ");
    push_dec_right(out, w.sip_msgs, 7);
    out.push_str(" ");
    push_right(out, c.rtt.as_str(), 7);
    out.push_str("\n");
}

// ----------------------------- sections -----------------------------

/// Name, size and span of the log.
pub open spec fn heading(out: Seq<char>, s: EvlogStats, offset: i32) -> Seq<char> {
    let a = out + "== "@ + s.file@ + " ==\n"@ + "  size      "@;
    let b = if s.bytes == 0 {
        a + "in-memory"@
    } else {
        a + numfmt::size_text(s.bytes)
    };
    let c = b + "\n"@ + "  span      "@;
    let d = match (s.start_ts_us, s.end_ts_us) {
        (Some(x), Some(y)) => c + numfmt::time_text(x, offset) + " – "@ + numfmt::time_text(
            y,
            offset,
        ) + " (+"@ + numfmt::span_text(numfmt::since(y, x)) + ")"@,
        _ => c + "empty"@,
    };
    d + "\n"@
}

/// Whether the clock can show when the log begins and ends.
pub open spec fn span_shown(s: EvlogStats, offset: i32) -> bool {
    (s.start_ts_us is Some && s.end_ts_us is Some) ==> (numfmt::has_clock(
        s.start_ts_us->Some_0,
        offset,
    ) && numfmt::has_clock(s.end_ts_us->Some_0, offset))
}

fn push_heading(out: &mut String, s: &EvlogStats, offset: i32)
    requires
        span_shown(*s, offset),
    ensures
        final(out)@ == heading(old(out)@, *s, offset),
{
    out.push_str("== ");
    out.push_str(s.file.as_str());
    out.push_str(" ==\n");
    out.push_str("  size      ");
    if s.bytes == 0 {
        out.push_str("in-memory");
    } else {
        let t = fmt_size(s.bytes);
        out.push_str(t.as_str());
    }
    out.push_str("\n");
    out.push_str("  span      ");
    match (s.start_ts_us, s.end_ts_us) {
        (Some(x), Some(y)) => {
            let t = fmt_time_tz(x, offset);
            out.push_str(t.as_str());
            out.push_str(" – ");
            let t = fmt_time_tz(y, offset);
            out.push_str(t.as_str());
            out.push_str(" (+");
            let t = fmt_span(y.saturating_sub(x));
            out.push_str(t.as_str());
            out.push_str(")");
        },
        _ => {
            out.push_str("empty");
        },
    }
    out.push_str("\n");
}

/// How many records could not be read, if any.
pub open spec fn skipped_line(out: Seq<char>, skipped: u64) -> Seq<char> {
    if skipped > 0 {
        let a = out + "  skipped   "@ + text::dec(skipped as nat) + " unreadable record"@;
        (if skipped == 1 {
            a
        } else {
            a + "s"@
        }) + "\n"@
    } else {
        out
    }
}

fn push_skipped_line(out: &mut String, skipped: u64)
    ensures
        final(out)@ == skipped_line(old(out)@, skipped),
{
    if skipped > 0 {
        out.push_str("  skipped   ");
        push_dec(out, skipped);
        out.push_str(" unreadable record");
        if skipped != 1 {
            out.push_str("s");
        }
        out.push_str("\n");
    }
}

/// The first `n` hangup codes with their counts.
pub open spec fn codes(out: Seq<char>, v: Seq<(u32, u64)>, n: int) -> Seq<char>
    decreases n,
{
    if n <= 0 {
        out
    } else {
        let a = codes(out, v, n - 1);
        let b = if n > 1 {
            a + "  "@
        } else {
            a
        };
        b + text::dec(v[n - 1].0 as nat) + "×"@ + text::dec(v[n - 1].1 as nat)
    }
}

pub open spec fn hangup_line(out: Seq<char>, v: Seq<(u32, u64)>) -> Seq<char> {
    if v.len() > 0 {
        codes(out + "  hangup    "@, v, v.len() as int) + "\n"@
    } else {
        out
    }
}

fn push_hangup_line(out: &mut String, v: &Vec<(u32, u64)>)
    ensures
        final(out)@ == hangup_line(old(out)@, v@),
{
    if v.len() == 0 {
        return ;
    }
    out.push_str("  hangup    ");
    let ghost start = out@;
    let mut i: usize = 0;
    while i < v.len()
        invariant
            i <= v.len(),
            out@ == codes(start, v@, i as int),
        decreases v.len() - i,
    {
        if i > 0 {
            out.push_str("  ");
        }
        push_dec(out, v[i].0 as u64);
        out.push_str("×");
        push_dec(out, v[i].1);
        i += 1;
    }
    out.push_str("\n");
}

/// The first `n` IPs of the ranking.
pub open spec fn ip_rows(out: Seq<char>, v: Seq<IpLoss>, pcts: Seq<String>, n: int) -> Seq<char>
    decreases n,
{
    if n <= 0 {
        out
    } else {
        ip_row(ip_rows(out, v, pcts, n - 1), v[n - 1], pcts[n - 1]@)
    }
}

pub open spec fn ip_table(out: Seq<char>, v: Seq<IpLoss>, pcts: Seq<String>) -> Seq<char> {
    if v.len() > 0 {
        ip_rows(ip_heading(out), v, pcts, v.len() as int)
    } else {
        out
    }
}

fn push_ip_table(out: &mut String, v: &Vec<IpLoss>, pcts: &Vec<String>)
    requires
        pcts@.len() == v@.len(),
    ensures
        final(out)@ == ip_table(old(out)@, v@, pcts@),
{
    if v.len() == 0 {
        return ;
    }
    push_ip_heading(out);
    let ghost start = out@;
    let mut i: usize = 0;
    while i < v.len()
        invariant
            i <= v.len(),
            pcts@.len() == v@.len(),
            out@ == ip_rows(start, v@, pcts@, i as int),
        decreases v.len() - i,
    {
        push_ip_row(out, &v[i], &pcts[i]);
        i += 1;
    }
}

/// The call availability of the first `n` windows.
pub open spec fn availability_rows(
    out: Seq<char>,
    v: Seq<LossWindow>,
    cells: Seq<WindowCells>,
    offset: i32,
    n: int,
) -> Seq<char>
    decreases n,
{
    if n <= 0 {
        out
    } else {
        availability_row(
            availability_rows(out, v, cells, offset, n - 1),
            v[n - 1],
            cells[n - 1],
            offset,
        )
    }
}

/// The network figures of the first `n` windows.
pub open spec fn network_rows(
    out: Seq<char>,
    v: Seq<LossWindow>,
    cells: Seq<WindowCells>,
    offset: i32,
    n: int,
) -> Seq<char>
    decreases n,
{
    if n <= 0 {
        out
    } else {
        network_row(
            network_rows(out, v, cells, offset, n - 1),
            v[n - 1],
            cells[n - 1],
            offset,
        )
    }
}

pub open spec fn or_no_events(out: Seq<char>, v: Seq<LossWindow>) -> Seq<char> {
    if v.len() == 0 {
        out + "  (no events)\n"@
    } else {
        out
    }
}

/// The two tables of windows.
pub open spec fn window_tables(
    out: Seq<char>,
    v: Seq<LossWindow>,
    cells: Seq<WindowCells>,
    offset: i32,
) -> Seq<char> {
    let n = v.len() as int;
    let a = or_no_events(
        availability_rows(availability_heading(out), v, cells, offset, n),
        v,
    );
    or_no_events(network_rows(network_heading(a), v, cells, offset, n), v)
}

/// Whether the clock can show when each window begins.
pub open spec fn windows_shown(v: Seq<LossWindow>, offset: i32) -> bool {
    forall|i: int|
        0 <= i < v.len() ==> numfmt::has_clock((#[trigger] v[i]).start_ts_us, offset)
}

fn push_window_tables(
    out: &mut String,
    v: &Vec<LossWindow>,
    cells: &Vec<WindowCells>,
    offset: i32,
)
    requires
        cells@.len() == v@.len(),
        windows_shown(v@, offset),
    ensures
        final(out)@ == window_tables(old(out)@, v@, cells@, offset),
{
    push_availability_heading(out);
    let ghost start = out@;
    let mut i: usize = 0;
    while i < v.len()
        invariant
            i <= v.len(),
            cells@.len() == v@.len(),
            windows_shown(v@, offset),
            out@ == availability_rows(start, v@, cells@, offset, i as int),
        decreases v.len() - i,
    {
        push_availability_row(out, &v[i], &cells[i], offset);
        i += 1;
    }
    if v.len() == 0 {
        out.push_str("  (no events)\n");
    }
    push_network_heading(out);
    let ghost start = out@;
    let mut i: usize = 0;
    while i < v.len()
        invariant
            i <= v.len(),
            cells@.len() == v@.len(),
            windows_shown(v@, offset),
            out@ == network_rows(start, v@, cells@, offset, i as int),
        decreases v.len() - i,
    {
        push_network_row(out, &v[i], &cells[i], offset);
        i += 1;
    }
    if v.len() == 0 {
        out.push_str("  (no events)\n");
    }
}

/// The whole report as text.
pub open spec fn report_text(s: EvlogStats, c: ReportCells, offset: i32) -> Seq<char> {
    let a = skipped_line(events_line(heading(Seq::empty(), s, offset), s), s.events.skipped);
    let b = timing_line(fail_line(answer_lines(a, s, c), s, c), s.reliability, c);
    let d = definitions(hangup_line(b, s.reliability.hangup_codes@));
    let e = call_lines(traffic_lines(d, s, c), s, c);
    window_tables(ip_table(e, s.top_ips@, c.ips@), s.windows@, c.windows@, offset)
}

impl EvlogStats {
    /// The report as text, with times at an offset from UTC in seconds.
    pub fn render_text(&self, c: &ReportCells, offset: i32) -> (r: String)
        requires
            self.traffic.sip_class@.len() == 7,
            c.ips@.len() == self.top_ips@.len(),
            c.windows@.len() == self.windows@.len(),
            span_shown(*self, offset),
            windows_shown(self.windows@, offset),
        ensures
            r@ == report_text(*self, *c, offset),
    {
        let mut s = String::new();
        assert(s@ =~= Seq::empty());
        push_heading(&mut s, self, offset);
        push_events_line(&mut s, self);
        push_skipped_line(&mut s, self.events.skipped);
        push_answer_lines(&mut s, self, c);
        push_fail_line(&mut s, self, c);
        push_timing_line(&mut s, &self.reliability, c);
        push_hangup_line(&mut s, &self.reliability.hangup_codes);
        push_definitions(&mut s);
        push_traffic_lines(&mut s, self, c);
        push_call_lines(&mut s, self, c);
        push_ip_table(&mut s, &self.top_ips, &c.ips);
        push_window_tables(&mut s, &self.windows, &c.windows, offset);
        s
    }
}

} // verus!
