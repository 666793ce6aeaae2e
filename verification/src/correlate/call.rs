//! Call state-machine transitions, applied to a `Call` for each SIP message.
use crate::analyze::metrics;
use crate::model::addr_text;
use crate::model::addr_text::ip_string;
use crate::model::sip;
use crate::model::sip::{
    Call, CallState, CallView, HangupBy, HangupView, Method, MsgView, Outcome, SipMsg,
};
use crate::text;
use crate::text::{
    begins_with, chars_of, clone_opt, eq_ignore_case, find, find_class, lines, parse_uint,
    slice_of, str_eq, string_of, take_before, text_exact, trim, trim_by, Class,
};
use vstd::prelude::*;
use vstd::utf8::*;

verus! {

// ----------------------------- identities -----------------------------

/// How many characters stand before the last `c`, or all of them.
pub open spec fn last_before(t: Seq<char>, c: char, n: int) -> int
    decreases n,
{
    if n <= 0 {
        t.len() as int
    } else if t[n - 1] == c {
        n - 1
    } else {
        last_before(t, c, n - 1)
    }
}

pub open spec fn without_prefix(t: Seq<char>, p: Seq<char>) -> Option<Seq<char>> {
    if text::occurs_at(t, p, 0) {
        Some(t.skip(p.len() as int))
    } else {
        None
    }
}

/// The URI in a From or To header: what stands in angle brackets, or all.
pub open spec fn header_uri(v: Seq<char>) -> Seq<char> {
    let i = text::scan(v, 0, Class::Is('<'), true);
    if i < v.len() {
        text::before(v.skip(i + 1), '>')
    } else {
        v
    }
}

/// The user part of a From or To header value, if there is one.
pub open spec fn user_in(v: Seq<char>) -> Option<Seq<char>> {
    let uri = header_uri(v);
    let after = match without_prefix(uri, "sips:"@) {
        Some(r) => r,
        None => match without_prefix(uri, "sip:"@) {
            Some(r) => r,
            None => uri,
        },
    };
    let bare = text::before(after, ';');
    let user = text::trimmed(bare.take(last_before(bare, '@', bare.len() as int)));
    if user.len() == 0 {
        None
    } else {
        Some(user)
    }
}

fn strip(t: Vec<char>, s: &str) -> (r: (bool, Vec<char>))
    ensures
        match without_prefix(t@, s@) {
            Some(x) => r.0 && r.1@ == x,
            None => !r.0 && r.1@ == t@,
        },
{
    if begins_with(t.as_slice(), s) {
        let p = chars_of(s);
        let x = slice_of(t.as_slice(), p.len(), t.len());
        assert(x@ =~= t@.skip(s@.len() as int));
        (true, x)
    } else {
        (false, t)
    }
}

/// Extracts the user portion of a SIP From/To header value.
pub fn user_of(value: &str) -> (r: Option<String>)
    ensures
        text::opt_text(r) == user_in(value@),
{
    let v = chars_of(value);
    let i: usize = find_class(v.as_slice(), 0, Class::Is('<'), true);
    let uri = if i < v.len() {
        let rest = slice_of(v.as_slice(), i + 1, v.len());
        assert(rest@ =~= v@.skip(i + 1));
        take_before(rest.as_slice(), '>')
    } else {
        v
    };
    let (sips, a) = strip(uri, "sips:");
    let after = if sips {
        a
    } else {
        strip(a, "sip:").1
    };
    let bare = take_before(after.as_slice(), ';');
    let mut n: usize = bare.len();
    while n > 0 && bare[n - 1] != '@'
        invariant
            n <= bare.len(),
            last_before(bare@, '@', bare@.len() as int) == last_before(bare@, '@', n as int),
        decreases n,
    {
        n -= 1;
    }
    let keep: usize = if n > 0 {
        n - 1
    } else {
        bare.len()
    };
    let head = slice_of(bare.as_slice(), 0, keep);
    assert(head@ =~= bare@.take(keep as int));
    let user = trim(head.as_slice());
    if user.len() == 0 {
        None
    } else {
        Some(string_of(user.as_slice()))
    }
}

// ----------------------------- Reason header -----------------------------

/// The value of the first `name=value` in a header, without quotes; it ends at
/// a semicolon, blank or line end.
pub open spec fn attr_in(t: Seq<char>, name: Seq<char>) -> Option<Seq<char>> {
    let needle = name.push('=');
    match text::find_from(t, needle, 0) {
        Some(i) => {
            let rest = t.skip(i + needle.len());
            Some(
                text::trim_class(
                    rest.take(text::scan(rest, 0, Class::AttrEnd, true)),
                    Class::Is('"'),
                ),
            )
        },
        None => None,
    }
}

/// Reads an attribute of a header.
pub fn extract_attr(t: &[char], name: &str) -> (r: Option<Vec<char>>)
    ensures
        match attr_in(t@, name@) {
            Some(v) => r is Some && r->Some_0@ == v,
            None => r is None,
        },
{
    let mut needle = chars_of(name);
    needle.push('=');
    match find(t, needle.as_slice(), 0) {
        Some(i) => {
            let n: usize = t.len();
            assert(i + needle@.len() <= n);
            let rest = slice_of(t, i + needle.len(), n);
            assert(rest@ =~= t@.skip(i + needle@.len()));
            let e: usize = find_class(rest.as_slice(), 0, Class::AttrEnd, true);
            let val = slice_of(rest.as_slice(), 0, e);
            assert(val@ =~= rest@.take(e as int));
            Some(trim_by(val.as_slice(), Class::Is('"')))
        },
        None => None,
    }
}

/// Cause code and text of a line, where it is a Reason header with a cause.
pub open spec fn reason_in_line(l: Seq<char>) -> Option<(u32, Seq<char>)> {
    match without_prefix(l, "Reason:"@) {
        Some(r) => {
            let rest = text::trimmed(r);
            match attr_in(rest, "cause"@) {
                Some(c) => match text::uint_of(c, 0xffff_ffff) {
                    Some(n) => Some(
                        (
                            n as u32,
                            match attr_in(rest, "text"@) {
                                Some(t) => text::trim_class(t, Class::Is('"')),
                                None => Seq::empty(),
                            },
                        ),
                    ),
                    None => None,
                },
                None => None,
            }
        },
        None => None,
    }
}

pub open spec fn reason_in_lines(ls: Seq<Seq<char>>, i: int) -> Option<(u32, Seq<char>)>
    decreases ls.len() - i,
{
    if i >= ls.len() {
        None
    } else if reason_in_line(ls[i]) is Some {
        reason_in_line(ls[i])
    } else {
        reason_in_lines(ls, i + 1)
    }
}

/// Cause code and text of the first Reason header with a cause.
pub open spec fn reason_in(raw: Seq<u8>) -> Option<(u32, Seq<char>)> {
    if valid_utf8(raw) {
        reason_in_lines(text::lines_of(decode_utf8(raw)), 0)
    } else {
        None
    }
}

fn line_reason(l: &Vec<char>) -> (r: Option<(u32, String)>)
    ensures
        match reason_in_line(l@) {
            Some((c, t)) => r is Some && r->Some_0.0 == c && r->Some_0.1@ == t,
            None => r is None,
        },
{
    if !begins_with(l.as_slice(), "Reason:") {
        return None;
    }
    let tag = chars_of("Reason:");
    let body = slice_of(l.as_slice(), tag.len(), l.len());
    assert(body@ =~= l@.skip("Reason:"@.len() as int));
    let rest = trim(body.as_slice());
    let code: u32 = match extract_attr(rest.as_slice(), "cause") {
        Some(c) => match parse_uint(c.as_slice(), 0xffff_ffff) {
            Some(n) => n as u32,
            None => return None,
        },
        None => return None,
    };
    let words = match extract_attr(rest.as_slice(), "text") {
        Some(t) => {
            let u = trim_by(t.as_slice(), Class::Is('"'));
            string_of(u.as_slice())
        },
        None => {
            let s = String::new();
            assert(s@ =~= Seq::<char>::empty());
            s
        },
    };
    Some((code, words))
}

/// Extracts the hangup cause (code and text) from a Reason header in the raw
/// message, if present.
pub fn reason_from_raw(raw: &[u8]) -> (r: Option<(u32, String)>)
    ensures
        match reason_in(raw@) {
            Some((c, t)) => r is Some && r->Some_0.0 == c && r->Some_0.1@ == t,
            None => r is None,
        },
{
    let t = match text_exact(raw) {
        Some(t) => t,
        None => return None,
    };
    let c = chars_of(t.as_str());
    let ls = lines(c.as_slice());
    let ghost lv = text::lines_of(decode_utf8(raw@));
    let mut i: usize = 0;
    while i < ls.len()
        invariant
            i <= ls.len(),
            lv == text::deep(ls@),
            reason_in(raw@) == reason_in_lines(lv, i as int),
        decreases ls.len() - i,
    {
        assert(lv[i as int] == ls@[i as int]@);
        let r = line_reason(&ls[i]);
        if r.is_some() {
            return r;
        }
        i += 1;
    }
    None
}

// ----------------------------- transitions -----------------------------

/// Milliseconds from `a` to `b`, as a 32-bit number; none, if `b` is timed
/// before `a`.
pub open spec fn ms32(a: u64, b: u64) -> u32 {
    if b >= a {
        ((b - a) / 1000 % 0x1_0000_0000) as u32
    } else {
        0
    }
}

pub open spec fn first_time(old: Option<u64>, ts: u64) -> Option<u64> {
    if old is Some {
        old
    } else {
        Some(ts)
    }
}

/// The message is a response to a request of the named method.
pub open spec fn answers(m: MsgView, method: Seq<char>) -> bool {
    match m.cseq_method {
        Some(x) => text::same_word(x, method),
        None => false,
    }
}

/// The message is a response to the INVITE, or to an unknown request.
pub open spec fn answers_invite(m: MsgView) -> bool {
    m.cseq_method is None || answers(m, "INVITE"@)
}

/// Still being set up.
pub open spec fn pending(s: CallState) -> bool {
    s == CallState::Dialing || s == CallState::Ringing
}

/// Counters, the message list, and the identities that the first INVITE gives.
pub open spec fn noted(c: CallView, m: MsgView) -> CallView {
    let d = CallView {
        pkts_sip: (c.pkts_sip + 1) as u64,
        bytes: (c.bytes + m.raw.len()) as u64,
        messages: c.messages.push(m),
        ..c
    };
    if m.method == Some(Method::Invite) {
        let e = if d.from_uri is None {
            CallView {
                from_uri: m.from_uri,
                from_user: match m.from_uri {
                    Some(u) => user_in(u),
                    None => None,
                },
                ..d
            }
        } else {
            d
        };
        if e.to_uri is None {
            CallView {
                to_uri: m.to_uri,
                to_user: match m.to_uri {
                    Some(u) => user_in(u),
                    None => None,
                },
                ..e
            }
        } else {
            e
        }
    } else {
        d
    }
}

/// The initial INVITE: the call is dialing, and nobody has hung up.
pub open spec fn on_invite(c: CallView, m: MsgView) -> CallView {
    CallView {
        invite_ts: first_time(c.invite_ts, m.ts_us),
        invite_key: if c.invite_key is Some {
            c.invite_key
        } else {
            Some(addr_text::ip_text(m.flow.src.ip))
        },
        state: CallState::Dialing,
        hangup_by: None,
        ..c
    }
}

/// Whether the caller sent a request: by its From URI, or else by the address that
/// the INVITE came from.
pub open spec fn from_caller(c: CallView, m: MsgView) -> Option<bool> {
    match (c.from_uri, m.from_uri) {
        (Some(a), Some(b)) => Some(a == b),
        _ => match c.invite_key {
            Some(k) => Some(k == addr_text::ip_text(m.flow.src.ip)),
            None => None,
        },
    }
}

/// Who hung up with a BYE, if that is known.
pub open spec fn bye_sender(c: CallView, m: MsgView) -> Option<HangupBy> {
    match from_caller(c, m) {
        Some(true) => Some(HangupBy::Caller),
        Some(false) => Some(HangupBy::Callee),
        None => None,
    }
}

/// Any other request: the first BYE leaves its time, its sender and its cause, CANCEL
/// ends a call that has not ended.
pub open spec fn on_request(c: CallView, m: MsgView) -> CallView {
    if m.method == Some(Method::Bye) {
        let d = if c.bye_ts is None {
            CallView { bye_ts: Some(m.ts_us), hangup_by: bye_sender(c, m), ..c }
        } else {
            c
        };
        match reason_in(m.raw) {
            Some((code, t)) => CallView {
                hangup: HangupView {
                    code: Some(code),
                    reason: if t.len() > 0 {
                        Some(t)
                    } else {
                        d.hangup.reason
                    },
                },
                ..d
            },
            None => d,
        }
    } else if m.method == Some(Method::Cancel) && c.state != CallState::Completed && c.state
        != CallState::Failed {
        CallView {
            state: CallState::Canceled,
            end_ts: Some(m.ts_us),
            hangup_by: Some(HangupBy::Cancel),
            ..c
        }
    } else {
        c
    }
}

/// The end of a call: completed if it had been answered.
pub open spec fn ended(c: CallView, ts: u64) -> CallView {
    CallView {
        state: if c.answer_ts is Some {
            CallState::Completed
        } else {
            CallState::Failed
        },
        end_ts: first_time(c.end_ts, ts),
        ..c
    }
}

/// The first provisional response gives the post-dial delay, where the INVITE was
/// seen.
pub open spec fn with_pdd(c: CallView, ts: u64) -> CallView {
    if c.trying_ts is None && c.ringing_ts is None {
        CallView {
            pdd_ms: match c.invite_ts {
                Some(i) => Some(ms32(i, ts)),
                None => None,
            },
            ..c
        }
    } else {
        c
    }
}

/// A provisional response to the INVITE: 18x rings, and 183 with SDP brings early
/// media.
pub open spec fn on_provisional(c: CallView, m: MsgView, code: u16) -> CallView {
    let d = with_pdd(c, m.ts_us);
    if 180 <= code < 190 {
        CallView {
            ringing_ts: first_time(d.ringing_ts, m.ts_us),
            ring_code: if d.ring_code is None && (code == 180 || code == 183) {
                Some(code)
            } else {
                d.ring_code
            },
            early_media: d.early_media || (code == 183 && m.has_sdp),
            state: CallState::Ringing,
            ..d
        }
    } else {
        CallView { trying_ts: first_time(d.trying_ts, m.ts_us), ..d }
    }
}

/// A success response: to BYE it ends the call, to INVITE the first one answers it.
pub open spec fn on_success(c: CallView, m: MsgView) -> CallView {
    if answers(m, "BYE"@) {
        ended(c, m.ts_us)
    } else if answers_invite(m) && c.answer_ts is None {
        CallView {
            answer_ts: Some(m.ts_us),
            setup_ms: match c.invite_ts {
                Some(i) => Some(ms32(i, m.ts_us)),
                None => c.setup_ms,
            },
            ring_ms: match c.ringing_ts {
                Some(r) => Some(ms32(r, m.ts_us)),
                None => c.ring_ms,
            },
            state: CallState::Active,
            outcome: Outcome::Answered,
            ..c
        }
    } else {
        c
    }
}

/// A failure response. To the INVITE it is a refusal, or the echo of a CANCEL.
pub open spec fn on_failure(c: CallView, m: MsgView, code: u16) -> CallView {
    let d = CallView { hangup: HangupView { code: Some(code as u32), ..c.hangup }, ..c };
    if answers(m, "BYE"@) {
        ended(d, m.ts_us)
    } else if code == 487 {
        CallView {
            state: CallState::Canceled,
            outcome: Outcome::Canceled,
            hangup_by: if d.hangup_by is None {
                Some(HangupBy::Cancel)
            } else {
                d.hangup_by
            },
            ..d
        }
    } else if pending(c.state) {
        CallView {
            state: CallState::Failed,
            outcome: if 400 <= code < 500 {
                Outcome::Rejected
            } else {
                Outcome::Failed
            },
            end_ts: first_time(d.end_ts, m.ts_us),
            hangup_by: if answers_invite(m) {
                Some(HangupBy::Reject)
            } else {
                d.hangup_by
            },
            ..d
        }
    } else {
        ended(d, m.ts_us)
    }
}

pub open spec fn on_response(c: CallView, m: MsgView, code: u16) -> CallView {
    if 100 <= code < 200 && answers_invite(m) && pending(c.state) {
        on_provisional(c, m, code)
    } else if 200 <= code < 300 {
        on_success(c, m)
    } else if code >= 300 {
        on_failure(c, m, code)
    } else {
        c
    }
}

/// What a message makes of a call.
pub open spec fn apply(c: CallView, m: MsgView) -> CallView {
    let d = noted(c, m);
    if m.is_initial_invite() {
        on_invite(d, m)
    } else if m.is_request {
        on_request(d, m)
    } else {
        match m.status {
            Some(code) => on_response(d, m, code),
            None => d,
        }
    }
}

/// The counters have room for the message.
pub open spec fn can_apply(c: CallView, m: MsgView) -> bool {
    &&& c.pkts_sip < u64::MAX
    &&& c.bytes + m.raw.len() <= u64::MAX
}

fn answers_method(msg: &SipMsg, method: &str) -> (r: bool)
    ensures
        r == answers(msg@, method@),
{
    match &msg.cseq_method {
        Some(s) => {
            let c = chars_of(s.as_str());
            eq_ignore_case(c.as_slice(), method)
        },
        None => false,
    }
}

fn opt_user(uri: &Option<String>) -> (r: Option<String>)
    ensures
        text::opt_text(r) == match text::opt_text(*uri) {
            Some(u) => user_in(u),
            None => None,
        },
{
    match uri {
        Some(u) => user_of(u.as_str()),
        None => None,
    }
}

fn end_call(call: &mut Call, ts: u64)
    ensures
        final(call)@ == ended(old(call)@, ts),
{
    call.state = if call.answer_ts.is_some() {
        CallState::Completed
    } else {
        CallState::Failed
    };
    if call.end_ts.is_none() {
        call.end_ts = Some(ts);
    }
}

fn sender_of_bye(call: &Call, msg: &SipMsg) -> (r: Option<HangupBy>)
    ensures
        r == bye_sender(call@, msg@),
{
    let by_caller: bool = match (&call.from_uri, &msg.from_uri) {
        (Some(a), Some(b)) => str_eq(a.as_str(), b.as_str()),
        _ => match &call.invite_key {
            Some(k) => {
                let src = ip_string(msg.flow.src.ip);
                str_eq(k.as_str(), src.as_str())
            },
            None => return None,
        },
    };
    if by_caller {
        Some(HangupBy::Caller)
    } else {
        Some(HangupBy::Callee)
    }
}

fn apply_request(call: &mut Call, msg: &SipMsg)
    ensures
        final(call)@ == on_request(old(call)@, msg@),
{
    match msg.method {
        Some(Method::Bye) => {
            if call.bye_ts.is_none() {
                call.hangup_by = sender_of_bye(call, msg);
                call.bye_ts = Some(msg.ts_us);
            }
            if let Some((code, t)) = reason_from_raw(msg.raw.as_slice()) {
                call.hangup.code = Some(code);
                if !t.as_str().is_empty() {
                    call.hangup.reason = Some(t);
                }
            }
        },
        Some(Method::Cancel) => {
            if call.state != CallState::Completed && call.state != CallState::Failed {
                call.state = CallState::Canceled;
                call.end_ts = Some(msg.ts_us);
                call.hangup_by = Some(HangupBy::Cancel);
            }
        },
        _ => {},
    }
}

fn apply_response(call: &mut Call, msg: &SipMsg, code: u16)
    ensures
        final(call)@ == on_response(old(call)@, msg@, code),
{
    let to_invite: bool = msg.cseq_method.is_none() || answers_method(msg, "INVITE");
    let setting_up: bool = call.state == CallState::Dialing || call.state == CallState::Ringing;
    if code >= 100 && code < 200 && to_invite && setting_up {
        if call.trying_ts.is_none() && call.ringing_ts.is_none() {
            call.pdd_ms = match call.invite_ts {
                Some(i) => Some((msg.ts_us.saturating_sub(i) / 1000 % 0x1_0000_0000) as u32),
                None => None,
            };
        }
        if code >= 180 && code < 190 {
            if call.ringing_ts.is_none() {
                call.ringing_ts = Some(msg.ts_us);
            }
            if call.ring_code.is_none() && (code == 180 || code == 183) {
                call.ring_code = Some(code);
            }
            if code == 183 && msg.has_sdp {
                call.early_media = true;
            }
            call.state = CallState::Ringing;
        } else if call.trying_ts.is_none() {
            call.trying_ts = Some(msg.ts_us);
        }
        return;
    }
    if code >= 200 && code < 300 {
        if answers_method(msg, "BYE") {
            end_call(call, msg.ts_us);
            return;
        }
        if to_invite && call.answer_ts.is_none() {
            call.answer_ts = Some(msg.ts_us);
            if let Some(inv) = call.invite_ts {
                call.setup_ms = Some((msg.ts_us.saturating_sub(inv) / 1000 % 0x1_0000_0000) as u32);
            }
            if let Some(ring) = call.ringing_ts {
                call.ring_ms = Some((msg.ts_us.saturating_sub(ring) / 1000 % 0x1_0000_0000) as u32);
            }
            call.state = CallState::Active;
            call.outcome = Outcome::Answered;
        }
        return;
    }
    if code >= 300 {
        call.hangup.code = Some(code as u32);
        if answers_method(msg, "BYE") {
            end_call(call, msg.ts_us);
        } else if code == 487 {
            call.state = CallState::Canceled;
            call.outcome = Outcome::Canceled;
            if call.hangup_by.is_none() {
                call.hangup_by = Some(HangupBy::Cancel);
            }
        } else if setting_up {
            call.state = CallState::Failed;
            call.outcome = if code >= 400 && code < 500 {
                Outcome::Rejected
            } else {
                Outcome::Failed
            };
            if call.end_ts.is_none() {
                call.end_ts = Some(msg.ts_us);
            }
            if to_invite {
                call.hangup_by = Some(HangupBy::Reject);
            }
        } else {
            end_call(call, msg.ts_us);
        }
    }
}

/// Applies one SIP message to a call.
pub fn apply_sip(call: &mut Call, msg: &SipMsg)
    requires
        can_apply(old(call)@, msg@),
    ensures
        final(call)@ == apply(old(call)@, msg@),
{
    let ghost before = *call;
    call.pkts_sip = call.pkts_sip + 1;
    call.bytes = call.bytes + msg.raw.len() as u64;
    let m = msg.copy();
    call.messages.push(m);
    assert(sip::msg_views(call.messages@) =~= sip::msg_views(before.messages@).push(msg@));
    let invite: bool = match msg.method {
        Some(m) => m == Method::Invite,
        None => false,
    };
    if invite {
        if call.from_uri.is_none() {
            call.from_uri = clone_opt(&msg.from_uri);
            call.from_user = opt_user(&msg.from_uri);
        }
        if call.to_uri.is_none() {
            call.to_uri = clone_opt(&msg.to_uri);
            call.to_user = opt_user(&msg.to_uri);
        }
    }
    assert(call@ == noted(before@, msg@));
    if msg.is_initial_invite() {
        if call.invite_ts.is_none() {
            call.invite_ts = Some(msg.ts_us);
        }
        if call.invite_key.is_none() {
            call.invite_key = Some(ip_string(msg.flow.src.ip));
        }
        call.state = CallState::Dialing;
        call.hangup_by = None;
        return;
    }
    if msg.is_request {
        apply_request(call, msg);
        return;
    }
    if let Some(code) = msg.status {
        apply_response(call, msg, code);
    }
}

// ----------------------------- laws -----------------------------

/// What holds of every call: one that is active, completed or counts as
/// answered was answered at some time; one that rings began to ring; and each delay
/// has its two ends.
pub open spec fn coherent(c: CallView) -> bool {
    &&& (c.state == CallState::Active || c.state == CallState::Completed || c.outcome
        == Outcome::Answered) ==> c.answer_ts is Some
    &&& c.state == CallState::Ringing ==> c.ringing_ts is Some
    &&& c.outcome == Outcome::Rejected ==> c.end_ts is Some
    &&& c.pdd_ms is Some ==> c.invite_ts is Some && (c.trying_ts is Some || c.ringing_ts is Some)
    &&& c.ring_ms is Some ==> c.answer_ts is Some && c.ringing_ts is Some
    &&& c.ring_code matches Some(code) ==> c.ringing_ts is Some && (code == 180 || code == 183)
    &&& c.early_media ==> c.ringing_ts is Some
    &&& c.setup_ms is Some ==> c.answer_ts is Some && c.invite_ts is Some
}

/// A new call is coherent.
pub proof fn law_fresh_coherent(call_id: Seq<char>)
    ensures
        coherent(CallView::fresh(call_id)),
{
}

/// No message makes a coherent call incoherent.
pub proof fn law_apply_coherent(c: CallView, m: MsgView)
    requires
        coherent(c),
    ensures
        coherent(apply(c, m)),
{
}

/// The first time of an event stands: no later message moves the times of the
/// INVITE, the first provisional responses, the answer or the BYE, nor the
/// caller's identity.
pub proof fn law_first_times_stand(c: CallView, m: MsgView)
    ensures
        c.invite_ts is Some ==> apply(c, m).invite_ts == c.invite_ts,
        c.trying_ts is Some ==> apply(c, m).trying_ts == c.trying_ts,
        c.ringing_ts is Some ==> apply(c, m).ringing_ts == c.ringing_ts,
        c.trying_ts is Some || c.ringing_ts is Some ==> apply(c, m).pdd_ms == c.pdd_ms,
        c.ring_code is Some ==> apply(c, m).ring_code == c.ring_code,
        c.answer_ts is Some ==> apply(c, m).answer_ts == c.answer_ts && apply(c, m).setup_ms
            == c.setup_ms && apply(c, m).ring_ms == c.ring_ms,
        c.bye_ts is Some ==> apply(c, m).bye_ts == c.bye_ts,
        c.from_uri is Some ==> apply(c, m).from_uri == c.from_uri && apply(c, m).from_user
            == c.from_user,
        c.to_uri is Some ==> apply(c, m).to_uri == c.to_uri && apply(c, m).to_user == c.to_user,
        c.invite_key is Some ==> apply(c, m).invite_key == c.invite_key,
{
}

/// The delays of a call that are kept as its messages come are those that are
/// computed from the finished call.
pub open spec fn delays_agree(c: CallView) -> bool {
    &&& c.pdd_ms == match (c.invite_ts, metrics::first_provisional(c)) {
        (Some(i), Some(p)) => Some(ms32(i, p)),
        _ => None,
    }
    &&& c.setup_ms == match (c.invite_ts, c.answer_ts) {
        (Some(i), Some(a)) => Some(ms32(i, a)),
        _ => None,
    }
}

/// No provisional response is later than a time.
pub open spec fn none_later(c: CallView, ts: u64) -> bool {
    &&& c.trying_ts matches Some(t) ==> t <= ts
    &&& c.ringing_ts matches Some(t) ==> t <= ts
}

/// From its INVITE on, a call whose messages come in the order of their times keeps
/// the delays that are computed from it when it is finished.
pub proof fn law_delays_agree(c: CallView, m: MsgView)
    requires
        c.invite_ts is Some || m.is_initial_invite() && c.trying_ts is None && c.ringing_ts is None
            && c.answer_ts is None,
        delays_agree(c),
        none_later(c, m.ts_us),
    ensures
        apply(c, m).invite_ts is Some,
        delays_agree(apply(c, m)),
        none_later(apply(c, m), m.ts_us),
{
    let d = noted(c, m);
    if m.is_initial_invite() {
    } else if m.is_request {
        assert(on_request(d, m).pdd_ms == d.pdd_ms);
    } else if let Some(code) = m.status {
        let e = on_response(d, m, code);
        if 100 <= code < 200 && answers_invite(m) && pending(d.state) {
            lemma_provisional_agrees(d, m, code);
        } else if 200 <= code < 300 {
            assert(e.pdd_ms == d.pdd_ms);
        } else if code >= 300 {
            assert(e.pdd_ms == d.pdd_ms && e.setup_ms == d.setup_ms);
        }
    }
}

proof fn lemma_provisional_agrees(c: CallView, m: MsgView, code: u16)
    requires
        c.invite_ts is Some,
        delays_agree(c),
        none_later(c, m.ts_us),
    ensures
        delays_agree(on_provisional(c, m, code)),
        none_later(on_provisional(c, m, code), m.ts_us),
{
}

/// Only a success response to the INVITE, or to an unknown request, answers a call.
pub proof fn law_only_invite_answers(c: CallView, m: MsgView)
    requires
        c.answer_ts is None,
    ensures
        apply(c, m).answer_ts is Some <==> !m.is_request && answers_invite(m) && m.status is Some
            && 200 <= m.status->Some_0 < 300,
{
    reveal_strlit("BYE");
    reveal_strlit("INVITE");
    assert(text::lower("BYE"@).len() == 3);
    assert(text::lower("INVITE"@).len() == 6);
}

/// Every message is kept, in order, and counted; nothing outside signaling
/// changes.
pub proof fn law_messages_kept(c: CallView, m: MsgView)
    requires
        can_apply(c, m),
    ensures
        apply(c, m).messages == c.messages.push(m),
        apply(c, m).pkts_sip == c.pkts_sip + 1,
        apply(c, m).bytes == c.bytes + m.raw.len(),
        apply(c, m).call_id == c.call_id,
        apply(c, m).pkts_rtp == c.pkts_rtp,
        apply(c, m).pkts_rtcp == c.pkts_rtcp,
        apply(c, m).negotiated == c.negotiated,
        apply(c, m).ips == c.ips,
{
}

/// An answered call whose BYE is answered is completed, whatever the response.
pub proof fn law_bye_completes(c: CallView, m: MsgView, code: u16)
    requires
        c.answer_ts is Some,
        !m.is_request,
        m.status == Some(code),
        code >= 200,
        answers(m, "BYE"@),
        m.method is None,
    ensures
        apply(c, m).state == CallState::Completed,
        apply(c, m).end_ts is Some,
{
}

} // verus!
