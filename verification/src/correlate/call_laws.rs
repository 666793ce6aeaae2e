//! What each kind of message does to a call, case by case.
use crate::correlate::call::{answers, answers_invite, apply, reason_in};
use crate::model::addr_text;
use crate::model::sip::{CallState, CallView, HangupBy, HangupView, Method, MsgView, Outcome};
use crate::text;
use vstd::prelude::*;

verus! {

// ----------------------------- words -----------------------------

/// Two characters that differ at most in the case of an ASCII letter.
pub open spec fn alike(a: char, b: char) -> bool {
    ||| a == b
    ||| 'A' <= a <= 'Z' && b as int == a as int + 32
    ||| 'A' <= b <= 'Z' && a as int == b as int + 32
}

/// Two words that differ at most in the case of ASCII letters.
pub open spec fn same_letters(a: Seq<char>, b: Seq<char>) -> bool {
    a.len() == b.len() && forall|i: int| 0 <= i < a.len() ==> alike(#[trigger] a[i], b[i])
}

/// The request line or CSeq header of a message names a method.
pub open spec fn names(m: MsgView, method: Seq<char>) -> bool {
    m.cseq_method is Some && same_letters(m.cseq_method->Some_0, method)
}

/// Words are the same up to case where each letter is.
pub proof fn law_same_word(a: Seq<char>, b: Seq<char>)
    ensures
        text::same_word(a, b) <==> same_letters(a, b),
{
    let x = text::lower(a);
    let y = text::lower(b);
    if text::same_word(a, b) {
        assert(x.len() == a.len() && y.len() == b.len());
        assert forall|i: int| 0 <= i < a.len() implies alike(#[trigger] a[i], b[i]) by {
            assert(x[i] == text::lower_char(a[i]));
            assert(y[i] == text::lower_char(b[i]));
        }
    }
    if same_letters(a, b) {
        assert(x =~= y);
    }
}

/// A response answers a request where its CSeq header names the method, in any
/// case; one without CSeq counts as a response to the INVITE.
pub proof fn law_answers(m: MsgView, method: Seq<char>)
    ensures
        answers(m, method) <==> names(m, method),
        answers_invite(m) <==> m.cseq_method is None || names(m, "INVITE"@),
{
    if let Some(x) = m.cseq_method {
        law_same_word(x, method);
        law_same_word(x, "INVITE"@);
    }
}

/// Nothing answers both an INVITE and a BYE.
proof fn lemma_one_method(m: MsgView)
    ensures
        !(names(m, "BYE"@) && names(m, "INVITE"@)),
{
    reveal_strlit("BYE");
    reveal_strlit("INVITE");
}

// ----------------------------- responses -----------------------------

/// A call that has received a message, before the message has any effect.
pub open spec fn heard(c: CallView, m: MsgView) -> CallView {
    CallView {
        pkts_sip: (c.pkts_sip + 1) as u64,
        bytes: (c.bytes + m.raw.len()) as u64,
        messages: c.messages.push(m),
        ..c
    }
}

/// A response with a status.
pub open spec fn response(m: MsgView, code: u16) -> bool {
    !m.is_request && m.method is None && m.status == Some(code)
}

/// A 487 to anything but a BYE cancels the call, whatever its state; who hung up
/// is recorded once.
pub proof fn law_487_cancels(c: CallView, m: MsgView)
    requires
        !m.is_request,
        m.status == Some(487u16),
        !names(m, "BYE"@),
    ensures
        apply(c, m).state == CallState::Canceled,
        apply(c, m).outcome == Outcome::Canceled,
        apply(c, m).hangup.code == Some(487u32),
        apply(c, m).hangup.reason == c.hangup.reason,
        c.hangup_by is None ==> apply(c, m).hangup_by == Some(HangupBy::Cancel),
        c.hangup_by is Some ==> apply(c, m).hangup_by == c.hangup_by,
        apply(c, m).end_ts == c.end_ts,
        apply(c, m).answer_ts == c.answer_ts,
{
    law_answers(m, "BYE"@);
}

/// A final refusal while the call is being set up fails it: rejected by a 4xx,
/// failed by any other. It ends then, unless it had ended before, and a refusal of
/// the INVITE names the far side as the one that hung up.
pub proof fn law_refusal_fails(c: CallView, m: MsgView, code: u16)
    requires
        response(m, code),
        code >= 300,
        code != 487,
        c.state == CallState::Dialing || c.state == CallState::Ringing,
        !names(m, "BYE"@),
    ensures
        apply(c, m) == (CallView {
            state: CallState::Failed,
            outcome: if code / 100 == 4 {
                Outcome::Rejected
            } else {
                Outcome::Failed
            },
            hangup: HangupView { code: Some(code as u32), reason: c.hangup.reason },
            end_ts: if c.end_ts is Some {
                c.end_ts
            } else {
                Some(m.ts_us)
            },
            hangup_by: if m.cseq_method is None || names(m, "INVITE"@) {
                Some(HangupBy::Reject)
            } else {
                c.hangup_by
            },
            ..heard(c, m)
        }),
{
    law_answers(m, "BYE"@);
}

/// A final refusal of a call that is no longer being set up, or of a BYE, ends it: it
/// counts as completed where it had been answered and as failed otherwise. Its
/// outcome stands.
pub proof fn law_late_refusal_ends(c: CallView, m: MsgView, code: u16)
    requires
        response(m, code),
        code >= 300,
        names(m, "BYE"@) || code != 487 && c.state != CallState::Dialing && c.state
            != CallState::Ringing,
    ensures
        apply(c, m) == (CallView {
            state: if c.answer_ts is Some {
                CallState::Completed
            } else {
                CallState::Failed
            },
            hangup: HangupView { code: Some(code as u32), reason: c.hangup.reason },
            end_ts: if c.end_ts is Some {
                c.end_ts
            } else {
                Some(m.ts_us)
            },
            ..heard(c, m)
        }),
{
    law_answers(m, "BYE"@);
}

/// A success response to the BYE ends the call, and leaves its outcome, its cause
/// and who hung up.
pub proof fn law_bye_answered_ends(c: CallView, m: MsgView, code: u16)
    requires
        response(m, code),
        200 <= code < 300,
        names(m, "BYE"@),
    ensures
        apply(c, m) == (CallView {
            state: if c.answer_ts is Some {
                CallState::Completed
            } else {
                CallState::Failed
            },
            end_ts: if c.end_ts is Some {
                c.end_ts
            } else {
                Some(m.ts_us)
            },
            ..heard(c, m)
        }),
{
    law_answers(m, "BYE"@);
}

/// The first success response to the INVITE answers the call: it is active, and the
/// setup and ringing times are the whole milliseconds since the INVITE and since the
/// first ringing.
pub proof fn law_first_success_answers(c: CallView, m: MsgView, code: u16)
    requires
        response(m, code),
        200 <= code < 300,
        m.cseq_method is None || names(m, "INVITE"@),
        c.answer_ts is None,
    ensures
        apply(c, m).state == CallState::Active,
        apply(c, m).outcome == Outcome::Answered,
        apply(c, m).answer_ts == Some(m.ts_us),
        c.invite_ts is Some && c.invite_ts->Some_0 <= m.ts_us && m.ts_us - c.invite_ts->Some_0
            < 1000 * 0x1_0000_0000 ==> {
            &&& apply(c, m).setup_ms is Some
            &&& 1000 * apply(c, m).setup_ms->Some_0 <= m.ts_us - c.invite_ts->Some_0
            &&& m.ts_us - c.invite_ts->Some_0 < 1000 * apply(c, m).setup_ms->Some_0 + 1000
        },
        c.invite_ts is None ==> apply(c, m).setup_ms == c.setup_ms,
        c.ringing_ts is Some && c.ringing_ts->Some_0 <= m.ts_us && m.ts_us - c.ringing_ts->Some_0
            < 1000 * 0x1_0000_0000 ==> {
            &&& apply(c, m).ring_ms is Some
            &&& 1000 * apply(c, m).ring_ms->Some_0 <= m.ts_us - c.ringing_ts->Some_0
            &&& m.ts_us - c.ringing_ts->Some_0 < 1000 * apply(c, m).ring_ms->Some_0 + 1000
        },
        c.ringing_ts is None ==> apply(c, m).ring_ms == c.ring_ms,
        apply(c, m).end_ts == c.end_ts,
        apply(c, m).hangup == c.hangup,
        apply(c, m).hangup_by == c.hangup_by,
        apply(c, m).pdd_ms == c.pdd_ms,
{
    law_answers(m, "BYE"@);
    lemma_one_method(m);
    reveal_strlit("BYE");
}

/// A success response to any other request, and a later one to the INVITE, is kept
/// and changes nothing.
pub proof fn law_other_success_ignored(c: CallView, m: MsgView, code: u16)
    requires
        response(m, code),
        200 <= code < 300,
        !names(m, "BYE"@),
        c.answer_ts is Some || m.cseq_method is Some && !names(m, "INVITE"@),
    ensures
        apply(c, m) == heard(c, m),
{
    law_answers(m, "BYE"@);
}

/// The 18x responses to the INVITE, and no others, make a call ring: the first one
/// gives the time, the first 180 or 183 the kind of ringing, and a 183 with SDP
/// brings early media.
pub proof fn law_18x_rings(c: CallView, m: MsgView, code: u16)
    requires
        response(m, code),
        180 <= code <= 189,
        m.cseq_method is None || names(m, "INVITE"@),
        c.state == CallState::Dialing || c.state == CallState::Ringing,
    ensures
        apply(c, m) == (CallView {
            state: CallState::Ringing,
            ringing_ts: if c.ringing_ts is Some {
                c.ringing_ts
            } else {
                Some(m.ts_us)
            },
            ring_code: if c.ring_code is Some || code != 180 && code != 183 {
                c.ring_code
            } else {
                Some(code)
            },
            early_media: c.early_media || code == 183 && m.has_sdp,
            pdd_ms: apply(c, m).pdd_ms,
            ..heard(c, m)
        }),
{
    law_answers(m, "INVITE"@);
}

/// Any other provisional response to the INVITE shows that the call is being tried:
/// the first one gives the time, and the state stays.
pub proof fn law_other_1xx_tries(c: CallView, m: MsgView, code: u16)
    requires
        response(m, code),
        100 <= code <= 199,
        code < 180 || code > 189,
        m.cseq_method is None || names(m, "INVITE"@),
        c.state == CallState::Dialing || c.state == CallState::Ringing,
    ensures
        apply(c, m) == (CallView {
            trying_ts: if c.trying_ts is Some {
                c.trying_ts
            } else {
                Some(m.ts_us)
            },
            pdd_ms: apply(c, m).pdd_ms,
            ..heard(c, m)
        }),
{
    law_answers(m, "INVITE"@);
}

/// The post-dial delay is the whole milliseconds from the INVITE to the first
/// provisional response of either kind, and later ones leave it.
pub proof fn law_first_1xx_times_dialing(c: CallView, m: MsgView, code: u16)
    requires
        response(m, code),
        100 <= code <= 199,
        m.cseq_method is None || names(m, "INVITE"@),
        c.state == CallState::Dialing || c.state == CallState::Ringing,
    ensures
        c.trying_ts is Some || c.ringing_ts is Some ==> apply(c, m).pdd_ms == c.pdd_ms,
        c.trying_ts is None && c.ringing_ts is None && c.invite_ts is None ==> apply(c, m).pdd_ms
            is None,
        c.trying_ts is None && c.ringing_ts is None && c.invite_ts is Some
            && c.invite_ts->Some_0 <= m.ts_us && m.ts_us - c.invite_ts->Some_0 < 1000
            * 0x1_0000_0000 ==> {
            &&& apply(c, m).pdd_ms is Some
            &&& 1000 * apply(c, m).pdd_ms->Some_0 <= m.ts_us - c.invite_ts->Some_0
            &&& m.ts_us - c.invite_ts->Some_0 < 1000 * apply(c, m).pdd_ms->Some_0 + 1000
        },
{
    law_answers(m, "INVITE"@);
}

/// A provisional response to another request, or to a call that is no longer being
/// set up, and a response without a status or below 100, change nothing.
pub proof fn law_other_response_ignored(c: CallView, m: MsgView)
    requires
        !m.is_request,
        m.method is None,
        m.status is None || m.status->Some_0 < 100 || m.status->Some_0 < 200 && (m.cseq_method
            is Some && !names(m, "INVITE"@) || c.state != CallState::Dialing && c.state
            != CallState::Ringing),
    ensures
        apply(c, m) == heard(c, m),
{
    law_answers(m, "INVITE"@);
}

// ----------------------------- requests -----------------------------

/// An INVITE without a To tag sets the call up anew: it is dialing, and nobody has
/// hung up. The first one gives the time, the sender's address and both parties.
pub proof fn law_invite_dials(c: CallView, m: MsgView)
    requires
        m.is_request,
        m.method == Some(Method::Invite),
        m.to_tag is None,
    ensures
        apply(c, m).state == CallState::Dialing,
        apply(c, m).hangup_by is None,
        apply(c, m).invite_ts == (if c.invite_ts is Some {
            c.invite_ts
        } else {
            Some(m.ts_us)
        }),
        apply(c, m).invite_key == (if c.invite_key is Some {
            c.invite_key
        } else {
            Some(addr_text::ip_text(m.flow.src.ip))
        }),
        c.from_uri is None ==> apply(c, m).from_uri == m.from_uri,
        c.to_uri is None ==> apply(c, m).to_uri == m.to_uri,
        apply(c, m).outcome == c.outcome,
        apply(c, m).hangup == c.hangup,
        apply(c, m).trying_ts == c.trying_ts,
        apply(c, m).ringing_ts == c.ringing_ts,
        apply(c, m).answer_ts == c.answer_ts,
        apply(c, m).bye_ts == c.bye_ts,
        apply(c, m).end_ts == c.end_ts,
        apply(c, m).pdd_ms == c.pdd_ms,
        apply(c, m).setup_ms == c.setup_ms,
        apply(c, m).ring_ms == c.ring_ms,
{
}

/// A BYE does not end a call by itself: the first one leaves its time and its sender,
/// a caller by the From URI of the INVITE, and the state, the outcome and the end
/// wait for the response.
pub proof fn law_bye_noted(c: CallView, m: MsgView)
    requires
        m.is_request,
        m.method == Some(Method::Bye),
    ensures
        apply(c, m).state == c.state,
        apply(c, m).outcome == c.outcome,
        apply(c, m).end_ts == c.end_ts,
        apply(c, m).answer_ts == c.answer_ts,
        c.bye_ts is Some ==> apply(c, m).bye_ts == c.bye_ts && apply(c, m).hangup_by
            == c.hangup_by,
        c.bye_ts is None ==> {
            &&& apply(c, m).bye_ts == Some(m.ts_us)
            &&& c.from_uri is Some && m.from_uri is Some ==> apply(c, m).hangup_by == Some(
                if c.from_uri == m.from_uri {
                    HangupBy::Caller
                } else {
                    HangupBy::Callee
                },
            )
            &&& (c.from_uri is None || m.from_uri is None) && c.invite_key is Some ==> apply(
                c,
                m,
            ).hangup_by == Some(
                if c.invite_key == Some(addr_text::ip_text(m.flow.src.ip)) {
                    HangupBy::Caller
                } else {
                    HangupBy::Callee
                },
            )
            &&& (c.from_uri is None || m.from_uri is None) && c.invite_key is None ==> apply(
                c,
                m,
            ).hangup_by is None
        },
{
}

/// The cause of a BYE is that of its Reason header: its code always, its text where
/// there is one. Without such a header the cause stands.
pub proof fn law_bye_cause(c: CallView, m: MsgView)
    requires
        m.is_request,
        m.method == Some(Method::Bye),
    ensures
        reason_in(m.raw) is None ==> apply(c, m).hangup == c.hangup,
        reason_in(m.raw) matches Some(r) ==> {
            &&& apply(c, m).hangup.code == Some(r.0)
            &&& r.1.len() > 0 ==> apply(c, m).hangup.reason == Some(r.1)
            &&& r.1.len() == 0 ==> apply(c, m).hangup.reason == c.hangup.reason
        },
{
}

/// A CANCEL ends a call that has not completed or failed, at its own time; the outcome
/// waits for the response. On any other call it changes nothing.
pub proof fn law_cancel(c: CallView, m: MsgView)
    requires
        m.is_request,
        m.method == Some(Method::Cancel),
    ensures
        c.state == CallState::Completed || c.state == CallState::Failed ==> apply(c, m) == heard(
            c,
            m,
        ),
        c.state != CallState::Completed && c.state != CallState::Failed ==> apply(c, m) == (
        CallView {
            state: CallState::Canceled,
            end_ts: Some(m.ts_us),
            hangup_by: Some(HangupBy::Cancel),
            ..heard(c, m)
        }),
{
}

/// Other requests are kept and change nothing; an INVITE within the dialog may still
/// name the parties.
pub proof fn law_other_request_ignored(c: CallView, m: MsgView)
    requires
        m.is_request,
        m.method != Some(Method::Bye),
        m.method != Some(Method::Cancel),
        m.method != Some(Method::Invite) || m.to_tag is Some,
    ensures
        m.method != Some(Method::Invite) ==> apply(c, m) == heard(c, m),
        apply(c, m) == (CallView {
            from_uri: apply(c, m).from_uri,
            from_user: apply(c, m).from_user,
            to_uri: apply(c, m).to_uri,
            to_user: apply(c, m).to_user,
            ..heard(c, m)
        }),
        m.method == Some(Method::Invite) && c.from_uri is None ==> apply(c, m).from_uri
            == m.from_uri,
        m.method == Some(Method::Invite) && c.to_uri is None ==> apply(c, m).to_uri == m.to_uri,
{
}

} // verus!
