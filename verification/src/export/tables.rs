//! The words that an export uses, and what they stand for.
use crate::diagnostics;
use crate::diagnostics::Severity;
use crate::model::addr_laws::lemma_hex;
use crate::model::addr_text;
use crate::model::addr_text::push_hex;
use crate::model::sip::{CallState, Method, Outcome};
use crate::text;
use crate::text::{begins_with, chars_of, eq_ignore_case, slice_of, str_eq};
use vstd::prelude::*;

verus! {

/// The state that a word names; failed, if it names none.
pub open spec fn state_of(t: Option<Seq<char>>) -> CallState {
    if t == Some("Dialing"@) {
        CallState::Dialing
    } else if t == Some("Ringing"@) {
        CallState::Ringing
    } else if t == Some("Active"@) {
        CallState::Active
    } else if t == Some("Completed"@) {
        CallState::Completed
    } else if t == Some("Canceled"@) {
        CallState::Canceled
    } else {
        CallState::Failed
    }
}

pub fn parse_state(s: &Option<String>) -> (r: CallState)
    ensures
        r == state_of(text::opt_text(*s)),
{
    match s {
        Some(t) => {
            let t = t.as_str();
            if str_eq(t, "Dialing") {
                CallState::Dialing
            } else if str_eq(t, "Ringing") {
                CallState::Ringing
            } else if str_eq(t, "Active") {
                CallState::Active
            } else if str_eq(t, "Completed") {
                CallState::Completed
            } else if str_eq(t, "Canceled") {
                CallState::Canceled
            } else {
                CallState::Failed
            }
        },
        None => CallState::Failed,
    }
}

/// The word for an outcome.
pub open spec fn outcome_text(o: Outcome) -> Seq<char> {
    match o {
        Outcome::InProgress => "InProgress"@,
        Outcome::Answered => "Answered"@,
        Outcome::Rejected => "Rejected"@,
        Outcome::NoAnswer => "NoAnswer"@,
        Outcome::Canceled => "Canceled"@,
        Outcome::Failed => "Failed"@,
    }
}

pub fn outcome_word(o: Outcome) -> (r: &'static str)
    ensures
        r@ == outcome_text(o),
{
    match o {
        Outcome::InProgress => "InProgress",
        Outcome::Answered => "Answered",
        Outcome::Rejected => "Rejected",
        Outcome::NoAnswer => "NoAnswer",
        Outcome::Canceled => "Canceled",
        Outcome::Failed => "Failed",
    }
}

/// The outcome that a word names; in progress, if it names none.
pub open spec fn outcome_of(t: Option<Seq<char>>) -> Outcome {
    if t == Some("Answered"@) {
        Outcome::Answered
    } else if t == Some("Rejected"@) {
        Outcome::Rejected
    } else if t == Some("NoAnswer"@) {
        Outcome::NoAnswer
    } else if t == Some("Canceled"@) {
        Outcome::Canceled
    } else if t == Some("Failed"@) {
        Outcome::Failed
    } else {
        Outcome::InProgress
    }
}

pub fn parse_outcome(s: &Option<String>) -> (r: Outcome)
    ensures
        r == outcome_of(text::opt_text(*s)),
{
    match s {
        Some(t) => {
            let t = t.as_str();
            if str_eq(t, "Answered") {
                Outcome::Answered
            } else if str_eq(t, "Rejected") {
                Outcome::Rejected
            } else if str_eq(t, "NoAnswer") {
                Outcome::NoAnswer
            } else if str_eq(t, "Canceled") {
                Outcome::Canceled
            } else if str_eq(t, "Failed") {
                Outcome::Failed
            } else {
                Outcome::InProgress
            }
        },
        None => Outcome::InProgress,
    }
}

/// The severity that a label names; a warning, if it names none.
pub open spec fn severity_of(t: Option<Seq<char>>) -> Severity {
    if t == Some("CRIT"@) {
        Severity::Critical
    } else if t == Some("INFO"@) {
        Severity::Info
    } else {
        Severity::Warn
    }
}

pub fn parse_severity(s: &Option<String>) -> (r: Severity)
    ensures
        r == severity_of(text::opt_text(*s)),
{
    match s {
        Some(t) => {
            let t = t.as_str();
            if str_eq(t, "CRIT") {
                Severity::Critical
            } else if str_eq(t, "INFO") {
                Severity::Info
            } else {
                Severity::Warn
            }
        },
        None => Severity::Warn,
    }
}

/// The severity of a number in an event log.
pub open spec fn severity_numbered(n: u8) -> Severity {
    if n == 0 {
        Severity::Info
    } else if n == 1 {
        Severity::Warn
    } else {
        Severity::Critical
    }
}

pub fn severity_from(n: u8) -> (r: Severity)
    ensures
        r == severity_numbered(n),
{
    match n {
        0 => Severity::Info,
        1 => Severity::Warn,
        _ => Severity::Critical,
    }
}

/// Whether a text is one of the diagnostic codes.
pub open spec fn is_code(t: Seq<char>) -> bool {
    ||| t == diagnostics::CONTACT_UNREACHABLE@
    ||| t == diagnostics::CONTACT_PRIVATE_NAT@
    ||| t == diagnostics::CONTACT_MCAST@
    ||| t == diagnostics::RR_NOT_HONORED@
    ||| t == diagnostics::RR_DEPTH_MISMATCH@
    ||| t == diagnostics::SDP_HOLD@
    ||| t == diagnostics::RTP_PT_MISMATCH@
    ||| t == diagnostics::RTP_FLOW_UNEXPECTED@
    ||| t == diagnostics::RTP_PT_CHANGED@
    ||| t == diagnostics::ONE_WAY_MEDIA@
    ||| t == diagnostics::TURN_ALLOC_OK@
    ||| t == diagnostics::TURN_ALLOC_FAILED@
    ||| t == diagnostics::TURN_REFRESH_FAILED@
    ||| t == diagnostics::TURN_RELAY_MEDIA@
    ||| t == diagnostics::TURN_CHANNEL_MEDIA@
    ||| t == diagnostics::TURN_SEND_IND_MEDIA@
    ||| t == diagnostics::TURN_LEG_IMBALANCE@
}

/// A diagnostic code read back; one that is not known is shown as such.
pub open spec fn code_named(t: Seq<char>) -> Seq<char> {
    if is_code(t) {
        t
    } else {
        "UNKNOWN"@
    }
}

pub fn code_from_str(s: &str) -> (r: &'static str)
    ensures
        r@ == code_named(s@),
{
    if str_eq(s, diagnostics::CONTACT_UNREACHABLE) {
        diagnostics::CONTACT_UNREACHABLE
    } else if str_eq(s, diagnostics::CONTACT_PRIVATE_NAT) {
        diagnostics::CONTACT_PRIVATE_NAT
    } else if str_eq(s, diagnostics::CONTACT_MCAST) {
        diagnostics::CONTACT_MCAST
    } else if str_eq(s, diagnostics::RR_NOT_HONORED) {
        diagnostics::RR_NOT_HONORED
    } else if str_eq(s, diagnostics::RR_DEPTH_MISMATCH) {
        diagnostics::RR_DEPTH_MISMATCH
    } else if str_eq(s, diagnostics::SDP_HOLD) {
        diagnostics::SDP_HOLD
    } else if str_eq(s, diagnostics::RTP_PT_MISMATCH) {
        diagnostics::RTP_PT_MISMATCH
    } else if str_eq(s, diagnostics::RTP_FLOW_UNEXPECTED) {
        diagnostics::RTP_FLOW_UNEXPECTED
    } else if str_eq(s, diagnostics::RTP_PT_CHANGED) {
        diagnostics::RTP_PT_CHANGED
    } else if str_eq(s, diagnostics::ONE_WAY_MEDIA) {
        diagnostics::ONE_WAY_MEDIA
    } else if str_eq(s, diagnostics::TURN_ALLOC_OK) {
        diagnostics::TURN_ALLOC_OK
    } else if str_eq(s, diagnostics::TURN_ALLOC_FAILED) {
        diagnostics::TURN_ALLOC_FAILED
    } else if str_eq(s, diagnostics::TURN_REFRESH_FAILED) {
        diagnostics::TURN_REFRESH_FAILED
    } else if str_eq(s, diagnostics::TURN_RELAY_MEDIA) {
        diagnostics::TURN_RELAY_MEDIA
    } else if str_eq(s, diagnostics::TURN_CHANNEL_MEDIA) {
        diagnostics::TURN_CHANNEL_MEDIA
    } else if str_eq(s, diagnostics::TURN_SEND_IND_MEDIA) {
        diagnostics::TURN_SEND_IND_MEDIA
    } else if str_eq(s, diagnostics::TURN_LEG_IMBALANCE) {
        diagnostics::TURN_LEG_IMBALANCE
    } else {
        "UNKNOWN"
    }
}

/// An SSRC as it is written: hexadecimal, with its prefix.
pub open spec fn ssrc_text(ssrc: u32) -> Seq<char> {
    "0x"@ + addr_text::hex(ssrc as nat)
}

pub fn ssrc_string(ssrc: u32) -> (r: String)
    ensures
        r@ == ssrc_text(ssrc),
{
    let mut s = String::new();
    s.push_str("0x");
    push_hex(&mut s, ssrc as u64);
    assert(s@ =~= ssrc_text(ssrc));
    s
}

/// The number that hexadecimal digits spell, after an optional plus sign; none,
/// if there are none or it does not fit.
pub open spec fn hex_u32(t: Seq<char>) -> Option<u32> {
    let d = if t.len() > 0 && t[0] == '+' {
        t.skip(1)
    } else {
        t
    };
    match addr_text::hex_value(d) {
        Some(v) => if d.len() > 0 && v <= u32::MAX {
            Some(v as u32)
        } else {
            None
        },
        None => None,
    }
}

/// The SSRC that a text spells, with or without its prefix; zero, if it spells
/// none.
pub open spec fn ssrc_of(t: Seq<char>) -> u32 {
    let h = if text::occurs_at(t, "0x"@, 0) {
        t.skip(2)
    } else {
        t
    };
    match hex_u32(h) {
        Some(v) => v,
        None => 0,
    }
}

proof fn lemma_hex_value_none(t: Seq<char>, i: int)
    requires
        0 <= i <= t.len(),
        addr_text::hex_value(t.take(i)) is None,
    ensures
        addr_text::hex_value(t) is None,
    decreases t.len() - i,
{
    if i < t.len() {
        assert(t.take(i + 1).drop_last() =~= t.take(i));
        lemma_hex_value_none(t, i + 1);
    } else {
        assert(t.take(i) =~= t);
    }
}

proof fn lemma_hex_value_grows(t: Seq<char>, i: int)
    requires
        0 <= i <= t.len(),
        addr_text::hex_value(t) is Some,
        addr_text::hex_value(t.take(i)) is Some,
    ensures
        addr_text::hex_value(t.take(i))->Some_0 <= addr_text::hex_value(t)->Some_0,
    decreases t.len() - i,
{
    if i < t.len() {
        assert(t.take(i + 1).drop_last() =~= t.take(i));
        if addr_text::hex_value(t.take(i + 1)) is None {
            lemma_hex_value_none(t, i + 1);
        }
        lemma_hex_value_grows(t, i + 1);
    } else {
        assert(t.take(i) =~= t);
    }
}

fn digit_of(c: char) -> (r: Option<u64>)
    ensures
        match addr_text::hex_val(c) {
            Some(v) => r is Some && r->Some_0 == v && v < 16,
            None => r is None,
        },
{
    if c >= '0' && c <= '9' {
        Some((c as u8 - 48) as u64)
    } else if c >= 'a' && c <= 'f' {
        Some((c as u8 - 87) as u64)
    } else if c >= 'A' && c <= 'F' {
        Some((c as u8 - 55) as u64)
    } else {
        None
    }
}

fn read_hex(t: &[char]) -> (r: Option<u32>)
    ensures
        r == match addr_text::hex_value(t@) {
            Some(v) => if v <= u32::MAX {
                Some(v as u32)
            } else {
                None
            },
            None => None,
        },
{
    let mut v: u64 = 0;
    let mut i: usize = 0;
    assert(t@.take(0) =~= Seq::<char>::empty());
    while i < t.len()
        invariant
            i <= t.len(),
            v <= u32::MAX,
            addr_text::hex_value(t@.take(i as int)) == Some(v as nat),
        decreases t.len() - i,
    {
        proof {
            assert(t@.take(i + 1).drop_last() =~= t@.take(i as int));
            assert(t@.take(i + 1).last() == t@[i as int]);
        }
        match digit_of(t[i]) {
            Some(d) => {
                let w: u64 = 16 * v + d;
                if w > 0xffff_ffff {
                    proof {
                        if addr_text::hex_value(t@) is Some {
                            lemma_hex_value_grows(t@, i + 1);
                        }
                    }
                    return None;
                }
                v = w;
            },
            None => {
                proof {
                    lemma_hex_value_none(t@, i + 1);
                }
                return None;
            },
        }
        i += 1;
    }
    assert(t@.take(i as int) =~= t@);
    Some(v as u32)
}

pub fn parse_ssrc(s: &str) -> (r: u32)
    ensures
        r == ssrc_of(s@),
{
    proof {
        reveal_strlit("0x");
    }
    let t = chars_of(s);
    let from: usize = if begins_with(t.as_slice(), "0x") {
        2
    } else {
        0
    };
    let h = slice_of(t.as_slice(), from, t.len());
    proof {
        if from == 2 {
            assert(h@ =~= t@.skip(2));
        } else {
            assert(h@ =~= t@);
        }
    }
    let plus: usize = if h.len() > 0 && h[0] == '+' {
        1
    } else {
        0
    };
    let d = slice_of(h.as_slice(), plus, h.len());
    proof {
        if plus == 1 {
            assert(d@ =~= h@.skip(1));
        } else {
            assert(d@ =~= h@);
        }
    }
    if d.len() == 0 {
        return 0;
    }
    match read_hex(d.as_slice()) {
        Some(v) => v,
        None => 0,
    }
}

/// The method that a word names, in any case.
pub open spec fn method_of(t: Seq<char>) -> Method {
    if text::same_word(t, "INVITE"@) {
        Method::Invite
    } else if text::same_word(t, "ACK"@) {
        Method::Ack
    } else if text::same_word(t, "BYE"@) {
        Method::Bye
    } else if text::same_word(t, "CANCEL"@) {
        Method::Cancel
    } else if text::same_word(t, "REGISTER"@) {
        Method::Register
    } else if text::same_word(t, "OPTIONS"@) {
        Method::Options
    } else if text::same_word(t, "PRACK"@) {
        Method::Prack
    } else if text::same_word(t, "UPDATE"@) {
        Method::Update
    } else if text::same_word(t, "SUBSCRIBE"@) {
        Method::Subscribe
    } else if text::same_word(t, "NOTIFY"@) {
        Method::Notify
    } else if text::same_word(t, "PUBLISH"@) {
        Method::Publish
    } else if text::same_word(t, "INFO"@) {
        Method::Info
    } else if text::same_word(t, "REFER"@) {
        Method::Refer
    } else if text::same_word(t, "MESSAGE"@) {
        Method::Message
    } else {
        Method::Other
    }
}

pub fn parse_method(s: &str) -> (r: Method)
    ensures
        r == method_of(s@),
{
    let c = chars_of(s);
    let t = c.as_slice();
    if eq_ignore_case(t, "INVITE") {
        Method::Invite
    } else if eq_ignore_case(t, "ACK") {
        Method::Ack
    } else if eq_ignore_case(t, "BYE") {
        Method::Bye
    } else if eq_ignore_case(t, "CANCEL") {
        Method::Cancel
    } else if eq_ignore_case(t, "REGISTER") {
        Method::Register
    } else if eq_ignore_case(t, "OPTIONS") {
        Method::Options
    } else if eq_ignore_case(t, "PRACK") {
        Method::Prack
    } else if eq_ignore_case(t, "UPDATE") {
        Method::Update
    } else if eq_ignore_case(t, "SUBSCRIBE") {
        Method::Subscribe
    } else if eq_ignore_case(t, "NOTIFY") {
        Method::Notify
    } else if eq_ignore_case(t, "PUBLISH") {
        Method::Publish
    } else if eq_ignore_case(t, "INFO") {
        Method::Info
    } else if eq_ignore_case(t, "REFER") {
        Method::Refer
    } else if eq_ignore_case(t, "MESSAGE") {
        Method::Message
    } else {
        Method::Other
    }
}

// ----------------------------- laws -----------------------------

/// A state, an outcome and a severity are read back from the words written for
/// them.
pub proof fn law_words_read_back(s: CallState, o: Outcome, v: Severity)
    ensures
        state_of(Some(s.spec_label())) == s,
        outcome_of(Some(outcome_text(o))) == o,
        severity_of(Some(v.spec_label())) == v,
{
    reveal_strlit("Dialing");
    reveal_strlit("Ringing");
    reveal_strlit("Active");
    reveal_strlit("Completed");
    reveal_strlit("Canceled");
    reveal_strlit("Failed");
    reveal_strlit("InProgress");
    reveal_strlit("Answered");
    reveal_strlit("Rejected");
    reveal_strlit("NoAnswer");
    reveal_strlit("CRIT");
    reveal_strlit("INFO");
    reveal_strlit("WARN");
    assert("Dialing"@[0] == 'D');
    assert("Ringing"@[0] == 'R' && "Ringing"@[1] == 'i');
    assert("Active"@[0] == 'A' && "Active"@[1] == 'c');
    assert("Completed"@[0] == 'C' && "Completed"@[1] == 'o');
    assert("Canceled"@[0] == 'C' && "Canceled"@[1] == 'a');
    assert("Failed"@[0] == 'F');
    assert("InProgress"@[0] == 'I' && "InProgress"@[1] == 'n');
    assert("Answered"@[0] == 'A' && "Answered"@[1] == 'n');
    assert("Rejected"@[0] == 'R' && "Rejected"@[1] == 'e');
    assert("NoAnswer"@[0] == 'N');
    assert("CRIT"@[0] == 'C');
    assert("INFO"@[0] == 'I');
    assert("WARN"@[0] == 'W');
}

/// An SSRC is read back from what is written for it.
pub proof fn law_ssrc_read_back(ssrc: u32)
    ensures
        ssrc_of(ssrc_text(ssrc)) == ssrc,
{
    reveal_strlit("0x");
    let t = ssrc_text(ssrc);
    lemma_hex(ssrc as nat);
    assert(addr_text::hex_val(addr_text::hex(ssrc as nat)[0]) is Some);
    assert(t.subrange(0, 2) =~= "0x"@);
    assert(t.skip(2) =~= addr_text::hex(ssrc as nat));
}

} // verus!
