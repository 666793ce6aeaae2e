//! Call-level metrics, recomputed from a finished call: post-dial delay, setup
//! delay, outcome classification.
use crate::correlate::call;
use crate::model::sip::{Call, CallState, CallView, Outcome};
use vstd::prelude::*;

verus! {

/// The first provisional response: 100 Trying or 180/183, whichever came
/// earlier.
pub open spec fn first_provisional(c: CallView) -> Option<u64> {
    match (c.trying_ts, c.ringing_ts) {
        (Some(t), Some(r)) => Some(
            if t <= r {
                t
            } else {
                r
            },
        ),
        (Some(t), None) => Some(t),
        (None, r) => r,
    }
}

/// Post-Dial Delay: time from INVITE to the first provisional response. Without
/// a provisional response it is unavailable.
pub fn compute_pdd_ms(c: &Call) -> (r: Option<u32>)
    requires
        match (c@.invite_ts, first_provisional(c@)) {
            (Some(i), Some(p)) => i <= p,
            _ => true,
        },
    ensures
        r == match (c@.invite_ts, first_provisional(c@)) {
            (Some(i), Some(p)) => Some(call::ms32(i, p)),
            _ => None,
        },
{
    let invite: u64 = match c.invite_ts {
        Some(i) => i,
        None => return None,
    };
    let first: u64 = match (c.trying_ts, c.ringing_ts) {
        (Some(t), Some(r)) => if t <= r {
            t
        } else {
            r
        },
        (Some(t), None) => t,
        (None, Some(r)) => r,
        (None, None) => return None,
    };
    Some(((first - invite) / 1000 % 0x1_0000_0000) as u32)
}

/// Setup delay: time from INVITE to the first 2xx answer.
pub fn compute_setup_ms(c: &Call) -> (r: Option<u32>)
    requires
        match (c@.invite_ts, c@.answer_ts) {
            (Some(i), Some(a)) => i <= a,
            _ => true,
        },
    ensures
        r == match (c@.invite_ts, c@.answer_ts) {
            (Some(i), Some(a)) => Some(call::ms32(i, a)),
            _ => None,
        },
{
    match (c.invite_ts, c.answer_ts) {
        (Some(i), Some(a)) => Some(((a - i) / 1000 % 0x1_0000_0000) as u32),
        _ => None,
    }
}

/// The outcome that state and cause code tell.
pub open spec fn outcome_of(c: CallView) -> Outcome {
    match c.state {
        CallState::Completed => Outcome::Answered,
        CallState::Canceled => Outcome::Canceled,
        CallState::Failed => match c.hangup.code {
            Some(code) => if 400 <= code < 500 {
                Outcome::Rejected
            } else {
                Outcome::Failed
            },
            None => Outcome::Failed,
        },
        _ => Outcome::InProgress,
    }
}

/// Classifies the final outcome by state and cause.
pub fn classify_outcome(c: &Call) -> (r: Outcome)
    ensures
        r == outcome_of(c@),
{
    match c.state {
        CallState::Completed => Outcome::Answered,
        CallState::Canceled => Outcome::Canceled,
        CallState::Failed => match c.hangup.code {
            Some(code) => if code >= 400 && code < 500 {
                Outcome::Rejected
            } else {
                Outcome::Failed
            },
            None => Outcome::Failed,
        },
        _ => Outcome::InProgress,
    }
}

} // verus!
