//! The lines above the detail of a call.
use crate::model::addr::SocketAddr;
use crate::model::addr_text;
use crate::model::addr_text::ip_string;
use crate::model::sip::{B2buaInfo, HangupBy};
use crate::numfmt;
use crate::numfmt::fmt_secs;
use crate::store::snapshot::{Focus, FocusView};
use crate::text;
use crate::text::push_dec;
use crate::ui::lanes;
use crate::ui::lanes::{display_socket, display_user};
use crate::ui::mask;
use crate::ui::mask::mask_ip;
use vstd::prelude::*;

verus! {

/// A user agent that connects the legs of the call, with its address where there is one.
pub open spec fn b2bua_text(b: Option<B2buaInfo>, privacy: bool) -> Seq<char> {
    match b {
        Some(b) => "  ⇄ B2BUA "@ + (match b.addr {
            Some(ip) => if privacy {
                mask::masked_ip(ip)
            } else {
                addr_text::ip_text(ip)
            },
            None => "?"@,
        }) + " ("@ + text::dec(b.legs as nat) + " legs)"@,
        None => Seq::empty(),
    }
}

pub open spec fn linked_text(id: Option<Seq<char>>) -> Seq<char> {
    match id {
        Some(id) => "  ⇄ b-leg "@ + id,
        None => Seq::empty(),
    }
}

/// Some media of the call runs through a relay.
pub open spec fn runs_relayed(f: FocusView) -> bool {
    exists|i: int| 0 <= i < f.streams.len() && (#[trigger] f.streams[i]).via_turn
}

pub open spec fn title_of(f: FocusView, privacy: bool, linked: Option<Seq<char>>) -> Seq<char> {
    "Call "@ + f.call_id + " ("@ + lanes::user_text(f.from_user, privacy, "?"@) + " → "@
        + lanes::user_text(f.to_user, privacy, "?"@) + ") ["@ + f.state.spec_label() + "]"@
        + b2bua_text(f.b2bua, privacy) + linked_text(linked) + (if runs_relayed(f) {
        "  ⚙ via-TURN"@
    } else {
        Seq::empty()
    })
}

/// A party: its user agent, and its address.
pub open spec fn party_text(
    ua: Option<Seq<char>>,
    addr: Option<SocketAddr>,
    privacy: bool,
) -> Seq<char> {
    (match ua {
        Some(u) => u,
        None => "?"@,
    }) + " @ "@ + (match addr {
        Some(a) => lanes::shown_socket(a, privacy),
        None => "?"@,
    })
}

pub open spec fn wide(ms: Option<u32>) -> Option<u64> {
    match ms {
        Some(n) => Some(n as u64),
        None => None,
    }
}

pub open spec fn timing_of(f: FocusView) -> Seq<char> {
    "PDD "@ + numfmt::secs_text(wide(f.pdd_ms)) + " | Setup "@ + numfmt::secs_text(wide(f.setup_ms))
        + " | Ring "@ + numfmt::secs_text(wide(f.ring_ms)) + " | EarlyMedia "@ + (
    if f.early_media {
        "✓"@
    } else {
        "-"@
    })
}

/// Who ended the call and with which code, or else the code and the reason.
pub open spec fn end_of(
    by: Option<HangupBy>,
    code: Option<u32>,
    reason: Option<Seq<char>>,
) -> Seq<char> {
    match (by, code) {
        (Some(b), Some(c)) => "End: "@ + b.spec_label() + " "@ + text::dec(c as nat),
        (Some(b), None) => "End: "@ + b.spec_label() + " "@,
        (None, Some(c)) => "End: "@ + text::dec(c as nat) + " "@ + (match reason {
            Some(r) => r,
            None => Seq::empty(),
        }),
        (None, None) => "End: -"@,
    }
}

/// The heading of a call: the call itself, the two parties, and its times and end.
pub open spec fn heading_of(f: FocusView, privacy: bool, linked: Option<Seq<char>>) -> Seq<
    Seq<char>,
> {
    seq![
        title_of(f, privacy, linked),
        "Caller ← "@ + party_text(f.caller_ua, f.caller_addr, privacy),
        "Callee → "@ + party_text(f.callee_ua, f.callee_addr, privacy),
        timing_of(f) + "   "@ + end_of(f.hangup_by, f.hangup_code, f.hangup_reason),
    ]
}

fn push_b2bua(s: &mut String, b: &Option<B2buaInfo>, privacy: bool)
    ensures
        final(s)@ == old(s)@ + b2bua_text(*b, privacy),
{
    let ghost start = s@;
    if let Some(b) = b {
        s.push_str("  ⇄ B2BUA ");
        let addr = match b.addr {
            Some(ip) => if privacy {
                mask_ip(ip)
            } else {
                ip_string(ip)
            },
            None => "?".to_owned(),
        };
        s.push_str(addr.as_str());
        s.push_str(" (");
        push_dec(s, b.legs as u64);
        s.push_str(" legs)");
    }
    assert(s@ =~= start + b2bua_text(*b, privacy));
}

fn any_relayed(f: &Focus) -> (r: bool)
    ensures
        r == runs_relayed(f@),
{
    let mut i: usize = 0;
    while i < f.streams.len()
        invariant
            i <= f.streams.len(),
            forall|k: int| 0 <= k < i ==> !(#[trigger] f@.streams[k]).via_turn,
        decreases f.streams.len() - i,
    {
        assert(f@.streams[i as int] == f.streams@[i as int]@);
        if f.streams[i].via_turn {
            return true;
        }
        i += 1;
    }
    false
}

fn title(f: &Focus, privacy: bool, linked: &Option<String>) -> (r: String)
    ensures
        r@ == title_of(f@, privacy, text::opt_text(*linked)),
{
    let from = display_user(&f.from_user, privacy, "?");
    let to = display_user(&f.to_user, privacy, "?");
    let mut s = "Call ".to_owned();
    s.push_str(f.call_id.as_str());
    s.push_str(" (");
    s.push_str(from.as_str());
    s.push_str(" → ");
    s.push_str(to.as_str());
    s.push_str(") [");
    s.push_str(f.state.label());
    s.push_str("]");
    push_b2bua(&mut s, &f.b2bua, privacy);
    if let Some(id) = linked {
        s.push_str("  ⇄ b-leg ");
        s.push_str(id.as_str());
    }
    if any_relayed(f) {
        s.push_str("  ⚙ via-TURN");
    }
    assert(s@ =~= title_of(f@, privacy, text::opt_text(*linked)));
    s
}

fn party(start: &str, ua: &Option<String>, addr: Option<SocketAddr>, privacy: bool) -> (r: String)
    ensures
        r@ == start@ + party_text(text::opt_text(*ua), addr, privacy),
{
    let mut s = start.to_owned();
    match ua {
        Some(u) => {
            s.push_str(u.as_str());
        },
        None => {
            s.push_str("?");
        },
    }
    s.push_str(" @ ");
    match addr {
        Some(a) => {
            let at = display_socket(a, privacy);
            s.push_str(at.as_str());
        },
        None => {
            s.push_str("?");
        },
    }
    assert(s@ =~= start@ + party_text(text::opt_text(*ua), addr, privacy));
    s
}

fn seconds(ms: Option<u32>) -> (r: String)
    ensures
        r@ == numfmt::secs_text(wide(ms)),
{
    match ms {
        Some(n) => fmt_secs(Some(n as u64)),
        None => fmt_secs(None),
    }
}

fn push_end(s: &mut String, f: &Focus)
    ensures
        final(s)@ == old(s)@ + end_of(f@.hangup_by, f@.hangup_code, f@.hangup_reason),
{
    let ghost start = s@;
    match (f.hangup_by, f.hangup_code) {
        (Some(b), Some(c)) => {
            s.push_str("End: ");
            s.push_str(b.label());
            s.push_str(" ");
            push_dec(s, c as u64);
        },
        (Some(b), None) => {
            s.push_str("End: ");
            s.push_str(b.label());
            s.push_str(" ");
        },
        (None, Some(c)) => {
            s.push_str("End: ");
            push_dec(s, c as u64);
            s.push_str(" ");
            if let Some(r) = &f.hangup_reason {
                s.push_str(r.as_str());
            }
        },
        (None, None) => {
            s.push_str("End: -");
        },
    }
    assert(s@ =~= start + end_of(f@.hangup_by, f@.hangup_code, f@.hangup_reason));
}

fn times_and_end(f: &Focus) -> (r: String)
    ensures
        r@ == timing_of(f@) + "   "@ + end_of(f@.hangup_by, f@.hangup_code, f@.hangup_reason),
{
    let pdd = seconds(f.pdd_ms);
    let setup = seconds(f.setup_ms);
    let ring = seconds(f.ring_ms);
    let mut s = "PDD ".to_owned();
    s.push_str(pdd.as_str());
    s.push_str(" | Setup ");
    s.push_str(setup.as_str());
    s.push_str(" | Ring ");
    s.push_str(ring.as_str());
    s.push_str(" | EarlyMedia ");
    s.push_str(
        if f.early_media {
            "✓"
        } else {
            "-"
        },
    );
    assert(s@ =~= timing_of(f@));
    s.push_str("   ");
    push_end(&mut s, f);
    s
}

/// The heading of a call, line by line.
pub fn call_heading(f: &Focus, privacy: bool, linked: &Option<String>) -> (r: Vec<String>)
    ensures
        text::texts(r@) == heading_of(f@, privacy, text::opt_text(*linked)),
{
    let mut out: Vec<String> = Vec::new();
    out.push(title(f, privacy, linked));
    out.push(party("Caller ← ", &f.caller_ua, f.caller_addr, privacy));
    out.push(party("Callee → ", &f.callee_ua, f.callee_addr, privacy));
    out.push(times_and_end(f));
    assert(text::texts(out@) =~= heading_of(f@, privacy, text::opt_text(*linked)));
    out
}

} // verus!
