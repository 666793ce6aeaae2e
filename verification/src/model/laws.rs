//! What messages, calls and negotiated media stand for.
use crate::model::media::{pt_index, NegotiatedView};
use crate::model::sip::{CallState, CallView, HangupBy, Method, MsgView, Outcome};
use crate::model::stats::Real64;
use vstd::prelude::*;

verus! {

/// The names of the methods.
pub proof fn law_method_names()
    ensures
        Method::Invite.spec_name() == "INVITE"@,
        Method::Ack.spec_name() == "ACK"@,
        Method::Bye.spec_name() == "BYE"@,
        Method::Cancel.spec_name() == "CANCEL"@,
        Method::Register.spec_name() == "REGISTER"@,
        Method::Options.spec_name() == "OPTIONS"@,
        Method::Prack.spec_name() == "PRACK"@,
        Method::Update.spec_name() == "UPDATE"@,
        Method::Subscribe.spec_name() == "SUBSCRIBE"@,
        Method::Notify.spec_name() == "NOTIFY"@,
        Method::Publish.spec_name() == "PUBLISH"@,
        Method::Info.spec_name() == "INFO"@,
        Method::Refer.spec_name() == "REFER"@,
        Method::Message.spec_name() == "MESSAGE"@,
{
}

/// How the end of a call is told in short.
pub proof fn law_hangup_names()
    ensures
        HangupBy::Caller.spec_label() == "BYE→"@,
        HangupBy::Callee.spec_label() == "←BYE"@,
        HangupBy::Cancel.spec_label() == "CANCEL"@,
        HangupBy::Reject.spec_label() == "REJ"@,
{
}

/// A dialog is opened by an INVITE request without a tag in To, and by nothing else.
pub proof fn law_opens_dialog(m: MsgView)
    ensures
        m.is_initial_invite() ==> m.is_request && m.method == Some(Method::Invite),
        m.is_request && m.method == Some(Method::Invite) ==> (m.is_initial_invite() <==> m.to_tag
            is None),
{
}

/// A new call is being dialed, and nothing has happened in it.
pub proof fn law_new_call(id: Seq<char>)
    ensures
        CallView::fresh(id).call_id == id,
        CallView::fresh(id).state == CallState::Dialing,
        CallView::fresh(id).outcome == Outcome::InProgress,
        CallView::fresh(id).messages.len() == 0,
        CallView::fresh(id).invite_ts is None,
        CallView::fresh(id).answer_ts is None,
        CallView::fresh(id).end_ts is None,
        CallView::fresh(id).hangup.code is None,
{
}

/// A payload type has the clock rate and the codec of its first place in the negotiation; where it has none
/// there, the clock is the type's own: 8000 for the audio types but for a few, 90000 for video.
pub proof fn law_negotiated(n: NegotiatedView, pt: u8, k: int)
    requires
        n.aligned(),
        0 <= k < n.pts.len(),
        n.pts[k] == pt,
        forall|i: int| 0 <= i < k ==> #[trigger] n.pts[i] != pt,
    ensures
        n.clock_rates[k] > 0 ==> n.clock_for(pt) == Some(n.clock_rates[k]) && n.rate_for(pt)
            == n.clock_rates[k],
        n.clock_rates[k] == 0 ==> n.clock_for(pt) is None,
        n.clock_rates[k] == 0 && pt == 0 ==> n.rate_for(pt) == 8000,
        n.clock_rates[k] == 0 && pt == 34 ==> n.rate_for(pt) == 90000,
        n.codecs[k].len() > 0 ==> n.codec_for(pt) == Some(n.codecs[k]),
        n.codecs[k].len() == 0 ==> n.codec_for(pt) is None,
{
    lemma_pt_at(n.pts, pt, 0, k);
}

/// A payload type that was not negotiated has no codec, and its own clock.
pub proof fn law_not_negotiated(n: NegotiatedView, pt: u8)
    requires
        forall|i: int| 0 <= i < n.pts.len() ==> #[trigger] n.pts[i] != pt,
    ensures
        n.clock_for(pt) is None,
        n.codec_for(pt) is None,
        pt == 8 ==> n.rate_for(pt) == 8000,
        pt == 10 ==> n.rate_for(pt) == 44100,
        pt >= 96 ==> n.rate_for(pt) == 8000,
{
    lemma_pt_lacking(n.pts, pt, 0);
}

proof fn lemma_pt_at(pts: Seq<u8>, pt: u8, i: int, k: int)
    requires
        0 <= i <= k < pts.len(),
        pts[k] == pt,
        forall|j: int| i <= j < k ==> #[trigger] pts[j] != pt,
    ensures
        pt_index(pts, pt, i) == Some(k),
    decreases k - i,
{
    if i < k {
        lemma_pt_at(pts, pt, i + 1, k);
    }
}

proof fn lemma_pt_lacking(pts: Seq<u8>, pt: u8, i: int)
    requires
        0 <= i <= pts.len(),
        forall|j: int| i <= j < pts.len() ==> #[trigger] pts[j] != pt,
    ensures
        pt_index(pts, pt, i) is None,
    decreases pts.len() - i,
{
    if i < pts.len() {
        lemma_pt_lacking(pts, pt, i + 1);
    }
}

/// The lesser of two numbers is one of them and no greater than either; what is not a number is passed over.
pub proof fn law_lesser(a: Real64, b: Real64)
    ensures
        a.spec_lesser(b) == a || a.spec_lesser(b) == b,
        !a.spec_nan() && !b.spec_nan() ==> a.spec_lesser(b).rank() <= a.rank() && a.spec_lesser(
            b,
        ).rank() <= b.rank(),
        a.spec_nan() ==> a.spec_lesser(b) == b,
        b.spec_nan() && !a.spec_nan() ==> a.spec_lesser(b) == a,
{
}

/// Numbers are ordered by their bits, and those with the sign the other way round, below all others.
pub proof fn law_rank(a: Real64, b: Real64)
    requires
        a.bits < b.bits,
    ensures
        b.bits < 0x8000_0000_0000_0000 ==> a.rank() < b.rank(),
        a.bits >= 0x8000_0000_0000_0000 ==> a.rank() > b.rank(),
        a.bits < 0x8000_0000_0000_0000 <= b.bits ==> a.rank() >= b.rank(),
{
}

} // verus!
