//! What the messages of a call tell of its dialogs and parties.
use crate::model::addr::{has_ip, IpAddr};
use crate::model::sip;
use crate::model::sip::{MsgView, SipMsg};
use crate::text;
use crate::text::{
    chars_of, clone_opt, eq_ignore_case, lines, split_once, str_eq, string_of, text_exact, trim,
};
use vstd::prelude::*;
use vstd::utf8::*;

verus! {

// ----------------------------- headers -----------------------------

/// The value of a header line, if it is of that name.
pub open spec fn line_value(line: Seq<char>, name: Seq<char>) -> Option<Seq<char>> {
    match text::split_once_at(line, ':') {
        Some((n, v)) => if text::same_word(text::trimmed(n), name) {
            Some(text::trimmed(v))
        } else {
            None
        },
        None => None,
    }
}

/// The first value of a header in the lines from `i` on.
pub open spec fn value_in(ls: Seq<Seq<char>>, name: Seq<char>, i: int) -> Option<Seq<char>>
    decreases ls.len() - i,
{
    if i >= ls.len() {
        None
    } else if line_value(ls[i], name) is Some {
        line_value(ls[i], name)
    } else {
        value_in(ls, name, i + 1)
    }
}

/// The first value of a header in a message; none, if it is not valid UTF-8.
pub open spec fn header_in(raw: Seq<u8>, name: Seq<char>) -> Option<Seq<char>> {
    if valid_utf8(raw) {
        value_in(text::lines_of(decode_utf8(raw)), name, 0)
    } else {
        None
    }
}

fn read_line_value(line: &Vec<char>, name: &str) -> (r: Option<String>)
    ensures
        text::opt_text(r) == line_value(line@, name@),
{
    match split_once(line.as_slice(), ':') {
        Some((n, v)) => {
            let n = trim(n.as_slice());
            if eq_ignore_case(n.as_slice(), name) {
                let v = trim(v.as_slice());
                Some(string_of(v.as_slice()))
            } else {
                None
            }
        },
        None => None,
    }
}

/// Extracts the value of a single-line SIP header from raw message bytes.
pub fn sip_header(raw: &[u8], name: &str) -> (r: Option<String>)
    ensures
        text::opt_text(r) == header_in(raw@, name@),
{
    let t = match text_exact(raw) {
        Some(t) => t,
        None => return None,
    };
    let c = chars_of(t.as_str());
    let ls = lines(c.as_slice());
    let ghost lv = text::lines_of(decode_utf8(raw@));
    let mut i: usize = 0;
    while i < ls.len()
        invariant
            i <= ls.len(),
            lv == text::deep(ls@),
            header_in(raw@, name@) == value_in(lv, name@, i as int),
        decreases ls.len() - i,
    {
        assert(lv[i as int] == ls@[i as int]@);
        let r = read_line_value(&ls[i], name);
        if r.is_some() {
            return r;
        }
        i += 1;
    }
    None
}

// ----------------------------- dialogs -----------------------------

/// What tells the dialogs of a call apart: the From tag, or else the branch.
pub open spec fn dialog_key(m: MsgView) -> Seq<char> {
    match m.from_tag {
        Some(t) => t,
        None => match m.branch {
            Some(b) => b,
            None => Seq::empty(),
        },
    }
}

/// The first index of a key from `i` on; the length, if there is none.
pub open spec fn key_index(keys: Seq<Seq<char>>, k: Seq<char>, i: int) -> int
    decreases keys.len() - i,
{
    if i >= keys.len() || keys[i] == k {
        i
    } else {
        key_index(keys, k, i + 1)
    }
}

/// The keys of the first `n` messages in the order in which they come up, each
/// once.
pub open spec fn keys_of(msgs: Seq<MsgView>, n: int) -> Seq<Seq<char>>
    decreases n,
{
    if n <= 0 {
        Seq::empty()
    } else {
        let keys = keys_of(msgs, n - 1);
        let k = dialog_key(msgs[n - 1]);
        if k.len() == 0 || key_index(keys, k, 0) < keys.len() {
            keys
        } else {
            keys.push(k)
        }
    }
}

pub open spec fn at_most_255(n: int) -> u8 {
    if n < 255 {
        n as u8
    } else {
        255
    }
}

/// The dialog of each of the first `n` messages, numbered as they come up;
/// messages without a key belong to the first.
pub open spec fn legs_of(msgs: Seq<MsgView>, n: int) -> Seq<u8>
    decreases n,
{
    if n <= 0 {
        Seq::empty()
    } else {
        let k = dialog_key(msgs[n - 1]);
        legs_of(msgs, n - 1).push(
            if k.len() == 0 {
                0
            } else {
                at_most_255(key_index(keys_of(msgs, n - 1), k, 0))
            },
        )
    }
}

/// How many dialogs there are: at least one.
pub open spec fn leg_count(msgs: Seq<MsgView>) -> u8 {
    let n = keys_of(msgs, msgs.len() as int).len();
    if n == 0 {
        1
    } else {
        at_most_255(n as int)
    }
}

fn find_key(keys: &Vec<String>, k: &str) -> (r: usize)
    ensures
        r == key_index(text::texts(keys@), k@, 0),
        r <= keys@.len(),
{
    let mut i: usize = 0;
    while i < keys.len()
        invariant
            i <= keys.len(),
            key_index(text::texts(keys@), k@, 0) == key_index(text::texts(keys@), k@, i as int),
        decreases keys.len() - i,
    {
        assert(text::texts(keys@)[i as int] == keys@[i as int]@);
        if str_eq(keys[i].as_str(), k) {
            return i;
        }
        i += 1;
    }
    i
}

fn key_of(m: &SipMsg) -> (r: String)
    ensures
        r@ == dialog_key(m@),
{
    match clone_opt(&m.from_tag) {
        Some(t) => t,
        None => match clone_opt(&m.branch) {
            Some(b) => b,
            None => {
                let r = String::new();
                assert(r@ =~= Seq::<char>::empty());
                r
            },
        },
    }
}

/// Per-message dialog (leg) index, and the number of distinct legs.
pub fn dialog_legs(msgs: &Vec<SipMsg>) -> (r: (Vec<u8>, u8))
    ensures
        r.0@ == legs_of(sip::msg_views(msgs@), msgs@.len() as int),
        r.1 == leg_count(sip::msg_views(msgs@)),
{
    let ghost mv = sip::msg_views(msgs@);
    let mut keys: Vec<String> = Vec::new();
    let mut legs: Vec<u8> = Vec::new();
    let mut i: usize = 0;
    assert(text::texts(keys@) =~= Seq::<Seq<char>>::empty());
    while i < msgs.len()
        invariant
            i <= msgs.len(),
            mv == sip::msg_views(msgs@),
            text::texts(keys@) == keys_of(mv, i as int),
            legs@ == legs_of(mv, i as int),
        decreases msgs.len() - i,
    {
        assert(mv[i as int] == msgs@[i as int]@);
        let k = key_of(&msgs[i]);
        proof {
            reveal_strlit("");
            if k@.len() == 0 {
                assert(k@ =~= ""@);
            }
        }
        if str_eq(k.as_str(), "") {
            legs.push(0);
        } else {
            let at: usize = find_key(&keys, k.as_str());
            legs.push(
                if at < 255 {
                    at as u8
                } else {
                    255
                },
            );
            if at == keys.len() {
                let ghost before = keys@;
                let ghost kv = k@;
                keys.push(k);
                assert(text::texts(keys@) =~= text::texts(before).push(kv));
            }
        }
        i += 1;
    }
    let n: usize = keys.len();
    let count: u8 = if n == 0 {
        1
    } else if n < 255 {
        n as u8
    } else {
        255
    };
    (legs, count)
}

// ----------------------------- the shared IP -----------------------------

/// The IPs of the flows of one leg, among the first `n` messages.
pub open spec fn leg_ips(msgs: Seq<MsgView>, legs: Seq<u8>, leg: u8, n: int) -> Seq<IpAddr>
    decreases n,
{
    if n <= 0 {
        Seq::empty()
    } else {
        let s = leg_ips(msgs, legs, leg, n - 1);
        if legs[n - 1] == leg {
            s.push(msgs[n - 1].flow.src.ip).push(msgs[n - 1].flow.dst.ip)
        } else {
            s
        }
    }
}

pub open spec fn among(v: Seq<IpAddr>) -> spec_fn(IpAddr) -> bool {
    |ip: IpAddr| v.contains(ip)
}

/// The one IP that stands in both lists, however often; none, if there are none or
/// several.
pub open spec fn only_shared(a: Seq<IpAddr>, b: Seq<IpAddr>) -> Option<IpAddr> {
    let shared = a.filter(among(b));
    if shared.len() > 0 && forall|i: int| 0 <= i < shared.len() ==> #[trigger] shared[i]
        == shared[0] {
        Some(shared[0])
    } else {
        None
    }
}

/// How many messages have a leg: those for which both are known.
pub open spec fn paired(msgs: Seq<MsgView>, legs: Seq<u8>) -> int {
    if msgs.len() <= legs.len() {
        msgs.len() as int
    } else {
        legs.len() as int
    }
}

/// The IP at which the flows of the first two legs meet.
pub open spec fn meeting_ip(msgs: Seq<MsgView>, legs: Seq<u8>) -> Option<IpAddr> {
    let n = paired(msgs, legs);
    only_shared(leg_ips(msgs, legs, 0, n), leg_ips(msgs, legs, 1, n))
}

fn collect_leg(msgs: &Vec<SipMsg>, legs: &Vec<u8>, leg: u8) -> (r: Vec<IpAddr>)
    ensures
        r@ == leg_ips(sip::msg_views(msgs@), legs@, leg, paired(sip::msg_views(msgs@), legs@)),
{
    let ghost mv = sip::msg_views(msgs@);
    let mut out: Vec<IpAddr> = Vec::new();
    let mut i: usize = 0;
    while i < msgs.len() && i < legs.len()
        invariant
            i <= msgs.len(),
            i <= legs.len(),
            mv == sip::msg_views(msgs@),
            out@ == leg_ips(mv, legs@, leg, i as int),
        decreases msgs.len() - i,
    {
        assert(mv[i as int] == msgs@[i as int]@);
        if legs[i] == leg {
            out.push(msgs[i].flow.src.ip);
            out.push(msgs[i].flow.dst.ip);
        }
        i += 1;
    }
    out
}

/// The mentions of IPs on the first leg that the second leg shares.
pub open spec fn shared_mentions(msgs: Seq<MsgView>, legs: Seq<u8>) -> Seq<IpAddr> {
    let n = paired(msgs, legs);
    leg_ips(msgs, legs, 0, n).filter(among(leg_ips(msgs, legs, 1, n)))
}

pub fn shared_ips(msgs: &Vec<SipMsg>, legs: &Vec<u8>) -> (r: Vec<IpAddr>)
    ensures
        r@ == shared_mentions(sip::msg_views(msgs@), legs@),
{
    let l0 = collect_leg(msgs, legs, 0);
    let l1 = collect_leg(msgs, legs, 1);
    let mut shared: Vec<IpAddr> = Vec::new();
    let mut i: usize = 0;
    let ghost f = among(l1@);
    proof {
        reveal(Seq::filter);
        assert(l0@.take(0) =~= Seq::<IpAddr>::empty());
    }
    while i < l0.len()
        invariant
            i <= l0.len(),
            f == among(l1@),
            shared@ == l0@.take(i as int).filter(f),
        decreases l0.len() - i,
    {
        proof {
            reveal(Seq::filter);
            assert(l0@.take(i + 1).drop_last() =~= l0@.take(i as int));
        }
        if has_ip(&l1, l0[i]) {
            shared.push(l0[i]);
        }
        i += 1;
    }
    assert(l0@.take(i as int) =~= l0@);
    shared
}

/// The one IP shared by the flows of both the first two legs: the B2BUA or SBC
/// in a dual-dialog split within one Call-ID. None when ambiguous.
pub fn common_flow_ip(msgs: &Vec<SipMsg>, legs: &Vec<u8>) -> (r: Option<IpAddr>)
    ensures
        r == meeting_ip(sip::msg_views(msgs@), legs@),
{
    let shared = shared_ips(msgs, legs);
    if shared.len() == 0 {
        return None;
    }
    let mut i: usize = 1;
    while i < shared.len()
        invariant
            1 <= i <= shared.len(),
            shared@ == shared_mentions(sip::msg_views(msgs@), legs@),
            forall|k: int| 0 <= k < i ==> #[trigger] shared@[k] == shared@[0],
        decreases shared.len() - i,
    {
        if shared[i] != shared[0] {
            assert(shared@[i as int] != shared@[0]);
            return None;
        }
        i += 1;
    }
    Some(shared[0])
}

/// The shared IP stands on both legs, and no other IP does.
pub proof fn law_shared_by_both(msgs: Seq<MsgView>, legs: Seq<u8>, ip: IpAddr)
    ensures
        meeting_ip(msgs, legs) == Some(ip) <==> ({
            let n = paired(msgs, legs);
            forall|x: IpAddr| #[trigger]
                leg_ips(msgs, legs, 0, n).contains(x) && leg_ips(msgs, legs, 1, n).contains(x)
                    <==> x == ip
        }),
{
    let n = paired(msgs, legs);
    let a = leg_ips(msgs, legs, 0, n);
    let b = leg_ips(msgs, legs, 1, n);
    let shared = a.filter(among(b));
    broadcast use vstd::seq_lib::group_filter_ensures;

    assert forall|x: IpAddr| #[trigger] shared.contains(x) <==> a.contains(x) && b.contains(x) by {
        if shared.contains(x) {
            let k = shared.index_of(x);
            assert(among(b)(shared[k]));
            a.lemma_filter_contains_rev(among(b), x);
        }
        if a.contains(x) && b.contains(x) {
            let k = a.index_of(x);
            assert(among(b)(a[k]));
            a.lemma_filter_contains(among(b), k);
        }
    }
    if meeting_ip(msgs, legs) == Some(ip) {
        assert(shared.contains(shared[0]));
        assert forall|x: IpAddr| #[trigger] a.contains(x) && b.contains(x) <==> x == ip by {
            assert(shared.contains(x) <==> a.contains(x) && b.contains(x));
            if shared.contains(x) {
                let k = shared.index_of(x);
                assert(shared[k] == shared[0]);
            }
        }
    }
    if forall|x: IpAddr| #[trigger] a.contains(x) && b.contains(x) <==> x == ip {
        assert(a.contains(ip) && b.contains(ip));
        assert(shared.contains(ip));
        assert forall|i: int| 0 <= i < shared.len() implies #[trigger] shared[i] == ip by {
            assert(shared.contains(shared[i]));
            assert(a.contains(shared[i]) && b.contains(shared[i]));
        }
    }
}

/// Messages that share a From tag belong to one dialog, also when it is a
/// re-INVITE.
pub proof fn law_same_tag_same_leg(msgs: Seq<MsgView>, i: int, j: int)
    requires
        0 <= i <= j < msgs.len(),
        dialog_key(msgs[i]) == dialog_key(msgs[j]),
    ensures
        legs_of(msgs, msgs.len() as int)[i] == legs_of(msgs, msgs.len() as int)[j],
{
    let n = msgs.len() as int;
    let k = dialog_key(msgs[i]);
    lemma_legs_len(msgs, n);
    lemma_legs_prefix(msgs, i + 1, n);
    lemma_legs_prefix(msgs, j + 1, n);
    lemma_legs_len(msgs, i);
    lemma_legs_len(msgs, j);
    if k.len() > 0 && i < j {
        lemma_key_stays(msgs, i, j);
    }
}

proof fn lemma_legs_len(msgs: Seq<MsgView>, n: int)
    requires
        0 <= n,
    ensures
        legs_of(msgs, n).len() == n,
    decreases n,
{
    if n > 0 {
        lemma_legs_len(msgs, n - 1);
    }
}

proof fn lemma_legs_prefix(msgs: Seq<MsgView>, m: int, n: int)
    requires
        0 < m <= n,
    ensures
        legs_of(msgs, n)[m - 1] == legs_of(msgs, m)[m - 1],
    decreases n - m,
{
    lemma_legs_len(msgs, n);
    lemma_legs_len(msgs, n - 1);
    if m < n {
        lemma_legs_prefix(msgs, m, n - 1);
    }
}

proof fn lemma_key_index(keys: Seq<Seq<char>>, k: Seq<char>, i: int)
    requires
        0 <= i <= keys.len(),
    ensures
        i <= key_index(keys, k, i) <= keys.len(),
        key_index(keys, k, i) < keys.len() ==> keys[key_index(keys, k, i)] == k,
    decreases keys.len() - i,
{
    if i < keys.len() && keys[i] != k {
        lemma_key_index(keys, k, i + 1);
    }
}

proof fn lemma_key_index_push(keys: Seq<Seq<char>>, x: Seq<char>, k: Seq<char>, i: int)
    requires
        0 <= i <= keys.len(),
        key_index(keys, k, i) < keys.len() || x == k,
    ensures
        key_index(keys.push(x), k, i) == key_index(keys, k, i),
    decreases keys.len() - i,
{
    if i < keys.len() && keys[i] != k {
        lemma_key_index_push(keys, x, k, i + 1);
    }
}

/// Once a key has come up, its number stays.
proof fn lemma_key_stays(msgs: Seq<MsgView>, i: int, j: int)
    requires
        0 <= i < j < msgs.len(),
        dialog_key(msgs[i]).len() > 0,
    ensures
        ({
            let k = dialog_key(msgs[i]);
            &&& key_index(keys_of(msgs, j), k, 0) == key_index(keys_of(msgs, i), k, 0)
            &&& key_index(keys_of(msgs, j), k, 0) < keys_of(msgs, j).len()
        }),
    decreases j - i,
{
    let k = dialog_key(msgs[i]);
    lemma_key_index(keys_of(msgs, i), k, 0);
    if j == i + 1 {
        lemma_key_index_push(keys_of(msgs, i), k, k, 0);
    } else {
        lemma_key_stays(msgs, i, j - 1);
        lemma_key_index_push(keys_of(msgs, j - 1), dialog_key(msgs[j - 1]), k, 0);
    }
}

} // verus!
