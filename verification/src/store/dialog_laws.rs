//! Which leg of a call a message belongs to, and where the legs meet.
use crate::model::addr::IpAddr;
use crate::model::sip::MsgView;
use crate::store::dialog::{
    among, at_most_255, dialog_key, header_in, key_index, keys_of, leg_count, leg_ips, legs_of,
    line_value, meeting_ip, only_shared, paired, shared_mentions, value_in,
};
use crate::text;
use vstd::prelude::*;
use vstd::utf8::{decode_utf8, valid_utf8};

verus! {

/// The first line that has a header gives its value.
pub proof fn law_first_line(ls: Seq<Seq<char>>, name: Seq<char>, k: int)
    requires
        0 <= k < ls.len(),
        line_value(ls[k], name) is Some,
        forall|i: int| 0 <= i < k ==> (#[trigger] line_value(ls[i], name)) is None,
    ensures
        value_in(ls, name, 0) == line_value(ls[k], name),
{
    lemma_value(ls, name, 0, k);
}

proof fn lemma_value(ls: Seq<Seq<char>>, name: Seq<char>, i: int, k: int)
    requires
        0 <= i <= k < ls.len(),
        line_value(ls[k], name) is Some,
        forall|j: int| i <= j < k ==> (#[trigger] line_value(ls[j], name)) is None,
    ensures
        value_in(ls, name, i) == line_value(ls[k], name),
    decreases k - i,
{
    if i < k {
        assert(line_value(ls[i], name) is None);
        lemma_value(ls, name, i + 1, k);
    }
}

/// Bytes that are not text have no headers; of others the lines count.
pub proof fn law_header_in_text(raw: Seq<u8>, name: Seq<char>)
    ensures
        !valid_utf8(raw) ==> header_in(raw, name) is None,
        valid_utf8(raw) ==> header_in(raw, name) == value_in(
            text::lines_of(decode_utf8(raw)),
            name,
            0,
        ),
{
}

proof fn lemma_index(keys: Seq<Seq<char>>, k: Seq<char>, i: int)
    requires
        0 <= i <= keys.len(),
    ensures
        i <= key_index(keys, k, i) <= keys.len(),
        key_index(keys, k, i) < keys.len() ==> keys[key_index(keys, k, i)] == k,
        forall|j: int| i <= j < key_index(keys, k, i) ==> #[trigger] keys[j] != k,
    decreases keys.len() - i,
{
    if i < keys.len() && keys[i] != k {
        lemma_index(keys, k, i + 1);
    }
}

/// The legs are numbered in the order in which their keys first come up: no key twice, and each by some message.
pub proof fn law_leg_keys(msgs: Seq<MsgView>, n: int)
    requires
        0 <= n <= msgs.len(),
    ensures
        forall|i: int, j: int|
            0 <= i < j < keys_of(msgs, n).len() ==> #[trigger] keys_of(msgs, n)[i] != #[trigger] keys_of(
                msgs,
                n,
            )[j],
        keys_of(msgs, n).len() <= n,
        forall|m: int|
            0 <= m < n && dialog_key(msgs[m]).len() > 0 ==> keys_of(msgs, n).contains(
                dialog_key(#[trigger] msgs[m]),
            ),
    decreases n,
{
    if n > 0 {
        law_leg_keys(msgs, n - 1);
        let a = keys_of(msgs, n - 1);
        let b = keys_of(msgs, n);
        let k = dialog_key(msgs[n - 1]);
        lemma_index(a, k, 0);
        assert forall|m: int| 0 <= m < n && dialog_key(msgs[m]).len() > 0 implies b.contains(
            dialog_key(#[trigger] msgs[m]),
        ) by {
            if m < n - 1 {
                let i = choose|i: int| 0 <= i < a.len() && a[i] == dialog_key(msgs[m]);
                assert(b[i] == dialog_key(msgs[m]));
            } else if key_index(a, k, 0) < a.len() {
                assert(b[key_index(a, k, 0)] == k);
            } else {
                assert(b[a.len() as int] == k);
            }
        }
    }
}

/// Messages are on one leg where they have one key: every message has a leg, a later one with the key of an
/// earlier one has its leg, and one without a key is on the first.
pub proof fn law_legs(msgs: Seq<MsgView>, n: int, m: int)
    requires
        0 <= m < n <= msgs.len(),
        n <= 250,
    ensures
        legs_of(msgs, n).len() == n,
        dialog_key(msgs[m]).len() == 0 ==> legs_of(msgs, n)[m] == 0,
        dialog_key(msgs[m]).len() > 0 ==> legs_of(msgs, n)[m] < keys_of(msgs, n).len() && keys_of(
            msgs,
            n,
        )[legs_of(msgs, n)[m] as int] == dialog_key(msgs[m]),
    decreases n,
{
    law_leg_keys(msgs, n - 1);
    let a = keys_of(msgs, n - 1);
    let b = keys_of(msgs, n);
    let k = dialog_key(msgs[n - 1]);
    lemma_index(a, k, 0);
    lemma_legs_len(msgs, n);
    lemma_legs_len(msgs, n - 1);
    if m < n - 1 {
        law_legs(msgs, n - 1, m);
        assert(legs_of(msgs, n)[m] == legs_of(msgs, n - 1)[m]);
    } else {
        assert(legs_of(msgs, n)[m] == (if k.len() == 0 {
            0u8
        } else {
            at_most_255(key_index(a, k, 0))
        }));
    }
}

proof fn lemma_legs_len(msgs: Seq<MsgView>, n: int)
    requires
        n >= 0,
    ensures
        legs_of(msgs, n).len() == n,
    decreases n,
{
    if n > 0 {
        lemma_legs_len(msgs, n - 1);
    }
}

/// Two messages are on the same leg where they have the same key.
pub proof fn law_same_leg(msgs: Seq<MsgView>, i: int, j: int)
    requires
        0 <= i < msgs.len() <= 250,
        0 <= j < msgs.len(),
        dialog_key(msgs[i]).len() > 0,
        dialog_key(msgs[j]).len() > 0,
    ensures
        legs_of(msgs, msgs.len() as int)[i] == legs_of(msgs, msgs.len() as int)[j] <==> dialog_key(
            msgs[i],
        ) == dialog_key(msgs[j]),
{
    let n = msgs.len() as int;
    law_legs(msgs, n, i);
    law_legs(msgs, n, j);
    law_leg_keys(msgs, n);
}

/// A call has as many legs as keys, and at least one.
pub proof fn law_leg_count(msgs: Seq<MsgView>)
    ensures
        leg_count(msgs) >= 1,
        1 <= keys_of(msgs, msgs.len() as int).len() < 255 ==> leg_count(msgs) == keys_of(
            msgs,
            msgs.len() as int,
        ).len(),
        keys_of(msgs, msgs.len() as int).len() == 0 ==> leg_count(msgs) == 1,
{
}

/// The addresses of a leg are the ends of its messages, and of no others.
pub proof fn law_leg_ips(msgs: Seq<MsgView>, legs: Seq<u8>, leg: u8, n: int, ip: IpAddr)
    requires
        0 <= n <= msgs.len(),
        n <= legs.len(),
    ensures
        leg_ips(msgs, legs, leg, n).contains(ip) <==> exists|m: int|
            0 <= m < n && legs[m] == leg && ((#[trigger] msgs[m]).flow.src.ip == ip
                || msgs[m].flow.dst.ip == ip),
    decreases n,
{
    if n > 0 {
        law_leg_ips(msgs, legs, leg, n - 1, ip);
        let a = leg_ips(msgs, legs, leg, n - 1);
        let b = leg_ips(msgs, legs, leg, n);
        if a.contains(ip) {
            let i = choose|i: int| 0 <= i < a.len() && a[i] == ip;
            assert(b[i] == ip);
        }
        if legs[n - 1] == leg {
            assert(b[a.len() as int] == msgs[n - 1].flow.src.ip);
            assert(b[a.len() as int + 1] == msgs[n - 1].flow.dst.ip);
            if b.contains(ip) && !a.contains(ip) {
                let i = choose|i: int| 0 <= i < b.len() && b[i] == ip;
                if i < a.len() {
                    assert(a[i] == ip);
                }
                assert(msgs[n - 1].flow.src.ip == ip || msgs[n - 1].flow.dst.ip == ip);
            }
        }
    } else {
        assert(leg_ips(msgs, legs, leg, n).len() == 0);
    }
}

/// Where the legs meet: the one address that both have; none where there are two such, or no such.
pub proof fn law_meeting(a: Seq<IpAddr>, b: Seq<IpAddr>, ip: IpAddr, other: IpAddr)
    ensures
        a.contains(ip) && b.contains(ip) && (forall|x: IpAddr|
            a.contains(x) && #[trigger] b.contains(x) ==> x == ip) ==> only_shared(a, b) == Some(ip),
        a.contains(ip) && b.contains(ip) && a.contains(other) && b.contains(other) && ip != other
            ==> only_shared(a, b) is None,
        (forall|x: IpAddr| a.contains(x) ==> !#[trigger] b.contains(x)) ==> only_shared(a, b)
            is None,
{
    broadcast use vstd::seq_lib::group_filter_ensures;

    let s = a.filter(among(b));
    if a.contains(ip) && b.contains(ip) {
        let i = choose|i: int| 0 <= i < a.len() && a[i] == ip;
        assert(among(b)(a[i]));
        assert(s.contains(ip));
        if a.contains(other) && b.contains(other) && ip != other {
            let j = choose|j: int| 0 <= j < a.len() && a[j] == other;
            assert(among(b)(a[j]));
            assert(s.contains(other));
        }
    }
    assert forall|i: int| 0 <= i < s.len() implies a.contains(#[trigger] s[i]) && b.contains(
        s[i],
    ) by {
        a.lemma_filter_pred(among(b), i);
        assert(s.contains(s[i]));
        a.lemma_filter_contains_rev(among(b), s[i]);
    }
}

/// The legs that meet are the first two.
pub proof fn law_first_two_legs_meet(msgs: Seq<MsgView>, legs: Seq<u8>)
    requires
        msgs.len() == legs.len(),
    ensures
        paired(msgs, legs) == msgs.len(),
        meeting_ip(msgs, legs) == only_shared(
            leg_ips(msgs, legs, 0, msgs.len() as int),
            leg_ips(msgs, legs, 1, msgs.len() as int),
        ),
{
}

/// What both legs mention are the addresses that each of them has.
pub proof fn law_shared_mentions(msgs: Seq<MsgView>, legs: Seq<u8>, ip: IpAddr)
    requires
        msgs.len() == legs.len(),
    ensures
        shared_mentions(msgs, legs).contains(ip) <==> leg_ips(
            msgs,
            legs,
            0,
            msgs.len() as int,
        ).contains(ip) && leg_ips(msgs, legs, 1, msgs.len() as int).contains(ip),
{
    let a = leg_ips(msgs, legs, 0, msgs.len() as int);
    let b = leg_ips(msgs, legs, 1, msgs.len() as int);
    let s = shared_mentions(msgs, legs);
    if a.contains(ip) && b.contains(ip) {
        let i = choose|i: int| 0 <= i < a.len() && a[i] == ip;
        a.lemma_filter_contains(among(b), i);
    }
    if s.contains(ip) {
        let i = choose|i: int| 0 <= i < s.len() && s[i] == ip;
        a.lemma_filter_pred(among(b), i);
        a.lemma_filter_contains_rev(among(b), ip);
    }
}

} // verus!
