//! Flows, settings, the run of a session and what a filter finds.
use crate::config::{usable, usable_of, Bucket, Config};
use crate::correlate::call_laws::{law_same_word, same_letters};
use crate::diagnostics::laws::dotted;
use crate::filter;
use crate::filter::{addr_of, holds, rule_matches, rule_of, rules_of, Fields, RuleView};
use crate::model::addr::{IpAddr, SocketAddr};
use crate::model::addr_laws::{law_ip_read_back, law_socket_read_back};
use crate::model::addr_text;
use crate::model::packet::{Flow5Tuple, Proto};
use crate::model::sip::CallState;
use crate::pipeline::{mode_of, turn_for, FileMode, PipeView};
use crate::text;
use crate::text::{has_sub, lower, occurs_at};
use vstd::prelude::*;

verus! {

// ----------------------------- flows -----------------------------

/// The reverse of a flow has its ends the other way round, and the same protocol; a flow is its own reverse
/// only where both ends are one.
pub proof fn law_reverse(f: Flow5Tuple)
    ensures
        f.spec_reverse().src == f.dst,
        f.spec_reverse().dst == f.src,
        f.spec_reverse().proto == f.proto,
        f.spec_reverse() == f <==> f.src == f.dst,
{
}

/// The text of a flow: its protocol, a slash, and its ends with an arrow between.
pub proof fn law_flow_text(f: Flow5Tuple)
    ensures
        f.proto == Proto::Udp ==> f.spec_text() == "UDP"@ + "/"@ + addr_text::socket_text(f.src) + "->"@
            + addr_text::socket_text(f.dst),
        f.proto == Proto::Tcp ==> f.spec_text() == "TCP"@ + "/"@ + addr_text::socket_text(f.src) + "->"@
            + addr_text::socket_text(f.dst),
{
}

/// A call has ended where it completed, failed or was canceled.
pub proof fn law_terminal(s: CallState)
    ensures
        s.spec_terminal() <==> s != CallState::Dialing && s != CallState::Ringing && s
            != CallState::Active,
{
}

/// The names of the states.
pub proof fn law_state_names(s: CallState)
    ensures
        s.spec_label() == (match s {
            CallState::Dialing => "Dialing"@,
            CallState::Ringing => "Ringing"@,
            CallState::Active => "Active"@,
            CallState::Completed => "Completed"@,
            CallState::Failed => "Failed"@,
            CallState::Canceled => "Canceled"@,
        }),
{
}

// ----------------------------- settings -----------------------------

/// The widths of a bucket, and the names that ask for them; anything else means an hour.
pub proof fn law_buckets(t: Seq<char>)
    ensures
        Bucket::FifteenMin.spec_seconds() == 15 * 60,
        Bucket::OneHour.spec_seconds() == 60 * 60,
        Bucket::OneDay.spec_seconds() == 24 * 60 * 60,
        t == "15m"@ ==> Bucket::named(t) == Bucket::FifteenMin,
        t == "1d"@ ==> Bucket::named(t) == Bucket::OneDay,
        t != "15m"@ && t != "1d"@ ==> Bucket::named(t) == Bucket::OneHour,
{
    reveal_strlit("15m");
    reveal_strlit("1d");
    assert("15m"@.len() != "1d"@.len());
}

/// A dry run logs nowhere; any other where it was told.
pub proof fn law_log_path(c: Config)
    ensures
        c.dry_run ==> c.spec_log_path() is None,
        !c.dry_run ==> c.spec_log_path() == text::opt_text(c.evlog),
{
}

/// An address can stand for this machine unless it is loopback, unspecified, multicast or link-local.
pub proof fn law_usable(a: u8, b: u8, c: u8, d: u8, v: u128)
    ensures
        usable(dotted(a, b, c, d)) <==> !(a == 127 || a == 0 && b == 0 && c == 0 && d == 0 || 224 <= a
            <= 239 || a == 169 && b == 254),
        usable(IpAddr::V6(v)) <==> !(v == 0 || v == 1 || v / 0x100_0000_0000_0000_0000_0000_0000_0000
            == 0xff || 0xfe80 <= v / 0x1_0000_0000_0000_0000_0000_0000_0000 <= 0xfebf),
{
    let x = (0x100_0000 * a + 0x1_0000 * b + 0x100 * c + d) as u32;
    assert(x / 0x100_0000 == a);
    assert(x / 0x1_0000 == 256 * a + b);
    assert(x / 0x1000_0000 == a / 16);
}

/// Every usable address of an interface is found.
pub proof fn law_usable_found(all: Seq<IpAddr>, n: nat, k: int)
    requires
        n <= all.len(),
        0 <= k < n,
        usable(all[k]),
    ensures
        usable_of(all, n).contains(all[k]),
    decreases n,
{
    let a = usable_of(all, (n - 1) as nat);
    let b = usable_of(all, n);
    if k < n - 1 {
        law_usable_found(all, (n - 1) as nat, k);
        let j = choose|j: int| 0 <= j < a.len() && a[j] == all[k];
        assert(b[j] == all[k]);
    } else if !a.contains(all[k]) {
        assert(b[a.len() as int] == all[k]);
    }
}

// ----------------------------- the run -----------------------------

/// A request to stop goes before one to pause, and without either the next frame is taken.
pub proof fn law_turns(quit: bool, paused: bool)
    ensures
        turn_for(quit, paused) is Stop <==> quit,
        turn_for(quit, paused) is Wait <==> !quit && paused,
        turn_for(quit, paused) is Pull <==> !quit && !paused,
{
}

/// A snapshot is published after a frame once it is due and something has changed: packets or the focus; what
/// was published is remembered.
pub proof fn law_published_when_due(v: PipeView, ms: u64, pkts: u64, focus: Option<Seq<char>>)
    ensures
        v.framed(ms, pkts, focus).1 <==> ms >= 100 && (v.last_pkts != Some(
            pkts,
        ) || v.last_focus != Some(focus)),
        v.framed(ms, pkts, focus).1 ==> v.framed(ms, pkts, focus).0.last_pkts == Some(pkts)
            && v.framed(ms, pkts, focus).0.last_focus == Some(focus),
        !v.framed(ms, pkts, focus).1 ==> v.framed(ms, pkts, focus).0 == v,
{
}

/// At the end of a source the run stays where screens are open, and publishes again for another focus.
pub proof fn law_end_of_source(v: PipeView, focus: Option<Seq<char>>)
    ensures
        v.ended(focus).0.exhausted,
        v.ended(focus).1.stay <==> v.with_tui,
        v.ended(focus).1.flush <==> !v.exhausted,
        v.exhausted ==> (v.ended(focus).1.publish <==> v.with_tui && v.last_focus != Some(focus)),
{
}

/// A file is a capture, an event log or a list of summaries by its extension, in any case of letters.
pub proof fn law_file_modes(ext: Seq<char>)
    ensures
        mode_of(ext) == Some(FileMode::Capture) <==> same_letters(ext, "pcap"@) || same_letters(
            ext,
            "pcapng"@,
        ),
        mode_of(ext) == Some(FileMode::Replay) <==> same_letters(ext, "evlog"@),
        mode_of(ext) == Some(FileMode::View) <==> same_letters(ext, "jsonl"@),
{
    law_same_word(ext, "pcap"@);
    law_same_word(ext, "pcapng"@);
    law_same_word(ext, "evlog"@);
    law_same_word(ext, "jsonl"@);
    reveal_strlit("pcap");
    reveal_strlit("pcapng");
    reveal_strlit("evlog");
    reveal_strlit("jsonl");
    if same_letters(ext, "evlog"@) && same_letters(ext, "jsonl"@) {
        assert(crate::correlate::call_laws::alike(ext[0], 'e'));
        assert(crate::correlate::call_laws::alike(ext[0], 'j'));
    }
}

// ----------------------------- the filter -----------------------------

/// An address is read with or without its port.
pub proof fn law_filter_address(a: SocketAddr)
    ensures
        addr_of(addr_text::ip_text(a.ip)) == Some(a.ip),
        addr_text::ip_of(addr_text::socket_text(a)) is None ==> addr_of(addr_text::socket_text(a)) == Some(
            a.ip,
        ),
{
    law_ip_read_back(a.ip);
    law_socket_read_back(a);
}

proof fn lemma_prefix(p: Seq<char>, v: Seq<char>)
    ensures
        filter::after_prefix(p + v, p) == Some(v),
{
    assert((p + v).subrange(0, 0 + p.len() as int) =~= p);
    assert((p + v).skip(p.len() as int) =~= v);
}

/// A token asks for what its prefix says, in lower case: a Call-ID, a caller, a callee or an address; without
/// one, for any of them. A prefix with nothing behind it asks for nothing.
pub proof fn law_filter_tokens(tok: Seq<char>, v: Seq<char>)
    ensures
        lower(tok) == "callid:"@ + v && v.len() > 0 ==> rule_of(tok) == Some(RuleView::CallId(v)),
        lower(tok) == "caller:"@ + v && v.len() > 0 ==> rule_of(tok) == Some(RuleView::Caller(v)),
        lower(tok) == "callee:"@ + v && v.len() > 0 ==> rule_of(tok) == Some(RuleView::Callee(v)),
        lower(tok) == "ip:"@ + v && v.len() > 0 ==> rule_of(tok) == Some(
            RuleView::Ip { needle: v, addr: addr_of(v) },
        ),
        lower(tok) == "callid:"@ || lower(tok) == "caller:"@ || lower(tok) == "callee:"@ || lower(tok)
            == "ip:"@ ==> rule_of(tok) is None,
{
    reveal_strlit("callid:");
    reveal_strlit("caller:");
    reveal_strlit("callee:");
    reveal_strlit("ip:");
    let t = lower(tok);
    let e = Seq::<char>::empty();
    lemma_prefix("callid:"@, v);
    lemma_prefix("caller:"@, v);
    lemma_prefix("callee:"@, v);
    lemma_prefix("ip:"@, v);
    lemma_prefix("callid:"@, e);
    lemma_prefix("caller:"@, e);
    lemma_prefix("callee:"@, e);
    lemma_prefix("ip:"@, e);
    assert("callid:"@ + e =~= "callid:"@);
    assert("caller:"@ + e =~= "caller:"@);
    assert("callee:"@ + e =~= "callee:"@);
    assert("ip:"@ + e =~= "ip:"@);
    lemma_apart(t, "callid:"@, "caller:"@, 4);
    lemma_apart(t, "callid:"@, "callee:"@, 4);
    lemma_apart(t, "caller:"@, "callee:"@, 5);
    lemma_apart(t, "callid:"@, "ip:"@, 0);
    lemma_apart(t, "caller:"@, "ip:"@, 0);
    lemma_apart(t, "callee:"@, "ip:"@, 0);
}

proof fn lemma_apart(t: Seq<char>, p: Seq<char>, q: Seq<char>, k: int)
    requires
        0 <= k < p.len(),
        k < q.len(),
        p[k] != q[k],
    ensures
        !(occurs_at(t, p, 0) && occurs_at(t, q, 0)),
{
    if occurs_at(t, p, 0) && occurs_at(t, q, 0) {
        assert(t.subrange(0, 0 + p.len() as int)[k] == t[k]);
        assert(t.subrange(0, 0 + q.len() as int)[k] == t[k]);
    }
}

/// The rules of a query are those of its tokens, in order.
pub proof fn law_filter_rules(toks: Seq<Seq<char>>, n: int)
    requires
        0 <= n < toks.len(),
    ensures
        rules_of(toks, 0).len() == 0,
        rule_of(toks[n]) matches Some(r) ==> rules_of(toks, n + 1) == rules_of(toks, n).push(r),
        rule_of(toks[n]) is None ==> rules_of(toks, n + 1) == rules_of(toks, n),
{
}

/// A text holds a needle where the needle stands somewhere in it, letters in lower case.
pub proof fn law_filter_text(v: Seq<char>, needle: Seq<char>, k: int)
    ensures
        0 <= k && occurs_at(lower(v), needle, k) ==> holds(Some(v), needle),
        (forall|i: int| 0 <= i ==> !#[trigger] occurs_at(lower(v), needle, i)) ==> !holds(
            Some(v),
            needle,
        ),
        !holds(None, needle),
{
    text::lemma_find_from(lower(v), needle, 0);
}

/// A rule finds a call by what it names: the caller, the callee or the Call-ID; one without a prefix by any of
/// them or by an address.
pub proof fn law_filter_fields(f: Fields, n: Seq<char>, addr: Option<IpAddr>)
    ensures
        rule_matches(f, RuleView::Caller(n)) <==> holds(f.caller, n),
        rule_matches(f, RuleView::Callee(n)) <==> holds(f.callee, n),
        rule_matches(f, RuleView::CallId(n)) <==> holds(Some(f.call_id), n),
        rule_matches(f, RuleView::Any { needle: n, addr }) <==> holds(Some(f.call_id), n) || holds(
            f.caller,
            n,
        ) || holds(f.callee, n) || rule_matches(f, RuleView::Ip { needle: n, addr }),
        rule_matches(f, RuleView::Ip { needle: n, addr: None }) <==> (f.caller_ip is Some && has_sub(
            addr_text::ip_text(f.caller_ip->Some_0),
            n,
        )) || exists|i: int|
            0 <= i < f.ips.len() && has_sub(addr_text::ip_text(#[trigger] f.ips[i]), n),
{
    if exists|i: int| 0 <= i < f.ips.len() && has_sub(addr_text::ip_text(#[trigger] f.ips[i]), n) {
        let i = choose|i: int|
            0 <= i < f.ips.len() && has_sub(addr_text::ip_text(#[trigger] f.ips[i]), n);
        assert(filter::ip_holds(f.ips[i], n));
    }
}

/// A rule with an address finds the calls whose caller has it or whose media or signaling runs to or from it.
pub proof fn law_filter_by_address(f: Fields, n: Seq<char>, a: IpAddr)
    ensures
        rule_matches(f, RuleView::Ip { needle: n, addr: Some(a) }) <==> f.caller_ip == Some(a)
            || f.ips.contains(a),
{
}

} // verus!
