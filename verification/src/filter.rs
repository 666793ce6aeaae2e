//! Call filter rules.
//!
//! A query is whitespace-separated tokens, each an optional `prefix:value`
//! (`ip:`, `caller:`, `callee:`, `callid:`) or a bare word matching any field.
//! All tokens must match (AND). Values are case-insensitive substrings;
//! `ip:` accepts `addr` or `addr:port` (the port is ignored: calls are indexed
//! by IP), and a value that parses as a complete address matches exactly
//! instead of as a substring (`ip:10.0.0.1` will not hit `10.0.0.10`).
use crate::model::addr::{has_ip, IpAddr};
use crate::model::addr_text;
use crate::model::addr_text::{ip_string, parse_ip_addr, parse_socket};
use crate::model::sip::Call;
use crate::store::snapshot;
use crate::store::snapshot::CallSummary;
use crate::text;
use crate::text::{begins_with, chars_of, contains, slice_of, string_of, to_lower, words};
use vstd::prelude::*;

verus! {

/// One parsed filter token; needles are stored lowercased.
#[derive(Debug, Clone, PartialEq, Eq)]
pub enum Rule {
    /// Any IP involved in the call. `addr` is set when the value parses as a
    /// complete address, which asks for an exact match.
    Ip { needle: String, addr: Option<IpAddr> },
    /// From user substring.
    Caller(String),
    /// To user substring.
    Callee(String),
    /// Call-ID substring.
    CallId(String),
    /// A bare word: matches call-id, caller, callee or any IP.
    Any { needle: String, addr: Option<IpAddr> },
}

/// A rule by its contents.
pub enum RuleView {
    Ip { needle: Seq<char>, addr: Option<IpAddr> },
    Caller(Seq<char>),
    Callee(Seq<char>),
    CallId(Seq<char>),
    Any { needle: Seq<char>, addr: Option<IpAddr> },
}

impl View for Rule {
    type V = RuleView;

    open spec fn view(&self) -> RuleView {
        match self {
            Rule::Ip { needle, addr } => RuleView::Ip { needle: needle@, addr: *addr },
            Rule::Caller(n) => RuleView::Caller(n@),
            Rule::Callee(n) => RuleView::Callee(n@),
            Rule::CallId(n) => RuleView::CallId(n@),
            Rule::Any { needle, addr } => RuleView::Any { needle: needle@, addr: *addr },
        }
    }
}

pub open spec fn rule_views(v: Seq<Rule>) -> Seq<RuleView> {
    v.map_values(|r: Rule| r@)
}

// ----------------------------- parsing -----------------------------

/// The address that `addr` or `addr:port` names.
pub open spec fn addr_of(t: Seq<char>) -> Option<IpAddr> {
    if addr_text::ip_of(t) is Some {
        addr_text::ip_of(t)
    } else {
        match addr_text::socket_of(t) {
            Some(a) => Some(a.ip),
            None => None,
        }
    }
}

/// What follows a prefix.
pub open spec fn after_prefix(t: Seq<char>, p: Seq<char>) -> Option<Seq<char>> {
    if text::occurs_at(t, p, 0) {
        Some(t.skip(p.len() as int))
    } else {
        None
    }
}

/// The rule of a token; none, if its value is empty.
pub open spec fn rule_of(tok: Seq<char>) -> Option<RuleView> {
    let t = text::lower(tok);
    if let Some(v) = after_prefix(t, "callid:"@) {
        if v.len() == 0 {
            None
        } else {
            Some(RuleView::CallId(v))
        }
    } else if let Some(v) = after_prefix(t, "caller:"@) {
        if v.len() == 0 {
            None
        } else {
            Some(RuleView::Caller(v))
        }
    } else if let Some(v) = after_prefix(t, "callee:"@) {
        if v.len() == 0 {
            None
        } else {
            Some(RuleView::Callee(v))
        }
    } else if let Some(v) = after_prefix(t, "ip:"@) {
        if v.len() == 0 {
            None
        } else {
            Some(RuleView::Ip { needle: v, addr: addr_of(v) })
        }
    } else {
        Some(RuleView::Any { needle: t, addr: addr_of(t) })
    }
}

/// The rules of the first `n` tokens.
pub open spec fn rules_of(toks: Seq<Seq<char>>, n: int) -> Seq<RuleView>
    decreases n,
{
    if n <= 0 {
        Seq::empty()
    } else {
        match rule_of(toks[n - 1]) {
            Some(r) => rules_of(toks, n - 1).push(r),
            None => rules_of(toks, n - 1),
        }
    }
}

/// The rules of a query.
pub open spec fn query_rules(q: Seq<char>) -> Seq<RuleView> {
    rules_of(text::words_of(q), text::words_of(q).len() as int)
}

/// Parses `addr` or `addr:port` (the port is ignored).
pub fn parse_addr(v: &[char]) -> (r: Option<IpAddr>)
    ensures
        r == addr_of(v@),
{
    match parse_ip_addr(v) {
        Some(ip) => Some(ip),
        None => match parse_socket(v) {
            Some(a) => Some(a.ip),
            None => None,
        },
    }
}

fn value_after(t: &Vec<char>, p: &str, n: usize) -> (r: Option<Vec<char>>)
    requires
        p@.len() == n,
    ensures
        match after_prefix(t@, p@) {
            Some(v) => r is Some && r->Some_0@ == v,
            None => r is None,
        },
{
    if begins_with(t.as_slice(), p) {
        let v = slice_of(t.as_slice(), n, t.len());
        assert(v@ =~= t@.skip(n as int));
        Some(v)
    } else {
        None
    }
}

fn token_rule(tok: &Vec<char>) -> (r: Option<Rule>)
    ensures
        match rule_of(tok@) {
            Some(v) => r is Some && r->Some_0@ == v,
            None => r is None,
        },
{
    proof {
        reveal_strlit("callid:");
        reveal_strlit("caller:");
        reveal_strlit("callee:");
        reveal_strlit("ip:");
    }
    let t = to_lower(tok.as_slice());
    if let Some(v) = value_after(&t, "callid:", 7) {
        if v.len() == 0 {
            None
        } else {
            Some(Rule::CallId(string_of(v.as_slice())))
        }
    } else if let Some(v) = value_after(&t, "caller:", 7) {
        if v.len() == 0 {
            None
        } else {
            Some(Rule::Caller(string_of(v.as_slice())))
        }
    } else if let Some(v) = value_after(&t, "callee:", 7) {
        if v.len() == 0 {
            None
        } else {
            Some(Rule::Callee(string_of(v.as_slice())))
        }
    } else if let Some(v) = value_after(&t, "ip:", 3) {
        if v.len() == 0 {
            None
        } else {
            let addr = parse_addr(v.as_slice());
            Some(Rule::Ip { needle: string_of(v.as_slice()), addr })
        }
    } else {
        let addr = parse_addr(t.as_slice());
        Some(Rule::Any { needle: string_of(t.as_slice()), addr })
    }
}

/// Parses a query into rules. Tokens whose value is empty (a lone `ip:`) are
/// dropped so they become no-ops instead of matching everything.
pub fn parse(query: &str) -> (r: Vec<Rule>)
    ensures
        rule_views(r@) == query_rules(query@),
{
    let t = chars_of(query);
    let toks = words(t.as_slice());
    let ghost tv = text::words_of(query@);
    let mut out: Vec<Rule> = Vec::new();
    let mut i: usize = 0;
    assert(rule_views(out@) =~= Seq::<RuleView>::empty());
    while i < toks.len()
        invariant
            i <= toks.len(),
            tv == text::deep(toks@),
            rule_views(out@) == rules_of(tv, i as int),
        decreases toks.len() - i,
    {
        assert(tv[i as int] == toks@[i as int]@);
        if let Some(r) = token_rule(&toks[i]) {
            let ghost before = out@;
            out.push(r);
            assert(rule_views(out@) =~= rule_views(before).push(r@));
        }
        i += 1;
    }
    out
}

// ----------------------------- matching -----------------------------

/// What the filter reads of a call.
pub struct Fields {
    pub call_id: Seq<char>,
    pub caller: Option<Seq<char>>,
    pub callee: Option<Seq<char>>,
    pub caller_ip: Option<IpAddr>,
    pub ips: Seq<IpAddr>,
}

/// A call that the filter can be applied to.
pub trait CallLike {
    spec fn fields(&self) -> Fields;

    fn call_id(&self) -> (r: &str)
        ensures
            r@ == self.fields().call_id,
    ;

    fn caller(&self) -> (r: Option<&str>)
        ensures
            opt_str(r) == self.fields().caller,
    ;

    fn callee(&self) -> (r: Option<&str>)
        ensures
            opt_str(r) == self.fields().callee,
    ;

    fn caller_ip(&self) -> (r: Option<IpAddr>)
        ensures
            r == self.fields().caller_ip,
    ;

    fn ips(&self) -> (r: &Vec<IpAddr>)
        ensures
            r@ == self.fields().ips,
    ;
}

pub open spec fn opt_str(o: Option<&str>) -> Option<Seq<char>> {
    match o {
        Some(s) => Some(s@),
        None => None,
    }
}

fn as_opt_str(o: &Option<String>) -> (r: Option<&str>)
    ensures
        opt_str(r) == text::opt_text(*o),
{
    match o {
        Some(s) => Some(s.as_str()),
        None => None,
    }
}

impl CallLike for CallSummary {
    open spec fn fields(&self) -> Fields {
        Fields {
            call_id: self@.call_id,
            caller: self@.from_user,
            callee: self@.to_user,
            caller_ip: self@.caller_ip,
            ips: self@.ips,
        }
    }

    fn call_id(&self) -> (r: &str) {
        self.call_id.as_str()
    }

    fn caller(&self) -> (r: Option<&str>) {
        as_opt_str(&self.from_user)
    }

    fn callee(&self) -> (r: Option<&str>) {
        as_opt_str(&self.to_user)
    }

    fn caller_ip(&self) -> (r: Option<IpAddr>) {
        self.caller_ip
    }

    fn ips(&self) -> (r: &Vec<IpAddr>) {
        &self.ips
    }
}

impl CallLike for Call {
    open spec fn fields(&self) -> Fields {
        Fields {
            call_id: self@.call_id,
            caller: self@.from_user,
            callee: self@.to_user,
            caller_ip: snapshot::caller_ip_of(self@),
            ips: self@.ips,
        }
    }

    fn call_id(&self) -> (r: &str) {
        self.call_id.as_str()
    }

    fn caller(&self) -> (r: Option<&str>) {
        as_opt_str(&self.from_user)
    }

    fn callee(&self) -> (r: Option<&str>) {
        as_opt_str(&self.to_user)
    }

    fn caller_ip(&self) -> (r: Option<IpAddr>) {
        match &self.invite_key {
            Some(k) => addr_text::ip_from_str(k.as_str()),
            None => None,
        }
    }

    fn ips(&self) -> (r: &Vec<IpAddr>) {
        &self.ips
    }
}

/// A text that is there and holds the needle, in any case.
pub open spec fn holds(v: Option<Seq<char>>, needle: Seq<char>) -> bool {
    v matches Some(s) && text::has_sub(text::lower(s), needle)
}

/// The text of an IP holds the needle.
pub open spec fn ip_holds(ip: IpAddr, needle: Seq<char>) -> bool {
    text::has_sub(addr_text::ip_text(ip), needle)
}

/// One of the call's IPs is the address; without an address, the text of one
/// holds the needle.
pub open spec fn ip_matches(f: Fields, needle: Seq<char>, addr: Option<IpAddr>) -> bool {
    match addr {
        Some(a) => f.caller_ip == Some(a) || f.ips.contains(a),
        None => (f.caller_ip matches Some(ip) && ip_holds(ip, needle)) || exists|i: int|
            0 <= i < f.ips.len() && ip_holds(#[trigger] f.ips[i], needle),
    }
}

pub open spec fn rule_matches(f: Fields, r: RuleView) -> bool {
    match r {
        RuleView::Ip { needle, addr } => ip_matches(f, needle, addr),
        RuleView::Caller(n) => holds(f.caller, n),
        RuleView::Callee(n) => holds(f.callee, n),
        RuleView::CallId(n) => holds(Some(f.call_id), n),
        RuleView::Any { needle, addr } => holds(Some(f.call_id), needle) || holds(f.caller, needle)
            || holds(f.callee, needle) || ip_matches(f, needle, addr),
    }
}

/// The call satisfies every rule.
pub open spec fn all_match(f: Fields, rules: Seq<RuleView>) -> bool {
    forall|i: int| 0 <= i < rules.len() ==> rule_matches(f, #[trigger] rules[i])
}

fn text_hit(v: Option<&str>, needle: &str) -> (r: bool)
    ensures
        r == holds(opt_str(v), needle@),
{
    match v {
        Some(s) => {
            let t = chars_of(s);
            let l = to_lower(t.as_slice());
            let n = chars_of(needle);
            contains(l.as_slice(), n.as_slice())
        },
        None => false,
    }
}

fn ip_text_hit(ip: IpAddr, needle: &str) -> (r: bool)
    ensures
        r == ip_holds(ip, needle@),
{
    let s = ip_string(ip);
    let t = chars_of(s.as_str());
    let n = chars_of(needle);
    contains(t.as_slice(), n.as_slice())
}

fn ip_hit<C: CallLike>(c: &C, needle: &str, addr: Option<IpAddr>) -> (r: bool)
    ensures
        r == ip_matches(c.fields(), needle@, addr),
{
    let ips = c.ips();
    match addr {
        Some(a) => {
            let by_caller: bool = match c.caller_ip() {
                Some(ip) => ip == a,
                None => false,
            };
            by_caller || has_ip(ips, a)
        },
        None => {
            let by_caller: bool = match c.caller_ip() {
                Some(ip) => ip_text_hit(ip, needle),
                None => false,
            };
            if by_caller {
                return true;
            }
            let mut i: usize = 0;
            while i < ips.len()
                invariant
                    i <= ips.len(),
                    ips@ == c.fields().ips,
                    addr is None,
                    forall|k: int| 0 <= k < i ==> !ip_holds(#[trigger] ips@[k], needle@),
                decreases ips.len() - i,
            {
                if ip_text_hit(ips[i], needle) {
                    assert(ip_holds(ips@[i as int], needle@));
                    return true;
                }
                i += 1;
            }
            false
        },
    }
}

fn matches_rule<C: CallLike>(c: &C, r: &Rule) -> (b: bool)
    ensures
        b == rule_matches(c.fields(), r@),
{
    match r {
        Rule::Ip { needle, addr } => ip_hit(c, needle.as_str(), *addr),
        Rule::Caller(n) => text_hit(c.caller(), n.as_str()),
        Rule::Callee(n) => text_hit(c.callee(), n.as_str()),
        Rule::CallId(n) => text_hit(Some(c.call_id()), n.as_str()),
        Rule::Any { needle, addr } => text_hit(Some(c.call_id()), needle.as_str()) || text_hit(
            c.caller(),
            needle.as_str(),
        ) || text_hit(c.callee(), needle.as_str()) || ip_hit(c, needle.as_str(), *addr),
    }
}

/// True when the call satisfies every rule (AND). An empty rule list matches
/// everything.
pub fn matches<C: CallLike>(c: &C, rules: &Vec<Rule>) -> (r: bool)
    ensures
        r == all_match(c.fields(), rule_views(rules@)),
{
    let ghost rv = rule_views(rules@);
    let mut i: usize = 0;
    while i < rules.len()
        invariant
            i <= rules.len(),
            rv == rule_views(rules@),
            forall|k: int| 0 <= k < i ==> rule_matches(c.fields(), #[trigger] rv[k]),
        decreases rules.len() - i,
    {
        assert(rv[i as int] == rules@[i as int]@);
        if !matches_rule(c, &rules[i]) {
            return false;
        }
        i += 1;
    }
    true
}

// ----------------------------- laws -----------------------------

/// An empty query matches every call.
pub proof fn law_no_rule_matches_all(f: Fields)
    ensures
        all_match(f, Seq::empty()),
{
}

/// Rules combine with AND: two lists together match what both match.
pub proof fn law_rules_combine(f: Fields, a: Seq<RuleView>, b: Seq<RuleView>)
    ensures
        all_match(f, a + b) <==> all_match(f, a) && all_match(f, b),
{
    if all_match(f, a + b) {
        assert forall|i: int| 0 <= i < a.len() implies rule_matches(f, #[trigger] a[i]) by {
            assert((a + b)[i] == a[i]);
        }
        assert forall|i: int| 0 <= i < b.len() implies rule_matches(f, #[trigger] b[i]) by {
            assert((a + b)[a.len() + i] == b[i]);
        }
    }
}

/// A complete address matches exactly, never as a part of another.
pub proof fn law_complete_address_is_exact(f: Fields, needle: Seq<char>, a: IpAddr)
    ensures
        rule_matches(f, RuleView::Ip { needle, addr: Some(a) }) <==> f.caller_ip == Some(a)
            || f.ips.contains(a),
{
}

} // verus!
