//! TURN relays: how media reaches them, and what is learned of them from the messages
//! between their clients and servers.
use crate::decode::stun;
use crate::decode::stun::{StunClass, StunMessage, StunView};
use crate::diagnostics;
use crate::diagnostics::rules;
use crate::diagnostics::rules::diag;
use crate::diagnostics::{DiagView, Diagnostic, Severity};
use crate::model::addr::{has_ip, IpAddr, SocketAddr};
use crate::model::addr_text;
use crate::model::addr_text::push_socket;
use crate::model::packet::Flow5Tuple;
use crate::text;
use vstd::prelude::*;

verus! {

/// How a media packet was carried.
#[derive(Debug, Clone, Copy, PartialEq, Eq, Structural)]
pub enum Encap {
    /// Plain RTP over UDP.
    Direct,
    /// Inside a TURN Send or Data indication.
    SendIndication,
    /// Inside a TURN ChannelData message.
    ChannelData,
}

/// The side of a TURN relay on which a media flow runs.
#[derive(Debug, Clone, Copy, PartialEq, Eq, Structural)]
pub enum Leg {
    /// Between the client and the relay.
    Client,
    /// Between the relay and the peer.
    Peer,
}

impl Leg {
    pub open spec fn spec_label(self) -> Seq<char> {
        match self {
            Leg::Client => "client"@,
            Leg::Peer => "peer"@,
        }
    }

    pub fn label(self) -> (r: &'static str)
        ensures
            r@ == self.spec_label(),
    {
        match self {
            Leg::Client => "client",
            Leg::Peer => "peer",
        }
    }
}

// ----------------------------- what is learned -----------------------------

/// Servers are learned up to so many.
pub const MAX_SERVERS: usize = 512;

/// At most so many allocations are kept.
pub const MAX_ALLOCS: usize = 8192;

/// So many of the latest allocations stay when there is no room for another.
pub const KEPT_ALLOCS: usize = 4096;

/// What a client asked of a server: an address on the relay, once it is known.
#[derive(Debug, Clone, Copy, PartialEq, Eq, Structural)]
pub struct Allocation {
    pub client: SocketAddr,
    pub server: SocketAddr,
    pub relay: Option<SocketAddr>,
}

impl Allocation {
    /// Whether it is the one of a client on a server.
    pub open spec fn is_of(self, client: SocketAddr, server: SocketAddr) -> bool {
        self.client == client && self.server == server
    }
}

/// The TURN servers and allocations that are known.
pub struct TurnTracker {
    pub turn_servers: Vec<IpAddr>,
    /// Oldest first.
    pub allocs: Vec<Allocation>,
}

/// A tracker by its contents.
pub struct TurnView {
    pub servers: Seq<IpAddr>,
    pub allocs: Seq<Allocation>,
}

impl View for TurnTracker {
    type V = TurnView;

    open spec fn view(&self) -> TurnView {
        TurnView { servers: self.turn_servers@, allocs: self.allocs@ }
    }
}

/// The index of the allocation of a client on a server, from `i` on.
pub open spec fn alloc_index(
    v: Seq<Allocation>,
    client: SocketAddr,
    server: SocketAddr,
    i: int,
) -> Option<int>
    decreases v.len() - i,
{
    if i >= v.len() {
        None
    } else if v[i].is_of(client, server) {
        Some(i)
    } else {
        alloc_index(v, client, server, i + 1)
    }
}

/// The allocations that stay when another comes.
pub open spec fn with_room(v: Seq<Allocation>) -> Seq<Allocation> {
    if v.len() < MAX_ALLOCS {
        v
    } else {
        v.skip(v.len() - KEPT_ALLOCS)
    }
}

/// Whether an address is one that a relay gave to a client.
pub open spec fn relayed(v: Seq<Allocation>, a: SocketAddr) -> bool {
    exists|i: int| 0 <= i < v.len() && (#[trigger] v[i]).relay == Some(a)
}

impl TurnView {
    pub open spec fn wf(self) -> bool {
        self.allocs.len() <= MAX_ALLOCS
    }

    /// After an IP was seen to be that of a server.
    pub open spec fn with_server(self, ip: IpAddr) -> TurnView {
        if self.servers.contains(ip) || self.servers.len() >= MAX_SERVERS {
            self
        } else {
            TurnView { servers: self.servers.push(ip), ..self }
        }
    }

    /// After a client asked a server for an allocation, or got one at `relay`.
    pub open spec fn with_alloc(
        self,
        client: SocketAddr,
        server: SocketAddr,
        relay: Option<SocketAddr>,
    ) -> TurnView {
        let learned = self.with_server(server.ip);
        let allocs = match alloc_index(self.allocs, client, server, 0) {
            Some(i) => if relay is Some {
                self.allocs.update(i, Allocation { client, server, relay })
            } else {
                self.allocs
            },
            None => with_room(self.allocs).push(Allocation { client, server, relay }),
        };
        TurnView { allocs, ..learned }
    }

    /// After a STUN message on a flow.
    pub open spec fn after(self, flow: Flow5Tuple, m: StunView) -> TurnView {
        if m.method != stun::METHOD_ALLOCATE {
            self
        } else {
            match m.class {
                StunClass::Request => self.with_alloc(flow.src, flow.dst, None),
                StunClass::Success => match m.address_of(stun::ATTR_XOR_RELAYED_ADDRESS) {
                    Some(relay) => self.with_alloc(flow.dst, flow.src, Some(relay)),
                    None => self,
                },
                _ => self,
            }
        }
    }

    /// The side of a relay on which a flow runs: that of the peer, where one end is an
    /// address given to a client; that of the client, where one end is a server.
    pub open spec fn leg(self, flow: Flow5Tuple) -> Option<Leg> {
        if relayed(self.allocs, flow.src) || relayed(self.allocs, flow.dst) {
            Some(Leg::Peer)
        } else if self.servers.contains(flow.src.ip) || self.servers.contains(flow.dst.ip) {
            Some(Leg::Client)
        } else {
            None
        }
    }
}

// ----------------------------- findings -----------------------------

/// The code and the reason of an error response, as they end a message.
pub open spec fn error_text(e: Option<(u16, Seq<char>)>) -> Seq<char> {
    match e {
        Some((code, reason)) => ": "@ + text::dec(code as nat) + " "@ + reason,
        None => Seq::empty(),
    }
}

/// The client and the server of a response.
pub open spec fn ends_text(flow: Flow5Tuple) -> Seq<char> {
    addr_text::socket_text(flow.dst) + " on "@ + addr_text::socket_text(flow.src)
}

/// What a response to a client says of its allocation. It belongs to no call.
pub open spec fn finding(ts: u64, flow: Flow5Tuple, m: StunView) -> Option<DiagView> {
    if m.method == stun::METHOD_ALLOCATE && m.class == StunClass::Success {
        match m.address_of(stun::ATTR_XOR_RELAYED_ADDRESS) {
            Some(relay) => Some(
                DiagView {
                    ts_us: ts,
                    call_id: ""@,
                    severity: Severity::Info,
                    code: diagnostics::TURN_ALLOC_OK@,
                    message: "TURN allocation of "@ + ends_text(flow) + ": relay "@
                        + addr_text::socket_text(relay),
                },
            ),
            None => None,
        }
    } else if m.method == stun::METHOD_ALLOCATE && m.class == StunClass::Error {
        Some(
            DiagView {
                ts_us: ts,
                call_id: ""@,
                severity: Severity::Warn,
                code: diagnostics::TURN_ALLOC_FAILED@,
                message: "TURN allocation failed for "@ + ends_text(flow) + error_text(
                    stun::first_error(m.attrs, 0),
                ),
            },
        )
    } else if m.method == stun::METHOD_REFRESH && m.class == StunClass::Error {
        Some(
            DiagView {
                ts_us: ts,
                call_id: ""@,
                severity: Severity::Warn,
                code: diagnostics::TURN_REFRESH_FAILED@,
                message: "TURN refresh failed for "@ + ends_text(flow) + error_text(
                    stun::first_error(m.attrs, 0),
                ),
            },
        )
    } else {
        None
    }
}

fn push_ends(s: &mut String, flow: &Flow5Tuple)
    ensures
        final(s)@ == old(s)@ + ends_text(*flow),
{
    push_socket(s, flow.dst);
    s.push_str(" on ");
    push_socket(s, flow.src);
    assert(s@ =~= old(s)@ + ends_text(*flow));
}

fn failure_text(start: &str, flow: &Flow5Tuple, m: &StunMessage) -> (r: String)
    ensures
        r@ == start@ + ends_text(*flow) + error_text(stun::first_error(m@.attrs, 0)),
{
    let mut s = start.to_owned();
    push_ends(&mut s, flow);
    if let Some((code, reason)) = m.error_code() {
        s.push_str(": ");
        text::push_dec(&mut s, code as u64);
        s.push_str(" ");
        s.push_str(reason.as_str());
    }
    assert(s@ =~= start@ + ends_text(*flow) + error_text(stun::first_error(m@.attrs, 0)));
    s
}

/// What a STUN message on a flow says of an allocation.
pub fn check_turn(ts: u64, flow: &Flow5Tuple, m: &StunMessage) -> (r: Option<Diagnostic>)
    ensures
        rules::opt_diag(r) == finding(ts, *flow, m@),
{
    if m.is_allocate_error() {
        let s = failure_text("TURN allocation failed for ", flow, m);
        return Some(diag(ts, "", Severity::Warn, diagnostics::TURN_ALLOC_FAILED, s));
    }
    if m.method == stun::METHOD_REFRESH && m.class == StunClass::Error {
        let s = failure_text("TURN refresh failed for ", flow, m);
        return Some(diag(ts, "", Severity::Warn, diagnostics::TURN_REFRESH_FAILED, s));
    }
    if m.method == stun::METHOD_ALLOCATE && m.class == StunClass::Success {
        if let Some(relay) = m.relayed_address() {
            let mut s = "TURN allocation of ".to_owned();
            push_ends(&mut s, flow);
            s.push_str(": relay ");
            push_socket(&mut s, relay);
            assert(s@ =~= "TURN allocation of "@ + ends_text(*flow) + ": relay "@
                + addr_text::socket_text(relay));
            return Some(diag(ts, "", Severity::Info, diagnostics::TURN_ALLOC_OK, s));
        }
    }
    None
}

// ----------------------------- the tracker -----------------------------

impl TurnTracker {
    pub open spec fn wf(&self) -> bool {
        self@.wf()
    }

    /// A tracker that knows the given servers.
    pub fn new(servers: &[IpAddr]) -> (r: TurnTracker)
        ensures
            r.wf(),
            r@.servers == servers@,
            r@.allocs.len() == 0,
    {
        let mut v: Vec<IpAddr> = Vec::new();
        let mut i: usize = 0;
        while i < servers.len()
            invariant
                i <= servers.len(),
                v@ == servers@.take(i as int),
            decreases servers.len() - i,
        {
            v.push(servers[i]);
            i += 1;
            assert(v@ =~= servers@.take(i as int));
        }
        assert(v@ =~= servers@);
        TurnTracker { turn_servers: v, allocs: Vec::new() }
    }

    fn find(&self, client: SocketAddr, server: SocketAddr) -> (r: Option<usize>)
        ensures
            match alloc_index(self.allocs@, client, server, 0) {
                Some(k) => r is Some && r->Some_0 == k && k < self.allocs@.len(),
                None => r is None,
            },
    {
        let mut i: usize = 0;
        while i < self.allocs.len()
            invariant
                i <= self.allocs.len(),
                alloc_index(self.allocs@, client, server, 0) == alloc_index(
                    self.allocs@,
                    client,
                    server,
                    i as int,
                ),
            decreases self.allocs.len() - i,
        {
            if self.allocs[i].client == client && self.allocs[i].server == server {
                return Some(i);
            }
            i += 1;
        }
        None
    }

    fn make_room(&mut self)
        requires
            old(self).wf(),
        ensures
            final(self).turn_servers == old(self).turn_servers,
            final(self).allocs@ == with_room(old(self).allocs@),
            final(self).allocs@.len() < MAX_ALLOCS,
    {
        let n: usize = self.allocs.len();
        if n < MAX_ALLOCS {
            return;
        }
        let from: usize = n - KEPT_ALLOCS;
        let mut kept: Vec<Allocation> = Vec::new();
        let mut i: usize = from;
        while i < n
            invariant
                from <= i <= n,
                n == self.allocs@.len(),
                kept@ == self.allocs@.subrange(from as int, i as int),
            decreases n - i,
        {
            kept.push(self.allocs[i]);
            i += 1;
            assert(kept@ =~= self.allocs@.subrange(from as int, i as int));
        }
        assert(kept@ =~= with_room(self.allocs@));
        self.allocs = kept;
    }

    fn note(&mut self, client: SocketAddr, server: SocketAddr, relay: Option<SocketAddr>)
        requires
            old(self).wf(),
        ensures
            final(self).wf(),
            final(self)@ == old(self)@.with_alloc(client, server, relay),
    {
        if !has_ip(&self.turn_servers, server.ip) && self.turn_servers.len() < MAX_SERVERS {
            self.turn_servers.push(server.ip);
        }
        match self.find(client, server) {
            Some(i) => {
                if relay.is_some() {
                    self.allocs.set(i, Allocation { client, server, relay });
                }
            },
            None => {
                self.make_room();
                self.allocs.push(Allocation { client, server, relay });
            },
        }
    }

    /// Learns from a STUN message on a flow, and tells what it says of an allocation.
    pub fn ingest(&mut self, ts: u64, flow: &Flow5Tuple, m: &StunMessage) -> (r: Option<Diagnostic>)
        requires
            old(self).wf(),
        ensures
            final(self).wf(),
            final(self)@ == old(self)@.after(*flow, m@),
            rules::opt_diag(r) == finding(ts, *flow, m@),
    {
        if m.method == stun::METHOD_ALLOCATE {
            match m.class {
                StunClass::Request => {
                    self.note(flow.src, flow.dst, None);
                },
                StunClass::Success => {
                    if let Some(relay) = m.relayed_address() {
                        self.note(flow.dst, flow.src, Some(relay));
                    }
                },
                _ => {},
            }
        }
        check_turn(ts, flow, m)
    }

    fn is_relayed(&self, a: SocketAddr) -> (r: bool)
        ensures
            r == relayed(self.allocs@, a),
    {
        let mut i: usize = 0;
        while i < self.allocs.len()
            invariant
                i <= self.allocs.len(),
                forall|k: int| 0 <= k < i ==> (#[trigger] self.allocs@[k]).relay != Some(a),
            decreases self.allocs.len() - i,
        {
            if let Some(relay) = self.allocs[i].relay {
                if relay == a {
                    assert(self.allocs@[i as int].relay == Some(a));
                    return true;
                }
            }
            i += 1;
        }
        false
    }

    /// The side of a relay on which a flow runs, if it runs through one.
    pub fn leg_of(&self, flow: &Flow5Tuple) -> (r: Option<Leg>)
        ensures
            r == self@.leg(*flow),
    {
        if self.is_relayed(flow.src) || self.is_relayed(flow.dst) {
            Some(Leg::Peer)
        } else if has_ip(&self.turn_servers, flow.src.ip) || has_ip(
            &self.turn_servers,
            flow.dst.ip,
        ) {
            Some(Leg::Client)
        } else {
            None
        }
    }
}

// ----------------------------- laws -----------------------------

proof fn lemma_index_within(v: Seq<Allocation>, client: SocketAddr, server: SocketAddr, i: int)
    requires
        0 <= i <= v.len(),
    ensures
        alloc_index(v, client, server, i) matches Some(k) ==> i <= k < v.len(),
    decreases v.len() - i,
{
    if i < v.len() && !v[i].is_of(client, server) {
        lemma_index_within(v, client, server, i + 1);
    }
}

/// The two directions of a flow run on the same side of a relay.
pub proof fn law_leg_of_both_directions(t: TurnView, flow: Flow5Tuple)
    ensures
        t.leg(flow.spec_reverse()) == t.leg(flow),
{
}

/// However many clients ask, no message makes the tracker outgrow its limits: the
/// allocations stay within theirs, and servers are learned up to theirs only.
pub proof fn law_tracker_bounded(t: TurnView, flow: Flow5Tuple, m: StunView)
    requires
        t.wf(),
    ensures
        t.after(flow, m).wf(),
        t.after(flow, m).servers.len() > t.servers.len() ==> t.after(flow, m).servers.len()
            <= MAX_SERVERS,
        t.after(flow, m).servers.len() >= t.servers.len(),
{
    lemma_index_within(t.allocs, flow.src, flow.dst, 0);
    lemma_index_within(t.allocs, flow.dst, flow.src, 0);
}

/// A successful allocation is learned without any configuration: from then on flows at
/// the address that the client got run on the peer's side.
pub proof fn law_allocation_learned(t: TurnView, flow: Flow5Tuple, m: StunView, media: Flow5Tuple)
    requires
        m.method == stun::METHOD_ALLOCATE,
        m.class == StunClass::Success,
        m.address_of(stun::ATTR_XOR_RELAYED_ADDRESS) is Some,
        ({
            let relay = m.address_of(stun::ATTR_XOR_RELAYED_ADDRESS)->Some_0;
            media.src == relay || media.dst == relay
        }),
    ensures
        t.after(flow, m).leg(media) == Some(Leg::Peer),
{
    let relay = m.address_of(stun::ATTR_XOR_RELAYED_ADDRESS);
    let after = t.after(flow, m);
    lemma_index_within(t.allocs, flow.dst, flow.src, 0);
    match alloc_index(t.allocs, flow.dst, flow.src, 0) {
        Some(i) => {
            assert(after.allocs[i].relay == relay);
        },
        None => {
            let n = after.allocs.len() - 1;
            assert(after.allocs[n].relay == relay);
        },
    }
}

/// Flows at a server are relayed from the first request on, while servers are learned.
pub proof fn law_server_learned(t: TurnView, flow: Flow5Tuple, m: StunView, media: Flow5Tuple)
    requires
        m.method == stun::METHOD_ALLOCATE,
        m.class == StunClass::Request,
        t.servers.contains(flow.dst.ip) || t.servers.len() < MAX_SERVERS,
        media.src.ip == flow.dst.ip || media.dst.ip == flow.dst.ip,
    ensures
        t.after(flow, m).leg(media) is Some,
{
    let after = t.after(flow, m);
    if !t.servers.contains(flow.dst.ip) {
        assert(after.servers.last() == flow.dst.ip);
    }
}

} // verus!
