//! Flows and captured packets.
use crate::model::addr::SocketAddr;
use crate::model::addr_text;
use crate::model::addr_text::push_socket;
use vstd::prelude::*;

verus! {

/// Transport protocol of a flow.
#[derive(Debug, Clone, Copy, PartialEq, Eq, Hash, Structural)]
pub enum Proto {
    Udp,
    Tcp,
}

impl Proto {
    pub open spec fn spec_as_str(self) -> Seq<char> {
        match self {
            Proto::Udp => "UDP"@,
            Proto::Tcp => "TCP"@,
        }
    }

    /// Upper-case protocol name.
    pub fn as_str(self) -> (r: &'static str)
        ensures
            r@ == self.spec_as_str(),
    {
        match self {
            Proto::Udp => "UDP",
            Proto::Tcp => "TCP",
        }
    }
}

/// L3/L4 5-tuple identifying a packet flow.
#[derive(Debug, Clone, Copy, PartialEq, Eq, Hash, Structural)]
pub struct Flow5Tuple {
    pub proto: Proto,
    pub src: SocketAddr,
    pub dst: SocketAddr,
}

impl Flow5Tuple {
    pub open spec fn spec_reverse(self) -> Flow5Tuple {
        Flow5Tuple { proto: self.proto, src: self.dst, dst: self.src }
    }

    /// The same flow seen from the other end.
    pub fn reverse(self) -> (r: Flow5Tuple)
        ensures
            r == self.spec_reverse(),
    {
        Flow5Tuple { proto: self.proto, src: self.dst, dst: self.src }
    }

    /// Protocol, source and destination, as `UDP/a->b`.
    pub open spec fn spec_text(self) -> Seq<char> {
        self.proto.spec_as_str() + "/"@ + addr_text::socket_text(self.src) + "->"@
            + addr_text::socket_text(self.dst)
    }

    /// The flow as text.
    pub fn text(self) -> (r: String)
        ensures
            r@ == self.spec_text(),
    {
        let mut s = self.proto.as_str().to_owned();
        s.push_str("/");
        push_socket(&mut s, self.src);
        s.push_str("->");
        push_socket(&mut s, self.dst);
        assert(s@ =~= self.spec_text());
        s
    }
}

/// Reversing a flow twice gives it back.
pub proof fn law_reverse_involutive(f: Flow5Tuple)
    ensures
        f.spec_reverse().spec_reverse() == f,
{
}

/// One captured L4 payload with its flow.
#[derive(Debug, Clone)]
pub struct CapturedPacket {
    /// Microseconds since Unix epoch.
    pub ts_us: u64,
    pub flow: Flow5Tuple,
    pub payload: Vec<u8>,
}

} // verus!
