//! IP and socket addresses as plain integers.
use vstd::prelude::*;

verus! {

/// An IP address, held as the big-endian integer of its octets.
#[derive(Debug, Clone, Copy, PartialEq, Eq, Hash, Structural)]
pub enum IpAddr {
    V4(u32),
    V6(u128),
}

/// An IP address and a port.
#[derive(Debug, Clone, Copy, PartialEq, Eq, Hash, Structural)]
pub struct SocketAddr {
    pub ip: IpAddr,
    pub port: u16,
}

/// Whether an IP stands in a list.
pub fn has_ip(v: &Vec<IpAddr>, ip: IpAddr) -> (r: bool)
    ensures
        r == v@.contains(ip),
{
    let mut i: usize = 0;
    while i < v.len()
        invariant
            i <= v.len(),
            forall|k: int| 0 <= k < i ==> v@[k] != ip,
        decreases v.len() - i,
    {
        if v[i] == ip {
            return true;
        }
        i += 1;
    }
    false
}

} // verus!
