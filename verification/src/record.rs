use vstd::prelude::*;

verus! {

/// Identity and address of a remote node: a stable identity key together
/// with an IPv4 address and the UDP (discovery) and TCP (session) ports.
/// Immutable once constructed; everywhere a node is referenced it is keyed
/// by `id`, so two records with the same `id` name the same node.
#[derive(Clone, Copy, PartialEq, Eq, Structural, Debug)]
pub struct NodeRecord {
    pub id: u64,
    pub ip: u32,
    pub udp_port: u16,
    pub tcp_port: u16,
}

impl NodeRecord {
    pub fn new(id: u64, ip: u32, udp_port: u16, tcp_port: u16) -> (r: NodeRecord)
        ensures
            r == (NodeRecord { id, ip, udp_port, tcp_port }),
    {
        NodeRecord { id, ip, udp_port, tcp_port }
    }

    /// Records are compared by identity alone.
    pub fn same_identity(&self, other: &NodeRecord) -> (r: bool)
        ensures
            r == (self.id == other.id),
    {
        self.id == other.id
    }
}

} // verus!
