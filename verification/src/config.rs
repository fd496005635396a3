use crate::record::NodeRecord;
use vstd::prelude::*;

verus! {

/// Immutable snapshot of the peering parameters: capacity limits per
/// direction, the discovery lookup cadence, how long a failed node stays
/// banned, and the boot nodes that seed discovery. Consumed once at
/// orchestrator construction; later changes mean building a new one.
#[derive(Clone, Debug)]
pub struct PeersConfig {
    pub max_inbound: usize,
    pub max_outbound: usize,
    pub lookup_interval: u64,
    pub ban_duration: u64,
    pub boot_nodes: Vec<NodeRecord>,
}

impl PeersConfig {
    pub fn new(
        max_inbound: usize,
        max_outbound: usize,
        lookup_interval: u64,
        ban_duration: u64,
        boot_nodes: Vec<NodeRecord>,
    ) -> (r: PeersConfig)
        ensures
            r.max_inbound == max_inbound,
            r.max_outbound == max_outbound,
            r.lookup_interval == lookup_interval,
            r.ban_duration == ban_duration,
            r.boot_nodes@ == boot_nodes@,
    {
        PeersConfig { max_inbound, max_outbound, lookup_interval, ban_duration, boot_nodes }
    }
}

} // verus!
