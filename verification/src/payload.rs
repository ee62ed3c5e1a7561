//! Top-level payloads. Each one names the key its entities appear under once
//! flattened into an [`Envelope`](crate::envelope::Envelope).
use vstd::prelude::*;

use crate::diag::DiagnosticsView;
use crate::job::{JobStatisticsView, JobView, StepView};
use crate::node::{NodeView, PartitionView, ReservationView};
use crate::sprio::PriorityFactorsView;
use crate::text::{chars_of, find_char, string_from_chars};
use crate::wire::{JobInfo, JobStepInfo, NodeInfo, PartitionInfo, ReservationInfo};

verus! {

#[derive(Debug, Clone)]
pub struct JobsPayload {
    pub jobs: Vec<JobView>,
}

impl JobsPayload {
    /// One view per job, in order.
    pub fn from_proto(jobs: &[JobInfo]) -> (r: JobsPayload)
        ensures
            r.jobs.len() == jobs.len(),
            forall|i: int| 0 <= i < jobs.len() ==> #[trigger] r.jobs[i].shows(jobs[i]),
    {
        let mut out: Vec<JobView> = Vec::new();
        let mut i: usize = 0;
        while i < jobs.len()
            invariant
                i <= jobs.len(),
                out.len() == i,
                forall|j: int| 0 <= j < i ==> #[trigger] out[j].shows(jobs[j]),
            decreases jobs.len() - i,
        {
            out.push(JobView::from(&jobs[i]));
            i = i + 1;
        }
        JobsPayload { jobs: out }
    }
}

#[derive(Debug, Clone)]
pub struct NodesPayload {
    pub nodes: Vec<NodeView>,
}

/// One view per node, in order.
fn node_views(nodes: &[NodeInfo]) -> (r: Vec<NodeView>)
    ensures
        r.len() == nodes.len(),
        forall|i: int| 0 <= i < nodes.len() ==> #[trigger] r[i].shows(nodes[i]),
{
    let mut out: Vec<NodeView> = Vec::new();
    let mut i: usize = 0;
    while i < nodes.len()
        invariant
            i <= nodes.len(),
            out.len() == i,
            forall|j: int| 0 <= j < i ==> #[trigger] out[j].shows(nodes[j]),
        decreases nodes.len() - i,
    {
        out.push(NodeView::from(&nodes[i]));
        i = i + 1;
    }
    out
}

/// One view per partition, in order.
fn partition_views(partitions: &[PartitionInfo]) -> (r: Vec<PartitionView>)
    ensures
        r.len() == partitions.len(),
        forall|i: int| 0 <= i < partitions.len() ==> #[trigger] r[i].shows(partitions[i]),
{
    let mut out: Vec<PartitionView> = Vec::new();
    let mut i: usize = 0;
    while i < partitions.len()
        invariant
            i <= partitions.len(),
            out.len() == i,
            forall|j: int| 0 <= j < i ==> #[trigger] out[j].shows(partitions[j]),
        decreases partitions.len() - i,
    {
        out.push(PartitionView::from(&partitions[i]));
        i = i + 1;
    }
    out
}

impl NodesPayload {
    /// One view per node, in order.
    pub fn from_proto(nodes: &[NodeInfo]) -> (r: NodesPayload)
        ensures
            r.nodes.len() == nodes.len(),
            forall|i: int| 0 <= i < nodes.len() ==> #[trigger] r.nodes[i].shows(nodes[i]),
    {
        NodesPayload { nodes: node_views(nodes) }
    }
}

#[derive(Debug, Clone)]
pub struct PartitionsPayload {
    pub partitions: Vec<PartitionView>,
}

impl PartitionsPayload {
    /// One view per partition, in order.
    pub fn from_proto(partitions: &[PartitionInfo]) -> (r: PartitionsPayload)
        ensures
            r.partitions.len() == partitions.len(),
            forall|i: int|
                0 <= i < partitions.len() ==> #[trigger] r.partitions[i].shows(partitions[i]),
    {
        PartitionsPayload { partitions: partition_views(partitions) }
    }
}

/// `sinfo` reports on both nodes and the partitions they belong to, so its
/// document carries the two arrays side by side.
#[derive(Debug, Clone)]
pub struct ClusterPayload {
    pub nodes: Vec<NodeView>,
    pub partitions: Vec<PartitionView>,
}

impl ClusterPayload {
    /// One view per node and one per partition, each in order.
    pub fn from_proto(nodes: &[NodeInfo], partitions: &[PartitionInfo]) -> (r: ClusterPayload)
        ensures
            r.nodes.len() == nodes.len(),
            forall|i: int| 0 <= i < nodes.len() ==> #[trigger] r.nodes[i].shows(nodes[i]),
            r.partitions.len() == partitions.len(),
            forall|i: int|
                0 <= i < partitions.len() ==> #[trigger] r.partitions[i].shows(partitions[i]),
    {
        ClusterPayload { nodes: node_views(nodes), partitions: partition_views(partitions) }
    }
}

#[derive(Debug, Clone)]
pub struct ReservationsPayload {
    pub reservations: Vec<ReservationView>,
}

impl ReservationsPayload {
    /// One view per reservation, in order.
    pub fn from_proto(reservations: &[ReservationInfo]) -> (r: ReservationsPayload)
        ensures
            r.reservations.len() == reservations.len(),
            forall|i: int|
                0 <= i < reservations.len() ==> #[trigger] r.reservations[i].shows(reservations[i]),
    {
        let mut out: Vec<ReservationView> = Vec::new();
        let mut i: usize = 0;
        while i < reservations.len()
            invariant
                i <= reservations.len(),
                out.len() == i,
                forall|j: int| 0 <= j < i ==> #[trigger] out[j].shows(reservations[j]),
            decreases reservations.len() - i,
        {
            out.push(ReservationView::from(&reservations[i]));
            i = i + 1;
        }
        ReservationsPayload { reservations: out }
    }
}

#[derive(Debug, Clone)]
pub struct StepsPayload {
    pub steps: Vec<StepView>,
}

impl StepsPayload {
    /// One view per step, in order.
    pub fn from_proto(steps: &[JobStepInfo]) -> (r: StepsPayload)
        ensures
            r.steps.len() == steps.len(),
            forall|i: int| 0 <= i < steps.len() ==> #[trigger] r.steps[i].shows(steps[i]),
    {
        let mut out: Vec<StepView> = Vec::new();
        let mut i: usize = 0;
        while i < steps.len()
            invariant
                i <= steps.len(),
                out.len() == i,
                forall|j: int| 0 <= j < i ==> #[trigger] out[j].shows(steps[j]),
            decreases steps.len() - i,
        {
            out.push(StepView::from(&steps[i]));
            i = i + 1;
        }
        StepsPayload { steps: out }
    }
}

#[derive(Debug, Clone)]
pub struct PriorityFactorsPayload {
    pub jobs: Vec<PriorityFactorsView>,
}

#[derive(Debug, Clone)]
pub struct JobStatisticsPayload {
    pub statistics: Vec<JobStatisticsView>,
}

#[derive(Debug, Clone)]
pub struct DiagnosticsPayload {
    pub statistics: DiagnosticsView,
}

#[derive(Debug, Clone)]
pub struct ConfigPayload {
    pub config: ClusterConfigView,
}

#[derive(Debug, Clone)]
pub struct ClusterConfigView {
    pub cluster_name: String,
    pub controller_address: String,
    pub version: String,
}

#[derive(Debug, Clone)]
pub struct FederationPayload {
    pub federation: Vec<FederationPeerView>,
}

#[derive(Debug, Clone)]
pub struct FederationPeerView {
    pub cluster: String,
    pub address: String,
}

impl FederationPeerView {
    /// Peers arrive as `name@address`; entries without a separator are reported
    /// verbatim with an unknown address rather than dropped.
    pub fn parse(peer: &str) -> (r: FederationPeerView)
        ensures
            match find_char(peer@, '@') {
                Some(i) => r.cluster@ == peer@.take(i) && r.address@ == peer@.skip(i + 1),
                None => r.cluster@ == peer@ && r.address@.len() == 0,
            },
    {
        let v = chars_of(peer);
        let n = v.len();
        let mut i: usize = 0;
        assert(v@.skip(0) == v@);
        while i < n
            invariant
                i <= n == v.len(),
                v@ == peer@,
                forall|j: int| 0 <= j < i ==> v@[j] != '@',
                find_char(v@, '@') == (match find_char(v@.skip(i as int), '@') {
                    Some(k) => Some(k + i),
                    None => None,
                }),
            decreases n - i,
        {
            assert(v@.skip(i as int)[0] == v@[i as int]);
            assert(v@.skip(i as int).drop_first() == v@.skip(i + 1));
            if v[i] == '@' {
                assert(v@.take(i as int) == v@.subrange(0, i as int));
                return FederationPeerView {
                    cluster: string_from_chars(&v, 0, i),
                    address: string_from_chars(&v, i + 1, n),
                };
            }
            i = i + 1;
        }
        FederationPeerView { cluster: String::from_str(peer), address: String::new() }
    }
}

/// A peer recorded as `cluster@address`, with no `@` in the cluster name,
/// parses back into that cluster and address.
pub proof fn federation_peer_round_trip(cluster: Seq<char>, address: Seq<char>)
    requires
        !cluster.contains('@'),
    ensures
        find_char(cluster + seq!['@'] + address, '@') == Some(cluster.len() as int),
        (cluster + seq!['@'] + address).take(cluster.len() as int) == cluster,
        (cluster + seq!['@'] + address).skip(cluster.len() as int + 1) == address,
    decreases cluster.len(),
{
    let s = cluster + seq!['@'] + address;
    if cluster.len() > 0 {
        assert(s[0] == cluster[0]);
        assert(!cluster.drop_first().contains('@')) by {
            if cluster.drop_first().contains('@') {
                let k = choose|k: int| 0 <= k < cluster.drop_first().len() && cluster.drop_first()[k] == '@';
                assert(cluster[k + 1] == '@');
            }
        }
        assert(s.drop_first() == cluster.drop_first() + seq!['@'] + address);
        federation_peer_round_trip(cluster.drop_first(), address);
    }
    assert(s.take(cluster.len() as int) == cluster);
    assert(s.skip(cluster.len() as int + 1) == address);
}

} // verus!
