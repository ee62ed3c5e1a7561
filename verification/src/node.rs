//! Node, partition and reservation views.
use vstd::prelude::*;

use crate::job::{duration_minutes, time_secs};
use crate::util::div_toward_zero;
use crate::state::NodeState;
use crate::text::copy_strings;
use crate::util::{csv_items, csv_list, minutes, ts_secs};
use crate::wire::{GpuResource, NodeInfo, PartitionInfo, ReservationInfo};

verus! {

/// The published name of a node state discriminant; `unknown` when no state
/// has it.
pub open spec fn node_state_text(state: i32) -> Seq<char> {
    match NodeState::from_wire(state) {
        Some(s) => s.name(),
        None => "unknown"@,
    }
}

#[derive(Debug, Clone)]
pub struct GpuView {
    pub device_id: u32,
    pub gpu_type: String,
    pub memory_mb: u64,
}

impl GpuView {
    /// Whether this view publishes `gpu`.
    pub open spec fn shows(self, gpu: GpuResource) -> bool {
        &&& self.device_id == gpu.device_id
        &&& self.gpu_type@ == gpu.gpu_type@
        &&& self.memory_mb == gpu.memory_mb
    }

    pub fn from(gpu: &GpuResource) -> (r: GpuView)
        ensures
            r.shows(*gpu),
    {
        GpuView { device_id: gpu.device_id, gpu_type: gpu.gpu_type.clone(), memory_mb: gpu.memory_mb }
    }
}

/// A node as published by `GET /nodes`, `sinfo`, and `scontrol show node`.
#[derive(Debug, Clone)]
pub struct NodeView {
    pub name: String,
    pub state: String,
    pub reason: String,
    pub partitions: Vec<String>,
    pub cpus: u32,
    pub alloc_cpus: u32,
    pub real_memory: u64,
    pub alloc_memory: u64,
    pub free_mem: u64,
    /// Load average scaled by 100, matching Slurm's `CpuLoad`.
    pub cpu_load: u32,
    pub architecture: String,
    pub operating_system: String,
    pub features: Vec<String>,
    pub gpus: Vec<GpuView>,
    pub boot_time: Option<i64>,
    pub last_busy: Option<i64>,
    pub reservation: String,
}

impl NodeView {
    /// Whether this view publishes `node`: capacity from the node's total
    /// resources, allocation from its allocated resources, zero for either
    /// when it is absent.
    pub open spec fn shows(self, node: NodeInfo) -> bool {
        &&& self.name@ == node.name@
        &&& self.state@ == node_state_text(node.state)
        &&& self.reason@ == node.state_reason@
        &&& self.partitions.deep_view() == node.partitions.deep_view()
        &&& self.cpus == (match node.total_resources {
            Some(r) => r.cpus,
            None => 0,
        })
        &&& self.alloc_cpus == (match node.alloc_resources {
            Some(r) => r.cpus,
            None => 0,
        })
        &&& self.real_memory == (match node.total_resources {
            Some(r) => r.memory_mb,
            None => 0,
        })
        &&& self.alloc_memory == (match node.alloc_resources {
            Some(r) => r.memory_mb,
            None => 0,
        })
        &&& self.free_mem == node.free_memory_mb
        &&& self.cpu_load == node.cpu_load
        &&& self.architecture@ == node.arch@
        &&& self.operating_system@ == node.os@
        &&& self.features.deep_view() == node.features.deep_view()
        &&& (match node.total_resources {
            Some(r) => {
                &&& self.gpus.len() == r.gpus.len()
                &&& forall|i: int| 0 <= i < r.gpus.len() ==> #[trigger] self.gpus[i].shows(r.gpus[i])
            },
            None => self.gpus.len() == 0,
        })
        &&& self.boot_time == time_secs(node.boot_time)
        &&& self.last_busy == time_secs(node.last_busy)
        &&& self.reservation@ == node.active_reservation@
    }

    pub fn from(node: &NodeInfo) -> (r: NodeView)
        ensures
            r.shows(*node),
    {
        let (cpus, real_memory, gpus) = match &node.total_resources {
            Some(t) => {
                let mut gpus: Vec<GpuView> = Vec::new();
                let mut i: usize = 0;
                while i < t.gpus.len()
                    invariant
                        i <= t.gpus.len(),
                        gpus.len() == i,
                        forall|j: int| 0 <= j < i ==> #[trigger] gpus[j].shows(t.gpus[j]),
                    decreases t.gpus.len() - i,
                {
                    gpus.push(GpuView::from(&t.gpus[i]));
                    i = i + 1;
                }
                (t.cpus, t.memory_mb, gpus)
            },
            None => (0, 0, Vec::new()),
        };
        let (alloc_cpus, alloc_memory) = match &node.alloc_resources {
            Some(a) => (a.cpus, a.memory_mb),
            None => (0, 0),
        };
        NodeView {
            name: node.name.clone(),
            state: node_state_name(node.state),
            reason: node.state_reason.clone(),
            partitions: copy_strings(&node.partitions),
            cpus,
            alloc_cpus,
            real_memory,
            alloc_memory,
            free_mem: node.free_memory_mb,
            cpu_load: node.cpu_load,
            architecture: node.arch.clone(),
            operating_system: node.os.clone(),
            features: copy_strings(&node.features),
            gpus,
            boot_time: ts_secs(node.boot_time.as_ref()),
            last_busy: ts_secs(node.last_busy.as_ref()),
            reservation: node.active_reservation.clone(),
        }
    }
}

/// A partition as published by `GET /partitions`, `sinfo`, and
/// `scontrol show partition`.
#[derive(Debug, Clone)]
pub struct PartitionView {
    pub name: String,
    pub state: String,
    pub is_default: bool,
    pub total_nodes: u32,
    pub total_cpus: u32,
    pub nodes: String,
    /// Limits in minutes. `None` means unlimited.
    pub max_time: Option<i64>,
    pub default_time: Option<i64>,
    pub max_nodes: u32,
    pub min_nodes: u32,
    pub priority_tier: u32,
    pub preempt_mode: String,
    pub allow_root: bool,
    pub exclusive_user: bool,
    pub allow_accounts: Vec<String>,
    pub deny_accounts: Vec<String>,
    pub allow_groups: Vec<String>,
    pub allow_qos: Vec<String>,
}

impl PartitionView {
    /// Whether this view publishes `part`: limits in whole minutes and the
    /// comma-joined access lists split into arrays.
    pub open spec fn shows(self, part: PartitionInfo) -> bool {
        &&& self.name@ == part.name@
        &&& self.state@ == part.state@
        &&& self.is_default == part.is_default
        &&& self.total_nodes == part.total_nodes
        &&& self.total_cpus == part.total_cpus
        &&& self.nodes@ == part.nodes@
        &&& self.max_time == duration_minutes(part.max_time)
        &&& self.default_time == duration_minutes(part.default_time)
        &&& self.max_nodes == part.max_nodes
        &&& self.min_nodes == part.min_nodes
        &&& self.priority_tier == part.priority_tier
        &&& self.preempt_mode@ == part.preempt_mode@
        &&& self.allow_root == part.allow_root
        &&& self.exclusive_user == part.exclusive_user
        &&& self.allow_accounts.deep_view() == csv_items(part.allow_accounts@)
        &&& self.deny_accounts.deep_view() == csv_items(part.deny_accounts@)
        &&& self.allow_groups.deep_view() == csv_items(part.allow_groups@)
        &&& self.allow_qos.deep_view() == csv_items(part.allow_qos@)
    }

    pub fn from(part: &PartitionInfo) -> (r: PartitionView)
        ensures
            r.shows(*part),
    {
        PartitionView {
            name: part.name.clone(),
            state: part.state.clone(),
            is_default: part.is_default,
            total_nodes: part.total_nodes,
            total_cpus: part.total_cpus,
            nodes: part.nodes.clone(),
            max_time: minutes(part.max_time.as_ref()),
            default_time: minutes(part.default_time.as_ref()),
            max_nodes: part.max_nodes,
            min_nodes: part.min_nodes,
            priority_tier: part.priority_tier,
            preempt_mode: part.preempt_mode.clone(),
            allow_root: part.allow_root,
            exclusive_user: part.exclusive_user,
            allow_accounts: csv_list(part.allow_accounts.as_str()),
            deny_accounts: csv_list(part.deny_accounts.as_str()),
            allow_groups: csv_list(part.allow_groups.as_str()),
            allow_qos: csv_list(part.allow_qos.as_str()),
        }
    }
}

#[derive(Debug, Clone)]
pub struct ReservationView {
    pub name: String,
    pub start_time: String,
    pub end_time: String,
    pub nodes: String,
    pub state: String,
    pub flags: Vec<String>,
    pub accounts: Vec<String>,
    pub users: Vec<String>,
    pub owner: String,
}

impl ReservationView {
    /// Whether this view publishes `res`, its comma-joined lists split into
    /// arrays.
    pub open spec fn shows(self, res: ReservationInfo) -> bool {
        &&& self.name@ == res.name@
        &&& self.start_time@ == res.start_time@
        &&& self.end_time@ == res.end_time@
        &&& self.nodes@ == res.nodes@
        &&& self.state@ == res.state@
        &&& self.flags.deep_view() == csv_items(res.flags@)
        &&& self.accounts.deep_view() == csv_items(res.accounts@)
        &&& self.users.deep_view() == csv_items(res.users@)
        &&& self.owner@ == res.owner@
    }

    pub fn from(res: &ReservationInfo) -> (r: ReservationView)
        ensures
            r.shows(*res),
    {
        ReservationView {
            name: res.name.clone(),
            start_time: res.start_time.clone(),
            end_time: res.end_time.clone(),
            nodes: res.nodes.clone(),
            state: res.state.clone(),
            flags: csv_list(res.flags.as_str()),
            accounts: csv_list(res.accounts.as_str()),
            users: csv_list(res.users.as_str()),
            owner: res.owner.clone(),
        }
    }
}

/// The published name of a node state discriminant; `unknown` when no state
/// has it.
pub fn node_state_name(state: i32) -> (r: String)
    ensures
        r@ == node_state_text(state),
{
    match NodeState::from_proto_i32(state) {
        Some(s) => String::from_str(s.display()),
        None => String::from_str("unknown"),
    }
}

/// A published node view carries each field of the node record under its
/// published name: its name, its state's published name and reason, its
/// partitions, total and allocated CPUs and memory (zero without the
/// resources), free memory, load, architecture, operating system, features,
/// one GPU view per GPU of its total resources, its boot and last-busy times
/// in seconds, and its active reservation.
pub proof fn node_view_carries_the_record(v: NodeView, node: NodeInfo)
    requires
        v.shows(node),
    ensures
        v.name@ == node.name@,
        v.state@ == (match NodeState::from_wire(node.state) {
            Some(st) => st.name(),
            None => "unknown"@,
        }),
        v.reason@ == node.state_reason@,
        v.partitions.deep_view() == node.partitions.deep_view(),
        v.cpus == (match node.total_resources {
            Some(r) => r.cpus,
            None => 0,
        }),
        v.alloc_cpus == (match node.alloc_resources {
            Some(r) => r.cpus,
            None => 0,
        }),
        v.real_memory == (match node.total_resources {
            Some(r) => r.memory_mb,
            None => 0,
        }),
        v.alloc_memory == (match node.alloc_resources {
            Some(r) => r.memory_mb,
            None => 0,
        }),
        v.free_mem == node.free_memory_mb,
        v.cpu_load == node.cpu_load,
        v.architecture@ == node.arch@,
        v.operating_system@ == node.os@,
        v.features.deep_view() == node.features.deep_view(),
        v.gpus.len() == (match node.total_resources {
            Some(r) => r.gpus.len(),
            None => 0,
        }),
        node.total_resources matches Some(r) ==> forall|i: int|
            0 <= i < r.gpus.len() ==> {
                &&& (#[trigger] v.gpus[i]).device_id == r.gpus[i].device_id
                &&& v.gpus[i].gpu_type@ == r.gpus[i].gpu_type@
                &&& v.gpus[i].memory_mb == r.gpus[i].memory_mb
            },
        v.boot_time == (match node.boot_time {
            Some(t) => Some(t.seconds),
            None => None,
        }),
        v.last_busy == (match node.last_busy {
            Some(t) => Some(t.seconds),
            None => None,
        }),
        v.reservation@ == node.active_reservation@,
{
    if let Some(r) = node.total_resources {
        assert forall|i: int| 0 <= i < r.gpus.len() implies {
            &&& (#[trigger] v.gpus[i]).device_id == r.gpus[i].device_id
            &&& v.gpus[i].gpu_type@ == r.gpus[i].gpu_type@
            &&& v.gpus[i].memory_mb == r.gpus[i].memory_mb
        } by {
            assert(v.gpus[i].shows(r.gpus[i]));
        }
    }
}

/// A published partition view carries each field of the partition record:
/// its name, state and default flag, its node and CPU totals and node list,
/// its maximum and default times in whole minutes, its node limits, tier,
/// preemption mode and access flags, and its access lists split at commas.
pub proof fn partition_view_carries_the_record(v: PartitionView, part: PartitionInfo)
    requires
        v.shows(part),
    ensures
        v.name@ == part.name@,
        v.state@ == part.state@,
        v.is_default == part.is_default,
        v.total_nodes == part.total_nodes,
        v.total_cpus == part.total_cpus,
        v.nodes@ == part.nodes@,
        v.max_time == (match part.max_time {
            Some(d) => Some(div_toward_zero(d.seconds as int, 60) as i64),
            None => None,
        }),
        v.default_time == (match part.default_time {
            Some(d) => Some(div_toward_zero(d.seconds as int, 60) as i64),
            None => None,
        }),
        v.max_nodes == part.max_nodes,
        v.min_nodes == part.min_nodes,
        v.priority_tier == part.priority_tier,
        v.preempt_mode@ == part.preempt_mode@,
        v.allow_root == part.allow_root,
        v.exclusive_user == part.exclusive_user,
        v.allow_accounts.deep_view() == csv_items(part.allow_accounts@),
        v.deny_accounts.deep_view() == csv_items(part.deny_accounts@),
        v.allow_groups.deep_view() == csv_items(part.allow_groups@),
        v.allow_qos.deep_view() == csv_items(part.allow_qos@),
{
}

/// A published reservation view carries each field of the reservation
/// record, its flag, account and user lists split at commas.
pub proof fn reservation_view_carries_the_record(v: ReservationView, res: ReservationInfo)
    requires
        v.shows(res),
    ensures
        v.name@ == res.name@,
        v.start_time@ == res.start_time@,
        v.end_time@ == res.end_time@,
        v.nodes@ == res.nodes@,
        v.state@ == res.state@,
        v.flags.deep_view() == csv_items(res.flags@),
        v.accounts.deep_view() == csv_items(res.accounts@),
        v.users.deep_view() == csv_items(res.users@),
        v.owner@ == res.owner@,
{
}

} // verus!
