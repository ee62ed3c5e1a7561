use spur_api::node::{node_state_name, NodeView, PartitionView, ReservationView};
use spur_api::payload::{ClusterPayload, JobsPayload, NodesPayload, PartitionsPayload, ReservationsPayload, StepsPayload};
use spur_api::state::NodeState;
use spur_api::wire::{Duration, GpuResource, JobInfo, JobStepInfo, NodeInfo, PartitionInfo, ReservationInfo, ResourceAllocations, ResourceSet};

#[test]
fn node_view_splits_total_and_allocated_resources() {
    let node = NodeInfo {
        name: "node01".into(),
        state: NodeState::Mixed.to_proto_i32(),
        partitions: vec!["gpu".into()],
        total_resources: Some(ResourceSet {
            cpus: 128,
            memory_mb: 512_000,
            gpus: vec![GpuResource {
                device_id: 0,
                gpu_type: "mi300x".into(),
                memory_mb: 196_608,
            }],
        }),
        alloc_resources: Some(ResourceAllocations {
            cpus: 32,
            memory_mb: 64_000,
            ..Default::default()
        }),
        free_memory_mb: 448_000,
        ..Default::default()
    };

    let view = NodeView::from(&node);
    assert_eq!(view.state, "mixed");
    assert_eq!(view.cpus, 128);
    assert_eq!(view.alloc_cpus, 32);
    assert_eq!(view.real_memory, 512_000);
    assert_eq!(view.alloc_memory, 64_000);
    assert_eq!(view.gpus.len(), 1);
    assert_eq!(view.gpus[0].gpu_type, "mi300x");
}

#[test]
fn node_without_resources_reports_zeroes_not_an_error() {
    let view = NodeView::from(&NodeInfo::default());
    assert_eq!(view.cpus, 0);
    assert_eq!(view.alloc_memory, 0);
    assert!(view.gpus.is_empty());
}

#[test]
fn unknown_node_state_is_reported_as_unknown() {
    assert_eq!(node_state_name(99), "unknown");
    assert_eq!(node_state_name(NodeState::Idle.to_proto_i32()), "idle");
}

#[test]
fn partition_access_lists_are_arrays() {
    let part = PartitionInfo {
        name: "gpu".into(),
        allow_accounts: "research,ml".into(),
        deny_accounts: "student".into(),
        ..Default::default()
    };
    let view = PartitionView::from(&part);
    assert_eq!(view.allow_accounts, vec!["research", "ml"]);
    assert_eq!(view.deny_accounts, vec!["student"]);
    assert!(view.allow_qos.is_empty());
}

#[test]
fn partition_limits_are_reported_in_minutes() {
    let part = PartitionInfo {
        max_time: Some(Duration {
            seconds: 7200,
            nanos: 0,
        }),
        ..Default::default()
    };
    let view = PartitionView::from(&part);
    assert_eq!(view.max_time, Some(120));
    assert_eq!(view.default_time, None);
}

#[test]
fn reservation_lists_are_arrays() {
    let res = ReservationInfo {
        name: "maint".into(),
        users: "alice,bob".into(),
        flags: "MAINT".into(),
        ..Default::default()
    };
    let view = ReservationView::from(&res);
    assert_eq!(view.users, vec!["alice", "bob"]);
    assert_eq!(view.flags, vec!["MAINT"]);
    assert!(view.accounts.is_empty());
}

#[test]
fn payloads_keep_one_view_per_record_in_order() {
    let jobs = vec![JobInfo { job_id: 3, ..Default::default() }, JobInfo { job_id: 1, ..Default::default() }];
    let payload = JobsPayload::from_proto(&jobs);
    assert_eq!(payload.jobs.len(), 2);
    assert_eq!(payload.jobs[0].job_id, 3);
    assert_eq!(payload.jobs[1].job_id, 1);

    let nodes = vec![NodeInfo { name: "a".into(), ..Default::default() }];
    let parts = vec![PartitionInfo { name: "p".into(), ..Default::default() }, PartitionInfo { name: "q".into(), ..Default::default() }];
    assert_eq!(NodesPayload::from_proto(&nodes).nodes[0].name, "a");
    assert_eq!(PartitionsPayload::from_proto(&parts).partitions[1].name, "q");
    let cluster = ClusterPayload::from_proto(&nodes, &parts);
    assert_eq!((cluster.nodes.len(), cluster.partitions.len()), (1, 2));

    let res = vec![ReservationInfo { name: "maint".into(), ..Default::default() }];
    assert_eq!(ReservationsPayload::from_proto(&res).reservations[0].name, "maint");
    let steps = vec![JobStepInfo { step_id: 2, ..Default::default() }];
    assert_eq!(StepsPayload::from_proto(&steps).steps[0].step_name, "2");
}
