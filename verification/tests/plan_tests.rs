use qdrant_toolkit::explain::{QueryExplainer, QueryStrategy};
use qdrant_toolkit::optimizer_cycle::{first_step, next_step, CycleStep};
use qdrant_toolkit::rebalance::{
    aggregate_by_node, estimated_duration_secs, moved_bytes, plan_load_moves, RebalanceReason,
    ShardPlacement,
};
use qdrant_toolkit::telemetry::{ExporterConfig, ExporterType, OpenTelemetryConfig, TracerSetup};

fn placement(shard_id: u32, node_id: u64, points: usize, bytes: u64) -> ShardPlacement {
    ShardPlacement { shard_id, node_id, point_count: points, disk_usage_bytes: bytes }
}

#[test]
fn aggregation_groups_by_first_appearance() {
    let shards = vec![
        placement(0, 7, 10, 100),
        placement(1, 3, 5, 50),
        placement(2, 7, 1, 1),
    ];
    let agg = aggregate_by_node(&shards);
    assert_eq!(agg.nodes.len(), 2);
    assert_eq!(agg.nodes[0].node_id, 7);
    assert_eq!(agg.nodes[0].total_points, 11);
    assert_eq!(agg.nodes[0].total_disk_bytes, 101);
    assert_eq!(agg.nodes[0].shard_count, 2);
    assert_eq!(agg.nodes[1].node_id, 3);
    assert_eq!(agg.nodes[1].shard_count, 1);
    assert_eq!(agg.node_of, vec![0, 1, 0]);
}

#[test]
fn load_moves_go_to_first_underloaded_node() {
    let shards = vec![placement(0, 1, 1000, 1_000_000), placement(1, 2, 100, 100_000)];
    let moves = plan_load_moves(&shards, &vec![1], &vec![2]);
    assert_eq!(moves.len(), 1);
    assert_eq!(moves[0].shard_id, 0);
    assert_eq!(moves[0].from_node, 1);
    assert_eq!(moves[0].to_node, 2);
    assert_eq!(moves[0].reason, RebalanceReason::LoadImbalance);
    assert_eq!(estimated_duration_secs(&moves), 300);
    assert_eq!(moved_bytes(&moves, &shards), vec![Some(1_000_000)]);
    assert!(plan_load_moves(&shards, &vec![1], &vec![]).is_empty());
}

#[test]
fn at_most_five_moves() {
    let shards: Vec<ShardPlacement> = (0..8).map(|i| placement(i, i as u64, 1, 1)).collect();
    let over: Vec<u64> = (0..8).collect();
    let moves = plan_load_moves(&shards, &over, &vec![99]);
    assert_eq!(moves.len(), 5);
    assert_eq!(moves.iter().map(|m| m.from_node).collect::<Vec<_>>(), vec![0, 1, 2, 3, 4]);
}

#[test]
fn overloaded_node_without_shards_is_skipped() {
    let shards = vec![placement(4, 2, 1, 1)];
    let moves = plan_load_moves(&shards, &vec![9, 2], &vec![5, 6]);
    assert_eq!(moves.len(), 1);
    assert_eq!(moves[0].from_node, 2);
    assert_eq!(moves[0].to_node, 5);
}

#[test]
fn explainer_steps() {
    let e = QueryExplainer::new(1_000_000);
    assert_eq!(e.total_points(), 1_000_000);
    let c = e.estimate_cardinality(50_000);
    assert_eq!((c.min, c.expected, c.max), (25_000, 50_000, 100_000));
    let pre = e.planned_operations(QueryStrategy::PreFilter, &c, 10);
    assert_eq!(pre.len(), 2);
    assert_eq!(pre[0].name, "Apply Filter");
    assert_eq!(pre[0].estimated_rows, 50_000);
    assert_eq!(pre[1].name, "HNSW Search on Filtered");
    let post = e.planned_operations(QueryStrategy::PostFilter, &c, 10);
    assert_eq!(post[0].estimated_rows, 30);
    assert_eq!(post[1].estimated_rows, 10);
    assert_eq!(e.planned_operations(QueryStrategy::PlainSearch, &c, 10).len(), 1);
    assert_eq!(e.planned_operations(QueryStrategy::FilteredHNSW, &c, 10)[0].name, "Filtered HNSW Search");
    assert_eq!(e.indexes_used(true), vec!["field_index".to_string(), "hnsw".to_string()]);
    assert_eq!(e.indexes_used(false), vec!["hnsw".to_string()]);
}

#[test]
fn optimization_cycle_order() {
    let mut s = first_step();
    let mut seen = vec![s];
    while s != CycleStep::Finished && s != CycleStep::Failed {
        s = next_step(s, true);
        seen.push(s);
    }
    assert_eq!(
        seen,
        vec![
            CycleStep::CreateSnapshot,
            CycleStep::Optimize,
            CycleStep::MoveCurrentToBackup,
            CycleStep::MoveOptimizedIntoPlace,
            CycleStep::RemoveBackup,
            CycleStep::RemoveSnapshot,
            CycleStep::Finished,
        ]
    );
    assert_eq!(next_step(CycleStep::Optimize, false), CycleStep::Failed);
    assert_eq!(next_step(CycleStep::Failed, true), CycleStep::Failed);
}

#[test]
fn failed_swap_restores_backup() {
    assert_eq!(next_step(CycleStep::MoveCurrentToBackup, false), CycleStep::Failed);
    assert_eq!(next_step(CycleStep::MoveOptimizedIntoPlace, false), CycleStep::RestoreBackup);
    assert_eq!(next_step(CycleStep::RestoreBackup, true), CycleStep::Failed);
    assert_eq!(next_step(CycleStep::RestoreBackup, false), CycleStep::Failed);
    assert_eq!(next_step(CycleStep::RemoveBackup, false), CycleStep::Failed);
}

#[test]
fn tracer_setup_choices() {
    let mut c = OpenTelemetryConfig::default();
    assert!(matches!(c.tracer_setup(), TracerSetup::Disabled));
    c.enabled = true;
    assert!(matches!(c.tracer_setup(), TracerSetup::Console));
    c.exporter = ExporterConfig { exporter_type: ExporterType::Jaeger, endpoint: Some("localhost:6831".to_string()) };
    match c.tracer_setup() {
        TracerSetup::Jaeger { service_name, endpoint } => {
            assert_eq!(service_name, "qdrant");
            assert_eq!(endpoint.as_deref(), Some("localhost:6831"));
        }
        other => panic!("unexpected {:?}", other),
    }
    c.service_name = Some("svc".to_string());
    c.exporter.exporter_type = ExporterType::Otlp;
    c.exporter.endpoint = None;
    match c.tracer_setup() {
        TracerSetup::Otlp { service_name, endpoint } => {
            assert_eq!(service_name, "svc");
            assert!(endpoint.is_none());
        }
        other => panic!("unexpected {:?}", other),
    }
}
