//! Plain records exchanged with the application around the registry.

use vstd::prelude::*;

verus! {

/// What a submission hands back: the new task's id and its projected duration.
pub struct CommandTaskStart {
    pub task_id: String,
    pub estimated_total_seconds: u64,
}

pub struct VersionSummary {
    pub version_id: String,
    pub record_count: u64,
    pub created_at: String,
    pub parent_version: Option<String>,
}

pub struct SourceCount {
    pub source: String,
    pub count: u64,
}

pub struct VersionDiff {
    pub dataset_name: String,
    pub base_version: String,
    pub target_version: String,
    pub added_records: u64,
    pub removed_records: u64,
    pub shared_records: u64,
}

pub struct PipelineEdgeSnapshot {
    pub id: String,
    pub source_node_id: String,
    pub target_node_id: String,
}

pub struct PipelineCanvasExportResult {
    pub output_path: String,
}

pub struct TrainingRunSummary {
    pub run_id: String,
    pub dataset_name: String,
    pub dataset_version_id: String,
    pub state: String,
    pub updated_at: String,
    pub output_dir: String,
    pub artifact_contract_path: Option<String>,
    pub model_path: Option<String>,
}

pub struct LineageRunNode {
    pub run_id: String,
    pub dataset_name: String,
    pub dataset_version_id: String,
    pub output_dir: String,
    pub parent_model_path: Option<String>,
    pub model_path: Option<String>,
    pub config_hash: String,
    pub created_at: String,
    pub artifact_contract_path: Option<String>,
}

pub struct LineageEdge {
    pub from: String,
    pub to: String,
    pub edge_type: String,
}

pub struct LineageGraphSummary {
    pub run_count: u64,
    pub edge_count: u64,
    pub runs: Vec<LineageRunNode>,
    pub edges: Vec<LineageEdge>,
}

/// The lineage graph of a data root that has none recorded.
pub fn empty_lineage_graph() -> (r: LineageGraphSummary)
    ensures
        r.run_count == 0,
        r.edge_count == 0,
        r.runs@.len() == 0,
        r.edges@.len() == 0,
{
    LineageGraphSummary { run_count: 0, edge_count: 0, runs: Vec::new(), edges: Vec::new() }
}

} // verus!
