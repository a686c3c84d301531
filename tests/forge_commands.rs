use forge_studio::forge_commands::{start_forge_command, validate_args};
use forge_studio::models::empty_lineage_graph;
use forge_studio::store::CommandTaskStore;

#[test]
fn validate_args_accepts_supported_command() {
    let args = vec!["train".to_string(), "--dataset".to_string(), "demo".to_string()];
    assert!(validate_args(&args).is_ok());
}

#[test]
fn validate_args_rejects_empty_args() {
    let args: Vec<String> = Vec::new();
    assert!(validate_args(&args).is_err());
}

#[test]
fn validate_args_rejects_unsupported_command() {
    let args = vec!["shell".to_string()];
    assert!(validate_args(&args).is_err());
}

#[test]
fn validate_args_error_messages() {
    let empty: Vec<String> = Vec::new();
    assert_eq!(validate_args(&empty), Err("Forge args must include a command".to_string()));
    let args = vec!["chat".to_string()];
    assert_eq!(
        validate_args(&args),
        Err("Unsupported command 'chat' for Studio execution".to_string())
    );
}

#[test]
fn validate_args_accepts_every_allowed_command() {
    for name in ["ingest", "filter", "train", "export-training", "versions"] {
        assert!(validate_args(&[name.to_string()]).is_ok(), "{name}");
    }
    assert!(validate_args(&["Train".to_string()]).is_err());
    assert!(validate_args(&["versions ".to_string()]).is_err());
}

#[test]
fn start_forge_command_rejects_without_registering() {
    let mut store = CommandTaskStore::new();
    assert!(start_forge_command(&mut store, vec!["shell".to_string()], 0).is_err());
    assert!(start_forge_command(&mut store, Vec::new(), 0).is_err());
    assert_eq!(store.tasks.len(), 0);
    assert_eq!(store.next_task_id, 1);
}

#[test]
fn start_forge_command_registers_accepted_command() {
    let mut store = CommandTaskStore::new();
    let start = start_forge_command(&mut store, vec!["train".to_string()], 0).unwrap();
    assert_eq!(start.task_id, "forge-task-1");
    assert_eq!(start.estimated_total_seconds, 240);
    assert_eq!(store.tasks.len(), 1);
}

#[test]
fn empty_lineage_graph_has_nothing() {
    let graph = empty_lineage_graph();
    assert_eq!(graph.run_count, 0);
    assert_eq!(graph.edge_count, 0);
    assert!(graph.runs.is_empty());
    assert!(graph.edges.is_empty());
}
