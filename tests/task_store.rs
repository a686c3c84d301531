use forge_studio::store::{prune_finished_tasks, CommandTaskStore, MAX_TASKS};
use forge_studio::task::{task_status_name, TaskLifecycleStatus};

fn args(items: &[&str]) -> Vec<String> {
    items.iter().map(|s| s.to_string()).collect()
}

#[test]
fn versions_task_runs_then_completes() {
    let mut store = CommandTaskStore::new();
    let start = store.start_task(args(&["versions"]), 0);
    assert_eq!(start.estimated_total_seconds, 8);
    assert_eq!(start.task_id, "forge-task-1");

    let running = store.get_task_status(&start.task_id, 100).unwrap();
    assert_eq!(running.status, "running");
    assert!(running.progress_hundredths >= 100 && running.progress_hundredths <= 9900);
    assert_eq!(running.exit_code, None);
    assert_eq!(running.command, "versions");
    assert_eq!(running.args, args(&["versions"]));

    store.append_stdout(&start.task_id, "v1\n");
    store.finalize_child(&start.task_id, Some(0), String::new(), 3_000);
    let done = store.get_task_status(&start.task_id, 3_500).unwrap();
    assert_eq!(done.status, "completed");
    assert_eq!(done.exit_code, Some(0));
    assert_eq!(done.progress_hundredths, 10000);
    assert_eq!(done.remaining_seconds, 0);
    assert_eq!(done.stdout, "v1\n");
    assert_eq!(done.elapsed_seconds, 3);
}

#[test]
fn missing_executable_fails_task() {
    let mut store = CommandTaskStore::new();
    let start = store.start_task(args(&["ingest", "--source", "x"]), 1_000);
    store.fail_task(&start.task_id, "No such file or directory", 1_010);
    let status = store.get_task_status(&start.task_id, 1_020).unwrap();
    assert_eq!(status.status, "failed");
    assert_eq!(status.exit_code, Some(-1));
    assert!(!status.stderr.is_empty());
    assert_eq!(status.stderr, "Failed to run forge command: No such file or directory");
    assert_eq!(status.progress_hundredths, 10000);
    // The failed attempt counts as a one-second run.
    assert_eq!(store.estimate_for_command("ingest"), 5);
}

#[test]
fn nonzero_or_missing_exit_code_fails() {
    let mut store = CommandTaskStore::new();
    let a = store.start_task(args(&["train"]), 0);
    let b = store.start_task(args(&["train"]), 0);
    store.finalize_child(&a.task_id, Some(2), "boom".to_string(), 5_000);
    store.finalize_child(&b.task_id, None, String::new(), 5_000);
    let sa = store.get_task_status(&a.task_id, 6_000).unwrap();
    let sb = store.get_task_status(&b.task_id, 6_000).unwrap();
    assert_eq!((sa.status.as_str(), sa.exit_code), ("failed", Some(2)));
    assert_eq!(sa.stderr, "boom");
    assert_eq!((sb.status.as_str(), sb.exit_code), ("failed", Some(-1)));
}

#[test]
fn finished_task_keeps_its_first_outcome() {
    let mut store = CommandTaskStore::new();
    let t = store.start_task(args(&["filter"]), 0);
    store.finalize_child(&t.task_id, Some(0), "ok".to_string(), 2_000);
    store.finalize_child(&t.task_id, Some(7), "late".to_string(), 4_000);
    store.fail_task(&t.task_id, "late", 4_000);
    store.append_stdout(&t.task_id, "late");
    for now in [4_000, 9_000, 90_000] {
        let s = store.get_task_status(&t.task_id, now).unwrap();
        assert_eq!(s.status, "completed");
        assert_eq!(s.exit_code, Some(0));
        assert_eq!(s.stderr, "ok");
        assert_eq!(s.stdout, "");
    }
    // Only the first outcome was fed to the estimator: 2 s, floored at 5.
    assert_eq!(store.estimate_for_command("filter"), 5);
}

#[test]
fn remaining_time_counts_down_while_running() {
    let mut store = CommandTaskStore::new();
    let t = store.start_task(args(&["versions"]), 10_000);
    let remaining: Vec<u64> = [10_000, 12_000, 15_500, 40_000]
        .iter()
        .map(|now| store.get_task_status(&t.task_id, *now).unwrap().remaining_seconds)
        .collect();
    assert_eq!(remaining, vec![8, 6, 3, 0]);
    let progress: Vec<u64> = [10_000, 14_000, 40_000]
        .iter()
        .map(|now| store.get_task_status(&t.task_id, *now).unwrap().progress_hundredths)
        .collect();
    assert_eq!(progress, vec![100, 5000, 9900]);
}

#[test]
fn observed_duration_feeds_next_estimate() {
    let mut store = CommandTaskStore::new();
    let t = store.start_task(args(&["versions"]), 0);
    store.finalize_child(&t.task_id, Some(0), String::new(), 20_400);
    let next = store.start_task(args(&["versions", "--json"]), 30_000);
    assert_eq!(next.estimated_total_seconds, 20);
    assert_eq!(next.task_id, "forge-task-2");
}

#[test]
fn unknown_task_is_an_error() {
    let store = CommandTaskStore::new();
    assert_eq!(
        store.get_task_status("forge-task-99", 0).err(),
        Some("Unknown task id 'forge-task-99'".to_string())
    );
}

#[test]
fn output_accumulates_in_order() {
    let mut store = CommandTaskStore::new();
    let t = store.start_task(args(&["train"]), 0);
    store.append_stdout(&t.task_id, "epoch 1\n");
    store.append_stdout(&t.task_id, "epoch 2\n");
    store.append_stdout("forge-task-404", "lost");
    let s = store.get_task_status(&t.task_id, 10).unwrap();
    assert_eq!(s.stdout, "epoch 1\nepoch 2\n");
}

#[test]
fn ids_are_sequential_and_distinct() {
    let mut store = CommandTaskStore::new();
    let ids: Vec<String> = (0..12).map(|_| store.start_task(args(&["chat"]), 0).task_id).collect();
    assert_eq!(ids[0], "forge-task-1");
    assert_eq!(ids[9], "forge-task-10");
    assert_eq!(ids[11], "forge-task-12");
    assert_eq!(store.tasks.len(), 12);
}

#[test]
fn retention_keeps_capacity_and_running_task() {
    let mut store = CommandTaskStore::new();
    let first = store.start_task(args(&["train"]), 0);
    let mut ids = vec![first.task_id.clone()];
    for _ in 0..MAX_TASKS {
        let t = store.start_task(args(&["versions"]), 0);
        store.finalize_child(&t.task_id, Some(0), String::new(), 1_000);
        ids.push(t.task_id);
    }
    // The last of these submissions pushed the table over capacity.
    assert_eq!(store.tasks.len(), MAX_TASKS);
    assert!(store.get_task_status(&ids[1], 1_500).is_err());
    let last = store.start_task(args(&["versions"]), 2_000);
    assert_eq!(store.tasks.len(), MAX_TASKS);
    assert_eq!(store.get_task_status(&first.task_id, 3_000).unwrap().status, "running");
    assert!(store.get_task_status(&last.task_id, 3_000).is_ok());
    // The two oldest finished tasks were evicted, in creation order.
    assert!(store.get_task_status(&ids[1], 3_000).is_err());
    assert!(store.get_task_status(&ids[2], 3_000).is_err());
    assert!(store.get_task_status(&ids[3], 3_000).is_ok());
}

#[test]
fn retention_never_evicts_running_tasks() {
    let mut store = CommandTaskStore::new();
    for _ in 0..(MAX_TASKS + 5) {
        store.start_task(args(&["train"]), 0);
    }
    assert_eq!(store.tasks.len(), MAX_TASKS + 5);
    prune_finished_tasks(&mut store.tasks);
    assert_eq!(store.tasks.len(), MAX_TASKS + 5);
}

#[test]
fn status_names() {
    assert_eq!(task_status_name(TaskLifecycleStatus::Running), "running");
    assert_eq!(task_status_name(TaskLifecycleStatus::Completed), "completed");
    assert_eq!(task_status_name(TaskLifecycleStatus::Failed), "failed");
}

#[test]
fn default_store_is_empty() {
    let store = CommandTaskStore::default();
    assert_eq!(store.tasks.len(), 0);
    assert_eq!(store.next_task_id, 1);
    assert_eq!(store.estimate_for_command("train"), 240);
    assert!(store.get_task_status("forge-task-1", 0).is_err());
}
