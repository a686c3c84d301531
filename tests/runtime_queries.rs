use forge_studio::hardware_profile::parse_hardware_profile_output;
use forge_studio::paths::{dataset_root, join_path, records_path, resolve_data_root_path};
use std::path::Path;

const WORKSPACE_ROOT: &str = "/srv/forge-studio";

#[test]
fn parse_hardware_profile_output_reads_key_value_rows() {
    let profile = parse_hardware_profile_output(
        "accelerator=cuda\ngpu_count=1\nrecommended_precision_mode=bf16\n",
    );
    assert_eq!(profile.get("accelerator"), Some(&"cuda".to_string()));
    assert_eq!(profile.get("gpu_count"), Some(&"1".to_string()));
    assert_eq!(
        profile.get("recommended_precision_mode"),
        Some(&"bf16".to_string())
    );
}

#[test]
fn parse_hardware_profile_output_trims_and_skips() {
    let profile = parse_hardware_profile_output(
        "  accelerator = cpu \r\nno separator\n=orphan\nmemory_gb=a=b\n\naccelerator=mps",
    );
    assert_eq!(profile.get("accelerator"), Some(&"mps".to_string()));
    assert_eq!(profile.get("memory_gb"), Some(&"a=b".to_string()));
    assert_eq!(profile.get(""), None);
    assert_eq!(profile.get("no separator"), None);
    assert_eq!(profile.len(), 2);
}

#[test]
fn parse_hardware_profile_output_of_nothing_is_empty() {
    assert_eq!(parse_hardware_profile_output("").len(), 0);
    assert_eq!(parse_hardware_profile_output("\n\n").len(), 0);
}

#[test]
fn parse_hardware_profile_output_trims_unicode_space() {
    let profile = parse_hardware_profile_output("\u{3000}threads\u{a0}=\t8\u{2003}");
    assert_eq!(profile.get("threads"), Some(&"8".to_string()));
}

#[test]
fn resolve_data_root_path_keeps_absolute_paths() {
    let absolute_path = resolve_data_root_path("/tmp/forge-data-root", WORKSPACE_ROOT);
    assert_eq!(Path::new(&absolute_path), Path::new("/tmp/forge-data-root"));
}

#[test]
fn resolve_data_root_path_anchors_relative_paths_to_workspace_root() {
    let relative_path = resolve_data_root_path(".forge", WORKSPACE_ROOT);
    assert!(Path::new(&relative_path).ends_with(Path::new(".forge")));
    assert!(Path::new(&relative_path).is_absolute());
    assert_eq!(relative_path, "/srv/forge-studio/.forge");
}

#[test]
fn join_path_separates_once() {
    assert_eq!(join_path("/a/", "b"), "/a/b");
    assert_eq!(join_path("/a", "b"), "/a/b");
    assert_eq!(join_path("", "b"), "b");
    assert_eq!(join_path("/a", "/b"), "/b");
    assert_eq!(join_path("/a", ""), Path::new("/a").join("").to_str().unwrap());
}

#[test]
fn dataset_layout_paths() {
    assert_eq!(dataset_root("/data", "demo"), "/data/datasets/demo");
    assert_eq!(
        records_path("/data/", "demo", "v2"),
        "/data/datasets/demo/versions/v2/records.jsonl"
    );
    assert_eq!(
        Path::new(&records_path("rel", "demo", "v2")),
        Path::new("rel").join("datasets").join("demo").join("versions").join("v2").join("records.jsonl")
    );
}
