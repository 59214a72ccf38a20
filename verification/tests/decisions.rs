use runtime_provisioner::integrity::{plan_asset_refresh, SkipReason, VerificationResult};
use runtime_provisioner::locate::get_node_binary_path;
use runtime_provisioner::manifest::{asset_file_name, remote_digest};
use runtime_provisioner::orchestrate::{get_node_url, launch_command, plan_launch,
    plan_runtime_setup, SetupCheck};
use runtime_provisioner::progress::ProgressTracker;
use runtime_provisioner::supervisor::ProcessManager;
use runtime_provisioner::tree::{FsEntry, FsNode};

fn hex(s: &str) -> Vec<u8> {
    s.as_bytes().to_vec()
}

#[test]
fn manifest_digest_is_found_for_matching_asset() {
    let body = "{\"assets\":[{\"name\":\"other.zip\",\"digest\":\"sha256:aaaa\"},{\"name\":\"n8n-core-macos.zip\",\"digest\":\"sha256:cafe01\"}]}".to_string();
    let r = remote_digest(true, &Some(body), &asset_file_name(false));
    assert_eq!(r, Some(hex("cafe01")));
}

#[test]
fn manifest_windows_asset_name_is_used() {
    let body = "{\"assets\":[{\"name\":\"n8n-core-windows.zip\",\"digest\":\"sha256:beef\"}]}"
        .to_string();
    assert_eq!(remote_digest(true, &Some(body.clone()), &asset_file_name(true)), Some(hex("beef")));
    assert_eq!(remote_digest(true, &Some(body), &asset_file_name(false)), None);
}

#[test]
fn first_matching_manifest_entry_decides() {
    // The first entry with the right name wins, even when a later entry
    // with the same name would have carried a usable digest.
    let body = "{\"assets\":[{\"name\":\"n8n-core-macos.zip\",\"digest\":\"md5:bad\"},{\"name\":\"n8n-core-macos.zip\",\"digest\":\"sha256:good\"}]}".to_string();
    assert_eq!(remote_digest(true, &Some(body), &asset_file_name(false)), None);
}

#[test]
fn non_success_fetch_skips_verification() {
    let body = "{\"assets\":[{\"name\":\"n8n-core-macos.zip\",\"digest\":\"sha256:dd\"}]}"
        .to_string();
    assert_eq!(remote_digest(false, &Some(body), &asset_file_name(false)), None);
    assert_eq!(remote_digest(true, &None, &asset_file_name(false)), None);
}

#[test]
fn unparsable_body_skips_verification() {
    for body in ["not json at all", "{}", "{\"assets\":42}", "[]"] {
        let r = remote_digest(true, &Some(body.to_string()), &asset_file_name(false));
        assert_eq!(r, None, "body {body:?} should not verify");
    }
}

#[test]
fn unrecognized_digest_algorithm_skips_verification() {
    let body = "{\"assets\":[{\"name\":\"n8n-core-macos.zip\",\"digest\":\"md5:dd\"}]}".to_string();
    assert_eq!(remote_digest(true, &Some(body), &asset_file_name(false)), None);
    let body = "{\"assets\":[{\"name\":\"n8n-core-macos.zip\"}]}".to_string();
    assert_eq!(remote_digest(true, &Some(body), &asset_file_name(false)), None);
}

#[test]
fn matching_local_digest_reuses_local_copy() {
    let plan = plan_asset_refresh(Some(hex("cafe")), true, Some(hex("cafe")));
    assert!(!plan.need_download);
    assert!(!plan.delete_stale);
    assert!(matches!(plan.outcome, VerificationResult::Verified { .. }));
}

#[test]
fn differing_local_digest_forces_redownload() {
    let plan = plan_asset_refresh(Some(hex("cafe")), true, Some(hex("dead")));
    assert!(plan.need_download);
    assert!(plan.delete_stale);
    match plan.outcome {
        VerificationResult::Mismatch { local, remote } => {
            assert_eq!(local, hex("dead"));
            assert_eq!(remote, hex("cafe"));
        },
        _ => panic!("expected a mismatch"),
    }
}

#[test]
fn missing_trusted_digest_reuses_existing_copy() {
    let plan = plan_asset_refresh(None, true, None);
    assert!(!plan.need_download);
    assert!(matches!(
        plan.outcome,
        VerificationResult::Skipped { reason: SkipReason::ManifestUnavailable }
    ));
}

#[test]
fn missing_trusted_digest_still_downloads_absent_copy() {
    let plan = plan_asset_refresh(None, false, None);
    assert!(plan.need_download);
    assert!(!plan.delete_stale);
}

#[test]
fn absent_local_copy_downloads_without_deleting() {
    let plan = plan_asset_refresh(Some(hex("cafe")), false, None);
    assert!(plan.need_download);
    assert!(!plan.delete_stale);
    assert!(matches!(
        plan.outcome,
        VerificationResult::Skipped { reason: SkipReason::NoLocalCopy }
    ));
}

#[test]
fn unreadable_local_copy_downloads_over_it() {
    let plan = plan_asset_refresh(Some(hex("cafe")), true, None);
    assert!(plan.need_download);
    assert!(!plan.delete_stale);
    assert!(matches!(
        plan.outcome,
        VerificationResult::Skipped { reason: SkipReason::LocalUnreadable }
    ));
}

#[test]
fn launch_reports_missing_runtime_first() {
    assert_eq!(plan_launch(false, false), SetupCheck::RuntimeMissing);
    assert_eq!(plan_launch(false, true), SetupCheck::RuntimeMissing);
    assert_eq!(plan_launch(true, false), SetupCheck::ApplicationMissing);
    assert_eq!(plan_launch(true, true), SetupCheck::Ready);
}

#[test]
fn node_url_per_platform() {
    let url = get_node_url(&"macos".to_string(), &"aarch64".to_string()).unwrap();
    assert_eq!(
        url,
        "https://mirrors.huaweicloud.com/nodejs/v20.19.0/node-v20.19.0-darwin-arm64.tar.gz"
    );
    let url = get_node_url(&"macos".to_string(), &"x86_64".to_string()).unwrap();
    assert_eq!(
        url,
        "https://mirrors.huaweicloud.com/nodejs/v20.19.0/node-v20.19.0-darwin-x64.tar.gz"
    );
    let url = get_node_url(&"windows".to_string(), &"x86_64".to_string()).unwrap();
    assert_eq!(url, "https://mirrors.huaweicloud.com/nodejs/v20.19.0/node-v20.19.0-win-x64.zip");
    assert!(get_node_url(&"linux".to_string(), &"x86_64".to_string()).is_err());
    assert!(get_node_url(&"macos".to_string(), &"riscv64".to_string()).is_err());
}

#[test]
fn runtime_setup_skips_when_binary_present() {
    let r = plan_runtime_setup(true, &"linux".to_string(), &"x86_64".to_string());
    assert_eq!(r.unwrap(), None);
    let r = plan_runtime_setup(false, &"windows".to_string(), &"x86_64".to_string());
    assert!(r.unwrap().is_some());
}

#[test]
fn kill_on_empty_slot_is_a_noop() {
    let mut m = ProcessManager::new();
    assert_eq!(m.kill_child(), None);
    assert_eq!(m.kill_child(), None);
}

#[test]
fn start_then_kill_clears_slot_and_surrenders_handle() {
    let mut m = ProcessManager::new();
    m.set_child(42);
    assert_eq!(m.kill_child(), Some(42));
    assert_eq!(m.kill_child(), None);
}

#[test]
fn progress_is_throttled_and_monotone() {
    let mut t = ProgressTracker::new(10_000, 0);
    let mut sent: Vec<u64> = Vec::new();
    // The first report always notifies.
    if let Some(bp) = t.note_chunk(1, 10) {
        sent.push(bp);
    }
    // A tiny advance right after does not.
    assert_eq!(t.note_chunk(2, 12), None);
    // A half-percent advance does.
    if let Some(bp) = t.note_chunk(3, 100) {
        sent.push(bp);
    }
    // No advance, but enough quiet time, notifies too.
    if let Some(bp) = t.note_chunk(200, 100) {
        sent.push(bp);
    }
    sent.push(t.finish());
    assert_eq!(sent, vec![10, 100, 100, 10000]);
}

#[test]
fn unknown_total_notifies_only_completion() {
    let mut t = ProgressTracker::new(0, 0);
    assert_eq!(t.note_chunk(10, 1000), None);
    assert_eq!(t.note_chunk(500, 2000), None);
    assert_eq!(t.finish(), 10000);
}

#[test]
fn launch_command_arguments_and_environment() {
    let plan = launch_command("/data/n8n-core/node_modules/n8n/bin/n8n".to_string(),
        "/data/n8n-data".to_string());
    assert_eq!(plan.args, vec![
        "/data/n8n-core/node_modules/n8n/bin/n8n".to_string(),
        "start".to_string(),
    ]);
    assert_eq!(plan.env.len(), 10);
    assert_eq!(plan.env[0], ("N8N_USER_FOLDER".to_string(), "/data/n8n-data".to_string()));
    assert_eq!(plan.env[1], ("N8N_DISABLE_INTERACTIVE_REPL".to_string(), "true".to_string()));
    assert_eq!(plan.env[8], ("N8N_PORT".to_string(), "5678".to_string()));
    assert_eq!(plan.env[9], ("N8N_HOST".to_string(), "127.0.0.1".to_string()));
}

fn file(name: &str) -> FsEntry {
    FsEntry { name: name.as_bytes().to_vec(), node: FsNode::File { data: Vec::new() } }
}

fn dir(name: &str, entries: Vec<FsEntry>) -> FsEntry {
    FsEntry { name: name.as_bytes().to_vec(), node: FsNode::Dir { entries } }
}

fn comps(path: &[&str]) -> Vec<Vec<u8>> {
    path.iter().map(|c| c.as_bytes().to_vec()).collect()
}

#[test]
fn direct_binary_path_wins() {
    let root = vec![dir("bin", vec![file("node")])];
    assert_eq!(get_node_binary_path(&root, false), comps(&["bin", "node"]));
}

#[test]
fn nested_binary_is_found_by_search() {
    let root = vec![dir("node-v20.19.0-darwin-arm64", vec![dir("bin", vec![file("node")])])];
    assert_eq!(
        get_node_binary_path(&root, false),
        comps(&["node-v20.19.0-darwin-arm64", "bin", "node"])
    );
}

#[test]
fn windows_binary_is_found_by_name() {
    let root = vec![dir("node-v20", vec![file("node.exe")])];
    assert_eq!(get_node_binary_path(&root, true), comps(&["node-v20", "node.exe"]));
}

#[test]
fn missing_binary_falls_back_to_direct_path() {
    let root = vec![dir("docs", vec![file("README.md")])];
    assert_eq!(get_node_binary_path(&root, false), comps(&["bin", "node"]));
    assert_eq!(get_node_binary_path(&root, true), comps(&["node.exe"]));
}
