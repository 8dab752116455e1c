use dlp_agent::error::PolicyError;
use dlp_agent::fs_index::{EntryType, FilesystemIndex};
use dlp_agent::path_resolver::{DeviceResolution, PathResolver};
use dlp_agent::policy_engine::{PolicyEngine, SendOutcome, SendStep};
use dlp_agent::policy_intent::{
    IntentError, PolicyIntent, ProtectionAction, ProtectionOperations, ProtectionScope,
};
use dlp_agent::policy_store::{HealthStatus, PolicyStore};
use dlp_agent::query::{QueryInterface, QueryResponse, ScanState};
use dlp_agent::scanner::{DirEntryInfo, DriveProbe, FileSystemScanner, ScanError};

fn entry(name: &str, is_dir: bool) -> DirEntryInfo {
    DirEntryInfo {
        name: name.to_string(),
        is_dir,
        size: 10,
        modified_time: 1,
        created_time: 1,
        attributes: 0,
        is_accessible: true,
        readable: true,
    }
}

fn ops(read: bool, write: bool) -> ProtectionOperations {
    ProtectionOperations { read, write, delete: false, rename: false, create: false, copy: false, execute: false }
}

/// A drive C: (id 2) expanded with `entries`.
fn index_with(entries: Vec<DirEntryInfo>) -> FilesystemIndex {
    let mut index = FilesystemIndex::new();
    assert_eq!(index.add_drive("C:", "Local Disk (C:)", "\\Device\\HarddiskVolume3\\"), Some(2));
    let scanner = FileSystemScanner::new();
    scanner.expand_directory(&mut index, 2, &entries).unwrap();
    index
}

#[test]
fn expansion_nests_children_one_level_below() {
    let mut index = index_with(vec![entry("Users", true), entry("a.txt", false)]);
    assert_eq!(index.resolve_nt_path(3).unwrap(), "\\Device\\HarddiskVolume3\\Users\\");
    assert_eq!(index.resolve_nt_path(4).unwrap(), "\\Device\\HarddiskVolume3\\a.txt");
    assert_eq!(index.get_display_path(3).unwrap(), "C:\\Users\\");
    let scanner = FileSystemScanner::new();
    assert_eq!(scanner.expand_directory(&mut index, 3, &vec![entry("bob", true)]), Ok(1));
    let resolver = PathResolver::new();
    match resolver.begin_resolve(&index, 5).unwrap() {
        DeviceResolution::Resolved(p) => assert_eq!(p, "\\Device\\HarddiskVolume3\\Users\\bob\\"),
        DeviceResolution::NeedsVolume(_) => panic!("device path expected"),
    }
    let node = index.get_node(5).unwrap();
    assert_eq!(node.parent_id, Some(3));
    assert_eq!(node.entry_type, EntryType::Directory);
}

#[test]
fn expansion_is_idempotent_and_checks_the_node() {
    let mut index = index_with(vec![entry("a.txt", false), entry("b.txt", false)]);
    let scanner = FileSystemScanner::new();
    assert_eq!(scanner.expand_directory(&mut index, 2, &vec![entry("c", false)]), Ok(2));
    assert_eq!(index.node_count(), 4);
    assert_eq!(scanner.expand_directory(&mut index, 3, &vec![]), Err(ScanError::NotADirectory));
    assert_eq!(scanner.expand_directory(&mut index, 1, &vec![]), Err(ScanError::NotADirectory));
    assert_eq!(scanner.expand_directory(&mut index, 99, &vec![]), Err(ScanError::NotFound));
}

#[test]
fn expansion_skips_unreadable_and_malformed_entries() {
    let mut bad = entry("x", false);
    bad.readable = false;
    let index = index_with(vec![bad, entry("", false), entry("a\\b", false), entry("ok", false)]);
    let children = index.get_children(2);
    assert_eq!(children.len(), 1);
    assert_eq!(children[0].name, "ok");
    assert_eq!(children[0].id, 3);
}

#[test]
fn collapse_then_reexpand_issues_fresh_ids() {
    let mut index = index_with(vec![entry("d", true), entry("f", false)]);
    let scanner = FileSystemScanner::new();
    scanner.expand_directory(&mut index, 3, &vec![entry("inner", false)]).unwrap();
    let before: Vec<u64> = index.get_children(2).iter().map(|n| n.id).collect();
    assert_eq!(before, vec![3, 4]);
    assert_eq!(scanner.collapse_directory(&mut index, 2), Ok(2));
    assert!(!index.is_expanded(2));
    assert!(index.get_node(3).is_none());
    assert!(index.get_node(5).is_none());
    assert_eq!(index.node_count(), 2);
    scanner.expand_directory(&mut index, 2, &vec![entry("d", true), entry("f", false)]).unwrap();
    let after: Vec<u64> = index.get_children(2).iter().map(|n| n.id).collect();
    assert_eq!(after, vec![6, 7]);
    assert!(before.iter().all(|id| !after.contains(id)));
}

#[test]
fn drives_initialisation() {
    let mut index = FilesystemIndex::new();
    let scanner = FileSystemScanner::new();
    let probes = vec![
        DriveProbe { letter: "C:".to_string(), accessible: true, nt_path: Some("\\Device\\HarddiskVolume3".to_string()) },
        DriveProbe { letter: "D:".to_string(), accessible: false, nt_path: Some("\\Device\\HarddiskVolume4".to_string()) },
        DriveProbe { letter: "E:".to_string(), accessible: true, nt_path: None },
    ];
    assert_eq!(scanner.initialize_drives(&mut index, &probes), Ok(1));
    assert_eq!(index.get_drives(), vec![("C:".to_string(), 2)]);
    assert_eq!(index.get_node(2).unwrap().name, "Local Disk (C:)");
    assert_eq!(scanner.initialize_drives(&mut index, &vec![]), Err(ScanError::NoDrives));
    assert_eq!(index.node_count(), 1);
}

#[test]
fn folder_scope_covers_only_direct_files() {
    let index = index_with(vec![entry("a.txt", false), entry("sub", true), entry("b.txt", false)]);
    let resolver = PathResolver::new();
    let i = PolicyIntent::new(2, ProtectionScope::Folder, ProtectionAction::Block, ops(false, true), "admin", None, 1);
    let paths = resolver.resolve_policy_intent(&index, &i, "\\Device\\HarddiskVolume3\\").unwrap();
    assert_eq!(paths, vec!["\\Device\\HarddiskVolume3\\a.txt", "\\Device\\HarddiskVolume3\\b.txt"]);
    let r = PolicyIntent::new(3, ProtectionScope::FolderRecursive, ProtectionAction::Block, ops(false, true), "admin", None, 1);
    let rp = resolver.resolve_policy_intent(&index, &r, "\\Device\\HarddiskVolume3\\sub").unwrap();
    assert_eq!(rp, vec!["\\Device\\HarddiskVolume3\\sub\\"]);
}

#[test]
fn resolution_errors_and_volume_lookup() {
    let mut index = FilesystemIndex::new();
    index.add_drive("C:", "Local Disk (C:)", "").unwrap();
    let resolver = PathResolver::new();
    match resolver.begin_resolve(&index, 2).unwrap() {
        DeviceResolution::NeedsVolume(d) => assert_eq!(d, "C:"),
        DeviceResolution::Resolved(_) => panic!("volume lookup expected"),
    }
    assert_eq!(resolver.finish_resolve(&index, 2, "\\Device\\HarddiskVolume9").unwrap(), "\\Device\\HarddiskVolume9\\");
    assert_eq!(resolver.finish_resolve(&index, 2, "\\??\\C:"), Err(PolicyError::InvalidPath));
    assert_eq!(resolver.begin_resolve(&index, 9).err(), Some(PolicyError::NotFound));
    assert_eq!(resolver.validate_node(&index, 9), Err(PolicyError::NotFound));
    let i = PolicyIntent::new(2, ProtectionScope::File, ProtectionAction::Block, ops(false, true), "admin", None, 1);
    assert_eq!(resolver.resolve_policy_intent(&index, &i, "C:\\").err(), Some(PolicyError::InvalidPath));
}

#[test]
fn inaccessible_node_is_refused() {
    let mut e = entry("locked.txt", false);
    e.is_accessible = false;
    let index = index_with(vec![e]);
    let resolver = PathResolver::new();
    assert_eq!(resolver.validate_node(&index, 3), Err(PolicyError::NotAccessible));
    let mut engine = PolicyEngine::new(index, false);
    let i = PolicyIntent::new(3, ProtectionScope::File, ProtectionAction::Block, ops(false, true), "admin", None, 1);
    assert_eq!(engine.prepare_protection(i, None).err(), Some(PolicyError::NotAccessible));
}

#[test]
fn volume_cache_and_device_names() {
    let mut resolver = PathResolver::new();
    assert_eq!(resolver.cached_device_root("\\\\?\\Volume{1}\\"), None);
    resolver.remember_volume("\\\\?\\Volume{1}\\", "\\Device\\HarddiskVolume3");
    resolver.remember_volume("\\\\?\\Volume{1}\\", "\\Device\\Other");
    assert_eq!(resolver.cached_device_root("\\\\?\\Volume{1}\\").unwrap(), "\\Device\\HarddiskVolume3");
    let mut buf: Vec<u16> = "C:\\".encode_utf16().collect();
    buf.push(0);
    buf.extend("\\Device\\HarddiskVolume5".encode_utf16());
    buf.push(0);
    buf.push(0);
    let name = PathResolver::first_device_name(&buf).unwrap();
    assert_eq!(String::from_utf16(&name).unwrap(), "\\Device\\HarddiskVolume5");
    assert_eq!(PathResolver::first_device_name(&"C:\\".encode_utf16().chain(Some(0)).collect()), None);
}

/// Drive C: with forty files; the last one gets id 42.
fn engine_with_node_42(connected: bool) -> PolicyEngine {
    let entries: Vec<DirEntryInfo> = (0..40).map(|k| entry(&format!("f{}", k), false)).collect();
    let index = index_with(entries);
    assert_eq!(index.get_node(42).unwrap().name, "f39");
    PolicyEngine::new(index, connected)
}

fn read_block_42() -> PolicyIntent {
    PolicyIntent::new(42, ProtectionScope::File, ProtectionAction::Block, ops(true, false), "admin", None, 1000)
}

#[test]
fn read_block_scenario_preview_and_apply() {
    let mut engine = engine_with_node_42(true);
    let p = engine.preview_policy(&read_block_42()).unwrap();
    assert!(p.is_block_all);
    let e = p.effective_operations;
    assert!(e.write && e.delete && e.rename && e.create && e.copy && e.execute);
    let prepared = engine.prepare_protection(read_block_42(), None).unwrap();
    assert_eq!(prepared.rule_count(), 1);
    assert_eq!(prepared.messages().len(), 1);
    assert_eq!(prepared.messages()[0].block_all, 1);
    assert_eq!(prepared.messages()[0].is_folder, 0);
    let id = prepared.policy_id();
    assert_eq!(engine.commit_protection(prepared, SendOutcome::AllSent, 5000), Ok(id));
    let active = engine.get_active_policies();
    assert_eq!(active.len(), 1);
    assert_eq!(active[0].kernel_policies.len(), 1);
    assert!(active[0].kernel_policies[0].block_all);
    assert_eq!(active[0].kernel_policy_ids, vec![id]);
    assert_eq!(engine.get_policy_health(id).unwrap().0, HealthStatus::Healthy);
}

#[test]
fn allow_with_read_never_reaches_the_kernel() {
    let mut engine = engine_with_node_42(true);
    let i = PolicyIntent::new(42, ProtectionScope::File, ProtectionAction::Allow, ops(true, true), "admin", None, 1);
    assert_eq!(i.validate(), Err(IntentError::AllowWithRead));
    assert_eq!(
        engine.prepare_protection(i, None).err(),
        Some(PolicyError::InvalidIntent(IntentError::AllowWithRead))
    );
    assert_eq!(engine.policy_count(), 0);
}

#[test]
fn preview_and_dry_run_leave_state_unchanged() {
    let mut engine = engine_with_node_42(false);
    let prepared = engine.prepare_protection(read_block_42(), None).unwrap();
    engine.commit_protection(prepared, SendOutcome::NotConnected, 1).unwrap();
    let nodes = engine.index().node_count();
    let next = engine.index().next_id();
    let policies = engine.policy_count();
    let node_before = engine.index().get_node(42).unwrap();
    for _ in 0..3 {
        let a = engine.preview_policy(&read_block_42()).unwrap();
        let b = engine.preview_policy(&read_block_42()).unwrap();
        assert_eq!(a.human_readable, b.human_readable);
        let d1 = engine.dry_run_policy(&read_block_42()).unwrap();
        let d2 = engine.dry_run_policy(&read_block_42()).unwrap();
        assert_eq!(d1.summary, d2.summary);
    }
    assert_eq!(engine.index().node_count(), nodes);
    assert_eq!(engine.index().next_id(), next);
    assert_eq!(engine.policy_count(), policies);
    let node_after = engine.index().get_node(42).unwrap();
    assert_eq!(node_before.nt_path, node_after.nt_path);
    assert_eq!(node_before.is_expanded, node_after.is_expanded);
}

#[test]
fn removing_an_unknown_policy_is_not_found() {
    let mut engine = engine_with_node_42(false);
    let prepared = engine.prepare_protection(read_block_42(), None).unwrap();
    engine.commit_protection(prepared, SendOutcome::NotConnected, 1).unwrap();
    let before = engine.policy_count();
    assert_eq!(engine.remove_protection(999).err(), Some(PolicyError::NotFound));
    assert_eq!(engine.policy_count(), before);
}

#[test]
fn removal_returns_tombstones_and_forgets_the_policy() {
    let mut engine = engine_with_node_42(true);
    let prepared = engine.prepare_protection(read_block_42(), None).unwrap();
    let id = engine.commit_protection(prepared, SendOutcome::AllSent, 1).unwrap();
    let tombstones = engine.remove_protection(id).unwrap();
    assert_eq!(tombstones.len(), 1);
    assert_eq!(tombstones[0].block_all, 0);
    assert_eq!(tombstones[0].path[..5], [92, 68, 101, 118, 105]);
    assert_eq!(engine.policy_count(), 0);
    assert!(engine.get_policy_health(id).is_none());
}

#[test]
fn simulation_mode_apply_records_and_warns() {
    let mut engine = engine_with_node_42(false);
    assert!(!engine.is_kernel_connected());
    let p1 = engine.prepare_protection(read_block_42(), None).unwrap();
    let id1 = engine.commit_protection(p1, SendOutcome::NotConnected, 10).unwrap();
    let p2 = engine.prepare_protection(read_block_42(), None).unwrap();
    let id2 = engine.commit_protection(p2, SendOutcome::NotConnected, 11).unwrap();
    assert_ne!(id1, id2);
    assert_eq!(engine.policy_count(), 2);
    assert_eq!(engine.get_policy_health(id1).unwrap().0, HealthStatus::Warning);
    let stats = engine.get_enforcement_stats();
    assert_eq!((stats.simulated, stats.real_enforcement, stats.warning), (2, 0, 2));
    let s = engine.get_stats();
    assert_eq!((s.total_policies, s.active_policies, s.protected_nodes, s.kernel_connected), (2, 2, 1, false));
    assert_eq!(engine.get_policies_for_node(42).len(), 2);
    assert_eq!(engine.get_node_id_by_kernel_id(id2), Some(42));
}

#[test]
fn transport_failure_records_nothing() {
    let mut engine = engine_with_node_42(true);
    let p = engine.prepare_protection(read_block_42(), None).unwrap();
    assert_eq!(
        engine.commit_protection(p, SendOutcome::Failed(-1073741823), 1),
        Err(PolicyError::KernelTransportError(-1073741823))
    );
    assert_eq!(engine.policy_count(), 0);
}

#[test]
fn assurance_requires_confirmation_for_read_block() {
    let mut engine = engine_with_node_42(true);
    assert_eq!(
        engine.prepare_protection_with_assurance(read_block_42(), false, None).err(),
        Some(PolicyError::ConfirmationRequired)
    );
    assert!(engine.prepare_protection_with_assurance(read_block_42(), true, None).is_ok());
    let bad = PolicyIntent::new(0, ProtectionScope::File, ProtectionAction::Block, ops(false, true), "admin", None, 1);
    assert_eq!(
        engine.prepare_protection_with_assurance(bad, true, None).err(),
        Some(PolicyError::InvalidIntent(IntentError::ZeroNode))
    );
}

#[test]
fn drive_without_device_path_needs_its_volume() {
    let mut index = FilesystemIndex::new();
    index.add_drive("D:", "Local Disk (D:)", "").unwrap();
    let mut engine = PolicyEngine::new(index, false);
    let i = || PolicyIntent::new(2, ProtectionScope::FolderRecursive, ProtectionAction::Block, ops(false, true), "admin", None, 1);
    assert_eq!(engine.prepare_protection(i(), None).err(), Some(PolicyError::VolumeNeeded));
    let p = engine.prepare_protection(i(), Some("\\Device\\HarddiskVolume4")).unwrap();
    assert_eq!(p.rule_count(), 1);
    assert_eq!(p.messages()[0].is_folder, 1);
    assert_eq!(p.messages()[0].block_write, 1);
    assert_eq!(engine.prepare_protection(i(), Some("D:")).err(), Some(PolicyError::InvalidPath));
    let missing = PolicyIntent::new(77, ProtectionScope::File, ProtectionAction::Block, ops(false, true), "admin", None, 1);
    assert_eq!(engine.prepare_protection(missing, None).err(), Some(PolicyError::NotFound));
}

#[test]
fn safety_through_the_engine() {
    let engine = engine_with_node_42(false);
    let v = engine.validate_policy_safety(&read_block_42());
    assert!(v.is_valid && v.requires_confirmation);
    assert_eq!(v.warnings.len(), 5);
    assert_eq!(PolicyError::NotFound.message(), "not found");
}

#[test]
fn store_indexes() {
    let mut store = PolicyStore::new();
    let i = PolicyIntent::new(8, ProtectionScope::File, ProtectionAction::Block, ops(false, true), "admin", None, 1);
    assert!(store.add_policy(3, i, vec![], vec![70, 71], 100));
    let j = PolicyIntent::new(8, ProtectionScope::File, ProtectionAction::Audit, ops(false, true), "admin", None, 1);
    assert!(!store.add_policy(3, j, vec![], vec![], 100));
    assert_eq!(store.len(), 1);
    assert_eq!(store.get_policy_by_kernel_id(71).unwrap().policy_id, 3);
    assert_eq!(store.get_policy_by_id(70).unwrap().policy_id, 3);
    assert!(store.get_policy(70).is_none());
    assert!(store.update_policy_status(3, false, 200));
    assert!(!store.update_policy_status(4, false, 200));
    let p = store.get_policy(3).unwrap();
    assert!(!p.is_active);
    assert_eq!((p.created_at, p.last_updated), (100, 200));
    let s = store.get_stats();
    assert_eq!((s.total_policies, s.active_policies, s.protected_nodes), (1, 0, 1));
    assert_eq!(store.remove_policy(3).unwrap().policy_id, 3);
    assert!(store.remove_policy(3).is_none());
    assert_eq!(store.get_all_policies().len(), 0);
}

#[test]
fn whole_index_walks() {
    let mut index = index_with(vec![entry("d", true), entry("a.txt", false)]);
    let nodes = index.get_all_nodes();
    assert_eq!(nodes.len(), 4);
    let mut ids: Vec<u64> = nodes.iter().map(|n| n.id).collect();
    ids.sort();
    assert_eq!(ids, vec![1, 2, 3, 4]);
    assert_eq!(index.count_expanded_nodes(), 1);
    FileSystemScanner::new().expand_directory(&mut index, 3, &vec![]).unwrap();
    assert_eq!(index.count_expanded_nodes(), 2);
    assert_eq!(index.get_id_by_path("C:\\a.txt"), Some(4));
    assert_eq!(index.get_node_by_path("C:\\d\\").unwrap().id, 3);
    assert_eq!(index.get_id_by_path("C:\\missing"), None);
    match QueryInterface::new().get_stats(&index) {
        QueryResponse::Stats(s) => {
            assert_eq!((s.total_nodes, s.total_drives, s.expanded_nodes), (4, 1, 2));
        }
        _ => panic!("stats expected"),
    }
}

#[test]
fn engine_volume_cache_and_resolution() {
    let mut index = FilesystemIndex::new();
    index.add_drive("D:", "Local Disk (D:)", "").unwrap();
    let mut engine = PolicyEngine::new(index, false);
    match engine.resolve_device(2).unwrap() {
        DeviceResolution::NeedsVolume(d) => assert_eq!(d, "D:"),
        DeviceResolution::Resolved(_) => panic!("volume lookup expected"),
    }
    assert_eq!(engine.resolve_device(9).err(), Some(PolicyError::NotFound));
    assert_eq!(engine.cached_device_root("\\\\?\\Volume{7}\\"), None);
    engine.remember_volume("\\\\?\\Volume{7}\\", "\\Device\\HarddiskVolume7");
    engine.remember_volume("\\\\?\\Volume{7}\\", "\\Device\\Other");
    assert_eq!(engine.cached_device_root("\\\\?\\Volume{7}\\").unwrap(), "\\Device\\HarddiskVolume7");
}

#[test]
fn send_steps_stop_at_the_first_failure() {
    let index = index_with(vec![entry("a.txt", false), entry("b.txt", false)]);
    let mut engine = PolicyEngine::new(index, true);
    let i = PolicyIntent::new(2, ProtectionScope::Folder, ProtectionAction::Block, ops(false, true), "admin", None, 1);
    let p = engine.prepare_protection(i, None).unwrap();
    assert_eq!(p.messages().len(), 2);
    assert_eq!(p.first_step(), SendStep::Send(0));
    assert_eq!(p.after_send(0, 0), SendStep::Send(1));
    assert_eq!(p.after_send(1, 0), SendStep::Done(SendOutcome::AllSent));
    assert_eq!(p.after_send(0, 5), SendStep::Done(SendOutcome::Failed(5)));
}

#[test]
fn prepared_ids_are_fresh_and_commit_records() {
    let mut engine = engine_with_node_42(false);
    let p1 = engine.prepare_protection(read_block_42(), None).unwrap();
    let p2 = engine.prepare_protection(read_block_42(), None).unwrap();
    assert_ne!(p1.policy_id(), p2.policy_id());
    let id2 = engine.commit_protection(p2, SendOutcome::NotConnected, 1).unwrap();
    let id1 = engine.commit_protection(p1, SendOutcome::NotConnected, 2).unwrap();
    assert_ne!(id1, id2);
    assert_eq!(engine.policy_count(), 2);
}

#[test]
fn query_surface_hides_device_paths_and_folds_case() {
    let index = index_with(vec![entry("Report.TXT", false), entry("notes", true), entry("report-old", false)]);
    let q = QueryInterface::new();
    match q.search_local(&index, 2, "REPORT") {
        QueryResponse::Nodes(ns) => {
            let names: Vec<&str> = ns.iter().map(|n| n.name.as_str()).collect();
            assert_eq!(names, vec!["Report.TXT", "report-old"]);
        }
        _ => panic!("nodes expected"),
    }
    assert!(matches!(q.search_local(&index, 2, "   "), QueryResponse::Error(_)));
    assert!(matches!(q.search_local(&index, 99, "x"), QueryResponse::Error(_)));
    match q.get_node(&index, 4) {
        QueryResponse::Node(n) => {
            assert_eq!(n.entry_type, "Directory");
            assert!(n.has_children);
            assert_eq!(n.display_path, "C:\\notes\\");
        }
        _ => panic!("node expected"),
    }
    assert!(matches!(q.get_node(&index, 99), QueryResponse::Error(_)));
    match q.list_children(&index, 2) {
        QueryResponse::Nodes(ns) => assert_eq!(ns.len(), 3),
        _ => panic!("nodes expected"),
    }
    let drives = q.get_drives(&index);
    assert_eq!(drives.len(), 1);
    assert_eq!(drives[0].drive_letter, "C:");
    assert_eq!(drives[0].display_name, "Local Disk (C:)");
    assert_eq!(ScanState::Error("x".to_string()).as_str(), "error");
    assert!(dlp_agent::query::matches_folded("report.txt", "port"));
    assert!(!dlp_agent::query::matches_folded("report.txt", "PORT"));
}
