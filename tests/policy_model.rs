use dlp_agent::kernel_policy::{KernelOperations, PathMatchType, PolicyNormalizer, RuleError};
use dlp_agent::policy_dry_run::DryRunEvaluator;
use dlp_agent::policy_guard::PolicyGuard;
use dlp_agent::policy_intent::{
    IntentError, PolicyIntent, ProtectionAction, ProtectionOperations, ProtectionScope,
};
use dlp_agent::policy_preview::PolicyPreviewService;
use dlp_agent::protocol::{
    AgentResponse, ApplyPolicyRequest, ErrorCode, PolicyOperations, RequestError,
};

fn ops(read: bool, write: bool, delete: bool, rename: bool, create: bool, copy: bool, execute: bool) -> ProtectionOperations {
    ProtectionOperations { read, write, delete, rename, create, copy, execute }
}

fn intent(node: u64, scope: ProtectionScope, action: ProtectionAction, o: ProtectionOperations) -> PolicyIntent {
    PolicyIntent::new(node, scope, action, o, "admin", None, 1000)
}

const ALL6: KernelOperations = KernelOperations {
    write: true,
    delete: true,
    rename: true,
    create: true,
    copy: true,
    execute: true,
};

#[test]
fn presets_and_read_expansion() {
    let d = ProtectionOperations::default();
    assert_eq!(d, ops(false, true, true, true, true, false, false));
    assert!(ProtectionOperations::read_only().is_block_all());
    assert!(!ProtectionOperations::audit_only().is_block_all());
    assert_eq!(ProtectionOperations::full_protection(), ops(true, true, true, true, true, true, true));
    let e = ops(true, false, false, false, false, false, false).expand_for_kernel();
    assert_eq!(e, ops(false, true, true, true, true, true, true));
    let same = ops(false, true, false, false, false, false, false);
    assert_eq!(same.expand_for_kernel(), same);
}

#[test]
fn validation_errors_in_order() {
    let o = ops(false, true, false, false, false, false, false);
    assert_eq!(intent(0, ProtectionScope::File, ProtectionAction::Block, o).validate(), Err(IntentError::ZeroNode));
    let c = ops(false, false, false, false, true, false, false);
    assert_eq!(intent(5, ProtectionScope::File, ProtectionAction::Block, c).validate(), Err(IntentError::CreateOnFile));
    let blank = PolicyIntent::new(5, ProtectionScope::Folder, ProtectionAction::Block, o, "  \t", None, 1);
    assert_eq!(blank.validate(), Err(IntentError::EmptyCreator));
    let r = ops(true, false, false, false, false, false, false);
    assert_eq!(intent(5, ProtectionScope::Folder, ProtectionAction::Allow, r).validate(), Err(IntentError::AllowWithRead));
    assert_eq!(intent(5, ProtectionScope::Folder, ProtectionAction::Block, r).validate(), Ok(()));
}

#[test]
fn allow_with_read_is_always_rejected() {
    for scope in [ProtectionScope::File, ProtectionScope::Folder, ProtectionScope::FolderRecursive] {
        let o = ops(true, true, false, true, false, true, false);
        let i = intent(9, scope, ProtectionAction::Allow, o);
        assert!(i.validate().is_err());
        assert!(!PolicyGuard::validate(&i, true).is_valid);
    }
}

#[test]
fn intent_descriptions() {
    let i = intent(42, ProtectionScope::File, ProtectionAction::Block, ops(false, true, true, false, false, false, false));
    assert_eq!(i.describe(), "Block write, delete on file (ID: 42)");
    let r = intent(42, ProtectionScope::FolderRecursive, ProtectionAction::Block, ops(true, false, false, false, false, false, false));
    assert_eq!(r.describe(), "Block ALL operations on folder (recursive) (ID: 42) - READ selected");
    let n = intent(7, ProtectionScope::Folder, ProtectionAction::Audit, ProtectionOperations::audit_only());
    assert_eq!(n.describe(), "Audit nothing on folder (ID: 7)");
}

#[test]
fn read_block_blocks_all_six_regardless_of_flags() {
    let i = intent(42, ProtectionScope::File, ProtectionAction::Block, ops(true, false, false, false, false, false, false));
    let rules = PolicyNormalizer::normalize(&i, vec!["\\Device\\V\\a.txt".to_string(), "\\Device\\V\\b.txt".to_string()], 3);
    assert_eq!(rules.len(), 2);
    for r in &rules {
        assert_eq!(r.blocked_ops, ALL6);
        assert!(r.block_all);
        assert!(r.is_block_all());
        assert!(r.should_block_operation("read"));
        assert!(r.should_block_operation("execute"));
        assert_eq!(r.match_type, PathMatchType::Exact);
        assert_eq!(r.policy_id, 3);
        assert_eq!(PolicyNormalizer::validate(r), Ok(()));
    }
}

#[test]
fn normalize_per_action() {
    let o = ops(false, true, false, false, false, true, false);
    let b = PolicyNormalizer::normalize(&intent(2, ProtectionScope::FolderRecursive, ProtectionAction::Block, o), vec!["\\Device\\V\\dir".to_string()], 1);
    assert_eq!(b[0].nt_path, "\\Device\\V\\dir\\");
    assert_eq!(b[0].match_type, PathMatchType::Prefix);
    assert!(b[0].is_recursive);
    assert_eq!(b[0].blocked_ops, KernelOperations { write: true, delete: false, rename: false, create: false, copy: true, execute: false });
    assert!(!b[0].block_all);
    assert_eq!(b[0].describe(), "Policy ID 1 on \\Device\\V\\dir\\: Block [write, copy] (Recursive)");

    let a = PolicyNormalizer::normalize(&intent(2, ProtectionScope::File, ProtectionAction::Allow, o), vec!["\\Device\\V\\f".to_string()], 1);
    assert_eq!(a[0].blocked_ops, KernelOperations { write: false, delete: true, rename: true, create: true, copy: false, execute: true });
    assert_eq!(a[0].audit_ops, KernelOperations::default());

    let u = PolicyNormalizer::normalize(&intent(2, ProtectionScope::File, ProtectionAction::Audit, o), vec!["\\Device\\V\\f".to_string()], 1);
    assert_eq!(u[0].blocked_ops, KernelOperations::default());
    assert_eq!(u[0].audit_ops, KernelOperations { write: true, delete: false, rename: false, create: false, copy: true, execute: false });
    assert!(u[0].should_audit_operation("write"));
    assert!(!u[0].should_audit_operation("read"));
    assert!(!u[0].should_block_operation("write"));
    assert!(!u[0].should_block_operation("unknown"));
    assert_eq!(u[0].describe(), "Policy ID 1 on \\Device\\V\\f: Audit [write, copy]");
}

#[test]
fn kernel_rule_checks() {
    let o = ops(false, true, false, false, false, false, false);
    let bad = PolicyNormalizer::normalize(&intent(2, ProtectionScope::File, ProtectionAction::Block, o), vec!["C:\\x".to_string()], 1);
    assert_eq!(PolicyNormalizer::validate(&bad[0]), Err(RuleError::NotDevicePath));
    let none = PolicyNormalizer::normalize(&intent(2, ProtectionScope::File, ProtectionAction::Block, ProtectionOperations::audit_only()), vec!["\\Device\\V\\x".to_string()], 1);
    assert_eq!(PolicyNormalizer::validate(&none[0]), Err(RuleError::NoOperations));
    let mut p = PolicyNormalizer::normalize(&intent(2, ProtectionScope::FolderRecursive, ProtectionAction::Block, o), vec!["\\Device\\V\\d".to_string()], 1);
    p[0].nt_path = "\\Device\\V\\d".to_string();
    assert_eq!(PolicyNormalizer::validate(&p[0]), Err(RuleError::PrefixWithoutSeparator));
}

#[test]
fn kernel_operations_helpers() {
    assert!(KernelOperations::default().is_empty());
    assert!(KernelOperations::block_all().is_block_all());
    assert_eq!(KernelOperations::block_all().to_flags(), (1, 1, 1, 1, 1, 1));
    let k = KernelOperations::from_protection_operations(&ops(true, false, false, false, false, false, false), ProtectionAction::Block);
    assert_eq!(k, ALL6);
}

#[test]
fn guard_flags_read_block() {
    let i = intent(42, ProtectionScope::File, ProtectionAction::Block, ops(true, false, false, false, false, false, false));
    let v = PolicyGuard::validate(&i, true);
    assert!(v.is_valid);
    assert!(v.requires_confirmation);
    assert_eq!(v.warnings.len(), 2);
    assert!(v.confirmation_message.unwrap().starts_with("You are about to block ALL access"));
    assert!(PolicyGuard::requires_confirmation(&i));
    assert!(PolicyGuard::get_confirmation_message(&i).unwrap().contains("CONFIRM_BLOCK_ALL"));
}

#[test]
fn guard_recursive_read_block_and_simulation() {
    let i = intent(42, ProtectionScope::FolderRecursive, ProtectionAction::Block, ops(true, false, false, false, false, false, false));
    let v = PolicyGuard::validate(&i, false);
    assert!(v.is_valid);
    assert_eq!(v.warnings.len(), 7);
    assert!(v.confirmation_message.unwrap().starts_with("DANGER"));
    assert!(PolicyGuard::get_confirmation_message(&i).unwrap().contains("CONFIRM_RECURSIVE_BLOCK_ALL"));
    let plain = intent(42, ProtectionScope::File, ProtectionAction::Block, ops(false, true, false, false, false, false, false));
    let w = PolicyGuard::validate(&plain, false);
    assert!(w.is_valid && !w.requires_confirmation && w.confirmation_message.is_none());
    assert_eq!(w.warnings, vec!["Kernel driver not connected", "Policy will run in SIMULATION MODE only", "No actual blocking will occur"]);
    assert_eq!(PolicyGuard::get_confirmation_message(&plain), None);
}

#[test]
fn guard_errors_and_report() {
    let i = intent(42, ProtectionScope::File, ProtectionAction::Allow, ops(true, false, false, false, false, false, false));
    let v = PolicyGuard::validate(&i, true);
    assert!(!v.is_valid);
    assert_eq!(v.errors, vec!["READ cannot be used with Allow action", "Use Block action for read protection"]);
    let report = PolicyGuard::generate_safety_report(&i, true);
    assert!(report.contains("Node ID: 42\n"));
    assert!(report.contains("  - READ cannot be used with Allow action\n"));
    assert!(report.contains("Overall Status: FAILED"));
    let ok = intent(42, ProtectionScope::File, ProtectionAction::Block, ops(false, true, false, false, false, false, false));
    let r2 = PolicyGuard::generate_safety_report(&ok, true);
    assert!(r2.contains("Kernel Connected: Yes\n"));
    assert!(r2.contains("Overall Status: PASSED"));
}

#[test]
fn preview_of_read_block_scenario() {
    let i = intent(42, ProtectionScope::File, ProtectionAction::Block, ops(true, false, false, false, false, false, false));
    let p = PolicyPreviewService::preview(&i);
    assert!(p.is_block_all);
    assert_eq!(p.effective_operations, ALL6);
    assert!(p.human_readable.contains("READ selected -> BLOCK ALL ACCESS"));
    assert!(p.human_readable.contains("  Block Execute"));
    assert!(p.human_readable.starts_with(&"=".repeat(50)));
    assert_eq!(PolicyPreviewService::get_quick_summary(&i), "BLOCK ALL ACCESS (READ selected)");
}

#[test]
fn preview_lines_and_summaries() {
    let i = intent(3, ProtectionScope::Folder, ProtectionAction::Block, ops(false, true, false, true, false, false, false));
    let p = PolicyPreviewService::preview(&i);
    assert!(!p.is_block_all);
    let lines: Vec<&str> = p.human_readable.split('\n').collect();
    assert_eq!(lines[1], "POLICY PREVIEW");
    assert_eq!(lines[3], "Action      : Block");
    assert_eq!(lines[4], "Scope       : Folder");
    assert_eq!(lines[5], "Selected    : write, rename");
    assert_eq!(lines[8], "Blocked operations:");
    assert_eq!(lines[9], "  Block Write");
    assert_eq!(lines[10], "  Block Rename");
    assert_eq!(lines.len(), 12);
    assert_eq!(PolicyPreviewService::get_quick_summary(&i), "Block 2 operations");
    let a = intent(3, ProtectionScope::Folder, ProtectionAction::Allow, ops(false, true, false, false, false, false, false));
    assert_eq!(PolicyPreviewService::get_quick_summary(&a), "Allow 1 operations");
    let u = intent(3, ProtectionScope::Folder, ProtectionAction::Audit, ops(false, true, false, false, false, false, false));
    assert_eq!(PolicyPreviewService::get_quick_summary(&u), "Audit mode");
}

#[test]
fn audit_with_read() {
    let i = intent(3, ProtectionScope::FolderRecursive, ProtectionAction::Audit, ops(true, false, true, false, false, false, false));
    let p = PolicyPreviewService::preview(&i);
    assert!(!p.is_block_all);
    assert_eq!(p.effective_operations, ALL6);
    assert!(p.human_readable.contains("Audited operations:\n  Audit Write\n"));
    assert_eq!(
        KernelOperations::from_protection_operations(&i.operations, ProtectionAction::Audit),
        ALL6
    );
    let rules = PolicyNormalizer::normalize(&i, vec!["\\Device\\V\\d".to_string()], 1);
    assert_eq!(rules[0].audit_ops, KernelOperations { write: false, delete: true, rename: false, create: false, copy: false, execute: false });
    assert_eq!(rules[0].blocked_ops, KernelOperations::default());
    assert!(!PolicyGuard::requires_confirmation(&i));
    assert_eq!(PolicyGuard::get_confirmation_message(&i), None);
    assert!(!PolicyGuard::validate(&i, true).requires_confirmation);
}

#[test]
fn dry_run_counts_blocked_actions() {
    let e = DryRunEvaluator::new();
    let i = intent(42, ProtectionScope::File, ProtectionAction::Block, ops(true, false, false, false, false, false, false));
    let r = e.evaluate(&i).unwrap();
    assert_eq!(r.node_id, 42);
    assert_eq!(r.results.len(), 7);
    assert!(r.results.iter().all(|x| x.will_block && x.reason == "READ selected -> BLOCK ALL"));
    assert!(r.summary.contains("Will be blocked: 7\nWill be allowed: 0\n"));
    let j = intent(42, ProtectionScope::File, ProtectionAction::Block, ops(false, true, true, false, false, false, false));
    let s = e.evaluate(&j).unwrap();
    let blocked: Vec<&str> = s.results.iter().filter(|x| x.will_block).map(|x| x.operation.as_str()).collect();
    assert_eq!(blocked, vec!["Delete file", "Modify/Write file"]);
    assert_eq!(s.results[0].reason, "Allowed");
    assert_eq!(s.results[2].reason, "Blocked by policy");
    assert!(s.summary.starts_with("Dry Run Summary - Node ID: 42\nTotal operations simulated: 7\nWill be blocked: 2\n"));
    let q = DryRunEvaluator::quick_dry_run(&j);
    assert_eq!(q[1], ("Save changes".to_string(), true));
    assert_eq!(q[0], ("Open file".to_string(), false));
}

#[test]
fn dry_run_refuses_invalid_intent() {
    let e = DryRunEvaluator::new();
    let i = intent(0, ProtectionScope::File, ProtectionAction::Block, ops(false, true, false, false, false, false, false));
    assert!(e.evaluate(&i).is_err());
}

fn request(scope: &str, action: &str, o: PolicyOperations, by: &str) -> ApplyPolicyRequest {
    ApplyPolicyRequest {
        node_id: 42,
        scope: scope.to_string(),
        action: action.to_string(),
        operations: o,
        created_by: by.to_string(),
        comment: Some("note".to_string()),
        confirmed: false,
    }
}

#[test]
fn apply_requests_become_intents() {
    let o = PolicyOperations { read: false, write: true, delete: false, rename: false, create: false, copy: false, execute: false };
    let i = request("folder_recursive", "audit", o, "admin").to_intent(77).unwrap();
    assert_eq!(i.scope, ProtectionScope::FolderRecursive);
    assert_eq!(i.action, ProtectionAction::Audit);
    assert_eq!(i.timestamp, 77);
    assert_eq!(i.comment.as_deref(), Some("note"));
    let none = PolicyOperations { read: false, write: false, delete: false, rename: false, create: false, copy: false, execute: false };
    assert_eq!(request("file", "block", none, "admin").to_intent(1).err(), Some(RequestError::NoOperation));
    let ex = PolicyOperations { execute: true, ..o };
    assert_eq!(request("folder", "block", ex, "admin").to_intent(1).err(), Some(RequestError::ExecuteOnFolder));
    assert_eq!(request("file", "block", o, " ").to_intent(1).err(), Some(RequestError::EmptyCreator));
    assert_eq!(request("disk", "block", o, "admin").to_intent(1).err(), Some(RequestError::InvalidScope));
    assert_eq!(request("file", "deny", o, "admin").to_intent(1).err(), Some(RequestError::InvalidAction));
    assert_eq!(RequestError::InvalidScope.to_response().code, "INVALID_SCOPE");
    assert_eq!(RequestError::NoOperation.to_response().code, "INVALID_REQUEST");
}

#[test]
fn protocol_helpers() {
    assert_eq!(ErrorCode::NodeNotFound.as_str(), "NODE_NOT_FOUND");
    assert_eq!(ErrorCode::SearchUnavailable.as_str(), "SEARCH_UNAVAILABLE");
    match AgentResponse::error(ErrorCode::AccessDenied, "no", Some("why")) {
        AgentResponse::Error { code, message, details } => {
            assert_eq!(code, "ACCESS_DENIED");
            assert_eq!(message, "no");
            assert_eq!(details.as_deref(), Some("why"));
        }
        _ => panic!("expected an error response"),
    }
    match AgentResponse::success("done") {
        AgentResponse::Success { message } => assert_eq!(message, "done"),
        _ => panic!("expected a success response"),
    }
}
