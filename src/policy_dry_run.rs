//! Dry-run: how a fixed catalogue of user actions would fare under an
//! intent, without resolving any path or touching the kernel.
use vstd::prelude::*;
use crate::error::PolicyError;
use crate::kernel_policy::{blocked_of, is_read_block, KernelOperations};
use crate::policy_intent::{intent_check, IntentView, PolicyIntent, ProtectionAction};
use crate::policy_preview::{effective_of, preview_lines, PolicyPreviewService};
use crate::text::{decimal, join, push_decimal};

verus! {

/// The outcome for one user action.
#[derive(Debug)]
pub struct DryRunResult {
    pub operation: String,
    pub will_block: bool,
    pub reason: String,
}

pub struct DryRunResultView {
    pub operation: Seq<char>,
    pub will_block: bool,
    pub reason: Seq<char>,
}

impl View for DryRunResult {
    type V = DryRunResultView;

    open spec fn view(&self) -> DryRunResultView {
        DryRunResultView {
            operation: self.operation@,
            will_block: self.will_block,
            reason: self.reason@,
        }
    }
}

/// A full dry-run report.
#[derive(Debug)]
pub struct DryRunEvaluation {
    pub node_id: u64,
    pub policy_preview: String,
    pub results: Vec<DryRunResult>,
    pub summary: String,
}

pub open spec fn result_views(v: Seq<DryRunResult>) -> Seq<DryRunResultView> {
    Seq::new(v.len(), |i: int| v[i]@)
}

/// Why an action is or is not blocked.
pub open spec fn reason_of(i: IntentView, blocked: bool) -> Seq<char> {
    if is_read_block(i) {
        "READ selected -> BLOCK ALL"@
    } else if blocked {
        "Blocked by policy"@
    } else {
        "Allowed"@
    }
}

pub open spec fn row(i: IntentView, name: Seq<char>, blocked: bool) -> DryRunResultView {
    DryRunResultView { operation: name, will_block: blocked, reason: reason_of(i, blocked) }
}

/// The catalogue: open, copy, delete, rename, modify, execute, create; each
/// blocked as the derived kernel rule would block it.
pub open spec fn simulated(i: IntentView) -> Seq<DryRunResultView> {
    let b = blocked_of(i);
    seq![
        row(i, "Open/Read file"@, is_read_block(i)),
        row(i, "Copy file"@, b.copy),
        row(i, "Delete file"@, b.delete),
        row(i, "Rename file"@, b.rename),
        row(i, "Modify/Write file"@, b.write),
        row(i, "Execute file"@, b.execute),
        row(i, "Create new file"@, b.create),
    ]
}

pub open spec fn count_blocked(rs: Seq<DryRunResultView>) -> nat
    decreases rs.len(),
{
    if rs.len() == 0 {
        0
    } else {
        count_blocked(rs.drop_last()) + if rs.last().will_block {
            1nat
        } else {
            0nat
        }
    }
}

/// The summary text of a dry run.
pub open spec fn dry_summary(i: IntentView, rs: Seq<DryRunResultView>) -> Seq<char> {
    "Dry Run Summary - Node ID: "@ + decimal(i.node_id as nat) + "\nTotal operations simulated: "@
        + decimal(rs.len()) + "\nWill be blocked: "@ + decimal(count_blocked(rs))
        + "\nWill be allowed: "@ + decimal((rs.len() - count_blocked(rs)) as nat) + "\n"@ + (
    if is_read_block(i) {
        "\nCRITICAL: READ selected -> ALL operations blocked"@
    } else {
        Seq::empty()
    })
}

/// The quick checks: open, save, delete, rename, create.
pub open spec fn quick_checks(i: IntentView) -> Seq<(Seq<char>, bool)> {
    let b = blocked_of(i);
    seq![
        ("Open file"@, is_read_block(i)),
        ("Save changes"@, b.write),
        ("Delete"@, b.delete),
        ("Rename"@, b.rename),
        ("Create new file"@, b.create),
    ]
}

fn make_row(intent: &PolicyIntent, name: &str, blocked: bool) -> (r: DryRunResult)
    ensures
        r@ == row(intent@, name@, blocked),
{
    let reason = if intent.action == ProtectionAction::Block && intent.operations.read {
        "READ selected -> BLOCK ALL"
    } else if blocked {
        "Blocked by policy"
    } else {
        "Allowed"
    };
    DryRunResult {
        operation: String::from_str(name),
        will_block: blocked,
        reason: String::from_str(reason),
    }
}

fn blocked_ops(intent: &PolicyIntent) -> (r: KernelOperations)
    ensures
        r == blocked_of(intent@),
{
    crate::kernel_policy::PolicyNormalizer::blocked_ops_for(intent)
}

/// Simulates intents.
pub struct DryRunEvaluator;

impl DryRunEvaluator {
    pub fn new() -> (r: Self) {
        DryRunEvaluator
    }

    /// The dry run of a valid intent: its preview text, one result per
    /// catalogued action and a summary. An invalid intent is refused exactly
    /// as validation refuses it; the node is not looked up.
    pub fn evaluate(&self, intent: &PolicyIntent) -> (r: Result<DryRunEvaluation, PolicyError>)
        ensures
            match r {
                Ok(e) => intent_check(intent@) is Ok && e.node_id == intent.node_id
                    && e.policy_preview@ == join(
                    preview_lines(intent@, effective_of(intent@), is_read_block(intent@)),
                    "\n"@,
                ) && result_views(e.results@) == simulated(intent@) && e.summary@ == dry_summary(
                    intent@,
                    simulated(intent@),
                ),
                Err(err) => intent_check(intent@) matches Err(ie) && err
                    == PolicyError::InvalidIntent(ie),
            },
    {
        match intent.validate() {
            Ok(()) => {},
            Err(e) => return Err(PolicyError::InvalidIntent(e)),
        }
        let preview = PolicyPreviewService::preview(intent);
        let results = Self::simulate_operations(intent);
        let summary = Self::generate_summary(&results, intent);
        Ok(
            DryRunEvaluation {
                node_id: intent.node_id,
                policy_preview: preview.human_readable,
                results,
                summary,
            },
        )
    }

    /// One result per catalogued action.
    pub fn simulate_operations(intent: &PolicyIntent) -> (r: Vec<DryRunResult>)
        ensures
            result_views(r@) == simulated(intent@),
    {
        let b = blocked_ops(intent);
        let read_block = intent.action == ProtectionAction::Block && intent.operations.read;
        let mut v: Vec<DryRunResult> = Vec::new();
        v.push(make_row(intent, "Open/Read file", read_block));
        v.push(make_row(intent, "Copy file", b.copy));
        v.push(make_row(intent, "Delete file", b.delete));
        v.push(make_row(intent, "Rename file", b.rename));
        v.push(make_row(intent, "Modify/Write file", b.write));
        v.push(make_row(intent, "Execute file", b.execute));
        v.push(make_row(intent, "Create new file", b.create));
        assert(result_views(v@) =~= simulated(intent@));
        v
    }

    /// The summary of a set of results.
    pub fn generate_summary(results: &Vec<DryRunResult>, intent: &PolicyIntent) -> (r: String)
        ensures
            r@ == dry_summary(intent@, result_views(results@)),
    {
        let mut blocked: u64 = 0;
        let mut i: usize = 0;
        assert(result_views(results@).subrange(0, 0) =~= Seq::<DryRunResultView>::empty());
        while i < results.len()
            invariant
                i <= results.len(),
                blocked as nat == count_blocked(result_views(results@).subrange(0, i as int)),
                blocked <= i,
            decreases results.len() - i,
        {
            proof {
                let t = result_views(results@).subrange(0, i + 1);
                assert(t.drop_last() =~= result_views(results@).subrange(0, i as int));
            }
            if results[i].will_block {
                blocked = blocked + 1;
            }
            i = i + 1;
        }
        assert(result_views(results@).subrange(0, results.len() as int) =~= result_views(
            results@,
        ));
        let total = results.len() as u64;
        let mut s = String::from_str("Dry Run Summary - Node ID: ");
        push_decimal(&mut s, intent.node_id);
        s.append("\nTotal operations simulated: ");
        push_decimal(&mut s, total);
        s.append("\nWill be blocked: ");
        push_decimal(&mut s, blocked);
        s.append("\nWill be allowed: ");
        push_decimal(&mut s, total - blocked);
        s.append("\n");
        if intent.action == ProtectionAction::Block && intent.operations.read {
            s.append("\nCRITICAL: READ selected -> ALL operations blocked");
        }
        assert(s@ =~= dry_summary(intent@, result_views(results@)));
        s
    }

    /// The blocking status of the actions users care most about.
    pub fn quick_dry_run(intent: &PolicyIntent) -> (r: Vec<(String, bool)>)
        ensures
            crate::fs_index::pair_bool_views(r@) == quick_checks(intent@),
    {
        let b = blocked_ops(intent);
        let read_block = intent.action == ProtectionAction::Block && intent.operations.read;
        let mut v: Vec<(String, bool)> = Vec::new();
        v.push((String::from_str("Open file"), read_block));
        v.push((String::from_str("Save changes"), b.write));
        v.push((String::from_str("Delete"), b.delete));
        v.push((String::from_str("Rename"), b.rename));
        v.push((String::from_str("Create new file"), b.create));
        assert(crate::fs_index::pair_bool_views(v@) =~= quick_checks(intent@));
        v
    }
}

} // verus!
