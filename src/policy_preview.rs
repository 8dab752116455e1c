//! Preview: what an intent will really do, after the read expansion,
//! computed without any I/O.
use vstd::prelude::*;
use crate::kernel_policy::{every_operation, is_read_block, kernel_part, KernelOperations};
use crate::policy_guard::{action_name, scope_name};
use crate::policy_intent::{
    expanded, selected_names, selected_operation_names, IntentView, PolicyIntent,
    ProtectionAction,
};
use crate::text::{decimal, join, join_strings, join_text, push_decimal, string_views};

verus! {

/// The effective behaviour of an intent.
#[derive(Debug)]
pub struct PolicyPreview {
    pub intent: PolicyIntent,
    pub effective_operations: KernelOperations,
    pub is_block_all: bool,
    pub human_readable: String,
}

pub struct PreviewView {
    pub intent: IntentView,
    pub effective_operations: KernelOperations,
    pub is_block_all: bool,
    pub human_readable: Seq<char>,
}

impl View for PolicyPreview {
    type V = PreviewView;

    open spec fn view(&self) -> PreviewView {
        PreviewView {
            intent: self.intent@,
            effective_operations: self.effective_operations,
            is_block_all: self.is_block_all,
            human_readable: self.human_readable@,
        }
    }
}

/// The kernel operations an intent selects, after the read expansion.
pub open spec fn effective_of(i: IntentView) -> KernelOperations {
    kernel_part(expanded(i.operations))
}

pub open spec fn bar(c: char) -> Seq<char> {
    Seq::new(50, |k: int| c)
}

/// One line per selected kernel operation, each `prefix` then its name.
pub open spec fn op_lines(prefix: Seq<char>, k: KernelOperations) -> Seq<Seq<char>> {
    (if k.write { seq![prefix + "Write"@] } else { seq![] }) + (if k.delete {
        seq![prefix + "Delete"@]
    } else {
        seq![]
    }) + (if k.rename { seq![prefix + "Rename"@] } else { seq![] }) + (if k.create {
        seq![prefix + "Create"@]
    } else {
        seq![]
    }) + (if k.copy { seq![prefix + "Copy"@] } else { seq![] }) + (if k.execute {
        seq![prefix + "Execute"@]
    } else {
        seq![]
    })
}

/// The behaviour section of a preview.
pub open spec fn behaviour_lines(i: IntentView, eff: KernelOperations, block_all: bool) -> Seq<
    Seq<char>,
> {
    if block_all {
        seq!["READ selected -> BLOCK ALL ACCESS"@, "All operations will be blocked:"@] + op_lines(
            "  Block "@,
            every_operation(),
        ) + seq!["Blocking READ means blocking ALL access"@]
    } else {
        match i.action {
            ProtectionAction::Block => seq!["Blocked operations:"@] + op_lines("  Block "@, eff),
            ProtectionAction::Allow => seq!["Allowed operations:"@] + op_lines("  Allow "@, eff),
            ProtectionAction::Audit => seq!["Audited operations:"@] + op_lines("  Audit "@, eff),
        }
    }
}

pub open spec fn selected_line(i: IntentView) -> Seq<char> {
    "Selected    : "@ + (if selected_names(i.operations).len() == 0 {
        "None"@
    } else {
        join(selected_names(i.operations), ", "@)
    })
}

/// The lines of a preview.
pub open spec fn preview_lines(i: IntentView, eff: KernelOperations, block_all: bool) -> Seq<
    Seq<char>,
> {
    seq![
        bar('='),
        "POLICY PREVIEW"@,
        bar('='),
        "Action      : "@ + action_name(i.action),
        "Scope       : "@ + scope_name(i.scope),
        selected_line(i),
        bar('-'),
        "EFFECTIVE BEHAVIOR:"@,
    ] + behaviour_lines(i, eff, block_all) + seq![bar('=')]
}

pub open spec fn count_ops(k: KernelOperations) -> nat {
    (if k.write { 1nat } else { 0nat }) + (if k.delete { 1nat } else { 0nat }) + (if k.rename {
        1nat
    } else {
        0nat
    }) + (if k.create { 1nat } else { 0nat }) + (if k.copy { 1nat } else { 0nat }) + (if k.execute {
        1nat
    } else {
        0nat
    })
}

/// The one-line summary of an intent.
pub open spec fn quick_summary(i: IntentView) -> Seq<char> {
    if is_read_block(i) {
        "BLOCK ALL ACCESS (READ selected)"@
    } else {
        match i.action {
            ProtectionAction::Block => "Block "@ + decimal(count_ops(effective_of(i))) + " operations"@,
            ProtectionAction::Allow => "Allow "@ + decimal(count_ops(effective_of(i))) + " operations"@,
            ProtectionAction::Audit => "Audit mode"@,
        }
    }
}

fn bar_text(c: char) -> (r: String)
    ensures
        r@ == bar(c),
{
    let mut s = String::new();
    let mut k: usize = 0;
    while k < 50
        invariant
            k <= 50,
            s@ == Seq::new(k as nat, |j: int| c),
        decreases 50 - k,
    {
        crate::paths::push_char(&mut s, c);
        assert(s@ =~= Seq::new((k + 1) as nat, |j: int| c));
        k = k + 1;
    }
    s
}

fn push_line(v: &mut Vec<String>, prefix: &str, name: &str)
    ensures
        string_views(final(v)@) == string_views(old(v)@).push(prefix@ + name@),
{
    let mut s = String::from_str(prefix);
    s.append(name);
    v.push(s);
    assert(string_views(v@) =~= string_views(old(v)@).push(prefix@ + name@));
}

fn push_plain(v: &mut Vec<String>, t: &str)
    ensures
        string_views(final(v)@) == string_views(old(v)@).push(t@),
{
    v.push(String::from_str(t));
    assert(string_views(v@) =~= string_views(old(v)@).push(t@));
}

fn push_line_if(v: &mut Vec<String>, flag: bool, prefix: &str, name: &str)
    ensures
        string_views(final(v)@) == string_views(old(v)@) + (if flag {
            seq![prefix@ + name@]
        } else {
            seq![]
        }),
{
    if flag {
        push_line(v, prefix, name);
    }
    assert(string_views(v@) =~= string_views(old(v)@) + (if flag {
        seq![prefix@ + name@]
    } else {
        seq![]
    }));
}

fn op_lines_into(v: &mut Vec<String>, prefix: &str, k: &KernelOperations)
    ensures
        string_views(final(v)@) == string_views(old(v)@) + op_lines(prefix@, *k),
{
    push_line_if(v, k.write, prefix, "Write");
    push_line_if(v, k.delete, prefix, "Delete");
    push_line_if(v, k.rename, prefix, "Rename");
    push_line_if(v, k.create, prefix, "Create");
    push_line_if(v, k.copy, prefix, "Copy");
    push_line_if(v, k.execute, prefix, "Execute");
    assert(string_views(v@) =~= string_views(old(v)@) + op_lines(prefix@, *k));
}

fn behaviour_into(v: &mut Vec<String>, action: ProtectionAction, eff: &KernelOperations, block_all: bool)
    ensures
        forall|i: IntentView|
            i.action == action ==> string_views(final(v)@) == string_views(old(v)@)
                + #[trigger] behaviour_lines(i, *eff, block_all),
{
    if block_all {
        push_plain(v, "READ selected -> BLOCK ALL ACCESS");
        push_plain(v, "All operations will be blocked:");
        op_lines_into(v, "  Block ", &KernelOperations::block_all());
        push_plain(v, "Blocking READ means blocking ALL access");
        proof {
            assert forall|i: IntentView| i.action == action implies string_views(v@)
                == string_views(old(v)@) + #[trigger] behaviour_lines(i, *eff, block_all) by {
                assert(string_views(v@) =~= string_views(old(v)@) + behaviour_lines(
                    i,
                    *eff,
                    block_all,
                ));
            }
        }
    } else {
        match action {
            ProtectionAction::Block => {
                push_plain(v, "Blocked operations:");
                op_lines_into(v, "  Block ", eff);
            },
            ProtectionAction::Allow => {
                push_plain(v, "Allowed operations:");
                op_lines_into(v, "  Allow ", eff);
            },
            ProtectionAction::Audit => {
                push_plain(v, "Audited operations:");
                op_lines_into(v, "  Audit ", eff);
            },
        }
        proof {
            assert forall|i: IntentView| i.action == action implies string_views(v@)
                == string_views(old(v)@) + #[trigger] behaviour_lines(i, *eff, block_all) by {
                assert(string_views(v@) =~= string_views(old(v)@) + behaviour_lines(
                    i,
                    *eff,
                    block_all,
                ));
            }
        }
    }
}

/// Computes previews.
pub struct PolicyPreviewService;

impl PolicyPreviewService {
    /// The preview of an intent: its effective operations, whether it blocks
    /// everything, and the explanation.
    pub fn preview(intent: &PolicyIntent) -> (r: PolicyPreview)
        ensures
            r@.intent == intent@,
            r@.effective_operations == effective_of(intent@),
            r@.is_block_all == is_read_block(intent@),
            r@.human_readable == join(
                preview_lines(intent@, effective_of(intent@), is_read_block(intent@)),
                "\n"@,
            ),
    {
        let effective = KernelOperations::from_protection_operations(&intent.operations, intent.action);
        let is_block_all = intent.action == ProtectionAction::Block && intent.operations.read;
        let human_readable = Self::generate_human_readable(intent, &effective, is_block_all);
        PolicyPreview {
            intent: intent.duplicate(),
            effective_operations: effective,
            is_block_all,
            human_readable,
        }
    }

    /// The explanation of a preview, one line per fact.
    pub fn generate_human_readable(
        intent: &PolicyIntent,
        effective_ops: &KernelOperations,
        is_block_all: bool,
    ) -> (r: String)
        ensures
            r@ == join(preview_lines(intent@, *effective_ops, is_block_all), "\n"@),
    {
        let mut lines: Vec<String> = Vec::new();
        lines.push(bar_text('='));
        lines.push(String::from_str("POLICY PREVIEW"));
        lines.push(bar_text('='));
        let mut action = String::from_str("Action      : ");
        action.append(
            match intent.action {
                ProtectionAction::Block => "Block",
                ProtectionAction::Allow => "Allow",
                ProtectionAction::Audit => "Audit",
            },
        );
        assert(action@ == "Action      : "@ + action_name(intent@.action));
        lines.push(action);
        let mut scope = String::from_str("Scope       : ");
        scope.append(
            match intent.scope {
                crate::policy_intent::ProtectionScope::File => "File",
                crate::policy_intent::ProtectionScope::Folder => "Folder",
                crate::policy_intent::ProtectionScope::FolderRecursive => "FolderRecursive",
            },
        );
        assert(scope@ == "Scope       : "@ + scope_name(intent@.scope));
        lines.push(scope);
        let mut selected = String::from_str("Selected    : ");
        let names = selected_operation_names(&intent.operations);
        if names.len() == 0 {
            selected.append("None");
        } else {
            let j = join_text(&names, ", ");
            selected.append(j.as_str());
        }
        assert(selected@ == selected_line(intent@));
        lines.push(selected);
        lines.push(bar_text('-'));
        lines.push(String::from_str("EFFECTIVE BEHAVIOR:"));
        let ghost head = string_views(lines@);
        assert(head =~= seq![
            bar('='),
            "POLICY PREVIEW"@,
            bar('='),
            "Action      : "@ + action_name(intent@.action),
            "Scope       : "@ + scope_name(intent@.scope),
            selected_line(intent@),
            bar('-'),
            "EFFECTIVE BEHAVIOR:"@,
        ]);
        behaviour_into(&mut lines, intent.action, effective_ops, is_block_all);
        assert(string_views(lines@) == head + behaviour_lines(intent@, *effective_ops, is_block_all));
        lines.push(bar_text('='));
        proof {
            assert(string_views(lines@) =~= preview_lines(intent@, *effective_ops, is_block_all));
        }
        join_strings(&lines, "\n")
    }

    /// A one-line summary of an intent's impact.
    pub fn get_quick_summary(intent: &PolicyIntent) -> (r: String)
        ensures
            r@ == quick_summary(intent@),
    {
        if intent.action == ProtectionAction::Block && intent.operations.read {
            return String::from_str("BLOCK ALL ACCESS (READ selected)");
        }
        let e = KernelOperations::from_protection_operations(&intent.operations, intent.action);
        let mut n: u64 = 0;
        if e.write {
            n = n + 1;
        }
        if e.delete {
            n = n + 1;
        }
        if e.rename {
            n = n + 1;
        }
        if e.create {
            n = n + 1;
        }
        if e.copy {
            n = n + 1;
        }
        if e.execute {
            n = n + 1;
        }
        assert(n == count_ops(effective_of(intent@)));
        match intent.action {
            ProtectionAction::Block => {
                let mut s = String::from_str("Block ");
                push_decimal(&mut s, n);
                s.append(" operations");
                s
            },
            ProtectionAction::Allow => {
                let mut s = String::from_str("Allow ");
                push_decimal(&mut s, n);
                s.append(" operations");
                s
            },
            ProtectionAction::Audit => String::from_str("Audit mode"),
        }
    }
}

} // verus!
