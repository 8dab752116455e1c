//! The safety guard: refuses invalid intents and flags high-risk ones that
//! need an explicit confirmation before they are committed.
use vstd::prelude::*;
use crate::kernel_policy::is_read_block;
use crate::policy_intent::{
    intent_check, IntentError, IntentView, PolicyIntent, ProtectionAction, ProtectionScope,
};
use crate::text::{decimal, push_decimal, string_views};

verus! {

/// The verdict of the guard.
#[derive(Debug)]
pub struct SafetyValidation {
    pub is_valid: bool,
    pub warnings: Vec<String>,
    pub errors: Vec<String>,
    pub requires_confirmation: bool,
    pub confirmation_message: Option<String>,
}

pub struct SafetyView {
    pub is_valid: bool,
    pub warnings: Seq<Seq<char>>,
    pub errors: Seq<Seq<char>>,
    pub requires_confirmation: bool,
    pub confirmation_message: Option<Seq<char>>,
}

impl View for SafetyValidation {
    type V = SafetyView;

    open spec fn view(&self) -> SafetyView {
        SafetyView {
            is_valid: self.is_valid,
            warnings: string_views(self.warnings@),
            errors: string_views(self.errors@),
            requires_confirmation: self.requires_confirmation,
            confirmation_message: crate::policy_intent::opt_text(self.confirmation_message),
        }
    }
}

pub open spec fn intent_error_text(e: IntentError) -> Seq<char> {
    match e {
        IntentError::ZeroNode => "Invalid node ID (0)"@,
        IntentError::CreateOnFile => "CREATE operation is not allowed for File scope"@,
        IntentError::EmptyCreator => "Creator name cannot be empty"@,
        IntentError::AllowWithRead => "READ cannot be used with Allow action"@,
    }
}

/// The errors: the validation failure, if any, with a hint for Allow with read.
pub open spec fn safety_errors(i: IntentView) -> Seq<Seq<char>> {
    match intent_check(i) {
        Ok(_) => Seq::empty(),
        Err(e) => if e == IntentError::AllowWithRead {
            seq![intent_error_text(e), "Use Block action for read protection"@]
        } else {
            seq![intent_error_text(e)]
        },
    }
}

pub open spec fn is_recursive_read_block(i: IntentView) -> bool {
    i.scope == ProtectionScope::FolderRecursive && is_read_block(i)
}

/// The warnings: read-block, recursive read-block, and simulation mode.
pub open spec fn safety_warnings(i: IntentView, kernel_connected: bool) -> Seq<Seq<char>> {
    (if is_read_block(i) {
        seq![
            "READ selected -> BLOCK ALL ACCESS"@,
            "This will block ALL operations (write, delete, rename, create, copy, execute)"@,
        ]
    } else {
        Seq::empty()
    }) + (if is_recursive_read_block(i) {
        seq![
            "Recursive folder with BLOCK ALL access"@,
            "This will block ALL access to ALL files in this folder and subfolders"@,
        ]
    } else {
        Seq::empty()
    }) + (if !kernel_connected {
        seq![
            "Kernel driver not connected"@,
            "Policy will run in SIMULATION MODE only"@,
            "No actual blocking will occur"@,
        ]
    } else {
        Seq::empty()
    })
}

pub open spec fn block_all_message() -> Seq<char> {
    "You are about to block ALL access to this file or folder: users cannot open, read, copy, delete, rename or modify it. Are you sure you want to continue?"@
}

pub open spec fn recursive_block_all_message() -> Seq<char> {
    "DANGER: recursive BLOCK ALL. You are about to block ALL access to this folder, ALL its subfolders and ALL files within. Are you absolutely sure?"@
}

/// The guard's verdict on an intent.
pub open spec fn safety_of(i: IntentView, kernel_connected: bool) -> SafetyView {
    SafetyView {
        is_valid: intent_check(i) is Ok,
        warnings: safety_warnings(i, kernel_connected),
        errors: safety_errors(i),
        requires_confirmation: is_read_block(i),
        confirmation_message: if is_recursive_read_block(i) {
            Some(recursive_block_all_message())
        } else if is_read_block(i) {
            Some(block_all_message())
        } else {
            None
        },
    }
}

/// Whether the intent is high-risk.
pub open spec fn needs_confirmation(i: IntentView) -> bool {
    is_read_block(i)
}

pub open spec fn confirmation_text(i: IntentView) -> Option<Seq<char>> {
    if i.operations.read && i.action == ProtectionAction::Block {
        if i.scope == ProtectionScope::FolderRecursive {
            Some(
                "CRITICAL: recursive BLOCK ALL. You are blocking ALL access to this folder and ALL subfolders. Type 'CONFIRM_RECURSIVE_BLOCK_ALL' to proceed."@,
            )
        } else {
            Some(
                "WARNING: BLOCK ALL ACCESS. Users will not be able to read, copy, modify, or delete. Type 'CONFIRM_BLOCK_ALL' to proceed."@,
            )
        }
    } else {
        None
    }
}

pub open spec fn action_name(a: ProtectionAction) -> Seq<char> {
    match a {
        ProtectionAction::Block => "Block"@,
        ProtectionAction::Allow => "Allow"@,
        ProtectionAction::Audit => "Audit"@,
    }
}

pub open spec fn scope_name(s: ProtectionScope) -> Seq<char> {
    match s {
        ProtectionScope::File => "File"@,
        ProtectionScope::Folder => "Folder"@,
        ProtectionScope::FolderRecursive => "FolderRecursive"@,
    }
}

/// Each item on a line of its own, as a bullet.
pub open spec fn bullets(items: Seq<Seq<char>>) -> Seq<char>
    decreases items.len(),
{
    if items.len() == 0 {
        Seq::empty()
    } else {
        bullets(items.drop_last()) + "  - "@ + items.last() + "\n"@
    }
}

pub open spec fn rule_line() -> Seq<char> {
    "============================================================"@
}

/// The text of the safety report.
pub open spec fn safety_report(i: IntentView, kernel_connected: bool) -> Seq<char> {
    report_head(i, kernel_connected) + report_tail(safety_of(i, kernel_connected))
}

/// The report's details and connection line.
pub open spec fn report_head(i: IntentView, kernel_connected: bool) -> Seq<char> {
    rule_line() + "\nPOLICY SAFETY REPORT\n"@ + rule_line() + "\n\nPOLICY DETAILS:\nAction: "@
        + action_name(i.action) + "\nScope: "@ + scope_name(i.scope) + "\nNode ID: "@ + decimal(
        i.node_id as nat,
    ) + "\n\nSAFETY CHECKS:\nKernel Connected: "@ + (if kernel_connected {
        "Yes"@
    } else {
        "No (Simulation Mode)"@
    }) + "\n"@
}

/// The report's findings and verdict.
pub open spec fn report_tail(v: SafetyView) -> Seq<char> {
    (if v.errors.len() > 0 {
        "\nERRORS (must fix):\n"@ + bullets(v.errors)
    } else {
        Seq::empty()
    }) + (if v.warnings.len() > 0 {
        "\nWARNINGS:\n"@ + bullets(v.warnings)
    } else {
        Seq::empty()
    }) + (match v.confirmation_message {
        Some(m) => "\nCONFIRMATION REQUIRED:\n"@ + m + "\n"@,
        None => Seq::empty(),
    }) + "\nOverall Status: "@ + (if v.is_valid {
        "PASSED"@
    } else {
        "FAILED"@
    }) + "\n"@ + rule_line()
}

fn error_text(e: IntentError) -> (r: &'static str)
    ensures
        r@ == intent_error_text(e),
{
    match e {
        IntentError::ZeroNode => "Invalid node ID (0)",
        IntentError::CreateOnFile => "CREATE operation is not allowed for File scope",
        IntentError::EmptyCreator => "Creator name cannot be empty",
        IntentError::AllowWithRead => "READ cannot be used with Allow action",
    }
}

fn push_text(v: &mut Vec<String>, t: &str)
    ensures
        string_views(final(v)@) == string_views(old(v)@).push(t@),
{
    v.push(String::from_str(t));
    assert(string_views(v@) =~= string_views(old(v)@).push(t@));
}

fn bullet_text(items: &Vec<String>) -> (r: String)
    ensures
        r@ == bullets(string_views(items@)),
{
    let mut s = String::new();
    let mut i: usize = 0;
    while i < items.len()
        invariant
            i <= items.len(),
            s@ == bullets(string_views(items@.subrange(0, i as int))),
        decreases items.len() - i,
    {
        s.append("  - ");
        s.append(items[i].as_str());
        s.append("\n");
        proof {
            let t = string_views(items@.subrange(0, i + 1));
            assert(t.drop_last() =~= string_views(items@.subrange(0, i as int)));
            assert(t.last() == items@[i as int]@);
        }
        i = i + 1;
    }
    assert(items@.subrange(0, items@.len() as int) =~= items@);
    s
}

/// The safety rules.
pub struct PolicyGuard;

impl PolicyGuard {
    /// The guard's verdict. Its errors are those of validation. Blocking
    /// reads must be confirmed, and on a whole subtree the prompt says so.
    /// A disconnected kernel is a warning, never an error.
    pub fn validate(intent: &PolicyIntent, kernel_connected: bool) -> (r: SafetyValidation)
        ensures
            r@ == safety_of(intent@, kernel_connected),
    {
        let mut errors: Vec<String> = Vec::new();
        let mut warnings: Vec<String> = Vec::new();
        let check = intent.validate();
        match check {
            Ok(()) => {},
            Err(e) => {
                push_text(&mut errors, error_text(e));
                if e == IntentError::AllowWithRead {
                    push_text(&mut errors, "Use Block action for read protection");
                }
            },
        }
        assert(string_views(errors@) =~= safety_errors(intent@));
        let read_block = intent.action == ProtectionAction::Block && intent.operations.read;
        let recursive = read_block && intent.scope == ProtectionScope::FolderRecursive;
        assert(string_views(warnings@) =~= Seq::<Seq<char>>::empty());
        if read_block {
            push_text(&mut warnings, "READ selected -> BLOCK ALL ACCESS");
            push_text(
                &mut warnings,
                "This will block ALL operations (write, delete, rename, create, copy, execute)",
            );
        }
        if recursive {
            push_text(&mut warnings, "Recursive folder with BLOCK ALL access");
            push_text(
                &mut warnings,
                "This will block ALL access to ALL files in this folder and subfolders",
            );
        }
        if !kernel_connected {
            push_text(&mut warnings, "Kernel driver not connected");
            push_text(&mut warnings, "Policy will run in SIMULATION MODE only");
            push_text(&mut warnings, "No actual blocking will occur");
        }
        assert(string_views(warnings@) =~= safety_warnings(intent@, kernel_connected));
        let confirmation_message = if recursive {
            Some(
                String::from_str(
                    "DANGER: recursive BLOCK ALL. You are about to block ALL access to this folder, ALL its subfolders and ALL files within. Are you absolutely sure?",
                ),
            )
        } else if read_block {
            Some(
                String::from_str(
                    "You are about to block ALL access to this file or folder: users cannot open, read, copy, delete, rename or modify it. Are you sure you want to continue?",
                ),
            )
        } else {
            None
        };
        SafetyValidation {
            is_valid: errors.len() == 0,
            warnings,
            errors,
            requires_confirmation: read_block,
            confirmation_message,
        }
    }

    /// A printable report of the guard's verdict.
    pub fn generate_safety_report(intent: &PolicyIntent, kernel_connected: bool) -> (r: String)
        ensures
            r@ == safety_report(intent@, kernel_connected),
    {
        let v = Self::validate(intent, kernel_connected);
        let mut s = Self::report_head_text(intent, kernel_connected);
        let t = Self::report_tail_text(&v);
        s.append(t.as_str());
        s
    }

    fn report_head_text(intent: &PolicyIntent, kernel_connected: bool) -> (r: String)
        ensures
            r@ == report_head(intent@, kernel_connected),
    {
        let line = "============================================================";
        let mut s = String::from_str(line);
        s.append("\nPOLICY SAFETY REPORT\n");
        s.append(line);
        s.append("\n\nPOLICY DETAILS:\nAction: ");
        s.append(
            match intent.action {
                ProtectionAction::Block => "Block",
                ProtectionAction::Allow => "Allow",
                ProtectionAction::Audit => "Audit",
            },
        );
        s.append("\nScope: ");
        s.append(
            match intent.scope {
                ProtectionScope::File => "File",
                ProtectionScope::Folder => "Folder",
                ProtectionScope::FolderRecursive => "FolderRecursive",
            },
        );
        s.append("\nNode ID: ");
        push_decimal(&mut s, intent.node_id);
        s.append("\n\nSAFETY CHECKS:\nKernel Connected: ");
        s.append(
            if kernel_connected {
                "Yes"
            } else {
                "No (Simulation Mode)"
            },
        );
        s.append("\n");
        s
    }

    fn report_tail_text(v: &SafetyValidation) -> (r: String)
        ensures
            r@ == report_tail(v@),
    {
        let line = "============================================================";
        let mut tail = String::new();
        if v.errors.len() > 0 {
            tail.append("\nERRORS (must fix):\n");
            let b = bullet_text(&v.errors);
            tail.append(b.as_str());
        }
        if v.warnings.len() > 0 {
            tail.append("\nWARNINGS:\n");
            let b = bullet_text(&v.warnings);
            tail.append(b.as_str());
        }
        match &v.confirmation_message {
            Some(m) => {
                tail.append("\nCONFIRMATION REQUIRED:\n");
                tail.append(m.as_str());
                tail.append("\n");
            },
            None => {},
        }
        tail.append("\nOverall Status: ");
        tail.append(
            if v.is_valid {
                "PASSED"
            } else {
                "FAILED"
            },
        );
        tail.append("\n");
        tail.append(line);
        proof {
            assert(tail@ =~= report_tail(v@));
        }
        tail
    }

    /// Whether the intent is high-risk: read blocked, which blocks everything.
    pub fn requires_confirmation(intent: &PolicyIntent) -> (r: bool)
        ensures
            r == needs_confirmation(intent@),
    {
        intent.operations.read && intent.action == ProtectionAction::Block
    }

    /// The confirmation prompt for a read-block intent.
    pub fn get_confirmation_message(intent: &PolicyIntent) -> (r: Option<String>)
        ensures
            crate::policy_intent::opt_text(r) == confirmation_text(intent@),
    {
        if !Self::requires_confirmation(intent) {
            return None;
        }
        if intent.operations.read && intent.action == ProtectionAction::Block {
            if intent.scope == ProtectionScope::FolderRecursive {
                Some(
                    String::from_str(
                        "CRITICAL: recursive BLOCK ALL. You are blocking ALL access to this folder and ALL subfolders. Type 'CONFIRM_RECURSIVE_BLOCK_ALL' to proceed.",
                    ),
                )
            } else {
                Some(
                    String::from_str(
                        "WARNING: BLOCK ALL ACCESS. Users will not be able to read, copy, modify, or delete. Type 'CONFIRM_BLOCK_ALL' to proceed.",
                    ),
                )
            }
        } else {
            None
        }
    }
}

} // verus!
