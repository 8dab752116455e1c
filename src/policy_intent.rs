//! The administrator-facing protection request and its structural validation.
use vstd::prelude::*;
use crate::text::{decimal, is_blank, is_blank_text, join, join_text, push_decimal, views_of};

verus! {

/// What a policy covers.
#[derive(Debug, Clone, Copy, PartialEq, Eq, Structural)]
pub enum ProtectionScope {
    /// A single file.
    File,
    /// The files directly inside a folder.
    Folder,
    /// A folder and everything below it.
    FolderRecursive,
}

/// What a policy does with the selected operations.
#[derive(Debug, Clone, Copy, PartialEq, Eq, Structural)]
pub enum ProtectionAction {
    Block,
    Allow,
    Audit,
}

/// The seven operation flags of an intent. `read` is a master switch:
/// blocking reads blocks everything.
#[derive(Debug, Clone, Copy, PartialEq, Eq, Structural)]
pub struct ProtectionOperations {
    pub read: bool,
    pub write: bool,
    pub delete: bool,
    pub rename: bool,
    pub create: bool,
    pub copy: bool,
    pub execute: bool,
}

impl Default for ProtectionOperations {
    /// Protection against modification: write, delete, rename and create.
    fn default() -> (r: Self)
        ensures
            r == (ProtectionOperations {
                read: false,
                write: true,
                delete: true,
                rename: true,
                create: true,
                copy: false,
                execute: false,
            }),
    {
        ProtectionOperations {
            read: false,
            write: true,
            delete: true,
            rename: true,
            create: true,
            copy: false,
            execute: false,
        }
    }
}

/// Every flag set.
pub open spec fn all_operations() -> ProtectionOperations {
    ProtectionOperations {
        read: true,
        write: true,
        delete: true,
        rename: true,
        create: true,
        copy: true,
        execute: true,
    }
}

/// The operation set after the read expansion: reading selected means
/// every other operation selected, and `read` itself left to `block_all`.
pub open spec fn expanded(ops: ProtectionOperations) -> ProtectionOperations {
    if ops.read {
        ProtectionOperations {
            read: false,
            write: true,
            delete: true,
            rename: true,
            create: true,
            copy: true,
            execute: true,
        }
    } else {
        ops
    }
}

impl ProtectionOperations {
    /// Read protection, which blocks every access.
    pub fn read_only() -> (r: Self)
        ensures
            r == all_operations(),
    {
        ProtectionOperations {
            read: true,
            write: true,
            delete: true,
            rename: true,
            create: true,
            copy: true,
            execute: true,
        }
    }

    /// Full protection: every flag set.
    pub fn full_protection() -> (r: Self)
        ensures
            r == all_operations(),
    {
        ProtectionOperations {
            read: true,
            write: true,
            delete: true,
            rename: true,
            create: true,
            copy: true,
            execute: true,
        }
    }

    /// No flag set: with the Audit action, a pure monitoring policy.
    pub fn audit_only() -> (r: Self)
        ensures
            !r.read && !r.write && !r.delete && !r.rename && !r.create && !r.copy && !r.execute,
    {
        ProtectionOperations {
            read: false,
            write: false,
            delete: false,
            rename: false,
            create: false,
            copy: false,
            execute: false,
        }
    }

    /// Whether reading is selected, which means block-all.
    pub fn is_block_all(&self) -> (r: bool)
        ensures
            r == self.read,
    {
        self.read
    }

    /// The flags as the kernel sees them, after the read expansion.
    pub fn expand_for_kernel(&self) -> (r: Self)
        ensures
            r == expanded(*self),
    {
        if self.read {
            ProtectionOperations {
                read: false,
                write: true,
                delete: true,
                rename: true,
                create: true,
                copy: true,
                execute: true,
            }
        } else {
            *self
        }
    }
}

/// The mathematical value of an intent.
pub struct IntentView {
    pub node_id: u64,
    pub scope: ProtectionScope,
    pub action: ProtectionAction,
    pub operations: ProtectionOperations,
    pub created_by: Seq<char>,
    pub timestamp: u64,
    pub comment: Option<Seq<char>>,
}

/// An administrator's protection request, addressed by node id only.
#[derive(Debug)]
pub struct PolicyIntent {
    pub node_id: u64,
    pub scope: ProtectionScope,
    pub action: ProtectionAction,
    pub operations: ProtectionOperations,
    pub created_by: String,
    pub timestamp: u64,
    pub comment: Option<String>,
}

pub open spec fn opt_text(o: Option<String>) -> Option<Seq<char>> {
    match o {
        Some(s) => Some(s@),
        None => None,
    }
}

impl View for PolicyIntent {
    type V = IntentView;

    open spec fn view(&self) -> IntentView {
        IntentView {
            node_id: self.node_id,
            scope: self.scope,
            action: self.action,
            operations: self.operations,
            created_by: self.created_by@,
            timestamp: self.timestamp,
            comment: opt_text(self.comment),
        }
    }
}

/// Why an intent is structurally invalid.
#[derive(Debug, Clone, Copy, PartialEq, Eq, Structural)]
pub enum IntentError {
    /// The node id is zero.
    ZeroNode,
    /// Create was requested for a single file.
    CreateOnFile,
    /// The creator is empty or white space only.
    EmptyCreator,
    /// Allow was combined with read.
    AllowWithRead,
}

/// The verdict of validation, rules taken in order.
pub open spec fn intent_check(i: IntentView) -> Result<(), IntentError> {
    if i.node_id == 0 {
        Err(IntentError::ZeroNode)
    } else if i.scope == ProtectionScope::File && i.operations.create {
        Err(IntentError::CreateOnFile)
    } else if is_blank(i.created_by) {
        Err(IntentError::EmptyCreator)
    } else if i.action == ProtectionAction::Allow && i.operations.read {
        Err(IntentError::AllowWithRead)
    } else {
        Ok(())
    }
}

pub open spec fn intent_valid(i: IntentView) -> bool {
    intent_check(i) is Ok
}

pub open spec fn scope_word(s: ProtectionScope) -> Seq<char> {
    match s {
        ProtectionScope::File => "file"@,
        ProtectionScope::Folder => "folder"@,
        ProtectionScope::FolderRecursive => "folder (recursive)"@,
    }
}

pub open spec fn action_word(a: ProtectionAction) -> Seq<char> {
    match a {
        ProtectionAction::Block => "Block"@,
        ProtectionAction::Allow => "Allow"@,
        ProtectionAction::Audit => "Audit"@,
    }
}

/// The names of the selected operations, in flag order.
pub open spec fn selected_names(o: ProtectionOperations) -> Seq<Seq<char>> {
    Seq::<Seq<char>>::empty().add(if o.read { seq!["read"@] } else { seq![] }).add(
        if o.write { seq!["write"@] } else { seq![] },
    ).add(if o.delete { seq!["delete"@] } else { seq![] }).add(
        if o.rename { seq!["rename"@] } else { seq![] },
    ).add(if o.create { seq!["create"@] } else { seq![] }).add(
        if o.copy { seq!["copy"@] } else { seq![] },
    ).add(if o.execute { seq!["execute"@] } else { seq![] })
}

/// The one-line description of an intent.
pub open spec fn intent_description(i: IntentView) -> Seq<char> {
    if i.operations.read {
        action_word(i.action) + " ALL operations on "@ + scope_word(i.scope) + " (ID: "@
            + decimal(i.node_id as nat) + ") - READ selected"@
    } else {
        let names = selected_names(i.operations);
        action_word(i.action) + " "@ + (if names.len() == 0 {
            "nothing"@
        } else {
            join(names, ", "@)
        }) + " on "@ + scope_word(i.scope) + " (ID: "@ + decimal(i.node_id as nat) + ")"@
    }
}

fn scope_text(s: ProtectionScope) -> (r: &'static str)
    ensures
        r@ == scope_word(s),
{
    match s {
        ProtectionScope::File => "file",
        ProtectionScope::Folder => "folder",
        ProtectionScope::FolderRecursive => "folder (recursive)",
    }
}

fn action_text(a: ProtectionAction) -> (r: &'static str)
    ensures
        r@ == action_word(a),
{
    match a {
        ProtectionAction::Block => "Block",
        ProtectionAction::Allow => "Allow",
        ProtectionAction::Audit => "Audit",
    }
}

fn push_if(v: &mut Vec<&'static str>, flag: bool, name: &'static str)
    ensures
        views_of(final(v)@) == views_of(old(v)@).add(
            if flag {
                seq![name@]
            } else {
                seq![]
            },
        ),
{
    if flag {
        v.push(name);
    }
    assert(views_of(v@) =~= views_of(old(v)@).add(
        if flag {
            seq![name@]
        } else {
            seq![]
        },
    ));
}

/// The names of the selected operations.
pub fn selected_operation_names(o: &ProtectionOperations) -> (r: Vec<&'static str>)
    ensures
        views_of(r@) == selected_names(*o),
{
    let mut v: Vec<&'static str> = Vec::new();
    assert(views_of(v@) =~= Seq::<Seq<char>>::empty());
    push_if(&mut v, o.read, "read");
    push_if(&mut v, o.write, "write");
    push_if(&mut v, o.delete, "delete");
    push_if(&mut v, o.rename, "rename");
    push_if(&mut v, o.create, "create");
    push_if(&mut v, o.copy, "copy");
    push_if(&mut v, o.execute, "execute");
    v
}

impl PolicyIntent {
    /// A new intent, stamped with `timestamp` (seconds since the epoch).
    pub fn new(
        node_id: u64,
        scope: ProtectionScope,
        action: ProtectionAction,
        operations: ProtectionOperations,
        created_by: &str,
        comment: Option<&str>,
        timestamp: u64,
    ) -> (r: Self)
        ensures
            r@.node_id == node_id,
            r@.scope == scope,
            r@.action == action,
            r@.operations == operations,
            r@.created_by == created_by@,
            r@.timestamp == timestamp,
            r@.comment == (match comment {
                Some(c) => Some(c@),
                None => None::<Seq<char>>,
            }),
    {
        let comment = match comment {
            Some(c) => Some(String::from_str(c)),
            None => None,
        };
        PolicyIntent {
            node_id,
            scope,
            action,
            operations,
            created_by: String::from_str(created_by),
            timestamp,
            comment,
        }
    }

    /// A copy of this intent.
    pub fn duplicate(&self) -> (r: Self)
        ensures
            r@ == self@,
    {
        let comment = match &self.comment {
            Some(c) => Some(c.clone()),
            None => None,
        };
        PolicyIntent {
            node_id: self.node_id,
            scope: self.scope,
            action: self.action,
            operations: self.operations,
            created_by: self.created_by.clone(),
            timestamp: self.timestamp,
            comment,
        }
    }

    /// Structural validation: a zero node id, create on a single file, a
    /// blank creator and Allow with read are refused, in that order.
    pub fn validate(&self) -> (r: Result<(), IntentError>)
        ensures
            r == intent_check(self@),
    {
        if self.node_id == 0 {
            return Err(IntentError::ZeroNode);
        }
        if self.scope == ProtectionScope::File && self.operations.create {
            return Err(IntentError::CreateOnFile);
        }
        if is_blank_text(self.created_by.as_str()) {
            return Err(IntentError::EmptyCreator);
        }
        if self.action == ProtectionAction::Allow && self.operations.read {
            return Err(IntentError::AllowWithRead);
        }
        Ok(())
    }

    /// A one-line description for logs and confirmations.
    pub fn describe(&self) -> (r: String)
        ensures
            r@ == intent_description(self@),
    {
        let mut s = String::from_str(action_text(self.action));
        if self.operations.read {
            s.append(" ALL operations on ");
        } else {
            s.append(" ");
            let names = selected_operation_names(&self.operations);
            if names.len() == 0 {
                s.append("nothing");
            } else {
                let joined = join_text(&names, ", ");
                s.append(joined.as_str());
            }
            s.append(" on ");
        }
        s.append(scope_text(self.scope));
        s.append(" (ID: ");
        push_decimal(&mut s, self.node_id);
        if self.operations.read {
            s.append(") - READ selected");
        } else {
            s.append(")");
        }
        s
    }
}

} // verus!
