//! Kernel-ready rules and the normalizer that derives them from an intent.
use vstd::prelude::*;
use crate::paths::{
    dir_form, ends_with_sep, ends_with_separator, is_device_path, is_device_path_text,
    to_dir_form,
};
use crate::policy_intent::{
    expanded, opt_text, IntentView, PolicyIntent, ProtectionAction, ProtectionOperations,
    ProtectionScope,
};
use crate::text::{copy_opt, decimal, join, join_text, push_decimal, views_of};

verus! {

/// How the kernel matches a rule's path.
#[derive(Debug, Clone, Copy, PartialEq, Eq, Structural)]
pub enum PathMatchType {
    /// The path itself.
    Exact,
    /// Every path below a folder path that ends with a separator.
    Prefix,
}

/// The six operations the kernel filter knows.
#[derive(Debug, Clone, Copy, PartialEq, Eq, Structural)]
pub struct KernelOperations {
    pub write: bool,
    pub delete: bool,
    pub rename: bool,
    pub create: bool,
    pub copy: bool,
    pub execute: bool,
}

pub open spec fn no_operations() -> KernelOperations {
    KernelOperations {
        write: false,
        delete: false,
        rename: false,
        create: false,
        copy: false,
        execute: false,
    }
}

pub open spec fn every_operation() -> KernelOperations {
    KernelOperations {
        write: true,
        delete: true,
        rename: true,
        create: true,
        copy: true,
        execute: true,
    }
}

/// The kernel's six flags of an operation set, `read` dropped.
pub open spec fn kernel_part(o: ProtectionOperations) -> KernelOperations {
    KernelOperations {
        write: o.write,
        delete: o.delete,
        rename: o.rename,
        create: o.create,
        copy: o.copy,
        execute: o.execute,
    }
}

/// Every operation of the six that is not in `k`.
pub open spec fn complement(k: KernelOperations) -> KernelOperations {
    KernelOperations {
        write: !k.write,
        delete: !k.delete,
        rename: !k.rename,
        create: !k.create,
        copy: !k.copy,
        execute: !k.execute,
    }
}

pub open spec fn ops_empty(k: KernelOperations) -> bool {
    !k.write && !k.delete && !k.rename && !k.create && !k.copy && !k.execute
}

impl Default for KernelOperations {
    /// Nothing selected.
    fn default() -> (r: Self)
        ensures
            r == no_operations(),
    {
        KernelOperations {
            write: false,
            delete: false,
            rename: false,
            create: false,
            copy: false,
            execute: false,
        }
    }
}

impl KernelOperations {
    /// Whether no operation is selected.
    pub fn is_empty(&self) -> (r: bool)
        ensures
            r == ops_empty(*self),
    {
        !self.write && !self.delete && !self.rename && !self.create && !self.copy && !self.execute
    }

    /// The flags as bytes, one per operation, in the order write, delete,
    /// rename, create, copy, execute.
    pub fn to_flags(&self) -> (r: (u8, u8, u8, u8, u8, u8))
        ensures
            r == (self.write as u8, self.delete as u8, self.rename as u8, self.create as u8,
                self.copy as u8, self.execute as u8),
    {
        (
            self.write as u8,
            self.delete as u8,
            self.rename as u8,
            self.create as u8,
            self.copy as u8,
            self.execute as u8,
        )
    }

    /// Whether all six operations are selected.
    pub fn is_block_all(&self) -> (r: bool)
        ensures
            r == (*self == every_operation()),
    {
        self.write && self.delete && self.rename && self.create && self.copy && self.execute
    }

    /// The kernel operations of an intent's flags, after the read expansion,
    /// whatever the action: read selected means all six operations.
    pub fn from_protection_operations(ops: &ProtectionOperations, action: ProtectionAction) -> (r:
        Self)
        ensures
            r == kernel_part(expanded(*ops)),
    {
        let e = ops.expand_for_kernel();
        KernelOperations {
            write: e.write,
            delete: e.delete,
            rename: e.rename,
            create: e.create,
            copy: e.copy,
            execute: e.execute,
        }
    }

    /// All six operations.
    pub fn block_all() -> (r: Self)
        ensures
            r == every_operation(),
    {
        KernelOperations {
            write: true,
            delete: true,
            rename: true,
            create: true,
            copy: true,
            execute: true,
        }
    }
}

/// The mathematical value of a kernel rule.
pub struct KernelPolicyView {
    pub policy_id: u64,
    pub nt_path: Seq<char>,
    pub match_type: PathMatchType,
    pub is_recursive: bool,
    pub blocked_ops: KernelOperations,
    pub audit_ops: KernelOperations,
    pub block_all: bool,
    pub created_by: Seq<char>,
    pub timestamp: u64,
    pub comment: Option<Seq<char>>,
}

/// A rule ready for the kernel. Its device path never leaves the agent.
#[derive(Debug)]
pub struct KernelPolicy {
    pub policy_id: u64,
    pub nt_path: String,
    pub match_type: PathMatchType,
    pub is_recursive: bool,
    pub blocked_ops: KernelOperations,
    pub audit_ops: KernelOperations,
    pub block_all: bool,
    pub created_by: String,
    pub timestamp: u64,
    pub comment: Option<String>,
}

impl View for KernelPolicy {
    type V = KernelPolicyView;

    open spec fn view(&self) -> KernelPolicyView {
        KernelPolicyView {
            policy_id: self.policy_id,
            nt_path: self.nt_path@,
            match_type: self.match_type,
            is_recursive: self.is_recursive,
            blocked_ops: self.blocked_ops,
            audit_ops: self.audit_ops,
            block_all: self.block_all,
            created_by: self.created_by@,
            timestamp: self.timestamp,
            comment: opt_text(self.comment),
        }
    }
}

/// The views of a sequence of rules.
pub open spec fn rule_views(v: Seq<KernelPolicy>) -> Seq<KernelPolicyView> {
    Seq::new(v.len(), |i: int| v[i]@)
}

/// The views of a sequence of texts.
pub open spec fn text_views(v: Seq<String>) -> Seq<Seq<char>> {
    Seq::new(v.len(), |i: int| v[i]@)
}

/// The match mode of a scope.
pub open spec fn match_of(s: ProtectionScope) -> PathMatchType {
    if s == ProtectionScope::FolderRecursive {
        PathMatchType::Prefix
    } else {
        PathMatchType::Exact
    }
}

/// The path a rule carries: a recursive folder in folder form, any other
/// path as resolved.
pub open spec fn rule_path(path: Seq<char>, s: ProtectionScope) -> Seq<char> {
    if s == ProtectionScope::FolderRecursive {
        dir_form(path)
    } else {
        path
    }
}

/// Read blocked: everything is blocked.
pub open spec fn is_read_block(i: IntentView) -> bool {
    i.action == ProtectionAction::Block && i.operations.read
}

/// What a rule blocks. Block: the selected operations, all of them when read
/// is selected. Allow: everything that is not allowed (nothing when read is
/// selected, which validation refuses). Audit: nothing.
pub open spec fn blocked_of(i: IntentView) -> KernelOperations {
    match i.action {
        ProtectionAction::Block => kernel_part(expanded(i.operations)),
        ProtectionAction::Allow => if i.operations.read {
            no_operations()
        } else {
            complement(kernel_part(i.operations))
        },
        ProtectionAction::Audit => no_operations(),
    }
}

/// What a rule audits: the selected operations under Audit, else nothing.
pub open spec fn audited_of(i: IntentView) -> KernelOperations {
    if i.action == ProtectionAction::Audit {
        kernel_part(i.operations)
    } else {
        no_operations()
    }
}

/// The rule derived from an intent for one resolved path.
pub open spec fn derived_rule(i: IntentView, path: Seq<char>, id: u64) -> KernelPolicyView {
    KernelPolicyView {
        policy_id: id,
        nt_path: rule_path(path, i.scope),
        match_type: match_of(i.scope),
        is_recursive: i.scope == ProtectionScope::FolderRecursive,
        blocked_ops: blocked_of(i),
        audit_ops: audited_of(i),
        block_all: is_read_block(i),
        created_by: i.created_by,
        timestamp: i.timestamp,
        comment: i.comment,
    }
}

/// The rules derived from an intent, one per path, in order.
pub open spec fn derived_rules(i: IntentView, paths: Seq<Seq<char>>, id: u64) -> Seq<
    KernelPolicyView,
> {
    Seq::new(paths.len(), |k: int| derived_rule(i, paths[k], id))
}

/// Blocking reads blocks everything: each rule derived from a Block intent
/// with read selected blocks all six kernel operations and sets `block_all`,
/// whatever the intent's other flags say.
pub proof fn read_block_blocks_everything(i: IntentView, paths: Seq<Seq<char>>, id: u64)
    requires
        i.action == ProtectionAction::Block,
        i.operations.read,
    ensures
        forall|k: int|
            0 <= k < paths.len() ==> (#[trigger] derived_rules(i, paths, id)[k]).blocked_ops
                == every_operation() && derived_rules(i, paths, id)[k].block_all,
{
}

/// Why a rule may not go to the kernel.
#[derive(Debug, Clone, Copy, PartialEq, Eq, Structural)]
pub enum RuleError {
    /// The path is not in device form.
    NotDevicePath,
    /// A prefix rule whose path does not end with a separator.
    PrefixWithoutSeparator,
    /// The rule neither blocks nor audits anything.
    NoOperations,
}

pub open spec fn rule_check(r: KernelPolicyView) -> Result<(), RuleError> {
    if !is_device_path(r.nt_path) {
        Err(RuleError::NotDevicePath)
    } else if r.match_type == PathMatchType::Prefix && !ends_with_sep(r.nt_path) {
        Err(RuleError::PrefixWithoutSeparator)
    } else if ops_empty(r.blocked_ops) && ops_empty(r.audit_ops) && !r.block_all {
        Err(RuleError::NoOperations)
    } else {
        Ok(())
    }
}

/// Derives kernel rules from intents.
pub struct PolicyNormalizer;

impl PolicyNormalizer {
    /// The path a rule of scope `scope` carries for the resolved `path`.
    fn normalize_nt_path(path: &str, scope: ProtectionScope) -> (r: String)
        ensures
            r@ == rule_path(path@, scope),
    {
        if scope == ProtectionScope::FolderRecursive {
            to_dir_form(path)
        } else {
            String::from_str(path)
        }
    }

    pub fn blocked_ops_for(intent: &PolicyIntent) -> (r: KernelOperations)
        ensures
            r == blocked_of(intent@),
    {
        match intent.action {
            ProtectionAction::Block => KernelOperations::from_protection_operations(
                &intent.operations,
                intent.action,
            ),
            ProtectionAction::Allow => {
                if intent.operations.read {
                    KernelOperations::default()
                } else {
                    let o = intent.operations;
                    KernelOperations {
                        write: !o.write,
                        delete: !o.delete,
                        rename: !o.rename,
                        create: !o.create,
                        copy: !o.copy,
                        execute: !o.execute,
                    }
                }
            },
            ProtectionAction::Audit => KernelOperations::default(),
        }
    }

    fn audit_ops_for(intent: &PolicyIntent) -> (r: KernelOperations)
        ensures
            r == audited_of(intent@),
    {
        if intent.action == ProtectionAction::Audit {
            let o = intent.operations;
            KernelOperations {
                write: o.write,
                delete: o.delete,
                rename: o.rename,
                create: o.create,
                copy: o.copy,
                execute: o.execute,
            }
        } else {
            KernelOperations::default()
        }
    }

    /// The rule for one resolved path.
    pub fn normalize_one(intent: &PolicyIntent, path: &str, policy_id: u64) -> (r: KernelPolicy)
        ensures
            r@ == derived_rule(intent@, path@, policy_id),
    {
        KernelPolicy {
            policy_id,
            nt_path: Self::normalize_nt_path(path, intent.scope),
            match_type: if intent.scope == ProtectionScope::FolderRecursive {
                PathMatchType::Prefix
            } else {
                PathMatchType::Exact
            },
            is_recursive: intent.scope == ProtectionScope::FolderRecursive,
            blocked_ops: Self::blocked_ops_for(intent),
            audit_ops: Self::audit_ops_for(intent),
            block_all: intent.action == ProtectionAction::Block && intent.operations.read,
            created_by: intent.created_by.clone(),
            timestamp: intent.timestamp,
            comment: copy_opt(&intent.comment),
        }
    }

    /// The rules of an intent, one per resolved path, all under `policy_id`.
    /// A Block intent with read selected blocks every operation and sets
    /// `block_all`.
    pub fn normalize(intent: &PolicyIntent, nt_paths: Vec<String>, policy_id: u64) -> (r: Vec<
        KernelPolicy,
    >)
        ensures
            rule_views(r@) == derived_rules(intent@, text_views(nt_paths@), policy_id),
    {
        let mut out: Vec<KernelPolicy> = Vec::new();
        let mut k: usize = 0;
        while k < nt_paths.len()
            invariant
                k <= nt_paths.len(),
                out.len() == k,
                forall|j: int|
                    0 <= j < k ==> #[trigger] out@[j]@ == derived_rule(
                        intent@,
                        nt_paths@[j]@,
                        policy_id,
                    ),
            decreases nt_paths.len() - k,
        {
            let rule = Self::normalize_one(intent, nt_paths[k].as_str(), policy_id);
            out.push(rule);
            k = k + 1;
        }
        assert(rule_views(out@) =~= derived_rules(intent@, text_views(nt_paths@), policy_id));
        out
    }

    /// Refuses a rule whose path is not in device form, a prefix rule
    /// without a trailing separator, and a rule that does nothing.
    pub fn validate(policy: &KernelPolicy) -> (r: Result<(), RuleError>)
        ensures
            r == rule_check(policy@),
    {
        if !is_device_path_text(policy.nt_path.as_str()) {
            return Err(RuleError::NotDevicePath);
        }
        if policy.match_type == PathMatchType::Prefix && !ends_with_separator(
            policy.nt_path.as_str(),
        ) {
            return Err(RuleError::PrefixWithoutSeparator);
        }
        if policy.blocked_ops.is_empty() && policy.audit_ops.is_empty() && !policy.block_all {
            return Err(RuleError::NoOperations);
        }
        Ok(())
    }
}

/// The block flag of the named operation; `read` stands for block-all.
pub open spec fn blocks_named(r: KernelPolicyView, op: Seq<char>) -> bool {
    if op == "read"@ {
        r.block_all
    } else if op == "write"@ {
        r.blocked_ops.write
    } else if op == "delete"@ {
        r.blocked_ops.delete
    } else if op == "rename"@ {
        r.blocked_ops.rename
    } else if op == "create"@ {
        r.blocked_ops.create
    } else if op == "copy"@ {
        r.blocked_ops.copy
    } else if op == "execute"@ {
        r.blocked_ops.execute
    } else {
        false
    }
}

/// The audit flag of the named operation; reads are never audited.
pub open spec fn audits_named(r: KernelPolicyView, op: Seq<char>) -> bool {
    if op == "read"@ {
        false
    } else if op == "write"@ {
        r.audit_ops.write
    } else if op == "delete"@ {
        r.audit_ops.delete
    } else if op == "rename"@ {
        r.audit_ops.rename
    } else if op == "create"@ {
        r.audit_ops.create
    } else if op == "copy"@ {
        r.audit_ops.copy
    } else if op == "execute"@ {
        r.audit_ops.execute
    } else {
        false
    }
}

/// Whether two texts are equal.
pub fn text_eq(a: &str, b: &str) -> (r: bool)
    ensures
        r == (a@ == b@),
{
    let n = a.unicode_len();
    if n != b.unicode_len() {
        return false;
    }
    let mut i: usize = 0;
    while i < n
        invariant
            n == a@.len(),
            n == b@.len(),
            i <= n,
            forall|j: int| 0 <= j < i ==> a@[j] == b@[j],
        decreases n - i,
    {
        if a.get_char(i) != b.get_char(i) {
            return false;
        }
        i = i + 1;
    }
    assert(a@ =~= b@);
    true
}

pub open spec fn kernel_names(k: KernelOperations) -> Seq<Seq<char>> {
    Seq::<Seq<char>>::empty().add(if k.write { seq!["write"@] } else { seq![] }).add(
        if k.delete { seq!["delete"@] } else { seq![] },
    ).add(if k.rename { seq!["rename"@] } else { seq![] }).add(
        if k.create { seq!["create"@] } else { seq![] },
    ).add(if k.copy { seq!["copy"@] } else { seq![] }).add(
        if k.execute { seq!["execute"@] } else { seq![] },
    )
}

fn push_if(v: &mut Vec<&'static str>, flag: bool, name: &'static str)
    ensures
        views_of(final(v)@) == views_of(old(v)@).add(
            if flag {
                seq![name@]
            } else {
                seq![]
            },
        ),
{
    if flag {
        v.push(name);
    }
    assert(views_of(v@) =~= views_of(old(v)@).add(
        if flag {
            seq![name@]
        } else {
            seq![]
        },
    ));
}

/// The names of the selected kernel operations, in flag order.
pub fn kernel_operation_names(k: &KernelOperations) -> (r: Vec<&'static str>)
    ensures
        views_of(r@) == kernel_names(*k),
{
    let mut v: Vec<&'static str> = Vec::new();
    assert(views_of(v@) =~= Seq::<Seq<char>>::empty());
    push_if(&mut v, k.write, "write");
    push_if(&mut v, k.delete, "delete");
    push_if(&mut v, k.rename, "rename");
    push_if(&mut v, k.create, "create");
    push_if(&mut v, k.copy, "copy");
    push_if(&mut v, k.execute, "execute");
    v
}

/// The block and audit lists of a rule's description.
pub open spec fn sections(blocked: KernelOperations, audited: KernelOperations) -> Seq<char> {
    let b = kernel_names(blocked);
    let a = kernel_names(audited);
    (if b.len() > 0 {
        "Block ["@ + join(b, ", "@) + "]"@
    } else {
        Seq::empty()
    }) + (if a.len() > 0 {
        (if b.len() > 0 {
            ", "@
        } else {
            Seq::empty()
        }) + "Audit ["@ + join(a, ", "@) + "]"@
    } else {
        Seq::empty()
    })
}

fn sections_text(blocked: &KernelOperations, audited: &KernelOperations) -> (r: String)
    ensures
        r@ == sections(*blocked, *audited),
{
    let b = kernel_operation_names(blocked);
    let a = kernel_operation_names(audited);
    let mut first = String::new();
    if b.len() > 0 {
        first.append("Block [");
        let jb = join_text(&b, ", ");
        first.append(jb.as_str());
        first.append("]");
    }
    let mut second = String::new();
    if a.len() > 0 {
        if b.len() > 0 {
            second.append(", ");
        }
        second.append("Audit [");
        let ja = join_text(&a, ", ");
        second.append(ja.as_str());
        second.append("]");
    }
    first.append(second.as_str());
    assert(first@ =~= sections(*blocked, *audited));
    first
}

/// The description of a rule.
pub open spec fn rule_description(r: KernelPolicyView) -> Seq<char> {
    if r.block_all {
        "BLOCK ALL operations on "@ + r.nt_path + " (Policy ID: "@ + decimal(r.policy_id as nat)
            + ")"@
    } else {
        "Policy ID "@ + decimal(r.policy_id as nat) + " on "@ + r.nt_path + ": "@ + sections(
            r.blocked_ops,
            r.audit_ops,
        ) + (if r.is_recursive {
            " (Recursive)"@
        } else {
            Seq::empty()
        })
    }
}

impl KernelPolicy {
    /// Whether every operation is blocked through the read expansion.
    pub fn is_block_all(&self) -> (r: bool)
        ensures
            r == self.block_all,
    {
        self.block_all
    }

    /// Whether the named operation is blocked; `read` is blocked only by block-all.
    pub fn should_block_operation(&self, operation: &str) -> (r: bool)
        ensures
            r == blocks_named(self@, operation@),
    {
        if text_eq(operation, "read") {
            self.block_all
        } else if text_eq(operation, "write") {
            self.blocked_ops.write
        } else if text_eq(operation, "delete") {
            self.blocked_ops.delete
        } else if text_eq(operation, "rename") {
            self.blocked_ops.rename
        } else if text_eq(operation, "create") {
            self.blocked_ops.create
        } else if text_eq(operation, "copy") {
            self.blocked_ops.copy
        } else if text_eq(operation, "execute") {
            self.blocked_ops.execute
        } else {
            false
        }
    }

    /// Whether the named operation is audited.
    pub fn should_audit_operation(&self, operation: &str) -> (r: bool)
        ensures
            r == audits_named(self@, operation@),
    {
        if text_eq(operation, "read") {
            false
        } else if text_eq(operation, "write") {
            self.audit_ops.write
        } else if text_eq(operation, "delete") {
            self.audit_ops.delete
        } else if text_eq(operation, "rename") {
            self.audit_ops.rename
        } else if text_eq(operation, "create") {
            self.audit_ops.create
        } else if text_eq(operation, "copy") {
            self.audit_ops.copy
        } else if text_eq(operation, "execute") {
            self.audit_ops.execute
        } else {
            false
        }
    }

    /// A description of what the rule does. It holds the device path: for
    /// the agent's own logs only.
    pub fn describe(&self) -> (r: String)
        ensures
            r@ == rule_description(self@),
    {
        if self.block_all {
            let mut s = String::from_str("BLOCK ALL operations on ");
            s.append(self.nt_path.as_str());
            s.append(" (Policy ID: ");
            push_decimal(&mut s, self.policy_id);
            s.append(")");
            return s;
        }
        let mut s = String::from_str("Policy ID ");
        push_decimal(&mut s, self.policy_id);
        s.append(" on ");
        s.append(self.nt_path.as_str());
        s.append(": ");
        let sec = sections_text(&self.blocked_ops, &self.audit_ops);
        s.append(sec.as_str());
        if self.is_recursive {
            s.append(" (Recursive)");
        }
        proof {
            assert(s@ =~= rule_description(self@));
        }
        s
    }

    /// A copy of this rule.
    pub fn duplicate(&self) -> (r: Self)
        ensures
            r@ == self@,
    {
        KernelPolicy {
            policy_id: self.policy_id,
            nt_path: self.nt_path.clone(),
            match_type: self.match_type,
            is_recursive: self.is_recursive,
            blocked_ops: self.blocked_ops,
            audit_ops: self.audit_ops,
            block_all: self.block_all,
            created_by: self.created_by.clone(),
            timestamp: self.timestamp,
            comment: copy_opt(&self.comment),
        }
    }
}

} // verus!
