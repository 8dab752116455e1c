//! The policy engine: the one surface through which intents become kernel
//! rules and recorded policies.
//!
//! Applying a policy is split around the kernel transport: `prepare_protection`
//! validates, resolves, normalizes and encodes; the caller sends the records
//! when a kernel is connected; `commit_protection` records the outcome.
use vstd::prelude::*;
use crate::error::PolicyError;
use crate::fs_index::{FilesystemIndex, IndexView};
use crate::kernel_policy::{
    derived_rules, every_operation, rule_check, rule_views, KernelPolicy,
    KernelPolicyView, PolicyNormalizer, RuleError,
};
use crate::path_resolver::{
    cache_lookup, derived_device_path, intent_resolution, resolution, DeviceResolution,
    PathResolver, ResolutionView,
};
use crate::policy_dry_run::{DryRunEvaluation, DryRunEvaluator};
use crate::policy_guard::{safety_of, PolicyGuard, SafetyValidation};
use crate::policy_intent::{intent_check, IntentView, PolicyIntent, ProtectionAction};
use crate::policy_preview::{PolicyPreview, PolicyPreviewService};
use crate::policy_store::{
    count_active, count_nodes, find_by_kernel_id, find_policy, has_policy, without,
    ActivePolicy, ActivePolicyView, EnforcementStats, HealthStatus, PolicyStore,
};
use crate::wire::{removal_record, rule_record, FilePolicy, FilePolicyView};

verus! {

/// Counts over the engine's policies.
#[derive(Debug, Clone, Copy, PartialEq, Eq, Structural)]
pub struct PolicyEngineStats {
    pub total_policies: usize,
    pub active_policies: usize,
    pub protected_nodes: usize,
    pub kernel_connected: bool,
}

/// What became of the kernel records of a prepared policy.
#[derive(Debug, Clone, Copy, PartialEq, Eq, Structural)]
pub enum SendOutcome {
    /// Every record was sent and acknowledged with status zero.
    AllSent,
    /// A record was answered with this non-zero status; sending stopped there.
    Failed(i32),
    /// No kernel adapter: nothing was sent (simulation mode).
    NotConnected,
}

/// A validated, resolved and normalized policy waiting for the kernel.
pub struct PreparedProtection {
    policy_id: u64,
    intent: PolicyIntent,
    kernel_policies: Vec<KernelPolicy>,
    messages: Vec<FilePolicy>,
}

pub struct PendingView {
    pub policy_id: u64,
    pub intent: IntentView,
    pub kernel_policies: Seq<KernelPolicyView>,
    pub messages: Seq<FilePolicyView>,
}

pub open spec fn record_views(v: Seq<FilePolicy>) -> Seq<FilePolicyView> {
    Seq::new(v.len(), |i: int| v[i]@)
}

impl View for PreparedProtection {
    type V = PendingView;

    closed spec fn view(&self) -> PendingView {
        PendingView {
            policy_id: self.policy_id,
            intent: self.intent@,
            kernel_policies: rule_views(self.kernel_policies@),
            messages: record_views(self.messages@),
        }
    }
}

impl PreparedProtection {
    /// The policy id reserved for it.
    pub fn policy_id(&self) -> (r: u64)
        ensures
            r == self@.policy_id,
    {
        self.policy_id
    }

    /// The kernel records to send, one per rule.
    pub fn messages(&self) -> (r: &Vec<FilePolicy>)
        ensures
            record_views(r@) == self@.messages,
    {
        &self.messages
    }

    /// The number of kernel rules.
    pub fn rule_count(&self) -> (r: usize)
        ensures
            r == self@.kernel_policies.len(),
    {
        self.kernel_policies.len()
    }

    /// Where sending starts: the first record, or done when there is none.
    pub fn first_step(&self) -> (r: SendStep)
        ensures
            self@.messages.len() == 0 ==> r == SendStep::Done(SendOutcome::AllSent),
            self@.messages.len() > 0 ==> r == SendStep::Send(0),
    {
        if self.messages.len() == 0 {
            SendStep::Done(SendOutcome::AllSent)
        } else {
            SendStep::Send(0)
        }
    }

    /// What follows once record `sent` was answered with `status`: a
    /// non-zero status ends sending with that status; otherwise the next
    /// record goes out, and after the last one sending is done.
    pub fn after_send(&self, sent: usize, status: i32) -> (r: SendStep)
        requires
            sent < self@.messages.len(),
        ensures
            status != 0 ==> r == SendStep::Done(SendOutcome::Failed(status)),
            status == 0 && sent + 1 < self@.messages.len() ==> r == SendStep::Send(
                (sent + 1) as usize,
            ),
            status == 0 && sent + 1 == self@.messages.len() ==> r == SendStep::Done(
                SendOutcome::AllSent,
            ),
    {
        assert(self@.messages.len() == self.messages@.len());
        if status != 0 {
            SendStep::Done(SendOutcome::Failed(status))
        } else if sent < self.messages.len() - 1 {
            SendStep::Send(sent + 1)
        } else {
            SendStep::Done(SendOutcome::AllSent)
        }
    }
}

/// The next move while sending a prepared policy's records.
#[derive(Debug, Clone, Copy, PartialEq, Eq, Structural)]
pub enum SendStep {
    /// Send the record at this position.
    Send(usize),
    /// Sending is over, with this outcome for `commit_protection`.
    Done(SendOutcome),
}

/// The records of a sequence of rules.
pub open spec fn records_of(rs: Seq<KernelPolicyView>) -> Seq<FilePolicyView> {
    Seq::new(rs.len(), |k: int| rule_record(rs[k]))
}

/// The first rule check that fails, in order.
pub open spec fn first_rule_error(rs: Seq<KernelPolicyView>) -> Option<RuleError>
    decreases rs.len(),
{
    if rs.len() == 0 {
        None
    } else {
        match rule_check(rs[0]) {
            Err(e) => Some(e),
            Ok(_) => first_rule_error(rs.subrange(1, rs.len() as int)),
        }
    }
}

/// The device path of the intent's node: its cached one, or the one derived
/// from `root`, the device root of its drive's volume.
pub open spec fn base_path(v: IndexView, id: u64, root: Option<Seq<char>>) -> Result<
    Seq<char>,
    PolicyError,
> {
    match resolution(v, id) {
        Err(e) => Err(e),
        Ok(ResolutionView::Resolved(p)) => Ok(p),
        Ok(ResolutionView::NeedsVolume(_)) => match root {
            None => Err(PolicyError::VolumeNeeded),
            Some(r) => derived_device_path(v, id, r),
        },
    }
}

/// What preparing an intent yields: the policy id and the derived rules, or
/// the first failure: validation, node lookup, resolution, id space, rule checks.
pub open spec fn preparation(v: IndexView, next_id: u64, i: IntentView, root: Option<Seq<char>>) -> Result<
    (u64, Seq<KernelPolicyView>),
    PolicyError,
> {
    match intent_check(i) {
        Err(e) => Err(PolicyError::InvalidIntent(e)),
        Ok(_) => if !v.nodes.contains_key(i.node_id) {
            Err(PolicyError::NotFound)
        } else if !v.nodes[i.node_id].is_accessible {
            Err(PolicyError::NotAccessible)
        } else {
            match base_path(v, i.node_id, root) {
                Err(e) => Err(e),
                Ok(b) => match intent_resolution(v, i.scope, i.node_id, b) {
                    Err(e) => Err(e),
                    Ok(ps) => if next_id == u64::MAX {
                        Err(PolicyError::IdsExhausted)
                    } else {
                        let rs = derived_rules(i, ps, next_id);
                        match first_rule_error(rs) {
                            Some(e) => Err(PolicyError::InvalidRule(e)),
                            None => Ok((next_id, rs)),
                        }
                    },
                },
            }
        },
    }
}

/// The record a committed policy gets.
pub open spec fn committed(p: PendingView, now: u64) -> ActivePolicyView {
    ActivePolicyView {
        policy_id: p.policy_id,
        intent: p.intent,
        kernel_policies: p.kernel_policies,
        kernel_policy_ids: Seq::new(p.kernel_policies.len(), |k: int| p.policy_id),
        is_active: true,
        created_at: now,
        last_updated: now,
    }
}

/// The health of a policy: inactive is a failure, simulation a warning.
pub open spec fn health_of(p: Option<ActivePolicyView>, kernel_connected: bool) -> Option<
    HealthStatus,
> {
    match p {
        None => None,
        Some(a) => if !a.is_active {
            Some(HealthStatus::Failed)
        } else if !kernel_connected {
            Some(HealthStatus::Warning)
        } else {
            Some(HealthStatus::Healthy)
        },
    }
}

pub open spec fn lookup_by_any_id(s: Seq<ActivePolicyView>, id: u64) -> Option<ActivePolicyView> {
    if find_policy(s, id) is Some {
        find_policy(s, id)
    } else {
        find_by_kernel_id(s, id)
    }
}

pub struct EngineView {
    pub index: IndexView,
    pub store: Seq<ActivePolicyView>,
    pub kernel_connected: bool,
    pub next_policy_id: u64,
    /// Device roots of volumes, by volume identifier.
    pub volume_cache: Seq<(Seq<char>, Seq<char>)>,
    /// Policy ids handed out by `prepare_protection` and not yet committed.
    pub reserved: Set<u64>,
}

/// The orchestrator: owns the index, the resolver and the store, and knows
/// whether a kernel adapter is attached.
pub struct PolicyEngine {
    index: FilesystemIndex,
    resolver: PathResolver,
    store: PolicyStore,
    kernel_connected: bool,
    next_policy_id: u64,
    reserved: Ghost<Set<u64>>,
}

impl View for PolicyEngine {
    type V = EngineView;

    closed spec fn view(&self) -> EngineView {
        EngineView {
            index: self.index@,
            store: self.store@,
            kernel_connected: self.kernel_connected,
            next_policy_id: self.next_policy_id,
            volume_cache: self.resolver@,
            reserved: self.reserved@,
        }
    }
}

/// Issued ids: every recorded or reserved policy id lies below the next id
/// to issue, and no reserved id is recorded.
pub open spec fn ids_consistent(v: EngineView) -> bool {
    &&& forall|i: int|
        0 <= i < v.store.len() ==> (#[trigger] v.store[i]).policy_id < v.next_policy_id
            && !v.reserved.contains(v.store[i].policy_id)
    &&& forall|id: u64| #[trigger] v.reserved.contains(id) ==> id < v.next_policy_id
}

/// The id that the next preparation reserves is fresh: no recorded policy
/// and no pending reservation carries it, so the policy it leads to is
/// recorded under an id of its own, also in simulation mode.
pub proof fn next_policy_id_is_fresh(v: EngineView)
    requires
        ids_consistent(v),
    ensures
        !has_policy(v.store, v.next_policy_id),
        !v.reserved.contains(v.next_policy_id),
{
    if has_policy(v.store, v.next_policy_id) {
        let i = choose|i: int| 0 <= i < v.store.len() && v.store[i].policy_id == v.next_policy_id;
        assert(v.store[i].policy_id < v.next_policy_id);
    }
}

/// A Block intent with read selected, on a file whose node carries a device
/// path, prepares (while policy ids last) exactly one exact-match rule on that
/// path, blocking all six operations, whose kernel record carries `block_all`.
pub proof fn read_block_on_file_prepares_one_rule(
    v: IndexView,
    next_id: u64,
    i: IntentView,
    root: Option<Seq<char>>,
)
    requires
        intent_check(i) is Ok,
        i.scope == crate::policy_intent::ProtectionScope::File,
        i.action == ProtectionAction::Block,
        i.operations.read,
        v.nodes.contains_key(i.node_id),
        v.nodes[i.node_id].is_accessible,
        crate::paths::is_device_path(v.nodes[i.node_id].nt_path),
        next_id < u64::MAX,
    ensures
        ({
            let r = crate::kernel_policy::derived_rule(i, v.nodes[i.node_id].nt_path, next_id);
            &&& preparation(v, next_id, i, root) == Ok::<(u64, Seq<KernelPolicyView>), PolicyError>(
                (next_id, seq![r]),
            )
            &&& r.nt_path == v.nodes[i.node_id].nt_path
            &&& r.match_type == crate::kernel_policy::PathMatchType::Exact
            &&& r.block_all
            &&& r.blocked_ops == every_operation()
            &&& records_of(seq![r]).len() == 1
            &&& records_of(seq![r])[0].block_all == 1
        }),
{
    let p = v.nodes[i.node_id].nt_path;
    assert(crate::path_resolver::all_device_paths(seq![p]));
    let r = crate::kernel_policy::derived_rule(i, p, next_id);
    assert(derived_rules(i, seq![p], next_id) =~= seq![r]);
    assert(rule_check(r) is Ok);
    let rs = seq![r];
    assert(rs.subrange(1, rs.len() as int) =~= Seq::<KernelPolicyView>::empty());
    assert(first_rule_error(rs.subrange(1, rs.len() as int)) is None);
    assert(first_rule_error(rs) is None);
}

/// Id consistency depends on the store, the reservations and the next id only.
proof fn lemma_ids_kept(a: EngineView, b: EngineView)
    requires
        ids_consistent(a),
        a.store == b.store,
        a.reserved == b.reserved,
        a.next_policy_id == b.next_policy_id,
    ensures
        ids_consistent(b),
{
}

fn first_rule_failure(rules: &Vec<KernelPolicy>) -> (r: Option<RuleError>)
    ensures
        r == first_rule_error(rule_views(rules@)),
{
    let mut i: usize = 0;
    let ghost rs = rule_views(rules@);
    assert(rs.subrange(0, rs.len() as int) =~= rs);
    while i < rules.len()
        invariant
            rs == rule_views(rules@),
            i <= rules.len(),
            first_rule_error(rs) == first_rule_error(rs.subrange(i as int, rs.len() as int)),
        decreases rules.len() - i,
    {
        proof {
            let t = rs.subrange(i as int, rs.len() as int);
            assert(t.subrange(1, t.len() as int) =~= rs.subrange(i + 1, rs.len() as int));
            assert(t[0] == rules@[i as int]@);
        }
        match PolicyNormalizer::validate(&rules[i]) {
            Err(e) => return Some(e),
            Ok(()) => {},
        }
        i = i + 1;
    }
    None
}

fn encode_all(rules: &Vec<KernelPolicy>) -> (r: Vec<FilePolicy>)
    ensures
        record_views(r@) == records_of(rule_views(rules@)),
{
    let mut out: Vec<FilePolicy> = Vec::new();
    let mut i: usize = 0;
    while i < rules.len()
        invariant
            i <= rules.len(),
            out@.len() == i,
            forall|k: int| 0 <= k < i ==> #[trigger] out@[k]@ == rule_record(rules@[k]@),
        decreases rules.len() - i,
    {
        out.push(FilePolicy::from_kernel_policy(&rules[i]));
        i = i + 1;
    }
    assert(record_views(out@) =~= records_of(rule_views(rules@)));
    out
}

fn repeat_id(id: u64, n: usize) -> (r: Vec<u64>)
    ensures
        r@ == Seq::new(n as nat, |k: int| id),
{
    let mut v: Vec<u64> = Vec::new();
    let mut i: usize = 0;
    while i < n
        invariant
            i <= n,
            v@ == Seq::new(i as nat, |k: int| id),
        decreases n - i,
    {
        v.push(id);
        assert(v@ =~= Seq::new((i + 1) as nat, |k: int| id));
        i = i + 1;
    }
    v
}

impl PolicyEngine {
    /// The index and the store are well formed.
    pub closed spec fn well_formed(&self) -> bool {
        self.index.well_formed() && self.store.well_formed() && ids_consistent(self@)
    }

    /// An engine over `index`, with no policies; `kernel_connected` says
    /// whether the kernel adapter could be opened.
    pub fn new(index: FilesystemIndex, kernel_connected: bool) -> (r: Self)
        requires
            index.well_formed(),
        ensures
            r.well_formed(),
            r@.index == index@,
            r@.store == Seq::<ActivePolicyView>::empty(),
            r@.kernel_connected == kernel_connected,
            r@.next_policy_id == 1,
            r@.volume_cache == Seq::<(Seq<char>, Seq<char>)>::empty(),
            r@.reserved == Set::<u64>::empty(),
    {
        PolicyEngine {
            index,
            resolver: PathResolver::new(),
            store: PolicyStore::new(),
            kernel_connected,
            next_policy_id: 1,
            reserved: Ghost(Set::empty()),
        }
    }

    /// An engine with an empty index and no kernel: simulation mode.
    pub fn new_simulated() -> (r: Self)
        ensures
            r.well_formed(),
            r@.index.nodes.len() == 1,
            r@.store == Seq::<ActivePolicyView>::empty(),
            !r@.kernel_connected,
            r@.next_policy_id == 1,
    {
        let index = FilesystemIndex::new();
        proof {
            assert(index@.nodes.dom() =~= set![crate::fs_index::ROOT_ID]);
        }
        Self::new(index, false)
    }

    /// The index, for reading.
    pub fn index(&self) -> (r: &FilesystemIndex)
        requires
            self.well_formed(),
        ensures
            r@ == self@.index,
            r.well_formed(),
    {
        &self.index
    }

    /// Records whether a kernel adapter is attached.
    pub fn set_kernel_connected(&mut self, connected: bool)
        requires
            old(self).well_formed(),
        ensures
            final(self).well_formed(),
            final(self)@ == (EngineView { kernel_connected: connected, ..old(self)@ }),
    {
        self.kernel_connected = connected;
    }

    /// Whether a kernel adapter is attached.
    pub fn is_kernel_connected(&self) -> (r: bool)
        ensures
            r == self@.kernel_connected,
    {
        self.kernel_connected
    }

    /// Runs `f` on the index with the scanner: expansion, collapse and drive
    /// initialisation go through here.
    pub fn expand(
        &mut self,
        scanner: &crate::scanner::FileSystemScanner,
        node_id: u64,
        entries: &Vec<crate::scanner::DirEntryInfo>,
    ) -> (r: Result<usize, crate::scanner::ScanError>)
        requires
            old(self).well_formed(),
        ensures
            final(self).well_formed(),
            final(self)@.store == old(self)@.store,
            final(self)@.kernel_connected == old(self)@.kernel_connected,
            final(self)@.next_policy_id == old(self)@.next_policy_id,
            final(self)@.volume_cache == old(self)@.volume_cache,
            final(self)@.reserved == old(self)@.reserved,
            final(self)@.index.next_id >= old(self)@.index.next_id,
            !old(self)@.index.nodes.contains_key(node_id) ==> r == Err::<
                usize,
                crate::scanner::ScanError,
            >(crate::scanner::ScanError::NotFound) && final(self)@.index == old(self)@.index,
            old(self)@.index.nodes.contains_key(node_id) && !crate::fs_index::is_container(
                old(self)@.index.nodes[node_id].entry_type,
            ) ==> r == Err::<usize, crate::scanner::ScanError>(
                crate::scanner::ScanError::NotADirectory,
            ) && final(self)@.index == old(self)@.index,
            old(self)@.index.nodes.contains_key(node_id) && crate::fs_index::is_container(
                old(self)@.index.nodes[node_id].entry_type,
            ) && old(self)@.index.nodes[node_id].is_expanded ==> r == Ok::<
                usize,
                crate::scanner::ScanError,
            >(old(self)@.index.nodes[node_id].children_ids.len() as usize) && final(self)@.index
                == old(self)@.index,
            old(self)@.index.nodes.contains_key(node_id) && !old(
                self,
            )@.index.nodes[node_id].is_expanded && crate::fs_index::is_container(
                old(self)@.index.nodes[node_id].entry_type,
            ) ==> {
                let w = crate::scanner::expansion(
                    old(self)@.index,
                    node_id,
                    old(self)@.index.nodes[node_id],
                    crate::scanner::entry_views(entries@),
                );
                &&& final(self)@.index == crate::scanner::marked_expanded(w, node_id)
                &&& r == Ok::<usize, crate::scanner::ScanError>(
                    (w.nodes[node_id].children_ids.len() - old(
                        self,
                    )@.index.nodes[node_id].children_ids.len()) as usize,
                )
            },
    {
        let r = scanner.expand_directory(&mut self.index, node_id, entries);
        proof {
            lemma_ids_kept(old(self)@, self@);
            if old(self)@.index.nodes.contains_key(node_id) && !old(
                self,
            )@.index.nodes[node_id].is_expanded && crate::fs_index::is_container(
                old(self)@.index.nodes[node_id].entry_type,
            ) {
                crate::fs_index::lemma_wf_node(old(self)@.index, node_id);
                crate::scanner::lemma_expansion(
                    old(self)@.index,
                    node_id,
                    old(self)@.index.nodes[node_id],
                    crate::scanner::entry_views(entries@),
                );
            }
        }
        r
    }

    /// Unloads the children of `node_id`; policies on them stay recorded.
    pub fn collapse(&mut self, scanner: &crate::scanner::FileSystemScanner, node_id: u64) -> (r:
        Result<usize, crate::scanner::ScanError>)
        requires
            old(self).well_formed(),
        ensures
            final(self).well_formed(),
            final(self)@.store == old(self)@.store,
            final(self)@.kernel_connected == old(self)@.kernel_connected,
            final(self)@.next_policy_id == old(self)@.next_policy_id,
            final(self)@.volume_cache == old(self)@.volume_cache,
            final(self)@.reserved == old(self)@.reserved,
            final(self)@.index.next_id == old(self)@.index.next_id,
            r == Ok::<usize, crate::scanner::ScanError>(
                (if old(self)@.index.nodes.contains_key(node_id) {
                    old(self)@.index.nodes[node_id].children_ids.len()
                } else {
                    0
                }) as usize,
            ),
            old(self)@.index.nodes.contains_key(node_id) ==> {
                &&& final(self)@.index.nodes.contains_key(node_id)
                &&& final(self)@.index.nodes[node_id] == (crate::fs_index::NodeView {
                    children_ids: Seq::empty(),
                    is_expanded: false,
                    ..old(self)@.index.nodes[node_id]
                })
                &&& forall|i: int|
                    0 <= i < old(self)@.index.nodes[node_id].children_ids.len()
                        ==> !final(self)@.index.nodes.contains_key(
                        #[trigger] old(self)@.index.nodes[node_id].children_ids[i],
                    )
            },
            !old(self)@.index.nodes.contains_key(node_id) ==> final(self)@.index == old(self)@.index,
    {
        let r = scanner.collapse_directory(&mut self.index, node_id);
        proof {
            lemma_ids_kept(old(self)@, self@);
        }
        r
    }

    /// Clears the index and registers the probed drives.
    pub fn initialize_drives(
        &mut self,
        scanner: &crate::scanner::FileSystemScanner,
        probes: &Vec<crate::scanner::DriveProbe>,
    ) -> (r: Result<usize, crate::scanner::ScanError>)
        requires
            old(self).well_formed(),
        ensures
            final(self).well_formed(),
            final(self)@.store == old(self)@.store,
            final(self)@.kernel_connected == old(self)@.kernel_connected,
            final(self)@.next_policy_id == old(self)@.next_policy_id,
            final(self)@.volume_cache == old(self)@.volume_cache,
            final(self)@.reserved == old(self)@.reserved,
            final(self)@.index == crate::scanner::registered(
                crate::scanner::cleared(old(self)@.index),
                crate::scanner::probe_views(probes@),
            ),
            final(self)@.index.next_id >= old(self)@.index.next_id,
            forall|k: u64| #[trigger]
                final(self)@.index.nodes.contains_key(k) && k != crate::fs_index::ROOT_ID ==> k
                    >= old(self)@.index.next_id && final(self)@.index.nodes[k].entry_type
                    == crate::fs_index::EntryType::Drive,
            match r {
                Ok(n) => n > 0 && n == final(self)@.index.nodes[crate::fs_index::ROOT_ID].children_ids.len(),
                Err(e) => e == crate::scanner::ScanError::NoDrives
                    && final(self)@.index.nodes[crate::fs_index::ROOT_ID].children_ids.len() == 0,
            },
    {
        let r = scanner.initialize_drives(&mut self.index, probes);
        proof {
            lemma_ids_kept(old(self)@, self@);
        }
        r
    }

    /// Caches the device root of a volume for later resolutions.
    pub fn remember_volume(&mut self, volume_id: &str, device_root: &str)
        requires
            old(self).well_formed(),
        ensures
            final(self).well_formed(),
            final(self)@ == (EngineView {
                volume_cache: if cache_lookup(old(self)@.volume_cache, volume_id@) is None {
                    old(self)@.volume_cache.push((volume_id@, device_root@))
                } else {
                    old(self)@.volume_cache
                },
                ..old(self)@
            }),
    {
        self.resolver.remember_volume(volume_id, device_root);
    }

    /// The cached device root of a volume.
    pub fn cached_device_root(&self, volume_id: &str) -> (r: Option<String>)
        ensures
            match r {
                Some(s) => cache_lookup(self@.volume_cache, volume_id@) == Some(s@),
                None => cache_lookup(self@.volume_cache, volume_id@) is None,
            },
    {
        self.resolver.cached_device_root(volume_id)
    }

    /// The first step of resolving `node_id`: its device path, or the drive
    /// whose volume device root `prepare_protection` then needs.
    pub fn resolve_device(&self, node_id: u64) -> (r: Result<DeviceResolution, PolicyError>)
        ensures
            match r {
                Ok(d) => resolution(self@.index, node_id) == Ok::<ResolutionView, PolicyError>(d@),
                Err(e) => resolution(self@.index, node_id) == Err::<ResolutionView, PolicyError>(e),
            },
    {
        self.resolver.begin_resolve(&self.index, node_id)
    }

    /// Validates `intent`, resolves its node to the paths its rules cover,
    /// reserves a policy id, derives the kernel rules, checks them and
    /// encodes their kernel records. `volume_root` is the device root of the
    /// node's drive, needed only when the node carries no device path
    /// (`VolumeNeeded` otherwise). On failure nothing changes.
    pub fn prepare_protection(&mut self, intent: PolicyIntent, volume_root: Option<&str>) -> (r:
        Result<PreparedProtection, PolicyError>)
        requires
            old(self).well_formed(),
        ensures
            final(self).well_formed(),
            match r {
                Ok(p) => {
                    &&& preparation(
                        old(self)@.index,
                        old(self)@.next_policy_id,
                        intent@,
                        match volume_root {
                            Some(s) => Some(s@),
                            None => None,
                        },
                    ) == Ok::<(u64, Seq<KernelPolicyView>), PolicyError>(
                        (p@.policy_id, p@.kernel_policies),
                    )
                    &&& p@.intent == intent@
                    &&& p@.messages == records_of(p@.kernel_policies)
                    &&& final(self)@ == (EngineView {
                        next_policy_id: (old(self)@.next_policy_id + 1) as u64,
                        reserved: old(self)@.reserved.insert(p@.policy_id),
                        ..old(self)@
                    })
                },
                Err(e) => {
                    &&& preparation(
                        old(self)@.index,
                        old(self)@.next_policy_id,
                        intent@,
                        match volume_root {
                            Some(s) => Some(s@),
                            None => None,
                        },
                    ) == Err::<(u64, Seq<KernelPolicyView>), PolicyError>(e)
                    &&& final(self)@ == old(self)@
                },
            },
    {
        match intent.validate() {
            Ok(()) => {},
            Err(e) => return Err(PolicyError::InvalidIntent(e)),
        }
        match self.resolver.validate_node(&self.index, intent.node_id) {
            Ok(()) => {},
            Err(e) => return Err(e),
        }
        let base = match self.resolver.begin_resolve(&self.index, intent.node_id) {
            Err(e) => return Err(e),
            Ok(DeviceResolution::Resolved(p)) => p,
            Ok(DeviceResolution::NeedsVolume(_)) => match volume_root {
                None => return Err(PolicyError::VolumeNeeded),
                Some(root) => match self.resolver.finish_resolve(&self.index, intent.node_id, root) {
                    Ok(p) => p,
                    Err(e) => return Err(e),
                },
            },
        };
        let paths = match self.resolver.resolve_policy_intent(&self.index, &intent, base.as_str()) {
            Ok(ps) => ps,
            Err(e) => return Err(e),
        };
        if self.next_policy_id == u64::MAX {
            return Err(PolicyError::IdsExhausted);
        }
        let policy_id = self.next_policy_id;
        let rules = PolicyNormalizer::normalize(&intent, paths, policy_id);
        match first_rule_failure(&rules) {
            Some(e) => return Err(PolicyError::InvalidRule(e)),
            None => {},
        }
        let messages = encode_all(&rules);
        proof {
            assert forall|i: int| 0 <= i < self@.store.len() implies (#[trigger] self@.store[i]).policy_id
                < self.next_policy_id by {}
        }
        self.next_policy_id = policy_id + 1;
        self.reserved = Ghost(self.reserved@.insert(policy_id));
        let p = PreparedProtection { policy_id, intent, kernel_policies: rules, messages };
        Ok(p)
    }

    /// `prepare_protection` behind the safety guard: an invalid intent is
    /// refused as validation refuses it, and one that needs confirmation is
    /// refused with `ConfirmationRequired` unless `confirmed`.
    pub fn prepare_protection_with_assurance(
        &mut self,
        intent: PolicyIntent,
        confirmed: bool,
        volume_root: Option<&str>,
    ) -> (r: Result<PreparedProtection, PolicyError>)
        requires
            old(self).well_formed(),
        ensures
            final(self).well_formed(),
            intent_check(intent@) matches Err(e) ==> r == Err::<PreparedProtection, PolicyError>(
                PolicyError::InvalidIntent(e),
            ) && final(self)@ == old(self)@,
            intent_check(intent@) is Ok && safety_of(intent@, old(self)@.kernel_connected).requires_confirmation
                && !confirmed ==> r == Err::<PreparedProtection, PolicyError>(
                PolicyError::ConfirmationRequired,
            ) && final(self)@ == old(self)@,
            intent_check(intent@) is Ok && (!safety_of(
                intent@,
                old(self)@.kernel_connected,
            ).requires_confirmation || confirmed) ==> match r {
                Ok(p) => preparation(
                    old(self)@.index,
                    old(self)@.next_policy_id,
                    intent@,
                    match volume_root {
                        Some(s) => Some(s@),
                        None => None,
                    },
                ) == Ok::<(u64, Seq<KernelPolicyView>), PolicyError>(
                    (p@.policy_id, p@.kernel_policies),
                ) && p@.intent == intent@ && p@.messages == records_of(p@.kernel_policies)
                    && final(self)@ == (EngineView {
                    next_policy_id: (old(self)@.next_policy_id + 1) as u64,
                    reserved: old(self)@.reserved.insert(p@.policy_id),
                    ..old(self)@
                }),
                Err(e) => preparation(
                    old(self)@.index,
                    old(self)@.next_policy_id,
                    intent@,
                    match volume_root {
                        Some(s) => Some(s@),
                        None => None,
                    },
                ) == Err::<(u64, Seq<KernelPolicyView>), PolicyError>(e) && final(self)@ == old(
                    self,
                )@,
            },
    {
        match intent.validate() {
            Ok(()) => {},
            Err(e) => return Err(PolicyError::InvalidIntent(e)),
        }
        let safety = PolicyGuard::validate(&intent, self.kernel_connected);
        if safety.requires_confirmation && !confirmed {
            return Err(PolicyError::ConfirmationRequired);
        }
        self.prepare_protection(intent, volume_root)
    }

    /// Records a prepared policy once its kernel records went out. A failed
    /// send aborts with the driver's status and records nothing; otherwise
    /// the policy is recorded, active, with the policy id as the driver id
    /// of each rule, and its id returned. Either way the reservation of its
    /// id is spent. Its id was reserved by `prepare_protection` and, being
    /// reserved, is recorded nowhere, so recording always succeeds.
    pub fn commit_protection(&mut self, pending: PreparedProtection, outcome: SendOutcome, now: u64) -> (r:
        Result<u64, PolicyError>)
        requires
            old(self).well_formed(),
            old(self)@.reserved.contains(pending@.policy_id),
        ensures
            final(self).well_formed(),
            !has_policy(old(self)@.store, pending@.policy_id),
            outcome matches SendOutcome::Failed(s) ==> r == Err::<u64, PolicyError>(
                PolicyError::KernelTransportError(s),
            ) && final(self)@ == (EngineView {
                reserved: old(self)@.reserved.remove(pending@.policy_id),
                ..old(self)@
            }),
            !(outcome is Failed) ==> r == Ok::<u64, PolicyError>(pending@.policy_id)
                && final(self)@ == (EngineView {
                store: old(self)@.store.push(committed(pending@, now)),
                reserved: old(self)@.reserved.remove(pending@.policy_id),
                ..old(self)@
            }),
    {
        let ghost pv = pending@;
        proof {
            if has_policy(old(self)@.store, pv.policy_id) {
                let i = choose|i: int|
                    0 <= i < old(self)@.store.len() && old(self)@.store[i].policy_id == pv.policy_id;
                assert(!old(self)@.reserved.contains(old(self)@.store[i].policy_id));
            }
        }
        let policy_id = pending.policy_id();
        self.reserved = Ghost(self.reserved@.remove(pv.policy_id));
        match outcome {
            SendOutcome::Failed(s) => return Err(PolicyError::KernelTransportError(s)),
            _ => {},
        }
        let PreparedProtection { policy_id: _, intent, kernel_policies, messages: _ } = pending;
        let ids = repeat_id(policy_id, kernel_policies.len());
        let ghost rv = rule_views(kernel_policies@);
        let ghost s0 = self@.store;
        if self.store.add_policy(policy_id, intent, kernel_policies, ids, now) {
            proof {
                assert(Seq::new(rv.len(), |k: int| policy_id) =~= ids@);
                let s = self@.store;
                assert forall|i: int| 0 <= i < s.len() implies (#[trigger] s[i]).policy_id
                    < self@.next_policy_id && !self@.reserved.contains(s[i].policy_id) by {
                    if i < s0.len() {
                        assert(s[i] == s0[i]);
                    }
                }
            }
            Ok(policy_id)
        } else {
            Err(PolicyError::AlreadyRecorded)
        }
    }

    /// The kernel records that remove a recorded policy, one per rule, and
    /// the policy removed from the store. Sending them is best effort: the
    /// store forgets the policy whatever the kernel answers. An unknown id is
    /// `NotFound` and leaves the store unchanged.
    pub fn remove_protection(&mut self, policy_id: u64) -> (r: Result<Vec<FilePolicy>, PolicyError>)
        requires
            old(self).well_formed(),
        ensures
            final(self).well_formed(),
            !has_policy(old(self)@.store, policy_id) ==> r == Err::<Vec<FilePolicy>, PolicyError>(
                PolicyError::NotFound,
            ) && final(self)@ == old(self)@,
            has_policy(old(self)@.store, policy_id) ==> {
                &&& final(self)@ == (EngineView {
                    store: without(old(self)@.store, policy_id),
                    ..old(self)@
                })
                &&& r matches Ok(ms) && record_views(ms@) == Seq::new(
                    find_policy(old(self)@.store, policy_id).unwrap().kernel_policies.len(),
                    |k: int|
                        removal_record(
                            find_policy(old(self)@.store, policy_id).unwrap().kernel_policies[k].nt_path,
                        ),
                )
            },
    {
        let removed = match self.store.remove_policy(policy_id) {
            Some(p) => p,
            None => return Err(PolicyError::NotFound),
        };
        let mut out: Vec<FilePolicy> = Vec::new();
        let mut i: usize = 0;
        while i < removed.kernel_policies.len()
            invariant
                i <= removed.kernel_policies.len(),
                out@.len() == i,
                forall|k: int|
                    0 <= k < i ==> #[trigger] out@[k]@ == removal_record(
                        removed.kernel_policies@[k].nt_path@,
                    ),
            decreases removed.kernel_policies.len() - i,
        {
            out.push(FilePolicy::removal(removed.kernel_policies[i].nt_path.as_str()));
            i = i + 1;
        }
        proof {
            let s0 = old(self)@.store;
            let s = self@.store;
            crate::policy_store::lemma_without_members(s0, policy_id);
            assert forall|i: int| 0 <= i < s.len() implies (#[trigger] s[i]).policy_id
                < self@.next_policy_id && !self@.reserved.contains(s[i].policy_id) by {
                assert(s.contains(s[i]));
                let j = choose|j: int| 0 <= j < s0.len() && s0[j] == s[i];
                assert(s0[j].policy_id < self@.next_policy_id);
            }
            let rp = find_policy(old(self)@.store, policy_id).unwrap();
            assert(rp == removed@);
            assert(record_views(out@) =~= Seq::new(
                rp.kernel_policies.len(),
                |k: int| removal_record(rp.kernel_policies[k].nt_path),
            ));
        }
        Ok(out)
    }

    /// Every recorded policy, in the order they were added.
    pub fn get_active_policies(&self) -> (r: Vec<ActivePolicy>)
        ensures
            crate::policy_store::policy_views(r@) == self@.store,
    {
        self.store.get_all_policies()
    }

    /// The policies on `node_id`.
    pub fn get_policies_for_node(&self, node_id: u64) -> (r: Vec<ActivePolicy>)
        ensures
            crate::policy_store::policy_views(r@) == crate::policy_store::for_node(
                self@.store,
                node_id,
            ),
    {
        self.store.get_policies_for_node(node_id)
    }

    /// The number of recorded policies.
    pub fn policy_count(&self) -> (r: usize)
        ensures
            r == self@.store.len(),
    {
        self.store.len()
    }

    /// A policy by internal id, else by driver id.
    pub fn get_policy_by_id(&self, policy_id: u64) -> (r: Option<ActivePolicy>)
        requires
            self.well_formed(),
        ensures
            match r {
                Some(p) => lookup_by_any_id(self@.store, policy_id) == Some(p@),
                None => lookup_by_any_id(self@.store, policy_id) is None,
            },
    {
        self.store.get_policy_by_id(policy_id)
    }

    /// The subject node of the policy with driver id `kernel_policy_id`.
    pub fn get_node_id_by_kernel_id(&self, kernel_policy_id: u64) -> (r: Option<u64>)
        ensures
            r == (match find_by_kernel_id(self@.store, kernel_policy_id) {
                Some(p) => Some(p.intent.node_id),
                None => None,
            }),
    {
        self.store.get_node_id_by_kernel_id(kernel_policy_id)
    }

    /// Counts of policies and whether the kernel is connected.
    pub fn get_stats(&self) -> (r: PolicyEngineStats)
        ensures
            r.total_policies == self@.store.len(),
            r.active_policies == count_active(self@.store),
            r.protected_nodes == count_nodes(self@.store),
            r.kernel_connected == self@.kernel_connected,
    {
        let s = self.store.get_stats();
        PolicyEngineStats {
            total_policies: s.total_policies,
            active_policies: s.active_policies,
            protected_nodes: s.protected_nodes,
            kernel_connected: self.kernel_connected,
        }
    }

    /// Active policies counted as really enforced or simulated.
    pub fn get_enforcement_stats(&self) -> (r: EnforcementStats)
        ensures
            r.total_policies == self@.store.len(),
            r.real_enforcement == (if self@.kernel_connected {
                count_active(self@.store)
            } else {
                0
            }),
            r.simulated == (if self@.kernel_connected {
                0
            } else {
                count_active(self@.store)
            }),
            r.healthy == (if self@.kernel_connected {
                count_active(self@.store)
            } else {
                0
            }),
            r.warning == (if self@.kernel_connected {
                0
            } else {
                count_active(self@.store)
            }),
            r.failed == self@.store.len() - count_active(self@.store),
    {
        let s = self.store.get_stats();
        proof {
            crate::policy_store::lemma_count_active_bound(self@.store);
        }
        let c = self.kernel_connected;
        EnforcementStats {
            total_policies: s.total_policies,
            real_enforcement: if c {
                s.active_policies
            } else {
                0
            },
            simulated: if c {
                0
            } else {
                s.active_policies
            },
            healthy: if c {
                s.active_policies
            } else {
                0
            },
            warning: if c {
                0
            } else {
                s.active_policies
            },
            failed: s.total_policies - s.active_policies,
        }
    }

    /// The health of a policy (by internal or driver id) with a message:
    /// inactive is `Failed`, simulation mode a `Warning`, else `Healthy`.
    pub fn get_policy_health(&self, policy_id: u64) -> (r: Option<(HealthStatus, String)>)
        requires
            self.well_formed(),
        ensures
            match r {
                Some((h, _)) => health_of(
                    lookup_by_any_id(self@.store, policy_id),
                    self@.kernel_connected,
                ) == Some(h),
                None => health_of(lookup_by_any_id(self@.store, policy_id), self@.kernel_connected)
                    is None,
            },
    {
        match self.store.get_policy_by_id(policy_id) {
            None => None,
            Some(p) => if !p.is_active {
                Some((HealthStatus::Failed, String::from_str("Policy is inactive")))
            } else if !self.kernel_connected {
                Some((HealthStatus::Warning, String::from_str("Running in simulation mode")))
            } else {
                Some((HealthStatus::Healthy, String::from_str("Policy is active and healthy")))
            },
        }
    }

    /// The preview of a valid intent; the engine's state is only read.
    pub fn preview_policy(&self, intent: &PolicyIntent) -> (r: Result<PolicyPreview, PolicyError>)
        ensures
            match r {
                Ok(p) => intent_check(intent@) is Ok && p@.intent == intent@
                    && p@.effective_operations == crate::policy_preview::effective_of(intent@)
                    && p@.is_block_all == crate::kernel_policy::is_read_block(intent@)
                    && p@.human_readable == crate::text::join(
                    crate::policy_preview::preview_lines(
                        intent@,
                        crate::policy_preview::effective_of(intent@),
                        crate::kernel_policy::is_read_block(intent@),
                    ),
                    "\n"@,
                ),
                Err(e) => intent_check(intent@) matches Err(ie) && e == PolicyError::InvalidIntent(
                    ie,
                ),
            },
    {
        match intent.validate() {
            Ok(()) => {},
            Err(e) => return Err(PolicyError::InvalidIntent(e)),
        }
        Ok(PolicyPreviewService::preview(intent))
    }

    /// The dry run of a valid intent; the engine's state is only read.
    pub fn dry_run_policy(&self, intent: &PolicyIntent) -> (r: Result<DryRunEvaluation, PolicyError>)
        ensures
            match r {
                Ok(e) => intent_check(intent@) is Ok && e.node_id == intent.node_id
                    && e.policy_preview@ == crate::text::join(
                    crate::policy_preview::preview_lines(
                        intent@,
                        crate::policy_preview::effective_of(intent@),
                        crate::kernel_policy::is_read_block(intent@),
                    ),
                    "\n"@,
                ) && crate::policy_dry_run::result_views(e.results@)
                    == crate::policy_dry_run::simulated(intent@) && e.summary@
                    == crate::policy_dry_run::dry_summary(
                    intent@,
                    crate::policy_dry_run::simulated(intent@),
                ),
                Err(e) => intent_check(intent@) matches Err(ie) && e == PolicyError::InvalidIntent(
                    ie,
                ),
            },
    {
        let evaluator = DryRunEvaluator::new();
        evaluator.evaluate(intent)
    }

    /// The guard's verdict on `intent` given the current connection.
    pub fn validate_policy_safety(&self, intent: &PolicyIntent) -> (r: SafetyValidation)
        ensures
            r@ == safety_of(intent@, self@.kernel_connected),
    {
        PolicyGuard::validate(intent, self.kernel_connected)
    }
}

/// Allow combined with read is always refused: validation fails, so the
/// preparation fails and no kernel record is ever produced for it.
pub proof fn allow_with_read_never_reaches_kernel(
    v: IndexView,
    next_id: u64,
    i: IntentView,
    root: Option<Seq<char>>,
)
    requires
        i.action == ProtectionAction::Allow,
        i.operations.read,
    ensures
        intent_check(i) is Err,
        preparation(v, next_id, i, root) is Err,
{
}

/// Every rule prepared for a Block intent with read selected blocks all six
/// operations, and every kernel record of it carries `block_all`.
pub proof fn read_block_prepares_block_all_records(
    v: IndexView,
    next_id: u64,
    i: IntentView,
    root: Option<Seq<char>>,
)
    requires
        i.action == ProtectionAction::Block,
        i.operations.read,
        preparation(v, next_id, i, root) is Ok,
    ensures
        ({
            let rs = preparation(v, next_id, i, root).unwrap().1;
            forall|k: int|
                0 <= k < rs.len() ==> (#[trigger] rs[k]).blocked_ops == every_operation()
                    && rs[k].block_all && records_of(rs)[k].block_all == 1
        }),
{
}

} // verus!
