//! The record of active policies, keyed by internal policy id, searchable by
//! driver-returned id and by subject node.
use vstd::prelude::*;
use crate::kernel_policy::{rule_views, KernelPolicy, KernelPolicyView};
use crate::policy_intent::{IntentView, PolicyIntent};

verus! {

/// A committed policy: the intent, its kernel rules and the ids the driver
/// returned for them.
#[derive(Debug)]
pub struct ActivePolicy {
    pub policy_id: u64,
    pub intent: PolicyIntent,
    pub kernel_policies: Vec<KernelPolicy>,
    pub kernel_policy_ids: Vec<u64>,
    pub is_active: bool,
    pub created_at: u64,
    pub last_updated: u64,
}

pub struct ActivePolicyView {
    pub policy_id: u64,
    pub intent: IntentView,
    pub kernel_policies: Seq<KernelPolicyView>,
    pub kernel_policy_ids: Seq<u64>,
    pub is_active: bool,
    pub created_at: u64,
    pub last_updated: u64,
}

impl View for ActivePolicy {
    type V = ActivePolicyView;

    open spec fn view(&self) -> ActivePolicyView {
        ActivePolicyView {
            policy_id: self.policy_id,
            intent: self.intent@,
            kernel_policies: rule_views(self.kernel_policies@),
            kernel_policy_ids: self.kernel_policy_ids@,
            is_active: self.is_active,
            created_at: self.created_at,
            last_updated: self.last_updated,
        }
    }
}

/// How a policy is being enforced.
#[derive(Debug, Clone, Copy, PartialEq, Eq, Structural)]
pub enum EnforcementMode {
    Real,
    Simulated,
    Testing,
}

/// The health of a policy.
#[derive(Debug, Clone, Copy, PartialEq, Eq, Structural)]
pub enum HealthStatus {
    Healthy,
    Warning,
    Degraded,
    Failed,
    Unknown,
}

/// The enforcement status of one policy.
#[derive(Debug, Clone, Copy, PartialEq, Eq, Structural)]
pub struct PolicyStatus {
    pub policy_id: u64,
    pub enforcement_mode: EnforcementMode,
    pub kernel_applied: bool,
    pub verified_at: u64,
    pub last_checked: u64,
    pub health_status: HealthStatus,
}

/// Counts over the store.
#[derive(Debug, Clone, Copy, PartialEq, Eq, Structural)]
pub struct PolicyStoreStats {
    pub total_policies: usize,
    pub active_policies: usize,
    pub protected_nodes: usize,
}

/// Counts by enforcement mode and health.
#[derive(Debug, Clone, Copy, PartialEq, Eq, Structural)]
pub struct EnforcementStats {
    pub total_policies: usize,
    pub real_enforcement: usize,
    pub simulated: usize,
    pub healthy: usize,
    pub warning: usize,
    pub failed: usize,
}

pub open spec fn policy_views(v: Seq<ActivePolicy>) -> Seq<ActivePolicyView> {
    Seq::new(v.len(), |i: int| v[i]@)
}

/// The policy with `id`, the first one that has it.
pub open spec fn find_policy(s: Seq<ActivePolicyView>, id: u64) -> Option<ActivePolicyView>
    decreases s.len(),
{
    if s.len() == 0 {
        None
    } else if s[0].policy_id == id {
        Some(s[0])
    } else {
        find_policy(s.subrange(1, s.len() as int), id)
    }
}

/// The first policy whose driver ids include `kid`.
pub open spec fn find_by_kernel_id(s: Seq<ActivePolicyView>, kid: u64) -> Option<ActivePolicyView>
    decreases s.len(),
{
    if s.len() == 0 {
        None
    } else if s[0].kernel_policy_ids.contains(kid) {
        Some(s[0])
    } else {
        find_by_kernel_id(s.subrange(1, s.len() as int), kid)
    }
}

/// The policies on `node`, in the order they were added.
pub open spec fn for_node(s: Seq<ActivePolicyView>, node: u64) -> Seq<ActivePolicyView>
    decreases s.len(),
{
    if s.len() == 0 {
        Seq::empty()
    } else if s.last().intent.node_id == node {
        for_node(s.drop_last(), node).push(s.last())
    } else {
        for_node(s.drop_last(), node)
    }
}

/// `s` without the policy `id`.
pub open spec fn without(s: Seq<ActivePolicyView>, id: u64) -> Seq<ActivePolicyView>
    decreases s.len(),
{
    if s.len() == 0 {
        Seq::empty()
    } else if s.last().policy_id == id {
        without(s.drop_last(), id)
    } else {
        without(s.drop_last(), id).push(s.last())
    }
}

/// Removing a policy keeps only records that were there.
pub proof fn lemma_without_members(s: Seq<ActivePolicyView>, id: u64)
    ensures
        forall|x: ActivePolicyView| #[trigger] without(s, id).contains(x) ==> s.contains(x),
    decreases s.len(),
{
    if s.len() > 0 {
        let t = s.drop_last();
        lemma_without_members(t, id);
        assert forall|x: ActivePolicyView| #[trigger] without(s, id).contains(x) implies s.contains(
            x,
        ) by {
            let w = without(t, id);
            if without(s, id) != w {
                assert(without(s, id) == w.push(s.last()));
                let k = choose|k: int| 0 <= k < without(s, id).len() && without(s, id)[k] == x;
                if k < w.len() {
                    assert(w[k] == x);
                    assert(w.contains(x));
                    let j = choose|j: int| 0 <= j < t.len() && t[j] == x;
                    assert(s[j] == x);
                } else {
                    assert(s[s.len() - 1] == x);
                }
            } else {
                let k = choose|k: int| 0 <= k < w.len() && w[k] == x;
                assert(w.contains(x));
                let j = choose|j: int| 0 <= j < t.len() && t[j] == x;
                assert(s[j] == x);
            }
        }
    }
}

pub open spec fn count_active(s: Seq<ActivePolicyView>) -> nat
    decreases s.len(),
{
    if s.len() == 0 {
        0
    } else {
        count_active(s.drop_last()) + if s.last().is_active {
            1nat
        } else {
            0nat
        }
    }
}

/// No more policies are active than there are.
pub proof fn lemma_count_active_bound(s: Seq<ActivePolicyView>)
    ensures
        count_active(s) <= s.len(),
    decreases s.len(),
{
    if s.len() > 0 {
        lemma_count_active_bound(s.drop_last());
    }
}

pub open spec fn has_node(s: Seq<ActivePolicyView>, node: u64) -> bool {
    exists|i: int| 0 <= i < s.len() && s[i].intent.node_id == node
}

/// The number of distinct subject nodes.
pub open spec fn count_nodes(s: Seq<ActivePolicyView>) -> nat
    decreases s.len(),
{
    if s.len() == 0 {
        0
    } else {
        count_nodes(s.drop_last()) + if has_node(s.drop_last(), s.last().intent.node_id) {
            0nat
        } else {
            1nat
        }
    }
}

pub open spec fn ids_unique(s: Seq<ActivePolicyView>) -> bool {
    forall|i: int, j: int|
        0 <= i < j < s.len() ==> #[trigger] s[i].policy_id != #[trigger] s[j].policy_id
}

pub open spec fn has_policy(s: Seq<ActivePolicyView>, id: u64) -> bool {
    exists|i: int| 0 <= i < s.len() && s[i].policy_id == id
}

fn copy_ids(v: &Vec<u64>) -> (r: Vec<u64>)
    ensures
        r@ == v@,
{
    let mut out: Vec<u64> = Vec::new();
    let mut i: usize = 0;
    while i < v.len()
        invariant
            i <= v.len(),
            out@ == v@.subrange(0, i as int),
        decreases v.len() - i,
    {
        out.push(v[i]);
        assert(out@ =~= v@.subrange(0, i + 1));
        i = i + 1;
    }
    assert(v@.subrange(0, v.len() as int) =~= v@);
    out
}

fn copy_rules(v: &Vec<KernelPolicy>) -> (r: Vec<KernelPolicy>)
    ensures
        rule_views(r@) == rule_views(v@),
{
    let mut out: Vec<KernelPolicy> = Vec::new();
    let mut i: usize = 0;
    while i < v.len()
        invariant
            i <= v.len(),
            out@.len() == i,
            forall|j: int| 0 <= j < i ==> #[trigger] out@[j]@ == v@[j]@,
        decreases v.len() - i,
    {
        out.push(v[i].duplicate());
        i = i + 1;
    }
    assert(rule_views(out@) =~= rule_views(v@));
    out
}

impl ActivePolicy {
    /// A copy of this record.
    pub fn duplicate(&self) -> (r: Self)
        ensures
            r@ == self@,
    {
        ActivePolicy {
            policy_id: self.policy_id,
            intent: self.intent.duplicate(),
            kernel_policies: copy_rules(&self.kernel_policies),
            kernel_policy_ids: copy_ids(&self.kernel_policy_ids),
            is_active: self.is_active,
            created_at: self.created_at,
            last_updated: self.last_updated,
        }
    }
}

/// The active policies, in the order they were added.
pub struct PolicyStore {
    policies: Vec<ActivePolicy>,
}

impl View for PolicyStore {
    type V = Seq<ActivePolicyView>;

    closed spec fn view(&self) -> Seq<ActivePolicyView> {
        policy_views(self.policies@)
    }
}

proof fn lemma_find_some(s: Seq<ActivePolicyView>, id: u64)
    requires
        ids_unique(s),
        has_policy(s, id),
    ensures
        find_policy(s, id) is Some,
        find_policy(s, id).unwrap().policy_id == id,
    decreases s.len(),
{
    if s[0].policy_id != id {
        let t = s.subrange(1, s.len() as int);
        let i = choose|i: int| 0 <= i < s.len() && s[i].policy_id == id;
        assert(t[i - 1] == s[i]);
        lemma_find_some(t, id);
    }
}

proof fn lemma_find_none(s: Seq<ActivePolicyView>, id: u64)
    requires
        !has_policy(s, id),
    ensures
        find_policy(s, id) is None,
    decreases s.len(),
{
    if s.len() > 0 {
        let t = s.subrange(1, s.len() as int);
        assert(!has_policy(t, id)) by {
            if has_policy(t, id) {
                let i = choose|i: int| 0 <= i < t.len() && t[i].policy_id == id;
                assert(s[i + 1] == t[i]);
            }
        }
        lemma_find_none(t, id);
    }
}

proof fn lemma_without_absent(s: Seq<ActivePolicyView>, id: u64)
    requires
        !has_policy(s, id),
    ensures
        without(s, id) == s,
    decreases s.len(),
{
    if s.len() > 0 {
        assert(!has_policy(s.drop_last(), id)) by {
            if has_policy(s.drop_last(), id) {
                let i = choose|i: int|
                    0 <= i < s.drop_last().len() && s.drop_last()[i].policy_id == id;
                assert(s[i] == s.drop_last()[i]);
            }
        }
        lemma_without_absent(s.drop_last(), id);
        assert(s.last() == s[s.len() - 1]);
        assert(s.drop_last().push(s.last()) =~= s);
    }
}

proof fn lemma_without_remove(s: Seq<ActivePolicyView>, id: u64, k: int)
    requires
        ids_unique(s),
        0 <= k < s.len(),
        s[k].policy_id == id,
    ensures
        without(s, id) == s.remove(k),
    decreases s.len(),
{
    if k == s.len() - 1 {
        assert(!has_policy(s.drop_last(), id)) by {
            if has_policy(s.drop_last(), id) {
                let i = choose|i: int|
                    0 <= i < s.drop_last().len() && s.drop_last()[i].policy_id == id;
                assert(s[i] == s.drop_last()[i]);
            }
        }
        lemma_without_absent(s.drop_last(), id);
        assert(s.remove(k) =~= s.drop_last());
    } else {
        assert(ids_unique(s.drop_last()));
        lemma_without_remove(s.drop_last(), id, k);
        assert(s.last().policy_id != id);
        assert(s.drop_last().remove(k).push(s.last()) =~= s.remove(k));
    }
}

impl PolicyStore {
    /// No two records share a policy id.
    pub open spec fn well_formed(&self) -> bool {
        ids_unique(self@)
    }

    /// An empty store.
    pub fn new() -> (r: Self)
        ensures
            r@ == Seq::<ActivePolicyView>::empty(),
            r.well_formed(),
    {
        let r = PolicyStore { policies: Vec::new() };
        assert(r@ =~= Seq::<ActivePolicyView>::empty());
        r
    }

    /// The number of records.
    pub fn len(&self) -> (r: usize)
        ensures
            r == self@.len(),
    {
        self.policies.len()
    }

    /// Whether a record has `policy_id`.
    pub fn contains(&self, policy_id: u64) -> (r: bool)
        ensures
            r == has_policy(self@, policy_id),
    {
        let mut i: usize = 0;
        while i < self.policies.len()
            invariant
                i <= self.policies@.len(),
                forall|j: int| 0 <= j < i ==> self@[j].policy_id != policy_id,
            decreases self.policies.len() - i,
        {
            if self.policies[i].policy_id == policy_id {
                assert(self@[i as int].policy_id == policy_id);
                return true;
            }
            i = i + 1;
        }
        false
    }

    /// Records a new policy, active, created and updated at `now`. A policy
    /// id already present is refused (`false`) and the store left unchanged.
    pub fn add_policy(
        &mut self,
        policy_id: u64,
        intent: PolicyIntent,
        kernel_policies: Vec<KernelPolicy>,
        kernel_policy_ids: Vec<u64>,
        now: u64,
    ) -> (r: bool)
        requires
            old(self).well_formed(),
        ensures
            final(self).well_formed(),
            r == !has_policy(old(self)@, policy_id),
            r ==> final(self)@ == old(self)@.push(
                ActivePolicyView {
                    policy_id,
                    intent: intent@,
                    kernel_policies: rule_views(kernel_policies@),
                    kernel_policy_ids: kernel_policy_ids@,
                    is_active: true,
                    created_at: now,
                    last_updated: now,
                },
            ),
            !r ==> final(self)@ == old(self)@,
    {
        if self.contains(policy_id) {
            return false;
        }
        let rec = ActivePolicy {
            policy_id,
            intent,
            kernel_policies,
            kernel_policy_ids,
            is_active: true,
            created_at: now,
            last_updated: now,
        };
        self.policies.push(rec);
        assert(self@ =~= old(self)@.push(rec@));
        true
    }

    /// The record with `policy_id`.
    pub fn get_policy(&self, policy_id: u64) -> (r: Option<ActivePolicy>)
        requires
            self.well_formed(),
        ensures
            match r {
                Some(p) => find_policy(self@, policy_id) == Some(p@),
                None => find_policy(self@, policy_id) is None,
            },
            r is Some <==> has_policy(self@, policy_id),
    {
        let mut i: usize = 0;
        assert(self@.subrange(0, self@.len() as int) =~= self@);
        while i < self.policies.len()
            invariant
                i <= self.policies@.len(),
                find_policy(self@, policy_id) == find_policy(
                    self@.subrange(i as int, self@.len() as int),
                    policy_id,
                ),
                forall|j: int| 0 <= j < i ==> self@[j].policy_id != policy_id,
            decreases self.policies.len() - i,
        {
            proof {
                let t = self@.subrange(i as int, self@.len() as int);
                assert(t.subrange(1, t.len() as int) =~= self@.subrange(i + 1, self@.len() as int));
                assert(t[0] == self@[i as int]);
            }
            if self.policies[i].policy_id == policy_id {
                return Some(self.policies[i].duplicate());
            }
            i = i + 1;
        }
        proof {
            lemma_find_none(self@, policy_id);
        }
        None
    }

    /// The first record whose driver ids include `kernel_policy_id`.
    pub fn get_policy_by_kernel_id(&self, kernel_policy_id: u64) -> (r: Option<ActivePolicy>)
        ensures
            match r {
                Some(p) => find_by_kernel_id(self@, kernel_policy_id) == Some(p@),
                None => find_by_kernel_id(self@, kernel_policy_id) is None,
            },
    {
        let mut i: usize = 0;
        assert(self@.subrange(0, self@.len() as int) =~= self@);
        while i < self.policies.len()
            invariant
                i <= self.policies@.len(),
                find_by_kernel_id(self@, kernel_policy_id) == find_by_kernel_id(
                    self@.subrange(i as int, self@.len() as int),
                    kernel_policy_id,
                ),
            decreases self.policies.len() - i,
        {
            proof {
                let t = self@.subrange(i as int, self@.len() as int);
                assert(t.subrange(1, t.len() as int) =~= self@.subrange(i + 1, self@.len() as int));
                assert(t[0] == self@[i as int]);
            }
            let ids = &self.policies[i].kernel_policy_ids;
            let mut k: usize = 0;
            let mut found = false;
            while k < ids.len()
                invariant
                    k <= ids@.len(),
                    found ==> ids@.contains(kernel_policy_id),
                    !found ==> forall|j: int| 0 <= j < k ==> ids@[j] != kernel_policy_id,
                decreases ids.len() - k,
            {
                if ids[k] == kernel_policy_id {
                    found = true;
                    assert(ids@[k as int] == kernel_policy_id);
                }
                k = k + 1;
            }
            if found {
                return Some(self.policies[i].duplicate());
            }
            i = i + 1;
        }
        None
    }

    /// The record with `policy_id`, else the first whose driver ids include it.
    pub fn get_policy_by_id(&self, policy_id: u64) -> (r: Option<ActivePolicy>)
        requires
            self.well_formed(),
        ensures
            match r {
                Some(p) => (if find_policy(self@, policy_id) is Some {
                    find_policy(self@, policy_id)
                } else {
                    find_by_kernel_id(self@, policy_id)
                }) == Some(p@),
                None => find_policy(self@, policy_id) is None && find_by_kernel_id(
                    self@,
                    policy_id,
                ) is None,
            },
    {
        match self.get_policy(policy_id) {
            Some(p) => Some(p),
            None => self.get_policy_by_kernel_id(policy_id),
        }
    }

    /// The subject node of the first record whose driver ids include `kernel_policy_id`.
    pub fn get_node_id_by_kernel_id(&self, kernel_policy_id: u64) -> (r: Option<u64>)
        ensures
            r == (match find_by_kernel_id(self@, kernel_policy_id) {
                Some(p) => Some(p.intent.node_id),
                None => None,
            }),
    {
        match self.get_policy_by_kernel_id(kernel_policy_id) {
            Some(p) => Some(p.intent.node_id),
            None => None,
        }
    }

    /// The records on `node_id`, in the order they were added.
    pub fn get_policies_for_node(&self, node_id: u64) -> (r: Vec<ActivePolicy>)
        ensures
            policy_views(r@) == for_node(self@, node_id),
    {
        let mut out: Vec<ActivePolicy> = Vec::new();
        let mut i: usize = 0;
        assert(policy_views(out@) =~= for_node(self@.subrange(0, 0), node_id));
        while i < self.policies.len()
            invariant
                i <= self.policies@.len(),
                policy_views(out@) == for_node(self@.subrange(0, i as int), node_id),
            decreases self.policies.len() - i,
        {
            proof {
                let t = self@.subrange(0, i + 1);
                assert(t.drop_last() =~= self@.subrange(0, i as int));
                assert(t.last() == self@[i as int]);
            }
            if self.policies[i].intent.node_id == node_id {
                out.push(self.policies[i].duplicate());
            }
            assert(policy_views(out@) =~= for_node(self@.subrange(0, i + 1), node_id));
            i = i + 1;
        }
        assert(self@.subrange(0, self@.len() as int) =~= self@);
        out
    }

    /// Every record, in the order they were added.
    pub fn get_all_policies(&self) -> (r: Vec<ActivePolicy>)
        ensures
            policy_views(r@) == self@,
    {
        let mut out: Vec<ActivePolicy> = Vec::new();
        let mut i: usize = 0;
        while i < self.policies.len()
            invariant
                i <= self.policies@.len(),
                out@.len() == i,
                forall|j: int| 0 <= j < i ==> #[trigger] out@[j]@ == self.policies@[j]@,
            decreases self.policies.len() - i,
        {
            out.push(self.policies[i].duplicate());
            i = i + 1;
        }
        assert(policy_views(out@) =~= self@);
        out
    }

    /// Removes the record with `policy_id` and returns it; `None`, with the
    /// store unchanged, when there is none.
    pub fn remove_policy(&mut self, policy_id: u64) -> (r: Option<ActivePolicy>)
        requires
            old(self).well_formed(),
        ensures
            final(self).well_formed(),
            final(self)@ == without(old(self)@, policy_id),
            r is Some <==> has_policy(old(self)@, policy_id),
            r is None ==> final(self)@ == old(self)@,
            r matches Some(p) ==> Some(p@) == find_policy(old(self)@, policy_id),
    {
        let mut i: usize = 0;
        while i < self.policies.len()
            invariant
                self@ == old(self)@,
                ids_unique(self@),
                i <= self.policies@.len(),
                forall|j: int| 0 <= j < i ==> self@[j].policy_id != policy_id,
            decreases self.policies.len() - i,
        {
            if self.policies[i].policy_id == policy_id {
                proof {
                    lemma_without_remove(self@, policy_id, i as int);
                    lemma_find_some(self@, policy_id);
                    assert(has_policy(self@, policy_id));
                    let s = self@;
                    assert(find_policy(s, policy_id) == Some(s[i as int])) by {
                        let f = find_policy(s, policy_id).unwrap();
                        lemma_find_is_member(s, policy_id);
                    }
                }
                let p = self.policies.remove(i);
                proof {
                    assert(self@ =~= old(self)@.remove(i as int));
                    let s = self@;
                    assert forall|a: int, b: int| 0 <= a < b < s.len() implies #[trigger] s[a].policy_id
                        != #[trigger] s[b].policy_id by {
                        let oa = if a < i { a } else { a + 1 };
                        let ob = if b < i { b } else { b + 1 };
                        assert(s[a] == old(self)@[oa]);
                        assert(s[b] == old(self)@[ob]);
                    }
                }
                return Some(p);
            }
            i = i + 1;
        }
        proof {
            assert(!has_policy(self@, policy_id));
            lemma_without_absent(self@, policy_id);
        }
        None
    }

    /// Sets a record's active flag and update time; `false` when there is no
    /// such record.
    pub fn update_policy_status(&mut self, policy_id: u64, is_active: bool, now: u64) -> (r: bool)
        requires
            old(self).well_formed(),
        ensures
            final(self).well_formed(),
            r == has_policy(old(self)@, policy_id),
            final(self)@.len() == old(self)@.len(),
            forall|j: int|
                0 <= j < old(self)@.len() ==> #[trigger] final(self)@[j] == (if old(self)@[j].policy_id
                    == policy_id {
                    ActivePolicyView { is_active, last_updated: now, ..old(self)@[j] }
                } else {
                    old(self)@[j]
                }),
    {
        let mut i: usize = 0;
        while i < self.policies.len()
            invariant
                self@ == old(self)@,
                ids_unique(self@),
                i <= self.policies@.len(),
                forall|j: int| 0 <= j < i ==> self@[j].policy_id != policy_id,
            decreases self.policies.len() - i,
        {
            if self.policies[i].policy_id == policy_id {
                let ghost old_pol = self.policies@;
                assert(self@[i as int].policy_id == policy_id);
                let mut p = self.policies.remove(i);
                p.is_active = is_active;
                p.last_updated = now;
                let ghost np = p;
                self.policies.insert(i, p);
                proof {
                    assert(self.policies@ =~= old_pol.update(i as int, np));
                    let s = self@;
                    assert forall|j: int| 0 <= j < old(self)@.len() implies #[trigger] s[j] == (
                    if old(self)@[j].policy_id == policy_id {
                        ActivePolicyView { is_active, last_updated: now, ..old(self)@[j] }
                    } else {
                        old(self)@[j]
                    }) by {
                        if j != i {
                            assert(self.policies@[j] == old_pol[j]);
                            if j > i {
                                assert(old(self)@[j].policy_id != old(self)@[i as int].policy_id);
                            }
                        }
                    }
                    assert forall|a: int, b: int| 0 <= a < b < s.len() implies #[trigger] s[a].policy_id
                        != #[trigger] s[b].policy_id by {
                        assert(s[a].policy_id == old(self)@[a].policy_id);
                        assert(s[b].policy_id == old(self)@[b].policy_id);
                    }
                }
                return true;
            }
            i = i + 1;
        }
        false
    }

    /// Counts of records, active records and distinct subject nodes.
    pub fn get_stats(&self) -> (r: PolicyStoreStats)
        ensures
            r.total_policies == self@.len(),
            r.active_policies == count_active(self@),
            r.protected_nodes == count_nodes(self@),
    {
        let mut active: usize = 0;
        let mut nodes: usize = 0;
        let mut i: usize = 0;
        while i < self.policies.len()
            invariant
                i <= self.policies@.len(),
                active == count_active(self@.subrange(0, i as int)),
                nodes == count_nodes(self@.subrange(0, i as int)),
                active <= i,
                nodes <= i,
            decreases self.policies.len() - i,
        {
            let ghost t = self@.subrange(0, i + 1);
            proof {
                assert(t.drop_last() =~= self@.subrange(0, i as int));
                assert(t.last() == self@[i as int]);
            }
            if self.policies[i].is_active {
                active = active + 1;
            }
            let node = self.policies[i].intent.node_id;
            let mut seen = false;
            let mut j: usize = 0;
            while j < i
                invariant
                    j <= i < self.policies@.len(),
                    node == self@[i as int].intent.node_id,
                    seen ==> has_node(self@.subrange(0, i as int), node),
                    !seen ==> forall|k: int| 0 <= k < j ==> self@[k].intent.node_id != node,
                decreases i - j,
            {
                if self.policies[j].intent.node_id == node {
                    seen = true;
                    assert(self@.subrange(0, i as int)[j as int] == self@[j as int]);
                }
                j = j + 1;
            }
            proof {
                if !seen {
                    assert(!has_node(self@.subrange(0, i as int), node)) by {
                        if has_node(self@.subrange(0, i as int), node) {
                            let k = choose|k: int|
                                0 <= k < i && self@.subrange(0, i as int)[k].intent.node_id == node;
                            assert(self@.subrange(0, i as int)[k] == self@[k]);
                        }
                    }
                }
            }
            if !seen {
                nodes = nodes + 1;
            }
            i = i + 1;
        }
        assert(self@.subrange(0, self@.len() as int) =~= self@);
        PolicyStoreStats {
            total_policies: self.policies.len(),
            active_policies: active,
            protected_nodes: nodes,
        }
    }

    /// Drops every record.
    pub fn clear(&mut self)
        ensures
            final(self)@ == Seq::<ActivePolicyView>::empty(),
            final(self).well_formed(),
    {
        self.policies = Vec::new();
        assert(self@ =~= Seq::<ActivePolicyView>::empty());
    }
}

proof fn lemma_find_is_member(s: Seq<ActivePolicyView>, id: u64)
    requires
        ids_unique(s),
        has_policy(s, id),
    ensures
        forall|i: int| 0 <= i < s.len() && s[i].policy_id == id ==> find_policy(s, id) == Some(s[i]),
    decreases s.len(),
{
    if s[0].policy_id != id {
        let t = s.subrange(1, s.len() as int);
        let i = choose|i: int| 0 <= i < s.len() && s[i].policy_id == id;
        assert(t[i - 1] == s[i]);
        assert(ids_unique(t)) by {
            assert forall|a: int, b: int| 0 <= a < b < t.len() implies #[trigger] t[a].policy_id
                != #[trigger] t[b].policy_id by {
                assert(t[a] == s[a + 1] && t[b] == s[b + 1]);
            }
        }
        lemma_find_is_member(t, id);
        assert forall|k: int| 0 <= k < s.len() && s[k].policy_id == id implies find_policy(s, id)
            == Some(s[k]) by {
            assert(k != 0);
            assert(t[k - 1] == s[k]);
        }
    } else {
        assert forall|k: int| 0 <= k < s.len() && s[k].policy_id == id implies find_policy(s, id)
            == Some(s[k]) by {
            if k != 0 {
                assert(s[0].policy_id != s[k].policy_id);
            }
        }
    }
}

} // verus!
