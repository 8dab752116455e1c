//! The identifier-addressed filesystem tree, populated lazily, and the only
//! place where a node id is mapped to a path.
use vstd::prelude::*;
use std::collections::HashMap;
use crate::paths::{trim_separators, trim_seps};
pub use crate::fs_node::{EntryType, FileSystemNode, NodeView};
use crate::fs_node::node_views;

verus! {

broadcast use {
    vstd::std_specs::hash::group_hash_axioms,
    crate::fs_node::lemma_node_views_contains,
    crate::fs_node::lemma_node_views_index,
};

/// The id of the synthetic root.
pub const ROOT_ID: u64 = 1;

/// The mathematical value of the index: its nodes by id, and the next id
/// to issue.
pub struct IndexView {
    pub nodes: Map<u64, NodeView>,
    pub next_id: u64,
}

/// A node is consistent with the tree: its key is its id, below the next id
/// to issue; a non-root node's parent exists, has a smaller id and lists it;
/// each listed child exists and names this node as its parent.
pub open spec fn node_ok(v: IndexView, k: u64) -> bool {
    let n = v.nodes[k];
    &&& n.id == k
    &&& k < v.next_id
    &&& k == ROOT_ID <==> n.parent_id is None
    &&& k != ROOT_ID ==> {
        let p = n.parent_id.unwrap();
        &&& v.nodes.contains_key(p)
        &&& p < k
        &&& v.nodes[p].children_ids.contains(k)
    }
    &&& n.children_ids.no_duplicates()
    &&& forall|i: int|
        0 <= i < n.children_ids.len() ==> v.nodes.contains_key(#[trigger] n.children_ids[i])
            && v.nodes[n.children_ids[i]].parent_id == Some(k)
}

/// The tree invariant: a root, and every node consistent.
pub open spec fn index_wf(v: IndexView) -> bool {
    &&& v.nodes.contains_key(ROOT_ID)
    &&& v.nodes[ROOT_ID].entry_type == EntryType::VirtualRoot
    &&& ROOT_ID < v.next_id
    &&& forall|k: u64| #[trigger] v.nodes.contains_key(k) ==> node_ok(v, k)
}

/// Each node of a well-formed index is consistent.
pub proof fn lemma_wf_node(v: IndexView, k: u64)
    requires
        index_wf(v),
        v.nodes.contains_key(k),
    ensures
        node_ok(v, k),
{
}

/// The ids of the expanded nodes.
pub open spec fn expanded_ids(v: IndexView) -> Set<u64> {
    v.nodes.dom().filter(|k: u64| v.nodes[k].is_expanded)
}

/// A node that can hold children.
pub open spec fn is_container(t: EntryType) -> bool {
    t == EntryType::Drive || t == EntryType::Directory
}

/// What a caller supplies for a new node; the index fills in the id, the
/// parent and the (empty) child list.
pub struct NewNode {
    pub name: String,
    pub entry_type: EntryType,
    pub nt_path: String,
    pub display_path: String,
    pub size: Option<u64>,
    pub modified_time: u64,
    pub created_time: u64,
    pub attributes: u32,
    pub is_accessible: bool,
}

impl View for NewNode {
    type V = NodeView;

    /// The supplied fields; id, parent, children and expansion are filled in
    /// when the node is stored.
    open spec fn view(&self) -> NodeView {
        NodeView {
            id: 0,
            name: self.name@,
            entry_type: self.entry_type,
            parent_id: None,
            children_ids: Seq::empty(),
            nt_path: self.nt_path@,
            display_path: self.display_path@,
            size: self.size,
            modified_time: self.modified_time,
            created_time: self.created_time,
            attributes: self.attributes,
            is_expanded: false,
            is_accessible: self.is_accessible,
        }
    }
}

/// The node stored for `n` under `parent` with `id`.
pub open spec fn stored_node(id: u64, parent: u64, n: NodeView) -> NodeView {
    NodeView {
        id,
        parent_id: Some(parent),
        children_ids: Seq::empty(),
        is_expanded: false,
        ..n
    }
}

/// The index after a node is added under `parent`.
pub open spec fn with_child(v: IndexView, parent: u64, n: NodeView) -> IndexView {
    let id = v.next_id;
    IndexView {
        nodes: v.nodes.insert(id, stored_node(id, parent, n)).insert(
            parent,
            NodeView { children_ids: v.nodes[parent].children_ids.push(id), ..v.nodes[parent] },
        ),
        next_id: (id + 1) as u64,
    }
}

/// The node supplied for a drive.
pub open spec fn drive_node(letter: Seq<char>, display_name: Seq<char>, nt_path: Seq<char>) -> NodeView {
    NodeView {
        id: 0,
        name: display_name,
        entry_type: EntryType::Drive,
        parent_id: None,
        children_ids: Seq::empty(),
        nt_path,
        display_path: letter.push('\\'),
        size: None,
        modified_time: 0,
        created_time: 0,
        attributes: 0,
        is_expanded: false,
        is_accessible: true,
    }
}

/// The views of (text, id) pairs.
pub open spec fn pair_views(v: Seq<(String, u64)>) -> Seq<(Seq<char>, u64)> {
    Seq::new(v.len(), |i: int| (v[i].0@, v[i].1))
}

/// The views of (text, flag) pairs.
pub open spec fn pair_bool_views(v: Seq<(String, bool)>) -> Seq<(Seq<char>, bool)> {
    Seq::new(v.len(), |i: int| (v[i].0@, v[i].1))
}

/// The (letter, id) pairs of the drives among `ch`, in order.
pub open spec fn drive_entries(v: IndexView, ch: Seq<u64>) -> Seq<(Seq<char>, u64)>
    decreases ch.len(),
{
    if ch.len() == 0 {
        Seq::empty()
    } else {
        let rest = drive_entries(v, ch.drop_last());
        let c = ch.last();
        if v.nodes.contains_key(c) && v.nodes[c].entry_type == EntryType::Drive {
            rest.push((trim_seps(v.nodes[c].display_path), c))
        } else {
            rest
        }
    }
}

/// The root node.
pub open spec fn root_node() -> NodeView {
    NodeView {
        id: ROOT_ID,
        name: "This PC"@,
        entry_type: EntryType::VirtualRoot,
        parent_id: None,
        children_ids: Seq::empty(),
        nt_path: Seq::empty(),
        display_path: "This PC"@,
        size: None,
        modified_time: 0,
        created_time: 0,
        attributes: 0,
        is_expanded: false,
        is_accessible: true,
    }
}

/// The identifier-addressed tree of filesystem entries.
pub struct FilesystemIndex {
    nodes: HashMap<u64, FileSystemNode>,
    next_id: u64,
}

impl View for FilesystemIndex {
    type V = IndexView;

    closed spec fn view(&self) -> IndexView {
        IndexView { nodes: node_views(self.nodes@), next_id: self.next_id }
    }
}

impl FilesystemIndex {
    /// The tree invariant holds.
    pub open spec fn well_formed(&self) -> bool {
        index_wf(self@)
    }
    /// An index holding only the root; ids are issued from 2.
    pub fn new() -> (r: Self)
        ensures
            r.well_formed(),
            r@.nodes == map![ROOT_ID => root_node()],
            r@.next_id == 2,
    {
        let root = FileSystemNode {
            id: ROOT_ID,
            name: String::from_str("This PC"),
            entry_type: EntryType::VirtualRoot,
            parent_id: None,
            children_ids: Vec::new(),
            nt_path: String::new(),
            display_path: String::from_str("This PC"),
            size: None,
            modified_time: 0,
            created_time: 0,
            attributes: 0,
            is_expanded: false,
            is_accessible: true,
        };
        let mut nodes: HashMap<u64, FileSystemNode> = HashMap::new();
        nodes.insert(ROOT_ID, root);
        let r = FilesystemIndex { nodes, next_id: 2 };
        assert(r@.nodes =~= map![ROOT_ID => root_node()]);
        r
    }

    /// The node with `id`, if it is materialised.
    pub fn get_node(&self, id: u64) -> (r: Option<FileSystemNode>)
        ensures
            r is Some <==> self@.nodes.contains_key(id),
            r matches Some(n) ==> n@ == self@.nodes[id],
    {
        match self.nodes.get(&id) {
            Some(n) => Some(n.duplicate()),
            None => None,
        }
    }

    /// Whether `id` is materialised.
    pub fn contains(&self, id: u64) -> (r: bool)
        ensures
            r == self@.nodes.contains_key(id),
    {
        self.nodes.contains_key(&id)
    }

    /// The next id the index will issue.
    pub fn next_id(&self) -> (r: u64)
        ensures
            r == self@.next_id,
    {
        self.next_id
    }

    /// The number of materialised nodes, the root included.
    pub fn node_count(&self) -> (r: usize)
        ensures
            r == self@.nodes.len(),
    {
        proof {
            assert(self.nodes@.dom() =~= self@.nodes.dom());
        }
        self.nodes.len()
    }

    /// The materialised children of `parent_id`, in order; empty when the
    /// node does not exist.
    pub fn get_children(&self, parent_id: u64) -> (r: Vec<FileSystemNode>)
        requires
            self.well_formed(),
        ensures
            self@.nodes.contains_key(parent_id) ==> r@.len() == self@.nodes[parent_id].children_ids.len()
                && forall|i: int|
                0 <= i < r@.len() ==> #[trigger] r@[i]@ == self@.nodes[self@.nodes[
                    parent_id
                ].children_ids[i]],
            !self@.nodes.contains_key(parent_id) ==> r@.len() == 0,
    {
        let mut out: Vec<FileSystemNode> = Vec::new();
        match self.nodes.get(&parent_id) {
            None => out,
            Some(p) => {
                proof {
                    assert(node_ok(self@, parent_id));
                }
                let mut i: usize = 0;
                while i < p.children_ids.len()
                    invariant
                        self.well_formed(),
                        self@.nodes.contains_key(parent_id),
                        node_ok(self@, parent_id),
                        p@ == self@.nodes[parent_id],
                        i <= p.children_ids.len(),
                        out@.len() == i,
                        forall|j: int|
                            0 <= j < i ==> #[trigger] out@[j]@ == self@.nodes[p.children_ids@[j]],
                    decreases p.children_ids.len() - i,
                {
                    let c = p.children_ids[i];
                    proof {
                        assert(self@.nodes.contains_key(p.children_ids@[i as int]));
                    }
                    match self.nodes.get(&c) {
                        Some(n) => out.push(n.duplicate()),
                        None => {
                            assert(false);
                        },
                    }
                    i = i + 1;
                }
                out
            },
        }
    }

    /// Whether the children of `node_id` are loaded.
    pub fn is_expanded(&self, node_id: u64) -> (r: bool)
        ensures
            r == (self@.nodes.contains_key(node_id) && self@.nodes[node_id].is_expanded),
    {
        match self.nodes.get(&node_id) {
            Some(n) => n.is_expanded,
            None => false,
        }
    }

    /// Marks the children of `node_id` as loaded.
    pub fn mark_expanded(&mut self, node_id: u64)
        requires
            old(self).well_formed(),
        ensures
            final(self).well_formed(),
            final(self)@.next_id == old(self)@.next_id,
            final(self)@.nodes == (if old(self)@.nodes.contains_key(node_id) {
                old(self)@.nodes.insert(
                    node_id,
                    NodeView { is_expanded: true, ..old(self)@.nodes[node_id] },
                )
            } else {
                old(self)@.nodes
            }),
    {
        match self.nodes.remove(&node_id) {
            Some(mut n) => {
                n.is_expanded = true;
                self.nodes.insert(node_id, n);
                proof {
                    assert(self@.nodes =~= old(self)@.nodes.insert(
                        node_id,
                        NodeView { is_expanded: true, ..old(self)@.nodes[node_id] },
                    ));
                    assert forall|k: u64| #[trigger] self@.nodes.contains_key(k) implies node_ok(
                        self@,
                        k,
                    ) by {
                        assert(node_ok(old(self)@, k));
                        if k != ROOT_ID {
                            assert(node_ok(old(self)@, k));
                        }
                        let ch = self@.nodes[k].children_ids;
                        assert forall|i: int| 0 <= i < ch.len() implies self@.nodes.contains_key(
                            #[trigger] ch[i],
                        ) && self@.nodes[ch[i]].parent_id == Some(k) by {
                            assert(old(self)@.nodes.contains_key(ch[i]));
                        }
                    }
                }
            },
            None => {
                assert(self@.nodes =~= old(self)@.nodes);
            },
        }
    }

    /// Adds a node under `parent_id` with a fresh id, appended to the
    /// parent's child list. `None` when the parent does not exist or the id
    /// space is exhausted; the index is then unchanged.
    pub fn add_node(&mut self, parent_id: u64, node: NewNode) -> (r: Option<u64>)
        requires
            old(self).well_formed(),
        ensures
            final(self).well_formed(),
            r is Some <==> (old(self)@.nodes.contains_key(parent_id) && old(self)@.next_id
                < u64::MAX),
            r matches Some(id) ==> id == old(self)@.next_id && final(self)@ == with_child(
                old(self)@,
                parent_id,
                node@,
            ),
            r is None ==> final(self)@ == old(self)@,
    {
        if self.next_id == u64::MAX {
            return None;
        }
        let ghost v0 = self@;
        let ghost nv = node@;
        match self.nodes.remove(&parent_id) {
            None => {
                assert(self@.nodes =~= old(self)@.nodes);
                None
            },
            Some(mut p) => {
                let id = self.next_id;
                proof {
                    assert(v0.nodes.contains_key(parent_id));
                    assert(node_ok(v0, parent_id));
                    assert(!v0.nodes.contains_key(id)) by {
                        if v0.nodes.contains_key(id) {
                            assert(node_ok(v0, id));
                        }
                    }
                    assert(!v0.nodes[parent_id].children_ids.contains(id)) by {
                        if v0.nodes[parent_id].children_ids.contains(id) {
                            let ch = v0.nodes[parent_id].children_ids;
                            let i = choose|i: int| 0 <= i < ch.len() && ch[i] == id;
                            assert(v0.nodes.contains_key(ch[i]));
                        }
                    }
                }
                p.children_ids.push(id);
                self.nodes.insert(parent_id, p);
                let child = FileSystemNode {
                    id,
                    name: node.name,
                    entry_type: node.entry_type,
                    parent_id: Some(parent_id),
                    children_ids: Vec::new(),
                    nt_path: node.nt_path,
                    display_path: node.display_path,
                    size: node.size,
                    modified_time: node.modified_time,
                    created_time: node.created_time,
                    attributes: node.attributes,
                    is_expanded: false,
                    is_accessible: node.is_accessible,
                };
                self.nodes.insert(id, child);
                self.next_id = id + 1;
                proof {
                    let w = with_child(v0, parent_id, nv);
                    assert(self@.nodes =~= w.nodes);
                    assert(self@ == w);
                    let pc0 = v0.nodes[parent_id].children_ids;
                    let pc = w.nodes[parent_id].children_ids;
                    assert(pc == pc0.push(id));
                    assert(pc[pc.len() - 1] == id);
                    assert(pc.no_duplicates()) by {
                        assert forall|i: int, j: int|
                            0 <= i < pc.len() && 0 <= j < pc.len() && i != j implies pc[i]
                            != pc[j] by {
                            if i < pc0.len() && j < pc0.len() {
                                assert(pc[i] == pc0[i] && pc[j] == pc0[j]);
                            } else if i < pc0.len() {
                                assert(v0.nodes.contains_key(pc0[i]));
                            } else {
                                assert(v0.nodes.contains_key(pc0[j]));
                            }
                        }
                    }
                    assert(node_ok(w, id));
                    assert forall|k: u64| #[trigger] w.nodes.contains_key(k) implies node_ok(
                        w,
                        k,
                    ) by {
                        if k != id {
                            assert(v0.nodes.contains_key(k));
                            assert(node_ok(v0, k));
                            if k != ROOT_ID {
                                let q = v0.nodes[k].parent_id.unwrap();
                                if q == parent_id {
                                    let i = choose|i: int| 0 <= i < pc0.len() && pc0[i] == k;
                                    assert(pc[i] == k);
                                }
                            }
                            let ch = w.nodes[k].children_ids;
                            assert forall|i: int| 0 <= i < ch.len() implies w.nodes.contains_key(
                                #[trigger] ch[i],
                            ) && w.nodes[ch[i]].parent_id == Some(k) by {
                                if k == parent_id && i == ch.len() - 1 {
                                } else {
                                    assert(v0.nodes[k].children_ids[i] == ch[i]);
                                    assert(v0.nodes.contains_key(ch[i]));
                                }
                            }
                        }
                    }
                }
                Some(id)
            },
        }
    }

    /// Removes the leaf `c`, the last child of `p`.
    fn detach_last_leaf(&mut self, p: u64, c: u64)
        requires
            old(self).well_formed(),
            old(self)@.nodes.contains_key(p),
            old(self)@.nodes[p].children_ids.len() > 0,
            old(self)@.nodes[p].children_ids.last() == c,
            old(self)@.nodes[c].children_ids.len() == 0,
        ensures
            final(self).well_formed(),
            final(self)@.next_id == old(self)@.next_id,
            final(self)@.nodes == old(self)@.nodes.remove(c).insert(
                p,
                NodeView {
                    children_ids: old(self)@.nodes[p].children_ids.drop_last(),
                    ..old(self)@.nodes[p]
                },
            ),
    {
        let ghost v0 = self@;
        proof {
            assert(node_ok(v0, p));
            let ch = v0.nodes[p].children_ids;
            assert(v0.nodes.contains_key(ch[ch.len() - 1]));
            assert(node_ok(v0, c));
        }
        let _ = self.nodes.remove(&c);
        match self.nodes.remove(&p) {
            Some(mut n) => {
                n.children_ids.pop();
                self.nodes.insert(p, n);
            },
            None => {
                assert(false);
            },
        }
        proof {
            let w = self@;
            let ch0 = v0.nodes[p].children_ids;
            assert(w.nodes =~= v0.nodes.remove(c).insert(
                p,
                NodeView { children_ids: ch0.drop_last(), ..v0.nodes[p] },
            ));
            assert(c != ROOT_ID);
            assert forall|k: u64| #[trigger] w.nodes.contains_key(k) implies node_ok(w, k) by {
                assert(v0.nodes.contains_key(k));
                assert(node_ok(v0, k));
                assert(k != c);
                if k != ROOT_ID {
                    let q = v0.nodes[k].parent_id.unwrap();
                    assert(q != c) by {
                        if q == c {
                            let i = choose|i: int|
                                0 <= i < v0.nodes[q].children_ids.len()
                                    && v0.nodes[q].children_ids[i] == k;
                        }
                    }
                    if q == p {
                        let i = choose|i: int|
                            0 <= i < ch0.len() && ch0[i] == k;
                        assert(i != ch0.len() - 1);
                        assert(w.nodes[q].children_ids[i] == k);
                    }
                }
                let ch = w.nodes[k].children_ids;
                if k == p {
                    assert(ch =~= ch0.drop_last());
                    assert forall|i: int, j: int|
                        0 <= i < ch.len() && 0 <= j < ch.len() && i != j implies ch[i]
                        != ch[j] by {
                        assert(ch[i] == ch0[i] && ch[j] == ch0[j]);
                    }
                }
                assert forall|i: int| 0 <= i < ch.len() implies w.nodes.contains_key(
                    #[trigger] ch[i],
                ) && w.nodes[ch[i]].parent_id == Some(k) by {
                    let ck = v0.nodes[k].children_ids;
                    assert(ch[i] == ck[i]);
                    assert(v0.nodes.contains_key(ck[i]));
                    if ck[i] == c {
                        assert(k == p);
                        assert(ck[i] == ck[ck.len() - 1]);
                    }
                }
            }
        }
    }

    /// Removes every descendant of `c`, leaving `c` with no children and not
    /// expanded. Nodes outside the subtree are untouched.
    fn collapse_subtree(&mut self, c: u64)
        requires
            old(self).well_formed(),
            old(self)@.nodes.contains_key(c),
        ensures
            final(self).well_formed(),
            final(self)@.next_id == old(self)@.next_id,
            final(self)@.nodes.contains_key(c),
            final(self)@.nodes[c] == (NodeView {
                children_ids: Seq::empty(),
                is_expanded: false,
                ..old(self)@.nodes[c]
            }),
            forall|k: u64| #[trigger]
                final(self)@.nodes.contains_key(k) ==> old(self)@.nodes.contains_key(k),
            forall|k: u64|
                #![trigger final(self)@.nodes[k]]
                final(self)@.nodes.contains_key(k) && k != c ==> final(self)@.nodes[k]
                    == old(self)@.nodes[k],
            forall|k: u64| #[trigger]
                old(self)@.nodes.contains_key(k) && !final(self)@.nodes.contains_key(k) ==> k > c,
        decreases old(self).next_id - c,
    {
        let ghost v0 = self@;
        loop
            invariant
                self.well_formed(),
                self@.next_id == v0.next_id,
                self.next_id == old(self).next_id,
                self@.nodes.contains_key(c),
                self@.nodes[c] == (NodeView {
                    children_ids: self@.nodes[c].children_ids,
                    is_expanded: self@.nodes[c].is_expanded,
                    ..v0.nodes[c]
                }),
                forall|k: u64| #[trigger] self@.nodes.contains_key(k) ==> v0.nodes.contains_key(k),
                forall|k: u64|
                    #![trigger self@.nodes[k]]
                    self@.nodes.contains_key(k) && k != c ==> self@.nodes[k] == v0.nodes[k],
                forall|k: u64| #[trigger]
                    v0.nodes.contains_key(k) && !self@.nodes.contains_key(k) ==> k > c,
            ensures
                self@.nodes[c].children_ids.len() == 0,
            decreases self@.nodes[c].children_ids.len(),
        {
            let len = match self.nodes.get(&c) {
                Some(n) => n.children_ids.len(),
                None => 0,
            };
            if len == 0 {
                break;
            }
            let last = match self.nodes.get(&c) {
                Some(n) => n.children_ids[len - 1],
                None => 0,
            };
            proof {
                assert(node_ok(self@, c));
                let ch = self@.nodes[c].children_ids;
                assert(self@.nodes.contains_key(ch[ch.len() - 1]));
                assert(node_ok(self@, last));
                assert(last > c);
                assert(last < self@.next_id);
            }
            let ghost before = self@;
            self.collapse_subtree(last);
            proof {
                assert(self@.nodes[c] == before.nodes[c]);
            }
            self.detach_last_leaf(c, last);
            proof {
                assert forall|k: u64|
                    v0.nodes.contains_key(k) && !self@.nodes.contains_key(k) implies k > c by {
                    if before.nodes.contains_key(k) && !self@.nodes.contains_key(k) {
                        if k != last {
                            assert(k > last);
                        }
                    }
                }
            }
        }
        let ghost v1 = self@;
        match self.nodes.remove(&c) {
            Some(mut n) => {
                n.is_expanded = false;
                self.nodes.insert(c, n);
            },
            None => {
                assert(false);
            },
        }
        proof {
            assert(self@.nodes =~= v1.nodes.insert(
                c,
                NodeView { is_expanded: false, ..v1.nodes[c] },
            ));
            assert(v1.nodes[c].children_ids =~= Seq::<u64>::empty());
            let w = self@;
            assert forall|k: u64| #[trigger] w.nodes.contains_key(k) implies node_ok(w, k) by {
                assert(node_ok(v1, k));
                let ch = w.nodes[k].children_ids;
                assert forall|i: int| 0 <= i < ch.len() implies w.nodes.contains_key(
                    #[trigger] ch[i],
                ) && w.nodes[ch[i]].parent_id == Some(k) by {
                    assert(v1.nodes.contains_key(ch[i]));
                }
            }
        }
    }

    /// Unloads the children of `node_id`: its whole subtree leaves the index
    /// (ids are never issued again), its child list is cleared and it is no
    /// longer expanded. Nothing happens for an unknown id.
    pub fn mark_collapsed(&mut self, node_id: u64)
        requires
            old(self).well_formed(),
        ensures
            final(self).well_formed(),
            final(self)@.next_id == old(self)@.next_id,
            old(self)@.nodes.contains_key(node_id) ==> {
                &&& final(self)@.nodes.contains_key(node_id)
                &&& final(self)@.nodes[node_id] == (NodeView {
                    children_ids: Seq::empty(),
                    is_expanded: false,
                    ..old(self)@.nodes[node_id]
                })
                &&& forall|i: int|
                    0 <= i < old(self)@.nodes[node_id].children_ids.len()
                        ==> !final(self)@.nodes.contains_key(
                        #[trigger] old(self)@.nodes[node_id].children_ids[i],
                    )
            },
            !old(self)@.nodes.contains_key(node_id) ==> final(self)@ == old(self)@,
            forall|k: u64| #[trigger]
                final(self)@.nodes.contains_key(k) ==> old(self)@.nodes.contains_key(k),
            forall|k: u64|
                #![trigger final(self)@.nodes[k]]
                final(self)@.nodes.contains_key(k) && k != node_id ==> final(self)@.nodes[k]
                    == old(self)@.nodes[k],
    {
        if !self.nodes.contains_key(&node_id) {
            return;
        }
        let ghost v0 = self@;
        self.collapse_subtree(node_id);
        proof {
            assert(node_ok(v0, node_id));
            let ch = v0.nodes[node_id].children_ids;
            assert forall|i: int| 0 <= i < ch.len() implies !self@.nodes.contains_key(
                #[trigger] ch[i],
            ) by {
                assert(v0.nodes.contains_key(ch[i]));
                if self@.nodes.contains_key(ch[i]) {
                    assert(node_ok(self@, ch[i]));
                    assert(self@.nodes[ch[i]] == v0.nodes[ch[i]]);
                    let q = node_id;
                    assert(self@.nodes[q].children_ids.contains(ch[i]));
                }
            }
        }
    }

    /// Adds a drive under the root: `letter` such as `"C:"`, its display
    /// name, and the device path resolved for it at discovery.
    pub fn add_drive(&mut self, letter: &str, display_name: &str, nt_path: &str) -> (r: Option<u64>)
        requires
            old(self).well_formed(),
        ensures
            final(self).well_formed(),
            r is Some <==> old(self)@.next_id < u64::MAX,
            r matches Some(id) ==> id == old(self)@.next_id && final(self)@ == with_child(
                old(self)@,
                ROOT_ID,
                drive_node(letter@, display_name@, nt_path@),
            ),
            r is None ==> final(self)@ == old(self)@,
    {
        let mut display_path = String::from_str(letter);
        display_path.append("\\");
        proof {
            reveal_strlit("\\");
            assert(display_path@ =~= letter@.push('\\'));
        }
        let node = NewNode {
            name: String::from_str(display_name),
            entry_type: EntryType::Drive,
            nt_path: String::from_str(nt_path),
            display_path,
            size: None,
            modified_time: 0,
            created_time: 0,
            attributes: 0,
            is_accessible: true,
        };
        assert(node@ == drive_node(letter@, display_name@, nt_path@));
        self.add_node(ROOT_ID, node)
    }

    /// The drives under the root, as (letter, id) pairs in the order they
    /// were added.
    pub fn get_drives(&self) -> (r: Vec<(String, u64)>)
        requires
            self.well_formed(),
        ensures
            pair_views(r@) == drive_entries(self@, self@.nodes[ROOT_ID].children_ids),
    {
        let mut out: Vec<(String, u64)> = Vec::new();
        let root = match self.nodes.get(&ROOT_ID) {
            Some(n) => n,
            None => {
                assert(false);
                return out;
            },
        };
        let ghost ch = self@.nodes[ROOT_ID].children_ids;
        let mut i: usize = 0;
        assert(ch.subrange(0, 0) =~= Seq::<u64>::empty());
        assert(pair_views(out@) =~= Seq::<(Seq<char>, u64)>::empty());
        while i < root.children_ids.len()
            invariant
                root@ == self@.nodes[ROOT_ID],
                ch == root.children_ids@,
                i <= ch.len(),
                pair_views(out@) == drive_entries(self@, ch.subrange(0, i as int)),
            decreases ch.len() - i,
        {
            let c = root.children_ids[i];
            match self.nodes.get(&c) {
                Some(n) => {
                    if n.entry_type == EntryType::Drive {
                        let letter = trim_separators(n.display_path.as_str());
                        out.push((letter, c));
                    }
                },
                None => {},
            }
            proof {
                let t = ch.subrange(0, i + 1);
                assert(t.drop_last() =~= ch.subrange(0, i as int));
                assert(t.last() == c);
                assert(pair_views(out@) =~= drive_entries(self@, t));
            }
            i = i + 1;
        }
        assert(ch.subrange(0, ch.len() as int) =~= ch);
        out
    }

    /// Drops every node but the root, which loses its children. Ids already
    /// issued are not issued again.
    pub fn clear(&mut self)
        requires
            old(self).well_formed(),
        ensures
            final(self).well_formed(),
            final(self)@.next_id == old(self)@.next_id,
            final(self)@.nodes == map![ROOT_ID => NodeView {
                children_ids: Seq::empty(),
                is_expanded: false,
                ..old(self)@.nodes[ROOT_ID]
            }],
    {
        let mut root = match self.nodes.get(&ROOT_ID) {
            Some(n) => n.duplicate(),
            None => {
                assert(false);
                return;
            },
        };
        proof {
            assert(node_ok(self@, ROOT_ID));
        }
        root.children_ids = Vec::new();
        root.is_expanded = false;
        let mut nodes: HashMap<u64, FileSystemNode> = HashMap::new();
        nodes.insert(ROOT_ID, root);
        self.nodes = nodes;
        proof {
            assert(self@.nodes =~= map![ROOT_ID => NodeView {
                children_ids: Seq::empty(),
                is_expanded: false,
                ..old(self)@.nodes[ROOT_ID]
            }]);
            assert forall|k: u64| #[trigger] self@.nodes.contains_key(k) implies node_ok(
                self@,
                k,
            ) by {
                assert(k == ROOT_ID);
            }
        }
    }

    /// The ids of all materialised nodes, each once, in no particular order.
    fn all_ids(&self) -> (r: Vec<u64>)
        ensures
            r@.no_duplicates(),
            forall|k: u64| #[trigger] r@.contains(k) <==> self@.nodes.contains_key(k),
    {
        let mut out: Vec<u64> = Vec::new();
        let ghost all = vstd::std_specs::iter::IteratorSpec::remaining(
            &vstd::std_specs::hash::spec_keys_iter(&self.nodes),
        ).unref();
        proof {
            vstd::std_specs::hash::axiom_spec_keys_iter(&self.nodes);
        }
        for k in it: self.nodes.keys()
            invariant
                it.seq().unref() == all,
                out@ == all.take(it.index()),
        {
            proof {
                assert(it.index() < it.seq().len());
                assert(*k == all[it.index()]);
            }
            out.push(*k);
            proof {
                assert(out@ =~= all.take(it.index() + 1));
            }
        }
        proof {
            assert(out@ =~= all);
            assert forall|k: u64| #[trigger] out@.contains(k) <==> self@.nodes.contains_key(k) by {
                assert(out@.to_set().contains(k) <==> out@.contains(k));
            }
        }
        out
    }

    /// Every materialised node, each once, in no particular order.
    pub fn get_all_nodes(&self) -> (r: Vec<FileSystemNode>)
        requires
            self.well_formed(),
        ensures
            forall|i: int|
                0 <= i < r@.len() ==> self@.nodes.contains_key((#[trigger] r@[i]).id)
                    && r@[i]@ == self@.nodes[r@[i].id],
            r@.len() == self@.nodes.len(),
            forall|i: int, j: int|
                0 <= i < j < r@.len() ==> (#[trigger] r@[i]).id != (#[trigger] r@[j]).id,
            forall|k: u64|
                self@.nodes.contains_key(k) ==> exists|i: int| 0 <= i < r@.len() && #[trigger] r@[i].id == k,
    {
        let ids = self.all_ids();
        let mut out: Vec<FileSystemNode> = Vec::new();
        let mut i: usize = 0;
        while i < ids.len()
            invariant
                self.well_formed(),
                i <= ids.len(),
                ids@.no_duplicates(),
                forall|k: u64| #[trigger] ids@.contains(k) <==> self@.nodes.contains_key(k),
                out@.len() == i,
                forall|j: int| 0 <= j < i ==> (#[trigger] out@[j]).id == ids@[j],
                forall|j: int| 0 <= j < i ==> self@.nodes.contains_key((#[trigger] out@[j]).id)
                    && out@[j]@ == self@.nodes[out@[j].id],
            decreases ids.len() - i,
        {
            let id = ids[i];
            assert(ids@.contains(id));
            match self.nodes.get(&id) {
                Some(n) => {
                    let c = n.duplicate();
                    proof {
                        assert(c@ == self@.nodes[id]);
                        lemma_wf_node(self@, id);
                        assert(c.id == id);
                    }
                    out.push(c);
                },
                None => {
                    assert(false);
                },
            }
            i = i + 1;
        }
        proof {
            ids@.unique_seq_to_set();
            assert(ids@.to_set() =~= self@.nodes.dom());
            assert forall|k: u64| self@.nodes.contains_key(k) implies exists|i: int|
                0 <= i < out@.len() && #[trigger] out@[i].id == k by {
                assert(ids@.contains(k));
                let j = choose|j: int| 0 <= j < ids@.len() && ids@[j] == k;
                assert(out@[j].id == k);
            }
        }
        out
    }

    /// The number of expanded nodes.
    pub fn count_expanded_nodes(&self) -> (r: usize)
        ensures
            r == expanded_ids(self@).len(),
    {
        let ids = self.all_ids();
        let mut n: usize = 0;
        let ghost mut e: Seq<u64> = Seq::empty();
        let mut i: usize = 0;
        while i < ids.len()
            invariant
                i <= ids.len(),
                ids@.no_duplicates(),
                forall|k: u64| #[trigger] ids@.contains(k) <==> self@.nodes.contains_key(k),
                n == e.len(),
                n <= i,
                e.no_duplicates(),
                forall|k: u64|
                    #[trigger] e.contains(k) <==> (ids@.take(i as int).contains(k)
                        && self@.nodes[k].is_expanded),
            decreases ids.len() - i,
        {
            let id = ids[i];
            assert(ids@.contains(id));
            let expanded = match self.nodes.get(&id) {
                Some(node) => node.is_expanded,
                None => false,
            };
            assert(expanded == self@.nodes[id].is_expanded);
            let ghost t0 = ids@.take(i as int);
            let ghost t1 = ids@.take(i + 1);
            let ghost e0 = e;
            proof {
                assert(!ids@.take(i as int).contains(id)) by {
                    if ids@.take(i as int).contains(id) {
                        let j = choose|j: int| 0 <= j < i && ids@.take(i as int)[j] == id;
                        assert(ids@[j] == ids@[i as int]);
                    }
                }
                assert forall|k: u64| #[trigger] t1.contains(k) <==> (t0.contains(k) || k == id) by {
                    if t1.contains(k) {
                        let j = choose|j: int| 0 <= j < t1.len() && t1[j] == k;
                        if j < i {
                            assert(t0[j] == k);
                        }
                    }
                    if t0.contains(k) {
                        let j = choose|j: int| 0 <= j < t0.len() && t0[j] == k;
                        assert(t1[j] == k);
                    }
                    if k == id {
                        assert(t1[i as int] == k);
                    }
                }
            }
            if expanded {
                proof {
                    assert(!e.contains(id));
                    e = e.push(id);
                    assert(e.drop_last() =~= e0);
                    assert forall|k: u64| #[trigger] e.contains(k) <==> (e.drop_last().contains(k)
                        || k == id) by {
                        if e.contains(k) {
                            let j = choose|j: int| 0 <= j < e.len() && e[j] == k;
                            if j < e.len() - 1 {
                                assert(e.drop_last()[j] == k);
                            }
                        }
                        if e.drop_last().contains(k) {
                            let j = choose|j: int| 0 <= j < e.len() - 1 && e.drop_last()[j] == k;
                            assert(e[j] == k);
                        }
                        if k == id {
                            assert(e[e.len() - 1] == k);
                        }
                    }
                }
                n = n + 1;
            }
            proof {
                assert forall|k: u64| #[trigger] e.contains(k) <==> (t1.contains(k)
                    && self@.nodes[k].is_expanded) by {
                    assert(t1.contains(k) <==> (t0.contains(k) || k == id));
                    assert(e0.contains(k) <==> (t0.contains(k) && self@.nodes[k].is_expanded));
                    if expanded {
                        assert(e.contains(k) <==> (e0.contains(k) || k == id));
                    } else {
                        assert(e == e0);
                    }
                }
            }
            i = i + 1;
        }
        proof {
            assert(ids@.take(ids@.len() as int) =~= ids@);
            assert(e.to_set() =~= expanded_ids(self@));
            e.unique_seq_to_set();
        }
        n
    }

    /// A node whose display path is `display_path`, if any.
    pub fn get_node_by_path(&self, display_path: &str) -> (r: Option<FileSystemNode>)
        requires
            self.well_formed(),
        ensures
            match r {
                Some(n) => self@.nodes.contains_key(n.id) && n@ == self@.nodes[n.id]
                    && n@.display_path == display_path@,
                None => forall|k: u64|
                    #[trigger] self@.nodes.contains_key(k) ==> self@.nodes[k].display_path
                        != display_path@,
            },
    {
        let nodes = self.get_all_nodes();
        let mut i: usize = 0;
        while i < nodes.len()
            invariant
                i <= nodes@.len(),
                forall|j: int|
                    0 <= j < nodes@.len() ==> self@.nodes.contains_key((#[trigger] nodes@[j]).id)
                        && nodes@[j]@ == self@.nodes[nodes@[j].id],
                forall|k: u64|
                    self@.nodes.contains_key(k) ==> exists|j: int|
                        0 <= j < nodes@.len() && #[trigger] nodes@[j].id == k,
                forall|j: int| 0 <= j < i ==> (#[trigger] nodes@[j])@.display_path != display_path@,
            decreases nodes.len() - i,
        {
            if crate::kernel_policy::text_eq(nodes[i].display_path.as_str(), display_path) {
                return Some(nodes[i].duplicate());
            }
            i = i + 1;
        }
        proof {
            assert forall|k: u64| #[trigger] self@.nodes.contains_key(k) implies self@.nodes[k].display_path
                != display_path@ by {
                let j = choose|j: int| 0 <= j < nodes@.len() && #[trigger] nodes@[j].id == k;
                assert(nodes@[j]@.display_path != display_path@);
            }
        }
        None
    }

    /// The id of a node whose display path is `display_path`, if any.
    pub fn get_id_by_path(&self, display_path: &str) -> (r: Option<u64>)
        requires
            self.well_formed(),
        ensures
            match r {
                Some(id) => self@.nodes.contains_key(id) && self@.nodes[id].display_path
                    == display_path@,
                None => forall|k: u64|
                    #[trigger] self@.nodes.contains_key(k) ==> self@.nodes[k].display_path
                        != display_path@,
            },
    {
        match self.get_node_by_path(display_path) {
            Some(n) => Some(n.id),
            None => None,
        }
    }

    /// The lower-case name of an entry kind.
    pub fn entry_type_to_string(&self, entry_type: EntryType) -> (r: &'static str)
        ensures
            r@ == (match entry_type {
                EntryType::VirtualRoot => "virtual_root"@,
                EntryType::Drive => "drive"@,
                EntryType::Directory => "directory"@,
                EntryType::File => "file"@,
            }),
    {
        match entry_type {
            EntryType::VirtualRoot => "virtual_root",
            EntryType::Drive => "drive",
            EntryType::Directory => "directory",
            EntryType::File => "file",
        }
    }

    /// The device path stored on `id`.
    pub fn resolve_nt_path(&self, id: u64) -> (r: Option<String>)
        ensures
            r is Some <==> self@.nodes.contains_key(id),
            r matches Some(p) ==> p@ == self@.nodes[id].nt_path,
    {
        match self.nodes.get(&id) {
            Some(n) => Some(n.nt_path.clone()),
            None => None,
        }
    }

    /// The display path of `id`.
    pub fn get_display_path(&self, id: u64) -> (r: Option<String>)
        ensures
            r is Some <==> self@.nodes.contains_key(id),
            r matches Some(p) ==> p@ == self@.nodes[id].display_path,
    {
        match self.nodes.get(&id) {
            Some(n) => Some(n.display_path.clone()),
            None => None,
        }
    }
}

} // verus!
