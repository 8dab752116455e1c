//! The administrator-safe read surface of the index: ids, names and
//! metadata only, never a device path.
use vstd::prelude::*;
use crate::fs_index::{drive_entries, EntryType, FileSystemNode, FilesystemIndex, IndexView, NodeView, ROOT_ID};
use crate::text::{is_blank, is_blank_text};

verus! {

/// A node as the administrator side may see it.
#[derive(Debug)]
pub struct SafeNodeInfo {
    pub id: u64,
    pub name: String,
    pub entry_type: String,
    pub size: Option<u64>,
    pub modified_time: u64,
    pub created_time: u64,
    pub has_children: bool,
    pub is_expanded: bool,
    pub is_accessible: bool,
    pub display_path: String,
}

pub struct SafeNodeView {
    pub id: u64,
    pub name: Seq<char>,
    pub entry_type: Seq<char>,
    pub size: Option<u64>,
    pub modified_time: u64,
    pub created_time: u64,
    pub has_children: bool,
    pub is_expanded: bool,
    pub is_accessible: bool,
    pub display_path: Seq<char>,
}

impl View for SafeNodeInfo {
    type V = SafeNodeView;

    open spec fn view(&self) -> SafeNodeView {
        SafeNodeView {
            id: self.id,
            name: self.name@,
            entry_type: self.entry_type@,
            size: self.size,
            modified_time: self.modified_time,
            created_time: self.created_time,
            has_children: self.has_children,
            is_expanded: self.is_expanded,
            is_accessible: self.is_accessible,
            display_path: self.display_path@,
        }
    }
}

/// A drive as the administrator side sees it.
#[derive(Debug)]
pub struct DriveInfo {
    pub drive_letter: String,
    pub display_name: String,
    pub node_id: u64,
}

/// Counts over the index.
#[derive(Debug)]
pub struct SystemStats {
    pub total_nodes: usize,
    pub total_drives: usize,
    pub expanded_nodes: usize,
    pub memory_usage_bytes: usize,
    pub scan_state: ScanState,
}

/// The scanner's state.
#[derive(Debug)]
pub enum ScanState {
    Idle,
    Expanding,
    Ready,
    Error(String),
}

impl ScanState {
    /// The state's name.
    pub fn as_str(&self) -> (r: &'static str)
        ensures
            r@ == (match self {
                ScanState::Idle => "idle"@,
                ScanState::Expanding => "expanding"@,
                ScanState::Ready => "ready"@,
                ScanState::Error(_) => "error"@,
            }),
    {
        match self {
            ScanState::Idle => "idle",
            ScanState::Expanding => "expanding",
            ScanState::Ready => "ready",
            ScanState::Error(_) => "error",
        }
    }
}

/// The answer to a query.
#[derive(Debug)]
pub enum QueryResponse {
    Drives(Vec<DriveInfo>),
    Nodes(Vec<SafeNodeInfo>),
    Node(SafeNodeInfo),
    Stats(SystemStats),
    Error(String),
}

pub open spec fn entry_kind_name(t: EntryType) -> Seq<char> {
    match t {
        EntryType::VirtualRoot => "VirtualRoot"@,
        EntryType::Drive => "Drive"@,
        EntryType::Directory => "Directory"@,
        EntryType::File => "File"@,
    }
}

/// The safe view of a node: everything but its device path, its parent and
/// its child list.
pub open spec fn safe_of(n: NodeView) -> SafeNodeView {
    SafeNodeView {
        id: n.id,
        name: n.name,
        entry_type: entry_kind_name(n.entry_type),
        size: n.size,
        modified_time: n.modified_time,
        created_time: n.created_time,
        has_children: n.children_ids.len() > 0 || n.entry_type == EntryType::Directory
            || n.entry_type == EntryType::Drive,
        is_expanded: n.is_expanded,
        is_accessible: n.is_accessible,
        display_path: n.display_path,
    }
}

pub open spec fn safe_views(v: Seq<SafeNodeInfo>) -> Seq<SafeNodeView> {
    Seq::new(v.len(), |i: int| v[i]@)
}

/// The name of what `str::to_lowercase` returns for a text.
pub uninterp spec fn lower_of(s: Seq<char>) -> Seq<char>;

/// Relies on `str::to_lowercase`: the lower-case form of the text, which
/// depends on its characters alone.
#[verifier::external_body]
fn lowercase(s: &str) -> (r: String)
    ensures
        r@ == lower_of(s@),
{
    s.to_lowercase()
}

/// `t` occurs in `s` at some position.
pub open spec fn occurs_in(t: Seq<char>, s: Seq<char>) -> bool {
    exists|k: int| 0 <= k && k + t.len() <= s.len() && #[trigger] s.subrange(k, k + t.len()) == t
}

/// Whether the folded name holds the folded query. Both are already in the
/// case-folded form that the search compares.
pub fn matches_folded(name: &str, query: &str) -> (r: bool)
    ensures
        r == occurs_in(query@, name@),
{
    let n = name.unicode_len();
    let m = query.unicode_len();
    if m > n {
        proof {
            assert forall|k: int| 0 <= k && k + m <= n implies #[trigger] name@.subrange(k, k + m)
                != query@ by {}
        }
        return false;
    }
    let mut k: usize = 0;
    while k <= n - m
        invariant
            n == name@.len(),
            m == query@.len(),
            m <= n,
            k <= n - m + 1,
            forall|j: int| 0 <= j < k ==> #[trigger] name@.subrange(j, j + m) != query@,
        decreases n - k,
    {
        let mut i: usize = 0;
        let mut same = true;
        while i < m
            invariant
                n == name@.len(),
                m == query@.len(),
                k + m <= n,
                i <= m,
                same == (forall|j: int| 0 <= j < i ==> name@[k + j] == query@[j]),
            decreases m - i,
        {
            if name.get_char(k + i) != query.get_char(i) {
                same = false;
            }
            i = i + 1;
        }
        if same {
            assert(name@.subrange(k as int, k + m) =~= query@);
            return true;
        }
        assert(name@.subrange(k as int, k + m) != query@) by {
            let j = choose|j: int| 0 <= j < m && name@[k + j] != query@[j];
            assert(name@.subrange(k as int, k + m)[j] == name@[k + j]);
        }
        k = k + 1;
    }
    proof {
        assert forall|j: int| 0 <= j && j + m <= n implies #[trigger] name@.subrange(j, j + m)
            != query@ by {
            assert(j < k);
        }
    }
    false
}

/// The children of `parent` (in order) whose folded name holds `folded_query`.
pub open spec fn search_hits(v: IndexView, ch: Seq<u64>, folded_query: Seq<char>) -> Seq<SafeNodeView>
    decreases ch.len(),
{
    if ch.len() == 0 {
        Seq::empty()
    } else {
        let rest = search_hits(v, ch.drop_last(), folded_query);
        let c = ch.last();
        if v.nodes.contains_key(c) && occurs_in(folded_query, lower_of(v.nodes[c].name)) {
            rest.push(safe_of(v.nodes[c]))
        } else {
            rest
        }
    }
}

fn safe_info(n: &FileSystemNode) -> (r: SafeNodeInfo)
    ensures
        r@ == safe_of(n@),
{
    SafeNodeInfo {
        id: n.id,
        name: n.name.clone(),
        entry_type: String::from_str(
            match n.entry_type {
                EntryType::VirtualRoot => "VirtualRoot",
                EntryType::Drive => "Drive",
                EntryType::Directory => "Directory",
                EntryType::File => "File",
            },
        ),
        size: n.size,
        modified_time: n.modified_time,
        created_time: n.created_time,
        has_children: n.children_ids.len() > 0 || n.entry_type == EntryType::Directory
            || n.entry_type == EntryType::Drive,
        is_expanded: n.is_expanded,
        is_accessible: n.is_accessible,
        display_path: n.display_path.clone(),
    }
}

/// The read-only query surface.
pub struct QueryInterface;

impl QueryInterface {
    pub fn new() -> (r: Self) {
        QueryInterface
    }

    /// The drives, with their display names.
    pub fn get_drives(&self, index: &FilesystemIndex) -> (r: Vec<DriveInfo>)
        requires
            index.well_formed(),
        ensures
            r@.len() == drive_entries(index@, index@.nodes[ROOT_ID].children_ids).len(),
            forall|i: int|
                0 <= i < r@.len() ==> {
                    let e = drive_entries(index@, index@.nodes[ROOT_ID].children_ids)[i];
                    &&& (#[trigger] r@[i]).drive_letter@ == e.0
                    &&& r@[i].node_id == e.1
                    &&& index@.nodes.contains_key(e.1) ==> r@[i].display_name@
                        == index@.nodes[e.1].name
                },
    {
        let drives = index.get_drives();
        let mut out: Vec<DriveInfo> = Vec::new();
        let ghost es = drive_entries(index@, index@.nodes[ROOT_ID].children_ids);
        let mut i: usize = 0;
        while i < drives.len()
            invariant
                crate::fs_index::pair_views(drives@) == es,
                i <= drives.len(),
                out@.len() == i,
                forall|j: int|
                    0 <= j < i ==> {
                        &&& (#[trigger] out@[j]).drive_letter@ == es[j].0
                        &&& out@[j].node_id == es[j].1
                        &&& index@.nodes.contains_key(es[j].1) ==> out@[j].display_name@
                            == index@.nodes[es[j].1].name
                    },
            decreases drives.len() - i,
        {
            assert(es[i as int] == (drives@[i as int].0@, drives@[i as int].1));
            let id = drives[i].1;
            let name = match index.get_node(id) {
                Some(n) => n.name,
                None => String::new(),
            };
            out.push(DriveInfo { drive_letter: drives[i].0.clone(), display_name: name, node_id: id });
            i = i + 1;
        }
        out
    }

    /// Counts of nodes, drives and expanded nodes.
    pub fn get_stats(&self, index: &FilesystemIndex) -> (r: QueryResponse)
        requires
            index.well_formed(),
        ensures
            r matches QueryResponse::Stats(s) && s.total_nodes == index@.nodes.len()
                && s.total_drives == drive_entries(index@, index@.nodes[ROOT_ID].children_ids).len()
                && s.expanded_nodes == crate::fs_index::expanded_ids(index@).len()
                && s.memory_usage_bytes == 0 && s.scan_state is Idle,
    {
        let drives = index.get_drives();
        proof {
            assert(crate::fs_index::pair_views(drives@).len() == drives@.len());
        }
        QueryResponse::Stats(
            SystemStats {
                total_nodes: index.node_count(),
                total_drives: drives.len(),
                expanded_nodes: index.count_expanded_nodes(),
                memory_usage_bytes: 0,
                scan_state: ScanState::Idle,
            },
        )
    }

    /// The device path of `node_id`, for the agent's own use only.
    pub fn resolve_nt_path_internal(&self, index: &FilesystemIndex, node_id: u64) -> (r: Result<
        String,
        crate::error::PolicyError,
    >)
        ensures
            match r {
                Ok(p) => index@.nodes.contains_key(node_id) && p@ == index@.nodes[node_id].nt_path,
                Err(e) => !index@.nodes.contains_key(node_id) && e
                    == crate::error::PolicyError::NotFound,
            },
    {
        match index.resolve_nt_path(node_id) {
            Some(p) => Ok(p),
            None => Err(crate::error::PolicyError::NotFound),
        }
    }

    /// The display path of `node_id`.
    pub fn get_display_path(&self, index: &FilesystemIndex, node_id: u64) -> (r: Result<
        String,
        crate::error::PolicyError,
    >)
        ensures
            match r {
                Ok(p) => index@.nodes.contains_key(node_id) && p@
                    == index@.nodes[node_id].display_path,
                Err(e) => !index@.nodes.contains_key(node_id) && e
                    == crate::error::PolicyError::NotFound,
            },
    {
        match index.get_display_path(node_id) {
            Some(p) => Ok(p),
            None => Err(crate::error::PolicyError::NotFound),
        }
    }

    /// The safe view of `node_id`, or an error when it is not materialised.
    pub fn get_node(&self, index: &FilesystemIndex, node_id: u64) -> (r: QueryResponse)
        ensures
            index@.nodes.contains_key(node_id) ==> (r matches QueryResponse::Node(n) && n@
                == safe_of(index@.nodes[node_id])),
            !index@.nodes.contains_key(node_id) ==> r is Error,
    {
        match index.get_node(node_id) {
            Some(n) => QueryResponse::Node(safe_info(&n)),
            None => QueryResponse::Error(String::from_str("node not found")),
        }
    }

    /// The safe views of the loaded children of `parent_id`, in order, or an
    /// error when it is not materialised.
    pub fn list_children(&self, index: &FilesystemIndex, parent_id: u64) -> (r: QueryResponse)
        requires
            index.well_formed(),
        ensures
            index@.nodes.contains_key(parent_id) ==> (r matches QueryResponse::Nodes(ns)
                && safe_views(ns@) == Seq::new(
                index@.nodes[parent_id].children_ids.len(),
                |i: int| safe_of(index@.nodes[index@.nodes[parent_id].children_ids[i]]),
            )),
            !index@.nodes.contains_key(parent_id) ==> r is Error,
    {
        if !index.contains(parent_id) {
            return QueryResponse::Error(String::from_str("parent node not found"));
        }
        let children = index.get_children(parent_id);
        let mut out: Vec<SafeNodeInfo> = Vec::new();
        let mut i: usize = 0;
        while i < children.len()
            invariant
                i <= children.len(),
                out@.len() == i,
                forall|j: int| 0 <= j < i ==> #[trigger] out@[j]@ == safe_of(children@[j]@),
            decreases children.len() - i,
        {
            out.push(safe_info(&children[i]));
            i = i + 1;
        }
        assert(safe_views(out@) =~= Seq::new(
            index@.nodes[parent_id].children_ids.len(),
            |i: int| safe_of(index@.nodes[index@.nodes[parent_id].children_ids[i]]),
        ));
        QueryResponse::Nodes(out)
    }

    /// The loaded children of `parent_id` whose name holds `query`, compared
    /// case-insensitively (both sides lower-cased), in order. A blank query or
    /// an unknown parent is an error. Only loaded children are searched.
    pub fn search_local(&self, index: &FilesystemIndex, parent_id: u64, query: &str) -> (r:
        QueryResponse)
        requires
            index.well_formed(),
        ensures
            is_blank(query@) ==> r is Error,
            !is_blank(query@) && !index@.nodes.contains_key(parent_id) ==> r is Error,
            !is_blank(query@) && index@.nodes.contains_key(parent_id) ==> (
            r matches QueryResponse::Nodes(ns) && safe_views(ns@) == search_hits(
                index@,
                index@.nodes[parent_id].children_ids,
                lower_of(query@),
            )),
    {
        if is_blank_text(query) {
            return QueryResponse::Error(String::from_str("empty search query"));
        }
        if !index.contains(parent_id) {
            return QueryResponse::Error(String::from_str("parent node not found"));
        }
        let folded = lowercase(query);
        let children = index.get_children(parent_id);
        let ghost ch = index@.nodes[parent_id].children_ids;
        let mut out: Vec<SafeNodeInfo> = Vec::new();
        let mut i: usize = 0;
        assert(safe_views(out@) =~= search_hits(index@, ch.subrange(0, 0), folded@));
        while i < children.len()
            invariant
                index.well_formed(),
                index@.nodes.contains_key(parent_id),
                ch == index@.nodes[parent_id].children_ids,
                children@.len() == ch.len(),
                forall|j: int|
                    0 <= j < children@.len() ==> #[trigger] children@[j]@ == index@.nodes[ch[j]],
                folded@ == lower_of(query@),
                i <= children.len(),
                safe_views(out@) == search_hits(index@, ch.subrange(0, i as int), folded@),
            decreases children.len() - i,
        {
            proof {
                crate::fs_index::lemma_wf_node(index@, parent_id);
                assert(index@.nodes.contains_key(ch[i as int]));
                let t = ch.subrange(0, i + 1);
                assert(t.drop_last() =~= ch.subrange(0, i as int));
                assert(t.last() == ch[i as int]);
                assert(children@[i as int]@ == index@.nodes[ch[i as int]]);
            }
            let name = lowercase(children[i].name.as_str());
            if matches_folded(name.as_str(), folded.as_str()) {
                out.push(safe_info(&children[i]));
            }
            proof {
                assert(safe_views(out@) =~= search_hits(index@, ch.subrange(0, i + 1), folded@));
            }
            i = i + 1;
        }
        assert(ch.subrange(0, ch.len() as int) =~= ch);
        QueryResponse::Nodes(out)
    }
}

} // verus!
