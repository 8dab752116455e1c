//! One entry of the filesystem index, and the view of a table of entries.
use vstd::prelude::*;

verus! {

/// The kind of an index entry.
#[derive(Debug, Clone, Copy, PartialEq, Eq, Structural)]
pub enum EntryType {
    VirtualRoot,
    Drive,
    Directory,
    File,
}

/// One entry of the index.
#[derive(Debug)]
pub struct FileSystemNode {
    pub id: u64,
    pub name: String,
    pub entry_type: EntryType,
    /// None only for the root.
    pub parent_id: Option<u64>,
    /// The materialised children, in the order they were added.
    pub children_ids: Vec<u64>,
    /// The device path; never handed to the administrator side.
    pub nt_path: String,
    /// The drive-letter path, for diagnostics.
    pub display_path: String,
    /// Files only.
    pub size: Option<u64>,
    pub modified_time: u64,
    pub created_time: u64,
    pub attributes: u32,
    /// Whether the children have been loaded.
    pub is_expanded: bool,
    pub is_accessible: bool,
}

/// The mathematical value of a node.
pub struct NodeView {
    pub id: u64,
    pub name: Seq<char>,
    pub entry_type: EntryType,
    pub parent_id: Option<u64>,
    pub children_ids: Seq<u64>,
    pub nt_path: Seq<char>,
    pub display_path: Seq<char>,
    pub size: Option<u64>,
    pub modified_time: u64,
    pub created_time: u64,
    pub attributes: u32,
    pub is_expanded: bool,
    pub is_accessible: bool,
}

impl View for FileSystemNode {
    type V = NodeView;

    open spec fn view(&self) -> NodeView {
        NodeView {
            id: self.id,
            name: self.name@,
            entry_type: self.entry_type,
            parent_id: self.parent_id,
            children_ids: self.children_ids@,
            nt_path: self.nt_path@,
            display_path: self.display_path@,
            size: self.size,
            modified_time: self.modified_time,
            created_time: self.created_time,
            attributes: self.attributes,
            is_expanded: self.is_expanded,
            is_accessible: self.is_accessible,
        }
    }
}

fn copy_ids(v: &Vec<u64>) -> (r: Vec<u64>)
    ensures
        r@ == v@,
{
    let mut out: Vec<u64> = Vec::new();
    let mut i: usize = 0;
    while i < v.len()
        invariant
            i <= v.len(),
            out@ == v@.subrange(0, i as int),
        decreases v.len() - i,
    {
        out.push(v[i]);
        assert(out@ =~= v@.subrange(0, i + 1));
        i = i + 1;
    }
    assert(v@.subrange(0, v.len() as int) =~= v@);
    out
}

impl FileSystemNode {
    /// A copy of this node.
    pub fn duplicate(&self) -> (r: Self)
        ensures
            r@ == self@,
    {
        FileSystemNode {
            id: self.id,
            name: self.name.clone(),
            entry_type: self.entry_type,
            parent_id: self.parent_id,
            children_ids: copy_ids(&self.children_ids),
            nt_path: self.nt_path.clone(),
            display_path: self.display_path.clone(),
            size: self.size,
            modified_time: self.modified_time,
            created_time: self.created_time,
            attributes: self.attributes,
            is_expanded: self.is_expanded,
            is_accessible: self.is_accessible,
        }
    }
}



pub(crate) open spec fn node_views(m: Map<u64, FileSystemNode>) -> Map<u64, NodeView> {
    m.map_values(|n: FileSystemNode| n@)
}

pub(crate) broadcast proof fn lemma_node_views_contains(m: Map<u64, FileSystemNode>, k: u64)
    ensures
        #[trigger] node_views(m).contains_key(k) == m.contains_key(k),
{
}

pub(crate) broadcast proof fn lemma_node_views_index(m: Map<u64, FileSystemNode>, k: u64)
    requires
        m.contains_key(k),
    ensures
        #[trigger] node_views(m)[k] == m[k]@,
{
}

} // verus!
