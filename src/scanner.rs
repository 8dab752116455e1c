//! On-demand, one-level population of the index: expanding a folder adds one
//! node per listed entry, collapsing removes them again.
use vstd::prelude::*;
use crate::fs_index::{
    index_wf, is_container, node_ok, with_child, EntryType, FilesystemIndex, IndexView, NewNode,
    NodeView, ROOT_ID,
};
use crate::paths::{child_path, compose_child_path, is_entry_name, is_entry_name_text};

verus! {

/// Scanner options.
pub struct ScanConfig {
    pub follow_symlinks: bool,
    pub skip_hidden: bool,
    pub skip_system: bool,
}

impl Default for ScanConfig {
    /// Symlinks not followed; hidden and system entries skipped.
    fn default() -> (r: Self)
        ensures
            !r.follow_symlinks && r.skip_hidden && r.skip_system,
    {
        ScanConfig { follow_symlinks: false, skip_hidden: true, skip_system: true }
    }
}

/// One entry of a directory listing, as the operating system reported it.
pub struct DirEntryInfo {
    pub name: String,
    pub is_dir: bool,
    /// Bytes; ignored for folders.
    pub size: u64,
    pub modified_time: u64,
    pub created_time: u64,
    pub attributes: u32,
    pub is_accessible: bool,
    /// Whether the entry's metadata could be read; unreadable entries are skipped.
    pub readable: bool,
}

pub struct EntryView {
    pub name: Seq<char>,
    pub is_dir: bool,
    pub size: u64,
    pub modified_time: u64,
    pub created_time: u64,
    pub attributes: u32,
    pub is_accessible: bool,
    pub readable: bool,
}

impl View for DirEntryInfo {
    type V = EntryView;

    open spec fn view(&self) -> EntryView {
        EntryView {
            name: self.name@,
            is_dir: self.is_dir,
            size: self.size,
            modified_time: self.modified_time,
            created_time: self.created_time,
            attributes: self.attributes,
            is_accessible: self.is_accessible,
            readable: self.readable,
        }
    }
}

pub open spec fn entry_views(v: Seq<DirEntryInfo>) -> Seq<EntryView> {
    Seq::new(v.len(), |i: int| v[i]@)
}

/// An entry that becomes a node: readable, and named by one path component.
pub open spec fn accepted(e: EntryView) -> bool {
    e.readable && is_entry_name(e.name)
}

/// The node supplied for entry `e` of the folder `parent`: its paths are the
/// parent's followed by the entry's name.
pub open spec fn child_of(parent: NodeView, e: EntryView) -> NodeView {
    NodeView {
        id: 0,
        name: e.name,
        entry_type: if e.is_dir {
            EntryType::Directory
        } else {
            EntryType::File
        },
        parent_id: None,
        children_ids: Seq::empty(),
        nt_path: child_path(parent.nt_path, e.name, e.is_dir),
        display_path: child_path(parent.display_path, e.name, e.is_dir),
        size: if e.is_dir {
            None
        } else {
            Some(e.size)
        },
        modified_time: e.modified_time,
        created_time: e.created_time,
        attributes: e.attributes,
        is_expanded: false,
        is_accessible: e.is_accessible,
    }
}

/// The index after the entries `es` of folder `p` (whose node was `pv`) are
/// added one after the other; an entry that is not accepted, or that finds
/// the id space exhausted, is skipped.
pub open spec fn expansion(v: IndexView, p: u64, pv: NodeView, es: Seq<EntryView>) -> IndexView
    decreases es.len(),
{
    if es.len() == 0 {
        v
    } else {
        let w = expansion(v, p, pv, es.drop_last());
        if accepted(es.last()) && w.next_id < u64::MAX {
            with_child(w, p, child_of(pv, es.last()))
        } else {
            w
        }
    }
}

/// The index with `p` marked expanded.
pub open spec fn marked_expanded(v: IndexView, p: u64) -> IndexView {
    IndexView {
        nodes: v.nodes.insert(p, NodeView { is_expanded: true, ..v.nodes[p] }),
        next_id: v.next_id,
    }
}

/// Why a scan request failed.
#[derive(Debug, Clone, Copy, PartialEq, Eq, Structural)]
pub enum ScanError {
    NotFound,
    NotADirectory,
    NoDrives,
}

/// One drive letter as probed at start-up.
pub struct DriveProbe {
    /// Such as `"C:"`.
    pub letter: String,
    /// Present and readable.
    pub accessible: bool,
    /// The device path found for its volume, if any.
    pub nt_path: Option<String>,
}

pub struct ProbeView {
    pub letter: Seq<char>,
    pub accessible: bool,
    pub nt_path: Option<Seq<char>>,
}

impl View for DriveProbe {
    type V = ProbeView;

    open spec fn view(&self) -> ProbeView {
        ProbeView {
            letter: self.letter@,
            accessible: self.accessible,
            nt_path: crate::policy_intent::opt_text(self.nt_path),
        }
    }
}

pub open spec fn probe_views(v: Seq<DriveProbe>) -> Seq<ProbeView> {
    Seq::new(v.len(), |i: int| v[i]@)
}

/// The display name of a drive.
pub open spec fn drive_display_name(letter: Seq<char>) -> Seq<char> {
    "Local Disk ("@ + letter + ")"@
}

/// The index after the probes are registered in order: one drive under the
/// root for each accessible probe with a device path, while ids last.
pub open spec fn registered(v: IndexView, ps: Seq<ProbeView>) -> IndexView
    decreases ps.len(),
{
    if ps.len() == 0 {
        v
    } else {
        let w = registered(v, ps.drop_last());
        let p = ps.last();
        if p.accessible && p.nt_path is Some && w.next_id < u64::MAX {
            with_child(
                w,
                ROOT_ID,
                crate::fs_index::drive_node(p.letter, drive_display_name(p.letter), p.nt_path.unwrap()),
            )
        } else {
            w
        }
    }
}

/// The index reduced to its root, with no children; ids keep counting.
pub open spec fn cleared(v: IndexView) -> IndexView {
    IndexView {
        nodes: map![ROOT_ID => NodeView { children_ids: Seq::empty(), is_expanded: false, ..v.nodes[ROOT_ID] }],
        next_id: v.next_id,
    }
}

/// Populates the index on demand.
pub struct FileSystemScanner {
    pub config: ScanConfig,
}

/// What `expansion` leaves of `p`, and where the new children stand.
pub proof fn lemma_expansion(v: IndexView, p: u64, pv: NodeView, es: Seq<EntryView>)
    requires
        v.nodes.contains_key(p),
        p < v.next_id,
    ensures
        ({
            let w = expansion(v, p, pv, es);
            let old_ch = v.nodes[p].children_ids;
            let ch = w.nodes[p].children_ids;
            &&& w.nodes.contains_key(p)
            &&& w.next_id >= v.next_id
            &&& w.nodes[p] == (NodeView { children_ids: ch, ..v.nodes[p] })
            &&& ch.len() >= old_ch.len()
            &&& ch.subrange(0, old_ch.len() as int) == old_ch
            &&& forall|k: int|
                old_ch.len() <= k < ch.len() ==> {
                    let c = #[trigger] ch[k];
                    &&& v.next_id <= c < w.next_id
                    &&& w.nodes.contains_key(c)
                    &&& w.nodes[c].parent_id == Some(p)
                    &&& is_entry_name(w.nodes[c].name)
                    &&& w.nodes[c].nt_path == child_path(
                        pv.nt_path,
                        w.nodes[c].name,
                        w.nodes[c].entry_type == EntryType::Directory,
                    )
                    &&& w.nodes[c].display_path == child_path(
                        pv.display_path,
                        w.nodes[c].name,
                        w.nodes[c].entry_type == EntryType::Directory,
                    )
                }
            &&& forall|k: int, j: int|
                old_ch.len() <= k < j < ch.len() ==> #[trigger] ch[k] < #[trigger] ch[j]
        }),
    decreases es.len(),
{
    if es.len() > 0 {
        let u = expansion(v, p, pv, es.drop_last());
        lemma_expansion(v, p, pv, es.drop_last());
        let e = es.last();
        if accepted(e) && u.next_id < u64::MAX {
            let w = with_child(u, p, child_of(pv, e));
            let old_ch = v.nodes[p].children_ids;
            let uch = u.nodes[p].children_ids;
            let ch = w.nodes[p].children_ids;
            assert(ch == uch.push(u.next_id));
            assert(ch.subrange(0, old_ch.len() as int) =~= uch.subrange(0, old_ch.len() as int));
            assert forall|k: int| old_ch.len() <= k < ch.len() implies {
                let c = #[trigger] ch[k];
                &&& v.next_id <= c < w.next_id
                &&& w.nodes.contains_key(c)
                &&& w.nodes[c].parent_id == Some(p)
                &&& is_entry_name(w.nodes[c].name)
                &&& w.nodes[c].nt_path == child_path(
                    pv.nt_path,
                    w.nodes[c].name,
                    w.nodes[c].entry_type == EntryType::Directory,
                )
                &&& w.nodes[c].display_path == child_path(
                    pv.display_path,
                    w.nodes[c].name,
                    w.nodes[c].entry_type == EntryType::Directory,
                )
            } by {
                if k < uch.len() {
                    assert(ch[k] == uch[k]);
                    assert(uch[k] != p);
                    assert(uch[k] != u.next_id);
                }
            }
            assert forall|k: int, j: int| old_ch.len() <= k < j < ch.len() implies #[trigger] ch[k]
                < #[trigger] ch[j] by {
                assert(ch[k] == uch[k]);
                if j < uch.len() {
                    assert(ch[j] == uch[j]);
                }
            }
        }
    }
}

impl FileSystemScanner {
    /// A scanner with the default options.
    pub fn new() -> (r: Self) {
        FileSystemScanner { config: ScanConfig::default() }
    }

    /// A scanner with the given options.
    pub fn with_config(config: ScanConfig) -> (r: Self)
        ensures
            r.config == config,
    {
        FileSystemScanner { config }
    }

    /// The options in use.
    pub fn get_config(&self) -> (r: &ScanConfig)
        ensures
            *r == self.config,
    {
        &self.config
    }

    /// Replaces the options.
    pub fn set_config(&mut self, config: ScanConfig)
        ensures
            final(self).config == config,
    {
        self.config = config;
    }

    fn child_node(parent: &crate::fs_index::FileSystemNode, e: &DirEntryInfo) -> (r: NewNode)
        ensures
            r@ == child_of(parent@, e@),
    {
        NewNode {
            name: e.name.clone(),
            entry_type: if e.is_dir {
                EntryType::Directory
            } else {
                EntryType::File
            },
            nt_path: compose_child_path(parent.nt_path.as_str(), e.name.as_str(), e.is_dir),
            display_path: compose_child_path(
                parent.display_path.as_str(),
                e.name.as_str(),
                e.is_dir,
            ),
            size: if e.is_dir {
                None
            } else {
                Some(e.size)
            },
            modified_time: e.modified_time,
            created_time: e.created_time,
            attributes: e.attributes,
            is_accessible: e.is_accessible,
        }
    }

    /// Loads the children of folder or drive `node_id` from its listing
    /// `entries`. An unknown id is `NotFound`, a file or the root
    /// `NotADirectory`; an expanded node is left as it is and its child count
    /// returned. Otherwise one node per accepted entry is added, with a fresh
    /// id and the parent's paths extended by the entry's name, the node is
    /// marked expanded and the number of nodes added is returned.
    pub fn expand_directory(
        &self,
        index: &mut FilesystemIndex,
        node_id: u64,
        entries: &Vec<DirEntryInfo>,
    ) -> (r: Result<usize, ScanError>)
        requires
            old(index).well_formed(),
        ensures
            final(index).well_formed(),
            !old(index)@.nodes.contains_key(node_id) ==> r == Err::<usize, ScanError>(
                ScanError::NotFound,
            ) && final(index)@ == old(index)@,
            old(index)@.nodes.contains_key(node_id) && !is_container(
                old(index)@.nodes[node_id].entry_type,
            ) ==> r == Err::<usize, ScanError>(ScanError::NotADirectory) && final(index)@ == old(
                index,
            )@,
            old(index)@.nodes.contains_key(node_id) && is_container(
                old(index)@.nodes[node_id].entry_type,
            ) && old(index)@.nodes[node_id].is_expanded ==> r == Ok::<usize, ScanError>(
                old(index)@.nodes[node_id].children_ids.len() as usize,
            ) && final(index)@ == old(index)@,
            old(index)@.nodes.contains_key(node_id) && is_container(
                old(index)@.nodes[node_id].entry_type,
            ) && !old(index)@.nodes[node_id].is_expanded ==> {
                let w = expansion(
                    old(index)@,
                    node_id,
                    old(index)@.nodes[node_id],
                    entry_views(entries@),
                );
                &&& final(index)@ == marked_expanded(w, node_id)
                &&& r == Ok::<usize, ScanError>(
                    (w.nodes[node_id].children_ids.len() - old(
                        index,
                    )@.nodes[node_id].children_ids.len()) as usize,
                )
            },
    {
        let parent = match index.get_node(node_id) {
            Some(n) => n,
            None => return Err(ScanError::NotFound),
        };
        if parent.entry_type != EntryType::Directory && parent.entry_type != EntryType::Drive {
            return Err(ScanError::NotADirectory);
        }
        if parent.is_expanded {
            return Ok(parent.children_ids.len());
        }
        let ghost v0 = index@;
        let ghost pv = index@.nodes[node_id];
        let ghost es = entry_views(entries@);
        proof {
            assert(node_ok(v0, node_id));
        }
        let mut added: usize = 0;
        let mut i: usize = 0;
        assert(es.subrange(0, 0) =~= Seq::<EntryView>::empty());
        while i < entries.len()
            invariant
                index.well_formed(),
                parent@ == pv,
                v0.nodes.contains_key(node_id),
                node_id < v0.next_id,
                pv == v0.nodes[node_id],
                es == entry_views(entries@),
                i <= entries.len(),
                index@ == expansion(v0, node_id, pv, es.subrange(0, i as int)),
                index@.nodes.contains_key(node_id),
                added <= i,
                added == index@.nodes[node_id].children_ids.len() - pv.children_ids.len(),
            decreases entries.len() - i,
        {
            proof {
                lemma_expansion(v0, node_id, pv, es.subrange(0, i as int));
                let t = es.subrange(0, i + 1);
                assert(t.drop_last() =~= es.subrange(0, i as int));
                assert(t.last() == entries@[i as int]@);
            }
            let e = &entries[i];
            if e.readable && is_entry_name_text(e.name.as_str()) && index.next_id() < u64::MAX {
                let node = Self::child_node(&parent, e);
                let r = index.add_node(node_id, node);
                if r.is_some() {
                    added = added + 1;
                }
            }
            i = i + 1;
        }
        proof {
            assert(es.subrange(0, entries.len() as int) =~= es);
            lemma_expansion(v0, node_id, pv, es);
        }
        let ghost w = index@;
        index.mark_expanded(node_id);
        proof {
            assert(index@.nodes =~= marked_expanded(w, node_id).nodes);
        }
        Ok(added)
    }

    /// Drives are expanded like folders.
    pub fn expand_drive(
        &self,
        index: &mut FilesystemIndex,
        node_id: u64,
        entries: &Vec<DirEntryInfo>,
    ) -> (r: Result<usize, ScanError>)
        requires
            old(index).well_formed(),
        ensures
            final(index).well_formed(),
            !old(index)@.nodes.contains_key(node_id) ==> r == Err::<usize, ScanError>(
                ScanError::NotFound,
            ) && final(index)@ == old(index)@,
            old(index)@.nodes.contains_key(node_id) && !is_container(
                old(index)@.nodes[node_id].entry_type,
            ) ==> r == Err::<usize, ScanError>(ScanError::NotADirectory) && final(index)@ == old(
                index,
            )@,
            old(index)@.nodes.contains_key(node_id) && is_container(
                old(index)@.nodes[node_id].entry_type,
            ) && old(index)@.nodes[node_id].is_expanded ==> r == Ok::<usize, ScanError>(
                old(index)@.nodes[node_id].children_ids.len() as usize,
            ) && final(index)@ == old(index)@,
            old(index)@.nodes.contains_key(node_id) && is_container(
                old(index)@.nodes[node_id].entry_type,
            ) && !old(index)@.nodes[node_id].is_expanded ==> {
                let w = expansion(
                    old(index)@,
                    node_id,
                    old(index)@.nodes[node_id],
                    entry_views(entries@),
                );
                &&& final(index)@ == marked_expanded(w, node_id)
                &&& r == Ok::<usize, ScanError>(
                    (w.nodes[node_id].children_ids.len() - old(
                        index,
                    )@.nodes[node_id].children_ids.len()) as usize,
                )
            },
    {
        self.expand_directory(index, node_id, entries)
    }

    /// Unloads the children of `node_id` and returns how many it had; their
    /// subtrees leave the index and their ids are never issued again.
    pub fn collapse_directory(&self, index: &mut FilesystemIndex, node_id: u64) -> (r: Result<
        usize,
        ScanError,
    >)
        requires
            old(index).well_formed(),
        ensures
            final(index).well_formed(),
            final(index)@.next_id == old(index)@.next_id,
            r == Ok::<usize, ScanError>(
                (if old(index)@.nodes.contains_key(node_id) {
                    old(index)@.nodes[node_id].children_ids.len()
                } else {
                    0
                }) as usize,
            ),
            old(index)@.nodes.contains_key(node_id) ==> {
                &&& final(index)@.nodes.contains_key(node_id)
                &&& final(index)@.nodes[node_id] == (NodeView {
                    children_ids: Seq::empty(),
                    is_expanded: false,
                    ..old(index)@.nodes[node_id]
                })
                &&& forall|i: int|
                    0 <= i < old(index)@.nodes[node_id].children_ids.len()
                        ==> !final(index)@.nodes.contains_key(
                        #[trigger] old(index)@.nodes[node_id].children_ids[i],
                    )
            },
            !old(index)@.nodes.contains_key(node_id) ==> final(index)@ == old(index)@,
    {
        let count = match index.get_node(node_id) {
            Some(n) => n.children_ids.len(),
            None => 0,
        };
        index.mark_collapsed(node_id);
        Ok(count)
    }

    /// Same as `collapse_directory`.
    pub fn collapse_drive(&self, index: &mut FilesystemIndex, node_id: u64) -> (r: Result<
        usize,
        ScanError,
    >)
        requires
            old(index).well_formed(),
        ensures
            final(index).well_formed(),
            final(index)@.next_id == old(index)@.next_id,
            r == Ok::<usize, ScanError>(
                (if old(index)@.nodes.contains_key(node_id) {
                    old(index)@.nodes[node_id].children_ids.len()
                } else {
                    0
                }) as usize,
            ),
    {
        self.collapse_directory(index, node_id)
    }

    /// Clears the index down to the root and adds one drive per probe that
    /// is accessible and has a device path. Returns the number of drives, or
    /// `NoDrives` when there is none.
    pub fn initialize_drives(&self, index: &mut FilesystemIndex, probes: &Vec<DriveProbe>) -> (r:
        Result<usize, ScanError>)
        requires
            old(index).well_formed(),
        ensures
            final(index).well_formed(),
            final(index)@ == registered(cleared(old(index)@), probe_views(probes@)),
            final(index)@.next_id >= old(index)@.next_id,
            forall|k: u64| #[trigger]
                final(index)@.nodes.contains_key(k) && k != ROOT_ID ==> k >= old(index)@.next_id
                    && final(index)@.nodes[k].entry_type == EntryType::Drive,
            match r {
                Ok(n) => n > 0 && n == final(index)@.nodes[ROOT_ID].children_ids.len(),
                Err(e) => e == ScanError::NoDrives && final(index)@.nodes[ROOT_ID].children_ids.len()
                    == 0,
            },
    {
        index.clear();
        let ghost v1 = index@;
        let ghost ps = probe_views(probes@);
        let mut count: usize = 0;
        let mut i: usize = 0;
        proof {
            assert(ps.subrange(0, 0) =~= Seq::<ProbeView>::empty());
            assert(v1 == cleared(old(index)@)) by {
                assert(v1.nodes =~= cleared(old(index)@).nodes);
            }
        }
        while i < probes.len()
            invariant
                index.well_formed(),
                v1.next_id == old(index)@.next_id,
                ps == probe_views(probes@),
                index@ == registered(v1, ps.subrange(0, i as int)),
                index@.next_id >= v1.next_id,
                count <= i <= probes.len(),
                count == index@.nodes[ROOT_ID].children_ids.len(),
                forall|k: u64| #[trigger]
                    index@.nodes.contains_key(k) && k != ROOT_ID ==> k >= v1.next_id
                        && index@.nodes[k].entry_type == EntryType::Drive,
            decreases probes.len() - i,
        {
            proof {
                let t = ps.subrange(0, i + 1);
                assert(t.drop_last() =~= ps.subrange(0, i as int));
                assert(t.last() == probes@[i as int]@);
            }
            let p = &probes[i];
            if p.accessible {
                match &p.nt_path {
                    Some(nt) => {
                        let mut name = String::from_str("Local Disk (");
                        name.append(p.letter.as_str());
                        name.append(")");
                        let r = index.add_drive(p.letter.as_str(), name.as_str(), nt.as_str());
                        if r.is_some() {
                            count = count + 1;
                        }
                    },
                    None => {},
                }
            }
            i = i + 1;
        }
        proof {
            assert(ps.subrange(0, probes.len() as int) =~= ps);
        }
        if count == 0 {
            Err(ScanError::NoDrives)
        } else {
            Ok(count)
        }
    }
}

/// Each child that an expansion adds sits exactly one separator level below
/// its folder: it names the folder as its parent, its name is a single
/// non-empty path component, and its device and display paths are the
/// folder's, in folder form, followed by that name (and a separator for a
/// folder).
pub proof fn expanded_children_are_nested(v: IndexView, p: u64, es: Seq<EntryView>)
    requires
        index_wf(v),
        v.nodes.contains_key(p),
    ensures
        ({
            let w = expansion(v, p, v.nodes[p], es);
            let ch = w.nodes[p].children_ids;
            forall|k: int|
                v.nodes[p].children_ids.len() <= k < ch.len() ==> {
                    let c = #[trigger] ch[k];
                    &&& w.nodes[c].parent_id == Some(p)
                    &&& is_entry_name(w.nodes[c].name)
                    &&& w.nodes[c].nt_path == child_path(
                        v.nodes[p].nt_path,
                        w.nodes[c].name,
                        w.nodes[c].entry_type == EntryType::Directory,
                    )
                    &&& w.nodes[c].display_path == child_path(
                        v.nodes[p].display_path,
                        w.nodes[c].name,
                        w.nodes[c].entry_type == EntryType::Directory,
                    )
                }
        }),
{
    assert(node_ok(v, p));
    lemma_expansion(v, p, v.nodes[p], es);
}

/// Collapsing a folder and expanding it again never hands out an id that one
/// of its earlier children had: the collapse keeps the next id to issue, and
/// the expansion issues ids from there on.
pub proof fn reexpansion_never_reuses_ids(
    before: IndexView,
    collapsed: IndexView,
    p: u64,
    es: Seq<EntryView>,
)
    requires
        index_wf(before),
        before.nodes.contains_key(p),
        index_wf(collapsed),
        collapsed.nodes.contains_key(p),
        collapsed.next_id == before.next_id,
        collapsed.nodes[p].children_ids.len() == 0,
    ensures
        ({
            let old_ch = before.nodes[p].children_ids;
            let new_ch = expansion(collapsed, p, collapsed.nodes[p], es).nodes[p].children_ids;
            forall|i: int, j: int|
                0 <= i < old_ch.len() && 0 <= j < new_ch.len() ==> #[trigger] old_ch[i]
                    != #[trigger] new_ch[j]
        }),
{
    assert(node_ok(before, p));
    assert(node_ok(collapsed, p));
    lemma_expansion(collapsed, p, collapsed.nodes[p], es);
    let old_ch = before.nodes[p].children_ids;
    let new_ch = expansion(collapsed, p, collapsed.nodes[p], es).nodes[p].children_ids;
    assert forall|i: int, j: int|
        0 <= i < old_ch.len() && 0 <= j < new_ch.len() implies #[trigger] old_ch[i]
        != #[trigger] new_ch[j] by {
        assert(before.nodes.contains_key(old_ch[i]));
        assert(node_ok(before, old_ch[i]));
    }
}

} // verus!
