//! Resolution of node ids to device paths, and of intents to the paths
//! their rules cover. Device paths exist only downstream of this module.
use vstd::prelude::*;
use crate::error::PolicyError;
use crate::fs_index::{index_wf, node_ok, EntryType, FilesystemIndex, IndexView};
use crate::kernel_policy::{text_views, text_eq};
use crate::paths::{
    child_path, compose_device_path, device_form, dir_form, drive_of, ends_with_sep,
    has_drive, is_device_path, is_device_path_text, sep, to_dir_form, trim_seps, DEVICE_PREFIX,
};
use crate::policy_intent::{PolicyIntent, ProtectionScope};
use crate::scanner::{expansion, EntryView};
use crate::text::has_prefix;

verus! {

/// The first step of resolving a node: either its device path, or the drive
/// (such as `"C:"`) whose volume device root is needed to derive it.
pub enum DeviceResolution {
    Resolved(String),
    NeedsVolume(String),
}

pub enum ResolutionView {
    Resolved(Seq<char>),
    NeedsVolume(Seq<char>),
}

impl View for DeviceResolution {
    type V = ResolutionView;

    open spec fn view(&self) -> ResolutionView {
        match self {
            DeviceResolution::Resolved(p) => ResolutionView::Resolved(p@),
            DeviceResolution::NeedsVolume(d) => ResolutionView::NeedsVolume(d@),
        }
    }
}

/// How node `id` resolves: the device path cached on the node when it has
/// one; otherwise the drive of its display path, whose volume must be looked up.
pub open spec fn resolution(v: IndexView, id: u64) -> Result<ResolutionView, PolicyError> {
    if !v.nodes.contains_key(id) {
        Err(PolicyError::NotFound)
    } else if is_device_path(v.nodes[id].nt_path) {
        Ok(ResolutionView::Resolved(v.nodes[id].nt_path))
    } else if has_drive(v.nodes[id].display_path) {
        Ok(ResolutionView::NeedsVolume(v.nodes[id].display_path.subrange(0, 2)))
    } else {
        Err(PolicyError::InvalidPath)
    }
}

/// The device path derived for node `id` from the device root of its volume.
pub open spec fn derived_device_path(v: IndexView, id: u64, root: Seq<char>) -> Result<
    Seq<char>,
    PolicyError,
> {
    if !v.nodes.contains_key(id) {
        Err(PolicyError::NotFound)
    } else if !has_drive(v.nodes[id].display_path) {
        Err(PolicyError::InvalidPath)
    } else if !is_device_path(device_form(root, v.nodes[id].display_path)) {
        Err(PolicyError::InvalidPath)
    } else {
        Ok(device_form(root, v.nodes[id].display_path))
    }
}

/// The cached device root of a volume: the first entry with that key.
pub open spec fn cache_lookup(c: Seq<(Seq<char>, Seq<char>)>, key: Seq<char>) -> Option<Seq<char>>
    decreases c.len(),
{
    if c.len() == 0 {
        None
    } else if c[0].0 == key {
        Some(c[0].1)
    } else {
        cache_lookup(c.subrange(1, c.len() as int), key)
    }
}

/// The device paths of the direct file children among `ch` in index `v`.
pub open spec fn file_child_paths(v: IndexView, ch: Seq<u64>) -> Seq<Seq<char>>
    decreases ch.len(),
{
    if ch.len() == 0 {
        Seq::empty()
    } else {
        let rest = file_child_paths(v, ch.drop_last());
        let c = ch.last();
        if v.nodes.contains_key(c) && v.nodes[c].entry_type == EntryType::File {
            rest.push(v.nodes[c].nt_path)
        } else {
            rest
        }
    }
}

/// The paths an intent covers, given the resolved device path `base` of its
/// node: the path itself for a file; the already-materialised direct file
/// children for a folder; the folder form of the path for a recursive folder.
pub open spec fn intent_paths(v: IndexView, scope: ProtectionScope, id: u64, base: Seq<char>) -> Seq<
    Seq<char>,
> {
    match scope {
        ProtectionScope::File => seq![base],
        ProtectionScope::Folder => file_child_paths(v, v.nodes[id].children_ids),
        ProtectionScope::FolderRecursive => seq![dir_form(base)],
    }
}

pub open spec fn all_device_paths(ps: Seq<Seq<char>>) -> bool {
    forall|i: int| 0 <= i < ps.len() ==> is_device_path(#[trigger] ps[i])
}

/// The outcome of resolving an intent's node to paths.
pub open spec fn intent_resolution(v: IndexView, scope: ProtectionScope, id: u64, base: Seq<char>) -> Result<
    Seq<Seq<char>>,
    PolicyError,
> {
    if !v.nodes.contains_key(id) {
        Err(PolicyError::NotFound)
    } else if !v.nodes[id].is_accessible {
        Err(PolicyError::NotAccessible)
    } else if !all_device_paths(intent_paths(v, scope, id, base)) {
        Err(PolicyError::InvalidPath)
    } else {
        Ok(intent_paths(v, scope, id, base))
    }
}

/// The state of the first device-name search: `start` is where the current
/// name began, `i` the unit under the cursor.
pub open spec fn scan_names(b: Seq<u16>, p: Seq<u16>, i: int, start: int) -> Option<Seq<u16>>
    decreases b.len() - i,
{
    if i < 0 || i >= b.len() {
        None
    } else if b[i] == 0 {
        if start < i && has_prefix(b.subrange(start, i), p) {
            Some(b.subrange(start, i))
        } else {
            scan_names(b, p, i + 1, i + 1)
        }
    } else {
        scan_names(b, p, i + 1, start)
    }
}

/// The device prefix in UTF-16.
pub open spec fn device_prefix_units() -> Seq<u16> {
    seq![92u16, 68u16, 101u16, 118u16, 105u16, 99u16, 101u16, 92u16]
}

fn has_prefix_units(b: &Vec<u16>, start: usize, end: usize, p: &Vec<u16>) -> (r: bool)
    requires
        start <= end <= b.len(),
    ensures
        r == has_prefix(b@.subrange(start as int, end as int), p@),
{
    let n = end - start;
    if p.len() > n {
        return false;
    }
    let mut k: usize = 0;
    while k < p.len()
        invariant
            start <= end <= b.len(),
            n == end - start,
            p.len() <= n,
            k <= p.len(),
            forall|j: int| 0 <= j < k ==> b@[start + j] == p@[j],
        decreases p.len() - k,
    {
        if b[start + k] != p[k] {
            assert(b@.subrange(start as int, end as int).subrange(0, p.len() as int)[k as int]
                != p@[k as int]);
            return false;
        }
        k = k + 1;
    }
    assert(b@.subrange(start as int, end as int).subrange(0, p.len() as int) =~= p@);
    true
}

/// Resolves ids to device paths, with a cache of volume device roots keyed
/// by volume identifier.
pub struct PathResolver {
    volume_cache: Vec<(String, String)>,
}

impl View for PathResolver {
    type V = Seq<(Seq<char>, Seq<char>)>;

    closed spec fn view(&self) -> Seq<(Seq<char>, Seq<char>)> {
        Seq::new(self.volume_cache@.len(), |i: int| (self.volume_cache@[i].0@, self.volume_cache@[i].1@))
    }
}

impl PathResolver {
    /// A resolver with an empty cache.
    pub fn new() -> (r: Self)
        ensures
            r@ == Seq::<(Seq<char>, Seq<char>)>::empty(),
    {
        let r = PathResolver { volume_cache: Vec::new() };
        assert(r@ =~= Seq::<(Seq<char>, Seq<char>)>::empty());
        r
    }

    /// The cached device root of `volume_id`.
    pub fn cached_device_root(&self, volume_id: &str) -> (r: Option<String>)
        ensures
            match r {
                Some(s) => cache_lookup(self@, volume_id@) == Some(s@),
                None => cache_lookup(self@, volume_id@) is None,
            },
    {
        let mut i: usize = 0;
        assert(self@.subrange(0, self@.len() as int) =~= self@);
        while i < self.volume_cache.len()
            invariant
                i <= self.volume_cache@.len(),
                cache_lookup(self@, volume_id@) == cache_lookup(
                    self@.subrange(i as int, self@.len() as int),
                    volume_id@,
                ),
            decreases self.volume_cache.len() - i,
        {
            proof {
                let t = self@.subrange(i as int, self@.len() as int);
                assert(t.subrange(1, t.len() as int) =~= self@.subrange(i + 1, self@.len() as int));
                assert(t[0] == self@[i as int]);
            }
            if text_eq(self.volume_cache[i].0.as_str(), volume_id) {
                return Some(self.volume_cache[i].1.clone());
            }
            i = i + 1;
        }
        None
    }

    /// Records the device root of `volume_id`; an entry already cached is kept.
    pub fn remember_volume(&mut self, volume_id: &str, device_root: &str)
        ensures
            cache_lookup(old(self)@, volume_id@) is Some ==> final(self)@ == old(self)@,
            cache_lookup(old(self)@, volume_id@) is None ==> final(self)@ == old(self)@.push(
                (volume_id@, device_root@),
            ),
    {
        if self.cached_device_root(volume_id).is_none() {
            self.volume_cache.push((String::from_str(volume_id), String::from_str(device_root)));
            assert(self@ =~= old(self)@.push((volume_id@, device_root@)));
        }
    }

    /// The first name in a volume-names buffer (names ended by a zero unit)
    /// that is a device path, as UTF-16.
    pub fn first_device_name(buffer: &Vec<u16>) -> (r: Option<Vec<u16>>)
        ensures
            match r {
                Some(u) => scan_names(buffer@, device_prefix_units(), 0, 0) == Some(u@),
                None => scan_names(buffer@, device_prefix_units(), 0, 0) is None,
            },
    {
        let p: Vec<u16> = vec![92u16, 68u16, 101u16, 118u16, 105u16, 99u16, 101u16, 92u16];
        assert(p@ =~= device_prefix_units());
        let mut start: usize = 0;
        let mut i: usize = 0;
        while i < buffer.len()
            invariant
                p@ == device_prefix_units(),
                start <= i <= buffer.len(),
                scan_names(buffer@, device_prefix_units(), 0, 0) == scan_names(
                    buffer@,
                    device_prefix_units(),
                    i as int,
                    start as int,
                ),
            decreases buffer.len() - i,
        {
            if buffer[i] == 0 {
                if start < i && has_prefix_units(buffer, start, i, &p) {
                    let mut out: Vec<u16> = Vec::new();
                    let mut k: usize = start;
                    while k < i
                        invariant
                            start <= k <= i,
                            i < buffer.len(),
                            out@ == buffer@.subrange(start as int, k as int),
                        decreases i - k,
                    {
                        out.push(buffer[k]);
                        assert(out@ =~= buffer@.subrange(start as int, k + 1));
                        k = k + 1;
                    }
                    return Some(out);
                }
                start = i + 1;
            }
            i = i + 1;
        }
        None
    }

    /// The first step of resolving `node_id`: the cached device path when
    /// the node has one, else the drive whose volume is needed. `NotFound`
    /// for an unknown id; `InvalidPath` when neither form is available.
    pub fn begin_resolve(&self, index: &FilesystemIndex, node_id: u64) -> (r: Result<
        DeviceResolution,
        PolicyError,
    >)
        ensures
            match r {
                Ok(d) => resolution(index@, node_id) == Ok::<ResolutionView, PolicyError>(d@),
                Err(e) => resolution(index@, node_id) == Err::<ResolutionView, PolicyError>(e),
            },
    {
        let node = match index.get_node(node_id) {
            Some(n) => n,
            None => return Err(PolicyError::NotFound),
        };
        if is_device_path_text(node.nt_path.as_str()) {
            return Ok(DeviceResolution::Resolved(node.nt_path));
        }
        match drive_of(node.display_path.as_str()) {
            Some(d) => Ok(DeviceResolution::NeedsVolume(d)),
            None => Err(PolicyError::InvalidPath),
        }
    }

    /// Derives the device path of `node_id` from `device_root`, the device
    /// root of its drive's volume, and the rest of its display path.
    pub fn finish_resolve(&self, index: &FilesystemIndex, node_id: u64, device_root: &str) -> (r:
        Result<String, PolicyError>)
        ensures
            match r {
                Ok(p) => derived_device_path(index@, node_id, device_root@) == Ok::<
                    Seq<char>,
                    PolicyError,
                >(p@),
                Err(e) => derived_device_path(index@, node_id, device_root@) == Err::<
                    Seq<char>,
                    PolicyError,
                >(e),
            },
    {
        let display = match index.get_display_path(node_id) {
            Some(d) => d,
            None => return Err(PolicyError::NotFound),
        };
        if drive_of(display.as_str()).is_none() {
            return Err(PolicyError::InvalidPath);
        }
        let p = compose_device_path(device_root, display.as_str());
        if !is_device_path_text(p.as_str()) {
            return Err(PolicyError::InvalidPath);
        }
        Ok(p)
    }

    fn file_children(index: &FilesystemIndex, node_id: u64) -> (r: Vec<String>)
        requires
            index.well_formed(),
            index@.nodes.contains_key(node_id),
        ensures
            text_views(r@) == file_child_paths(index@, index@.nodes[node_id].children_ids),
    {
        let children = index.get_children(node_id);
        let ghost ch = index@.nodes[node_id].children_ids;
        let mut out: Vec<String> = Vec::new();
        let mut i: usize = 0;
        assert(text_views(out@) =~= file_child_paths(index@, ch.subrange(0, 0)));
        while i < children.len()
            invariant
                index.well_formed(),
                index@.nodes.contains_key(node_id),
                ch == index@.nodes[node_id].children_ids,
                children@.len() == ch.len(),
                forall|j: int|
                    0 <= j < children@.len() ==> #[trigger] children@[j]@ == index@.nodes[ch[j]],
                i <= children.len(),
                text_views(out@) == file_child_paths(index@, ch.subrange(0, i as int)),
            decreases children.len() - i,
        {
            proof {
                assert(node_ok(index@, node_id));
                assert(index@.nodes.contains_key(ch[i as int]));
                let t = ch.subrange(0, i + 1);
                assert(t.drop_last() =~= ch.subrange(0, i as int));
                assert(t.last() == ch[i as int]);
                assert(children@[i as int]@ == index@.nodes[ch[i as int]]);
            }
            if children[i].entry_type == EntryType::File {
                out.push(children[i].nt_path.clone());
            }
            proof {
                assert(text_views(out@) =~= file_child_paths(index@, ch.subrange(0, i + 1)));
            }
            i = i + 1;
        }
        assert(ch.subrange(0, ch.len() as int) =~= ch);
        out
    }

    /// The device paths the intent's rules cover, given `base`, the resolved
    /// device path of its node. `NotFound` for an unknown node,
    /// `NotAccessible` for an inaccessible one, `InvalidPath` when a path is
    /// not in device form.
    pub fn resolve_policy_intent(
        &self,
        index: &FilesystemIndex,
        intent: &PolicyIntent,
        base: &str,
    ) -> (r: Result<Vec<String>, PolicyError>)
        requires
            index.well_formed(),
        ensures
            match r {
                Ok(ps) => intent_resolution(index@, intent.scope, intent.node_id, base@) == Ok::<
                    Seq<Seq<char>>,
                    PolicyError,
                >(text_views(ps@)),
                Err(e) => intent_resolution(index@, intent.scope, intent.node_id, base@) == Err::<
                    Seq<Seq<char>>,
                    PolicyError,
                >(e),
            },
    {
        let node = match index.get_node(intent.node_id) {
            Some(n) => n,
            None => return Err(PolicyError::NotFound),
        };
        if !node.is_accessible {
            return Err(PolicyError::NotAccessible);
        }
        let paths: Vec<String> = match intent.scope {
            ProtectionScope::File => {
                let mut v: Vec<String> = Vec::new();
                v.push(String::from_str(base));
                v
            },
            ProtectionScope::Folder => Self::file_children(index, intent.node_id),
            ProtectionScope::FolderRecursive => {
                let mut v: Vec<String> = Vec::new();
                v.push(to_dir_form(base));
                v
            },
        };
        let ghost ps = intent_paths(index@, intent.scope, intent.node_id, base@);
        assert(text_views(paths@) =~= ps);
        let mut i: usize = 0;
        while i < paths.len()
            invariant
                text_views(paths@) == ps,
                ps == intent_paths(index@, intent.scope, intent.node_id, base@),
                index@.nodes.contains_key(intent.node_id),
                index@.nodes[intent.node_id].is_accessible,
                i <= paths.len(),
                forall|j: int| 0 <= j < i ==> is_device_path(#[trigger] ps[j]),
            decreases paths.len() - i,
        {
            if !is_device_path_text(paths[i].as_str()) {
                assert(!is_device_path(ps[i as int]));
                return Err(PolicyError::InvalidPath);
            }
            i = i + 1;
        }
        Ok(paths)
    }

    /// Checks that `node_id` exists and is accessible.
    pub fn validate_node(&self, index: &FilesystemIndex, node_id: u64) -> (r: Result<(), PolicyError>)
        ensures
            r == (if !index@.nodes.contains_key(node_id) {
                Err(PolicyError::NotFound)
            } else if !index@.nodes[node_id].is_accessible {
                Err(PolicyError::NotAccessible)
            } else {
                Ok(())
            }),
    {
        match index.get_node(node_id) {
            Some(n) => if n.is_accessible {
                Ok(())
            } else {
                Err(PolicyError::NotAccessible)
            },
            None => Err(PolicyError::NotFound),
        }
    }
}

/// The number of file nodes among `ch`.
pub open spec fn file_count(v: IndexView, ch: Seq<u64>) -> nat
    decreases ch.len(),
{
    if ch.len() == 0 {
        0
    } else {
        file_count(v, ch.drop_last()) + if v.nodes.contains_key(ch.last())
            && v.nodes[ch.last()].entry_type == EntryType::File {
            1nat
        } else {
            0nat
        }
    }
}

/// `p` is the device path of a direct child among `ch` that is a file.
pub open spec fn is_file_child_path(v: IndexView, ch: Seq<u64>, p: Seq<char>) -> bool {
    exists|j: int|
        0 <= j < ch.len() && v.nodes.contains_key(#[trigger] ch[j]) && v.nodes[ch[j]].entry_type
            == EntryType::File && v.nodes[ch[j]].nt_path == p
}

/// Folder scope covers the direct file children only: it yields one path
/// per child that is a file, and each path it yields is the device path of
/// such a child, so a subfolder contributes nothing.
pub proof fn folder_paths_are_file_children(v: IndexView, ch: Seq<u64>)
    ensures
        file_child_paths(v, ch).len() == file_count(v, ch),
        forall|k: int|
            0 <= k < file_child_paths(v, ch).len() ==> is_file_child_path(
                v,
                ch,
                #[trigger] file_child_paths(v, ch)[k],
            ),
    decreases ch.len(),
{
    if ch.len() > 0 {
        let t = ch.drop_last();
        folder_paths_are_file_children(v, t);
        let c = ch.last();
        let pt = file_child_paths(v, t);
        assert forall|k: int| 0 <= k < file_child_paths(v, ch).len() implies is_file_child_path(
            v,
            ch,
            #[trigger] file_child_paths(v, ch)[k],
        ) by {
            if k < pt.len() {
                assert(file_child_paths(v, ch)[k] == pt[k]);
                assert(is_file_child_path(v, t, pt[k]));
                let j = choose|j: int|
                    0 <= j < t.len() && v.nodes.contains_key(#[trigger] t[j])
                        && v.nodes[t[j]].entry_type == EntryType::File && v.nodes[t[j]].nt_path
                        == pt[k];
                assert(ch[j] == t[j]);
            } else {
                let j = ch.len() - 1;
                assert(ch[j] == c);
            }
        }
    }
}

/// `p` is `trim_seps(p)` followed by separators only, and what remains does
/// not end with one.
proof fn lemma_trim_seps(p: Seq<char>)
    ensures
        trim_seps(p).len() <= p.len(),
        trim_seps(p) == p.subrange(0, trim_seps(p).len() as int),
        forall|j: int| trim_seps(p).len() <= j < p.len() ==> p[j] == sep(),
    decreases p.len(),
{
    if ends_with_sep(p) {
        lemma_trim_seps(p.drop_last());
        let t = trim_seps(p.drop_last());
        assert(p.drop_last().subrange(0, t.len() as int) =~= p.subrange(0, t.len() as int));
        assert forall|j: int| t.len() <= j < p.len() implies p[j] == sep() by {
            if j < p.len() - 1 {
                assert(p.drop_last()[j] == p[j]);
            }
        }
    } else {
        assert(p.subrange(0, p.len() as int) =~= p);
    }
}

/// A path in device form keeps that form in folder form, and below it.
proof fn lemma_child_keeps_device_form(p: Seq<char>, name: Seq<char>, is_folder: bool)
    requires
        is_device_path(p),
    ensures
        is_device_path(dir_form(p)),
        is_device_path(child_path(p, name, is_folder)),
{
    reveal_strlit("\\Device\\");
    let d = DEVICE_PREFIX@;
    assert(d.len() == 8);
    assert(p.subrange(0, 8) == d);
    assert(p[6] == d[6]);
    assert(p[7] == d[7]);
    lemma_trim_seps(p);
    let t = trim_seps(p);
    assert(t.len() >= 7) by {
        if t.len() < 7 {
            assert(p[6] == sep());
        }
    }
    let f = dir_form(p);
    assert(f.subrange(0, 8) =~= d) by {
        assert forall|j: int| 0 <= j < 8 implies f[j] == d[j] by {
            if j < t.len() {
                assert(f[j] == t[j]);
                assert(t[j] == p[j]);
                assert(p[j] == p.subrange(0, 8)[j]);
            }
        }
    }
    let c = child_path(p, name, is_folder);
    assert(c.subrange(0, 8) =~= f.subrange(0, 8)) by {
        assert forall|j: int| 0 <= j < 8 implies c[j] == f[j] by {}
    }
}

/// After a folder whose node carries a device path is expanded, each new
/// child resolves, without any volume lookup, to the folder's resolved path
/// in folder form followed by the child's name (and a separator for a
/// folder): exactly one separator level below the parent.
pub proof fn expanded_child_resolves_one_level_below(v: IndexView, p: u64, es: Seq<EntryView>)
    requires
        index_wf(v),
        v.nodes.contains_key(p),
        is_device_path(v.nodes[p].nt_path),
    ensures
        resolution(v, p) == Ok::<ResolutionView, PolicyError>(
            ResolutionView::Resolved(v.nodes[p].nt_path),
        ),
        ({
            let w = expansion(v, p, v.nodes[p], es);
            let ch = w.nodes[p].children_ids;
            forall|k: int|
                v.nodes[p].children_ids.len() <= k < ch.len() ==> {
                    let c = #[trigger] ch[k];
                    resolution(w, c) == Ok::<ResolutionView, PolicyError>(
                        ResolutionView::Resolved(
                            child_path(
                                v.nodes[p].nt_path,
                                w.nodes[c].name,
                                w.nodes[c].entry_type == EntryType::Directory,
                            ),
                        ),
                    ) && crate::paths::is_entry_name(w.nodes[c].name)
                }
        }),
{
    crate::scanner::expanded_children_are_nested(v, p, es);
    assert(node_ok(v, p));
    crate::scanner::lemma_expansion(v, p, v.nodes[p], es);
    let w = expansion(v, p, v.nodes[p], es);
    let ch = w.nodes[p].children_ids;
    assert forall|k: int| v.nodes[p].children_ids.len() <= k < ch.len() implies {
        let c = #[trigger] ch[k];
        resolution(w, c) == Ok::<ResolutionView, PolicyError>(
            ResolutionView::Resolved(
                child_path(
                    v.nodes[p].nt_path,
                    w.nodes[c].name,
                    w.nodes[c].entry_type == EntryType::Directory,
                ),
            ),
        ) && crate::paths::is_entry_name(w.nodes[c].name)
    } by {
        let c = ch[k];
        lemma_child_keeps_device_form(
            v.nodes[p].nt_path,
            w.nodes[c].name,
            w.nodes[c].entry_type == EntryType::Directory,
        );
    }
}

} // verus!
