//! The in-memory filesystem: a flat store of nodes keyed by normalized path,
//! kept consistent with each directory's child-name list.
use vstd::prelude::*;
use vstd::string::StrSliceExecFns;
use vstd::string::StringExecFns;
use crate::vfs::{
    FileType, FsError, FsResult, INode, VFS, FileSystem, NodeV, NodeDataV, INodeV, node_size,
    dir_with, child_list_add, remove_name, type_of, inode_of, list_entries, spec_create,
    spec_remove, spec_read_file, spec_write_file, spec_stat, spec_list_dir,
    lemma_remove_name_contains,
};
use crate::paths::{
    normalize_spec, parent_spec, filename_spec, is_root, is_normalized, child_path_spec,
    lemma_normalize_idempotent, lemma_normalized_props, lemma_root_normalized,
};
use crate::strutil::{str_eq, root_string};

verus! {

pub struct FileData {
    pub content: Vec<u8>,
}

pub struct DirData {
    pub entries: Vec<String>,
}

pub enum NodeData {
    File(FileData),
    Directory(DirData),
}

pub struct Node {
    pub name: String,
    pub file_type: FileType,
    pub data: NodeData,
}

impl View for Node {
    type V = NodeV;

    open spec fn view(&self) -> NodeV {
        NodeV {
            name: self.name@,
            data: match self.data {
                NodeData::File(f) => NodeDataV::File(f.content@),
                NodeData::Directory(d) => NodeDataV::Dir(d.entries.deep_view()),
            },
        }
    }
}

/// The type tag agrees with the payload.
pub open spec fn node_wf(n: Node) -> bool {
    (n.file_type == FileType::File <==> n.data is File) && (n.file_type == FileType::Directory
        <==> n.data is Directory)
}

impl Node {
    pub fn new_file(name: String) -> (r: Node)
        ensures
            r@ == (NodeV { name: name@, data: NodeDataV::File(Seq::<u8>::empty()) }),
            node_wf(r),
    {
        let r = Node {
            name,
            file_type: FileType::File,
            data: NodeData::File(FileData { content: Vec::new() }),
        };
        proof {
            assert(r@.data == NodeDataV::File(Seq::<u8>::empty()));
        }
        r
    }

    pub fn new_dir(name: String) -> (r: Node)
        ensures
            r@ == (NodeV { name: name@, data: NodeDataV::Dir(Seq::<Seq<char>>::empty()) }),
            node_wf(r),
    {
        let r = Node {
            name,
            file_type: FileType::Directory,
            data: NodeData::Directory(DirData { entries: Vec::new() }),
        };
        proof {
            assert(r@.data->Dir_0 =~= Seq::<Seq<char>>::empty());
        }
        r
    }

    pub fn size(&self) -> (r: usize)
        ensures
            r as nat == node_size(self@),
    {
        match &self.data {
            NodeData::File(file) => file.content.len(),
            NodeData::Directory(dir) => dir.entries.len(),
        }
    }
}

/// One stored node under its normalized path.
pub struct FsEntry {
    pub path: String,
    pub node: Node,
}

/// First node stored under path `p`, front to back.
pub open spec fn find_node(s: Seq<FsEntry>, p: Seq<char>) -> Option<NodeV>
    decreases s.len(),
{
    if s.len() == 0 {
        None
    } else if s[0].path@ == p {
        Some(s[0].node@)
    } else {
        find_node(s.drop_first(), p)
    }
}

/// The store as a mapping from normalized path to node value.
pub open spec fn map_of(s: Seq<FsEntry>) -> Map<Seq<char>, NodeV> {
    Map::new(|p: Seq<char>| find_node(s, p) is Some, |p: Seq<char>| find_node(s, p)->0)
}

pub proof fn lemma_find_skip(s: Seq<FsEntry>, p: Seq<char>, j: int)
    requires
        0 <= j <= s.len(),
        forall|t: int| 0 <= t < j ==> s[t].path@ != p,
    ensures
        find_node(s, p) == find_node(s.skip(j), p),
    decreases j,
{
    if j > 0 {
        assert(s[0].path@ != p);
        let t = s.drop_first();
        assert forall|u: int| 0 <= u < j - 1 implies t[u].path@ != p by {
            assert(t[u] == s[u + 1]);
        }
        lemma_find_skip(t, p, j - 1);
        assert(t.skip(j - 1) =~= s.skip(j));
    } else {
        assert(s.skip(0) =~= s);
    }
}

/// A fresh entry pushed at the back is found only when nothing earlier matches.
pub proof fn lemma_find_push(s: Seq<FsEntry>, e: FsEntry, p: Seq<char>)
    ensures
        find_node(s.push(e), p) == if find_node(s, p) is Some {
            find_node(s, p)
        } else if e.path@ == p {
            Some(e.node@)
        } else {
            None
        },
    decreases s.len(),
{
    let q = s.push(e);
    assert(q.len() == s.len() + 1);
    if s.len() == 0 {
        assert(q[0] == e);
        assert(q.drop_first() =~= Seq::<FsEntry>::empty());
        assert(find_node(s, p) is None);
        assert(find_node(q.drop_first(), p) is None);
        if e.path@ == p {
            assert(find_node(q, p) == Some(e.node@));
        } else {
            assert(find_node(q, p) == find_node(q.drop_first(), p));
        }
    } else {
        assert(q[0] == s[0]);
        assert(q.drop_first() =~= s.drop_first().push(e));
        lemma_find_push(s.drop_first(), e, p);
        if s[0].path@ == p {
            assert(find_node(q, p) == Some(s[0].node@));
            assert(find_node(s, p) == Some(s[0].node@));
        } else {
            assert(find_node(q, p) == find_node(q.drop_first(), p));
            assert(find_node(s, p) == find_node(s.drop_first(), p));
        }
    }
}

/// Updating the first entry stored under a path changes only that path.
pub proof fn lemma_find_update(s: Seq<FsEntry>, i: int, e: FsEntry, p: Seq<char>)
    requires
        0 <= i < s.len(),
        e.path@ == s[i].path@,
        forall|j: int| 0 <= j < i ==> s[j].path@ != s[i].path@,
    ensures
        find_node(s.update(i, e), p) == if p == s[i].path@ {
            Some(e.node@)
        } else {
            find_node(s, p)
        },
    decreases s.len(),
{
    let q = s.update(i, e);
    if i == 0 {
        assert(q[0] == e);
        assert(q.drop_first() =~= s.drop_first());
    } else {
        assert(q[0] == s[0]);
        assert(q.drop_first() =~= s.drop_first().update(i - 1, e));
        let t = s.drop_first();
        assert forall|j: int| #![trigger t[j]] 0 <= j < i - 1 implies t[j].path@ != t[i - 1].path@ by {
            assert(t[j] == s[j + 1]);
            assert(t[i - 1] == s[i]);
        }
        assert(t[i - 1] == s[i]);
        lemma_find_update(t, i - 1, e, p);
        assert(s[0].path@ != s[i].path@);
    }
}

/// Removing the only entry stored under a path drops exactly that path.
pub proof fn lemma_find_remove(s: Seq<FsEntry>, i: int, p: Seq<char>)
    requires
        0 <= i < s.len(),
        forall|j: int| 0 <= j < s.len() && j != i ==> s[j].path@ != s[i].path@,
    ensures
        find_node(s.remove(i), p) == if p == s[i].path@ {
            None
        } else {
            find_node(s, p)
        },
    decreases s.len(),
{
    let q = s.remove(i);
    if i == 0 {
        assert(q =~= s.drop_first());
        if p == s[0].path@ {
            lemma_find_skip(s.drop_first(), p, s.len() - 1);
            assert(s.drop_first().skip(s.len() - 1) =~= Seq::<FsEntry>::empty());
            assert forall|t: int| 0 <= t < s.len() - 1 implies s.drop_first()[t].path@ != p by {
                assert(s.drop_first()[t] == s[t + 1]);
            }
        }
    } else {
        assert(q[0] == s[0]);
        assert(q.drop_first() =~= s.drop_first().remove(i - 1));
        let t = s.drop_first();
        assert forall|j: int| #![trigger t[j]] 0 <= j < t.len() && j != i - 1 implies t[j].path@
            != t[i - 1].path@ by {
            assert(t[j] == s[j + 1]);
            assert(t[i - 1] == s[i]);
        }
        assert(t[i - 1] == s[i]);
        lemma_find_remove(t, i - 1, p);
        assert(s[0].path@ != s[i].path@);
    }
}

/// `find_node` misses exactly when no entry holds the path.
pub proof fn lemma_find_none(s: Seq<FsEntry>, p: Seq<char>)
    ensures
        (find_node(s, p) is None) <==> (forall|j: int| 0 <= j < s.len() ==> s[j].path@ != p),
    decreases s.len(),
{
    if s.len() == 0 {
    } else if s[0].path@ == p {
    } else {
        lemma_find_none(s.drop_first(), p);
        if find_node(s, p) is None {
            assert forall|j: int| 0 <= j < s.len() implies s[j].path@ != p by {
                if j > 0 {
                    assert(s.drop_first()[j - 1] == s[j]);
                }
            }
        } else {
            let j = choose|j: int|
                0 <= j < s.drop_first().len() && s.drop_first()[j].path@ == p;
            assert(s[j + 1].path@ == p);
        }
    }
}

/// Pushing a fresh path extends the store's mapping by one key.
pub proof fn lemma_map_push(s: Seq<FsEntry>, e: FsEntry)
    requires
        find_node(s, e.path@) is None,
    ensures
        map_of(s.push(e)) == map_of(s).insert(e.path@, e.node@),
{
    assert forall|p: Seq<char>| #![trigger find_node(s.push(e), p)]
        find_node(s.push(e), p) == (if p == e.path@ {
            Some(e.node@)
        } else {
            find_node(s, p)
        }) by {
        lemma_find_push(s, e, p);
    }
    assert(map_of(s.push(e)) =~= map_of(s).insert(e.path@, e.node@));
}

/// Replacing the first entry under a path updates the mapping at that key.
pub proof fn lemma_map_update(s: Seq<FsEntry>, i: int, e: FsEntry)
    requires
        0 <= i < s.len(),
        e.path@ == s[i].path@,
        forall|j: int| 0 <= j < i ==> s[j].path@ != s[i].path@,
    ensures
        map_of(s.update(i, e)) == map_of(s).insert(e.path@, e.node@),
{
    assert forall|p: Seq<char>| #![trigger find_node(s.update(i, e), p)]
        find_node(s.update(i, e), p) == (if p == e.path@ {
            Some(e.node@)
        } else {
            find_node(s, p)
        }) by {
        lemma_find_update(s, i, e, p);
    }
    assert(find_node(s, s[i].path@) is Some) by {
        lemma_find_none(s, s[i].path@);
    }
    assert(map_of(s.update(i, e)) =~= map_of(s).insert(e.path@, e.node@));
}

/// Deleting the only entry under a path removes exactly that key.
pub proof fn lemma_map_remove(s: Seq<FsEntry>, i: int)
    requires
        0 <= i < s.len(),
        forall|j: int| 0 <= j < s.len() && j != i ==> s[j].path@ != s[i].path@,
    ensures
        map_of(s.remove(i)) == map_of(s).remove(s[i].path@),
{
    assert forall|p: Seq<char>| #![trigger find_node(s.remove(i), p)]
        find_node(s.remove(i), p) == (if p == s[i].path@ {
            Option::<NodeV>::None
        } else {
            find_node(s, p)
        }) by {
        lemma_find_remove(s, i, p);
    }
    assert(map_of(s.remove(i)) =~= map_of(s).remove(s[i].path@));
}

/// Adding a name to a child list keeps every listed name and lists the new one.
pub proof fn lemma_child_list_add_contains(entries: Seq<Seq<char>>, name: Seq<char>, y: Seq<char>)
    ensures
        child_list_add(entries, name).contains(name),
        entries.contains(y) ==> child_list_add(entries, name).contains(y),
{
    if !entries.contains(name) {
        assert(entries.push(name)[entries.len() as int] == name);
    }
    if entries.contains(y) {
        let j = choose|j: int| 0 <= j < entries.len() && entries[j] == y;
        if !entries.contains(name) {
            assert(entries.push(name)[j] == y);
        }
    }
}

/// Creating a fresh node under a present parent directory, and listing its
/// name there, keeps the tree consistent.
pub proof fn lemma_tree_create(m: Map<Seq<char>, NodeV>, n: Seq<char>, node: NodeV, parent2: NodeV)
    requires
        tree_inv(m),
        !m.contains_key(n),
        is_normalized(n),
        !is_root(n),
        m.contains_key(parent_spec(n)->0),
        m[parent_spec(n)->0].data is Dir,
        parent2.name == m[parent_spec(n)->0].name,
        parent2.data == NodeDataV::Dir(
            child_list_add(m[parent_spec(n)->0].data->Dir_0, filename_spec(n)->0),
        ),
    ensures
        tree_inv(m.insert(n, node).insert(parent_spec(n)->0, parent2)),
{
    lemma_normalized_props(n);
    let pp = parent_spec(n)->0;
    let name = filename_spec(n)->0;
    let entries0 = m[pp].data->Dir_0;
    let m2 = m.insert(n, node).insert(pp, parent2);
    assert(pp != n);
    assert(n != seq!['/']) by {
        if n == seq!['/'] {
            assert(is_root(n));
        }
    }
    assert(m2.contains_key(seq!['/']));
    assert(m2[seq!['/']].data is Dir);
    assert forall|p: Seq<char>| #[trigger] m2.contains_key(p) implies is_normalized(p) by {
        if p != n && p != pp {
            assert(m.contains_key(p));
        }
    }
    assert forall|p: Seq<char>| #[trigger] m2.contains_key(p) && !is_root(p) implies parent_link_ok(
        m2,
        p,
    ) by {
        if p == n {
            lemma_child_list_add_contains(entries0, name, name);
            assert(m2[pp] == parent2);
        } else {
            assert(m.contains_key(p));
            assert(parent_link_ok(m, p));
            let pq = parent_spec(p)->0;
            let pname = filename_spec(p)->0;
            assert(pq != n);
            if pq == pp {
                lemma_child_list_add_contains(entries0, name, pname);
                assert(m2[pq] == parent2);
            } else {
                assert(m2[pq] == m[pq]);
            }
        }
    }
}

/// Dropping a childless node, and its name from its parent's child list,
/// keeps the tree consistent.
pub proof fn lemma_tree_remove(m: Map<Seq<char>, NodeV>, n: Seq<char>)
    requires
        tree_inv(m),
        m.contains_key(n),
        !is_root(n),
        m[n].data is Dir ==> m[n].data->Dir_0.len() == 0,
        m.contains_key(parent_spec(n)->0),
        m[parent_spec(n)->0].data is Dir,
    ensures
        tree_inv(
            m.insert(
                parent_spec(n)->0,
                dir_with(
                    m[parent_spec(n)->0],
                    remove_name(m[parent_spec(n)->0].data->Dir_0, filename_spec(n)->0),
                ),
            ).remove(n),
        ),
{
    lemma_normalized_props(n);
    let pp = parent_spec(n)->0;
    let name = filename_spec(n)->0;
    let entries0 = m[pp].data->Dir_0;
    let parent2 = dir_with(m[pp], remove_name(entries0, name));
    let m2 = m.insert(pp, parent2).remove(n);
    assert(parent_link_ok(m, n));
    assert(pp != n) by {
        if pp == n {
            assert(m[n].data is Dir);
            assert(m[n].data->Dir_0.contains(name));
        }
    }
    assert(n != seq!['/']) by {
        if n == seq!['/'] {
            assert(is_root(n));
        }
    }
    assert(m2.contains_key(seq!['/']));
    assert(m2[seq!['/']].data is Dir);
    assert forall|p: Seq<char>| #[trigger] m2.contains_key(p) implies is_normalized(p) by {
        if p != pp {
            assert(m.contains_key(p));
        }
    }
    assert forall|p: Seq<char>| #[trigger] m2.contains_key(p) && !is_root(p) implies parent_link_ok(
        m2,
        p,
    ) by {
        assert(p != n);
        assert(m.contains_key(p));
        assert(parent_link_ok(m, p));
        let pq = parent_spec(p)->0;
        let pname = filename_spec(p)->0;
        assert(pq != n) by {
            if pq == n {
                assert(m[n].data is Dir);
                assert(m[n].data->Dir_0.contains(pname));
            }
        }
        if pq == pp {
            assert(pname != name) by {
                if pname == name {
                    lemma_normalized_props(p);
                    assert(p == child_path_spec(pq, pname));
                    assert(n == child_path_spec(pp, name));
                }
            }
            lemma_remove_name_contains(entries0, name, pname);
            assert(m2[pq] == parent2);
        } else {
            assert(m2[pq] == m[pq]);
        }
    }
}

/// Replacing a file's content in place keeps the tree consistent.
pub proof fn lemma_tree_write(m: Map<Seq<char>, NodeV>, n: Seq<char>, node2: NodeV)
    requires
        tree_inv(m),
        m.contains_key(n),
        m[n].data is File,
        node2.data is File,
    ensures
        tree_inv(m.insert(n, node2)),
{
    let m2 = m.insert(n, node2);
    assert(n != seq!['/']) by {
        if n == seq!['/'] {
            assert(m[seq!['/']].data is Dir);
        }
    }
    assert(m2.contains_key(seq!['/']));
    assert(m2[seq!['/']].data is Dir);
    assert forall|p: Seq<char>| #[trigger] m2.contains_key(p) implies is_normalized(p) by {
        if p != n {
            assert(m.contains_key(p));
        }
    }
    assert forall|p: Seq<char>| #[trigger] m2.contains_key(p) && !is_root(p) implies parent_link_ok(
        m2,
        p,
    ) by {
        assert(m.contains_key(p));
        assert(parent_link_ok(m, p));
        let pq = parent_spec(p)->0;
        assert(pq != n) by {
            if pq == n {
                assert(m[n].data is Dir);
            }
        }
        assert(m2[pq] == m[pq]);
    }
}

/// What adding a name to a node's parent's child list does to the store.
pub open spec fn spec_add_to_parent(m: Map<Seq<char>, NodeV>, p: Seq<char>, name: Seq<char>) -> (
    Map<Seq<char>, NodeV>,
    FsResult<()>,
) {
    match parent_spec(p) {
        None => (m, Ok(())),
        Some(pp) => {
            if !m.contains_key(pp) {
                (m, Err(FsError::NotFound))
            } else if !(m[pp].data is Dir) {
                (m, Err(FsError::NotADirectory))
            } else {
                (m.insert(pp, dir_with(m[pp], child_list_add(m[pp].data->Dir_0, name))), Ok(()))
            }
        },
    }
}

/// What dropping a name from a node's parent's child list does to the store.
pub open spec fn spec_remove_from_parent(
    m: Map<Seq<char>, NodeV>,
    p: Seq<char>,
    name: Seq<char>,
) -> (Map<Seq<char>, NodeV>, FsResult<()>) {
    match parent_spec(p) {
        None => (m, Ok(())),
        Some(pp) => {
            if !m.contains_key(pp) {
                (m, Err(FsError::NotFound))
            } else if !(m[pp].data is Dir) {
                (m, Err(FsError::NotADirectory))
            } else {
                (m.insert(pp, dir_with(m[pp], remove_name(m[pp].data->Dir_0, name))), Ok(()))
            }
        },
    }
}

/// The path-addressed in-memory store.
pub struct RamFs {
    pub nodes: Vec<FsEntry>,
}

impl View for RamFs {
    type V = Map<Seq<char>, NodeV>;

    open spec fn view(&self) -> Map<Seq<char>, NodeV> {
        map_of(self.nodes@)
    }
}

/// The link from a non-root node up to its parent: the parent is present, is
/// a directory, and lists the node's final path segment among its children.
pub open spec fn parent_link_ok(m: Map<Seq<char>, NodeV>, p: Seq<char>) -> bool {
    &&& parent_spec(p) is Some
    &&& filename_spec(p) is Some
    &&& m.contains_key(parent_spec(p)->0)
    &&& m[parent_spec(p)->0].data is Dir
    &&& m[parent_spec(p)->0].data->Dir_0.contains(filename_spec(p)->0)
}

/// The directory-consistency invariant of the whole store: the root is a
/// permanent directory, every key is a normalized path, and every non-root
/// node is linked from its parent's child list.
pub open spec fn tree_inv(m: Map<Seq<char>, NodeV>) -> bool {
    &&& m.contains_key(seq!['/'])
    &&& m[seq!['/']].data is Dir
    &&& forall|p: Seq<char>| #[trigger] m.contains_key(p) ==> is_normalized(p)
    &&& forall|p: Seq<char>| #[trigger] m.contains_key(p) && !is_root(p) ==> parent_link_ok(m, p)
}

impl RamFs {
    /// Stored paths are distinct, and type tags agree with payloads.
    pub open spec fn inv_store(&self) -> bool {
        let s = self.nodes@;
        &&& forall|i: int, j: int| 0 <= i < j < s.len() ==> s[i].path@ != s[j].path@
        &&& forall|i: int| 0 <= i < s.len() ==> node_wf(#[trigger] s[i].node)
    }

    pub open spec fn inv(&self) -> bool {
        self.inv_store() && tree_inv(self@)
    }

    /// A fresh store holding only the root directory.
    pub fn new() -> (r: RamFs)
        ensures
            r.inv(),
            r@ == Map::<Seq<char>, NodeV>::empty().insert(
                seq!['/'],
                NodeV { name: seq!['/'], data: NodeDataV::Dir(Seq::<Seq<char>>::empty()) },
            ),
    {
        let root_name = root_string();
        let root = Node::new_dir(root_name);
        let mut nodes: Vec<FsEntry> = Vec::new();
        nodes.push(FsEntry { path: root_string(), node: root });
        let r = RamFs { nodes };
        proof {
            lemma_root_normalized();
            let s = r.nodes@;
            assert(s.len() == 1);
            assert(s[0].path@ == seq!['/']);
            assert forall|p: Seq<char>| #![trigger find_node(s, p)]
                find_node(s, p) == (if p == seq!['/'] {
                    Some(s[0].node@)
                } else {
                    Option::<NodeV>::None
                }) by {
                assert(s.drop_first() =~= Seq::<FsEntry>::empty());
                if p == seq!['/'] {
                    assert(s[0].path@ == p);
                    assert(find_node(s, p) == Some(s[0].node@));
                } else {
                    assert(s[0].path@ != p);
                    assert(find_node(s, p) == find_node(s.drop_first(), p));
                    assert(find_node(s.drop_first(), p) is None);
                }
            }
            assert(r@ =~= Map::<Seq<char>, NodeV>::empty().insert(
                seq!['/'],
                NodeV { name: seq!['/'], data: NodeDataV::Dir(Seq::<Seq<char>>::empty()) },
            ));
        }
        r
    }

    /// Index of the entry stored under an (already normalized) path.
    fn find_index(&self, path: &str) -> (r: Option<usize>)
        ensures
            match r {
                Some(i) => i < self.nodes@.len() && self.nodes@[i as int].path@ == path@
                    && find_node(self.nodes@, path@) == Some(self.nodes@[i as int].node@)
                    && (forall|j: int| 0 <= j < i ==> self.nodes@[j].path@ != path@),
                None => find_node(self.nodes@, path@) is None,
            },
    {
        let n = self.nodes.len();
        let mut i: usize = 0;
        while i < n
            invariant
                i <= n,
                n == self.nodes@.len(),
                forall|j: int| 0 <= j < i ==> self.nodes@[j].path@ != path@,
            decreases n - i,
        {
            if str_eq(self.nodes[i].path.as_str(), path) {
                proof {
                    lemma_find_skip(self.nodes@, path@, i as int);
                    assert(self.nodes@.skip(i as int)[0] == self.nodes@[i as int]);
                }
                return Some(i);
            }
            i += 1;
        }
        proof {
            lemma_find_skip(self.nodes@, path@, n as int);
            assert(self.nodes@.skip(n as int) =~= Seq::<FsEntry>::empty());
        }
        None
    }

    /// Whether a node is stored under the path, after normalization.
    pub fn path_exists(&self, path: &str) -> (r: bool)
        ensures
            r == self@.contains_key(normalize_spec(path@)),
    {
        let normalized = VFS::normalize_path(path);
        let r = self.find_index(normalized.as_str());
        r.is_some()
    }

    /// Creates an empty node of the given kind under a present parent directory.
    fn create_entry(&mut self, path: &str, make_dir: bool) -> (r: FsResult<()>)
        requires
            old(self).inv(),
        ensures
            final(self).inv(),
            (final(self)@, r) == spec_create(
                old(self)@,
                path@,
                if make_dir {
                    FileType::Directory
                } else {
                    FileType::File
                },
            ),
    {
        let ghost m0 = self@;
        let normalized = VFS::normalize_path(path);
        let ghost n = normalized@;
        proof {
            lemma_normalize_idempotent(path@);
        }
        if self.path_exists(normalized.as_str()) {
            return Err(FsError::AlreadyExists);
        }
        proof {
            assert(!m0.contains_key(n));
            assert(m0.contains_key(seq!['/']));
            if is_root(n) {
                assert(n =~= seq!['/']);
            }
            assert(!is_root(n));
        }
        let parent = VFS::parent_path(normalized.as_str());
        match parent {
            None => {
                proof {
                    assert(false);
                }
                Err(FsError::InvalidPath)
            },
            Some(pp) => {
                match self.find_index(pp.as_str()) {
                    None => {
                        return Err(FsError::NotFound);
                    },
                    Some(pi) => {
                        if self.nodes[pi].node.file_type != FileType::Directory {
                            proof {
                                assert(node_wf(self.nodes@[pi as int].node));
                                assert(!(m0[pp@].data is Dir));
                            }
                            return Err(FsError::NotADirectory);
                        }
                        proof {
                            assert(node_wf(self.nodes@[pi as int].node));
                            assert(m0[pp@].data is Dir);
                        }
                    },
                }
                match VFS::filename(normalized.as_str()) {
                    None => {
                        proof {
                            lemma_normalized_props(n);
                            assert(false);
                        }
                        Err(FsError::InvalidPath)
                    },
                    Some(name) => {
                        let node = if make_dir {
                            Node::new_dir(name.clone())
                        } else {
                            Node::new_file(name.clone())
                        };
                        let ghost s0 = self.nodes@;
                        proof {
                            lemma_find_none(s0, n);
                        }
                        self.nodes.push(FsEntry { path: normalized.clone(), node });
                        proof {
                            let s1 = self.nodes@;
                            let e = s1[s1.len() - 1];
                            assert(s1 == s0.push(e));
                            lemma_map_push(s0, e);
                            assert(self@ == m0.insert(n, e.node@));
                            assert forall|i: int, j: int| 0 <= i < j < s1.len() implies s1[i].path@
                                != s1[j].path@ by {
                                if j < s1.len() - 1 {
                                    assert(s1[i] == s0[i] && s1[j] == s0[j]);
                                } else {
                                    assert(s1[i] == s0[i]);
                                    lemma_find_none(s0, n);
                                }
                            }
                            assert forall|i: int| 0 <= i < s1.len() implies node_wf(
                                #[trigger] s1[i].node,
                            ) by {
                                if i < s1.len() - 1 {
                                    assert(s1[i] == s0[i]);
                                }
                            }
                        }
                        let ghost m1 = self@;
                        let r = self.add_to_parent_dir(normalized.as_str(), name.as_str());
                        proof {
                            assert(parent_spec(n) == Some(pp@));
                            assert(m1.contains_key(pp@)) by {
                                assert(m0.contains_key(pp@));
                            }
                            assert(pp@ != n);
                            assert(m1[pp@] == m0[pp@]);
                            assert(m1[pp@].data is Dir);
                            assert(r is Ok);
                            let name_s = filename_spec(n)->0;
                            assert(name@ == name_s);
                            let parent2 = dir_with(
                                m0[pp@],
                                child_list_add(m0[pp@].data->Dir_0, name_s),
                            );
                            assert(self@ == m1.insert(pp@, parent2));
                            let node_v = NodeV {
                                name: name_s,
                                data: if make_dir {
                                    NodeDataV::Dir(Seq::<Seq<char>>::empty())
                                } else {
                                    NodeDataV::File(Seq::<u8>::empty())
                                },
                            };
                            assert(self@ == m0.insert(n, node_v).insert(pp@, parent2));
                            lemma_normalize_idempotent(path@);
                            lemma_tree_create(m0, n, node_v, parent2);
                        }
                        match r {
                            Ok(_) => Ok(()),
                            Err(e) => Err(e),
                        }
                    },
                }
            },
        }
    }

    /// Creates an empty file; the path must be free and its parent a directory.
    pub fn create_file(&mut self, path: &str) -> (r: FsResult<()>)
        requires
            old(self).inv(),
        ensures
            final(self).inv(),
            (final(self)@, r) == spec_create(old(self)@, path@, FileType::File),
    {
        self.create_entry(path, false)
    }

    /// Creates an empty directory; the path must be free and its parent a directory.
    pub fn create_dir(&mut self, path: &str) -> (r: FsResult<()>)
        requires
            old(self).inv(),
        ensures
            final(self).inv(),
            (final(self)@, r) == spec_create(old(self)@, path@, FileType::Directory),
    {
        self.create_entry(path, true)
    }

    /// Appends the final path segment's name to the parent directory's child
    /// list, unless the name is already listed.
    fn add_to_parent_dir(&mut self, path: &str, name: &str) -> (r: FsResult<()>)
        requires
            old(self).inv_store(),
        ensures
            final(self).inv_store(),
            (final(self)@, r) == spec_add_to_parent(old(self)@, path@, name@),
    {
        let parent = VFS::parent_path(path);
        match parent {
            None => Ok(()),
            Some(pp) => {
                match self.find_index(pp.as_str()) {
                    None => Err(FsError::NotFound),
                    Some(pi) => {
                        let ghost s0 = self.nodes@;
                        let ghost m0 = self@;
                        let mut present = false;
                        let is_dir: bool;
                        match &self.nodes[pi].node.data {
                            NodeData::Directory(dir) => {
                                is_dir = true;
                                present = contains_name(&dir.entries, name);
                            },
                            NodeData::File(_) => {
                                is_dir = false;
                            },
                        }
                        if !is_dir {
                            return Err(FsError::NotADirectory);
                        }
                        proof {
                            assert(m0.contains_key(pp@));
                            assert(m0[pp@] == s0[pi as int].node@);
                        }
                        if !present {
                            let e = &mut self.nodes[pi];
                            match &mut e.node.data {
                                NodeData::Directory(dir) => {
                                    dir.entries.push(name.to_owned());
                                },
                                NodeData::File(_) => {
                                    proof {
                                        assert(false);
                                    }
                                },
                            }
                            proof {
                                let s1 = self.nodes@;
                                let e1 = s1[pi as int];
                                assert(e1.path@ == s0[pi as int].path@);
                                assert(e1.node@.name == s0[pi as int].node@.name);
                                assert(e1.node@.data->Dir_0 =~= s0[pi as int].node@.data->Dir_0.push(
                                    name@,
                                ));
                                assert(e1.node@ == dir_with(
                                    m0[pp@],
                                    child_list_add(m0[pp@].data->Dir_0, name@),
                                ));
                                assert(s1 =~= s0.update(pi as int, e1));
                                lemma_map_update(s0, pi as int, e1);
                                assert forall|i: int, j: int| 0 <= i < j < s1.len() implies s1[i].path@
                                    != s1[j].path@ by {
                                    assert(s1[i].path@ == s0[i].path@);
                                    assert(s1[j].path@ == s0[j].path@);
                                }
                                assert forall|i: int| 0 <= i < s1.len() implies node_wf(
                                    #[trigger] s1[i].node,
                                ) by {
                                    if i != pi as int {
                                        assert(s1[i] == s0[i]);
                                    }
                                }
                            }
                        } else {
                            proof {
                                let entries0 = m0[pp@].data->Dir_0;
                                assert(child_list_add(entries0, name@) == entries0);
                                assert(dir_with(m0[pp@], entries0) == m0[pp@]) by {
                                    assert(m0[pp@].data == NodeDataV::Dir(entries0));
                                }
                                assert(m0.insert(pp@, m0[pp@]) =~= m0);
                            }
                        }
                        Ok(())
                    },
                }
            },
        }
    }
    /// A copy of a file's bytes.
    pub fn read_file(&self, path: &str) -> (r: FsResult<Vec<u8>>)
        ensures
            match (r, spec_read_file(self@, path@)) {
                (Ok(data), Ok(bytes)) => data@ == bytes,
                (Err(e1), Err(e2)) => e1 == e2,
                _ => false,
            },
    {
        let normalized = VFS::normalize_path(path);
        match self.find_index(normalized.as_str()) {
            None => Err(FsError::NotFound),
            Some(i) => {
                match &self.nodes[i].node.data {
                    NodeData::File(file) => Ok(vstd::slice::slice_to_vec(file.content.as_slice())),
                    NodeData::Directory(_) => Err(FsError::NotAFile),
                }
            },
        }
    }

    /// Replaces an existing file's bytes; nothing is created implicitly.
    pub fn write_file(&mut self, path: &str, data: &[u8]) -> (r: FsResult<()>)
        requires
            old(self).inv(),
        ensures
            final(self).inv(),
            (final(self)@, r) == spec_write_file(old(self)@, path@, data@),
    {
        let ghost m0 = self@;
        let ghost s0 = self.nodes@;
        let normalized = VFS::normalize_path(path);
        let ghost n = normalized@;
        match self.find_index(normalized.as_str()) {
            None => Err(FsError::NotFound),
            Some(i) => {
                proof {
                    assert(m0.contains_key(n));
                    assert(m0[n] == s0[i as int].node@);
                }
                let e = &mut self.nodes[i];
                match &mut e.node.data {
                    NodeData::File(file) => {
                        file.content = vstd::slice::slice_to_vec(data);
                    },
                    NodeData::Directory(_) => {
                        proof {
                            let s1 = self.nodes@;
                            assert(s1 =~= s0);
                        }
                        return Err(FsError::NotAFile);
                    },
                }
                proof {
                    let s1 = self.nodes@;
                    let e1 = s1[i as int];
                    assert(e1.path@ == s0[i as int].path@);
                    assert(e1.node@ == (NodeV { name: m0[n].name, data: NodeDataV::File(data@) }));
                    assert(s1 =~= s0.update(i as int, e1));
                    lemma_map_update(s0, i as int, e1);
                    lemma_tree_write(m0, n, e1.node@);
                    assert forall|a: int, b: int| 0 <= a < b < s1.len() implies s1[a].path@
                        != s1[b].path@ by {
                        assert(s1[a].path@ == s0[a].path@);
                        assert(s1[b].path@ == s0[b].path@);
                    }
                    assert forall|a: int| 0 <= a < s1.len() implies node_wf(
                        #[trigger] s1[a].node,
                    ) by {
                        if a != i as int {
                            assert(s1[a] == s0[a]);
                        }
                    }
                }
                Ok(())
            },
        }
    }

    /// The metadata of the node stored under a path.
    pub fn stat(&self, path: &str) -> (r: FsResult<INode>)
        requires
            self.inv(),
        ensures
            match (r, spec_stat(self@, path@)) {
                (Ok(ino), Ok(v)) => ino@ == v,
                (Err(e1), Err(e2)) => e1 == e2,
                _ => false,
            },
    {
        let normalized = VFS::normalize_path(path);
        match self.find_index(normalized.as_str()) {
            None => Err(FsError::NotFound),
            Some(i) => {
                let node = &self.nodes[i].node;
                proof {
                    assert(node_wf(self.nodes@[i as int].node));
                }
                Ok(INode { name: node.name.clone(), file_type: node.file_type, size: node.size() })
            },
        }
    }

    /// The metadata of each child listed by a directory, in child-list order;
    /// listed names with no stored node are skipped.
    pub fn list_dir(&self, path: &str) -> (r: FsResult<Vec<INode>>)
        requires
            self.inv(),
        ensures
            match (r, spec_list_dir(self@, path@)) {
                (Ok(items), Ok(entries)) => items.deep_view() == entries,
                (Err(e1), Err(e2)) => e1 == e2,
                _ => false,
            },
    {
        let ghost m = self@;
        let normalized = VFS::normalize_path(path);
        let ghost n = normalized@;
        let i = match self.find_index(normalized.as_str()) {
            None => {
                return Err(FsError::NotFound);
            },
            Some(i) => i,
        };
        proof {
            assert(m.contains_key(n));
            assert(m[n] == self.nodes@[i as int].node@);
        }
        let dir = match &self.nodes[i].node.data {
            NodeData::Directory(dir) => dir,
            NodeData::File(_) => {
                return Err(FsError::NotADirectory);
            },
        };
        let ghost entries_dv = dir.entries.deep_view();
        let is_root_base = str_eq(normalized.as_str(), "/");
        proof {
            reveal_strlit("/");
            assert("/"@ =~= seq!['/']);
            if is_root(n) {
                assert(n =~= "/"@);
            }
            assert(is_root_base == is_root(n));
        }
        let count = dir.entries.len();
        let mut result: Vec<INode> = Vec::new();
        let mut j: usize = 0;
        proof {
            assert(entries_dv.take(0) =~= Seq::<Seq<char>>::empty());
            assert(result.deep_view() =~= Seq::<INodeV>::empty());
        }
        while j < count
            invariant
                j <= count,
                count == entries_dv.len(),
                count == dir.entries@.len(),
                entries_dv == dir.entries.deep_view(),
                self.inv(),
                m == self@,
                m == map_of(self.nodes@),
                n == normalized@,
                is_root_base == is_root(n),
                result.deep_view() == list_entries(m, n, entries_dv.take(j as int)),
            decreases count - j,
        {
            let ghost rdv = result.deep_view();
            let entry = &dir.entries[j];
            let mut child_path = String::new();
            child_path.append(normalized.as_str());
            if !is_root_base {
                proof {
                    reveal_strlit("/");
                    assert("/"@ =~= seq!['/']);
                }
                child_path.append("/");
            }
            child_path.append(entry.as_str());
            proof {
                assert(child_path@ == child_path_spec(n, entry@));
                assert(entries_dv.take(j as int + 1).drop_last() =~= entries_dv.take(j as int));
                assert(entries_dv.take(j as int + 1).last() == entries_dv[j as int]);
                assert(entry@ == entries_dv[j as int]);
            }
            match self.find_index(child_path.as_str()) {
                Some(ci) => {
                    let child = &self.nodes[ci].node;
                    proof {
                        assert(m.contains_key(child_path@));
                        assert(m[child_path@] == self.nodes@[ci as int].node@);
                        assert(node_wf(self.nodes@[ci as int].node));
                    }
                    result.push(
                        INode {
                            name: entry.clone(),
                            file_type: child.file_type,
                            size: child.size(),
                        },
                    );
                    proof {
                        assert(result.deep_view() =~= rdv.push(
                            inode_of(entry@, m[child_path@]),
                        ));
                    }
                },
                None => {
                    proof {
                        assert(!m.contains_key(child_path@));
                    }
                },
            }
            j += 1;
        }
        proof {
            assert(entries_dv.take(count as int) =~= entries_dv);
        }
        Ok(result)
    }

    /// Drops the final path segment's name from the parent directory's child list.
    fn remove_from_parent_dir(&mut self, path: &str, name: &str) -> (r: FsResult<()>)
        requires
            old(self).inv_store(),
        ensures
            final(self).inv_store(),
            (final(self)@, r) == spec_remove_from_parent(old(self)@, path@, name@),
    {
        let parent = VFS::parent_path(path);
        match parent {
            None => Ok(()),
            Some(pp) => {
                match self.find_index(pp.as_str()) {
                    None => Err(FsError::NotFound),
                    Some(pi) => {
                        let ghost s0 = self.nodes@;
                        let ghost m0 = self@;
                        proof {
                            assert(m0.contains_key(pp@));
                            assert(m0[pp@] == s0[pi as int].node@);
                        }
                        let filtered: Vec<String>;
                        match &self.nodes[pi].node.data {
                            NodeData::Directory(dir) => {
                                filtered = filter_out(&dir.entries, name);
                            },
                            NodeData::File(_) => {
                                return Err(FsError::NotADirectory);
                            },
                        }
                        let e = &mut self.nodes[pi];
                        match &mut e.node.data {
                            NodeData::Directory(dir) => {
                                dir.entries = filtered;
                            },
                            NodeData::File(_) => {
                                proof {
                                    assert(false);
                                }
                            },
                        }
                        proof {
                            let s1 = self.nodes@;
                            let e1 = s1[pi as int];
                            assert(e1.path@ == s0[pi as int].path@);
                            assert(e1.node@.name == s0[pi as int].node@.name);
                            assert(e1.node@ == dir_with(
                                m0[pp@],
                                remove_name(m0[pp@].data->Dir_0, name@),
                            ));
                            assert(s1 =~= s0.update(pi as int, e1));
                            lemma_map_update(s0, pi as int, e1);
                            assert forall|i: int, j: int| 0 <= i < j < s1.len() implies s1[i].path@
                                != s1[j].path@ by {
                                assert(s1[i].path@ == s0[i].path@);
                                assert(s1[j].path@ == s0[j].path@);
                            }
                            assert forall|i: int| 0 <= i < s1.len() implies node_wf(
                                #[trigger] s1[i].node,
                            ) by {
                                if i != pi as int {
                                    assert(s1[i] == s0[i]);
                                }
                            }
                        }
                        Ok(())
                    },
                }
            },
        }
    }

    /// Removes a file or an empty directory; the root is never removable.
    pub fn remove(&mut self, path: &str) -> (r: FsResult<()>)
        requires
            old(self).inv(),
        ensures
            final(self).inv(),
            (final(self)@, r) == spec_remove(old(self)@, path@),
    {
        let ghost m0 = self@;
        let normalized = VFS::normalize_path(path);
        let ghost n = normalized@;
        proof {
            lemma_normalize_idempotent(path@);
        }
        if str_eq(normalized.as_str(), "/") {
            proof {
                reveal_strlit("/");
                assert("/"@ =~= seq!['/']);
                assert(is_root(n));
            }
            return Err(FsError::PermissionDenied);
        }
        proof {
            reveal_strlit("/");
            assert("/"@ =~= seq!['/']);
            if is_root(n) {
                assert(n =~= "/"@);
            }
            assert(!is_root(n));
        }
        let ni = match self.find_index(normalized.as_str()) {
            None => {
                return Err(FsError::NotFound);
            },
            Some(i) => i,
        };
        proof {
            assert(m0.contains_key(n));
            assert(m0[n] == self.nodes@[ni as int].node@);
        }
        match &self.nodes[ni].node.data {
            NodeData::Directory(dir) => {
                if dir.entries.len() > 0 {
                    return Err(FsError::PermissionDenied);
                }
            },
            NodeData::File(_) => {},
        }
        let filename = match VFS::filename(normalized.as_str()) {
            None => {
                proof {
                    lemma_normalized_props(n);
                    assert(false);
                }
                return Err(FsError::InvalidPath);
            },
            Some(f) => f,
        };
        let ghost pp = parent_spec(n)->0;
        proof {
            assert(parent_link_ok(m0, n));
            assert(filename@ == filename_spec(n)->0);
        }
        let r = self.remove_from_parent_dir(normalized.as_str(), filename.as_str());
        proof {
            assert(r is Ok);
            assert(self@ == m0.insert(pp, dir_with(m0[pp], remove_name(m0[pp].data->Dir_0,
                filename@))));
        }
        match r {
            Err(e) => {
                proof {
                    assert(false);
                }
                return Err(e);
            },
            Ok(_) => {},
        }
        let ghost m1 = self@;
        let ghost s1 = self.nodes@;
        let ni2 = match self.find_index(normalized.as_str()) {
            Some(i) => i,
            None => {
                proof {
                    assert(pp != n) by {
                        if pp == n {
                            assert(m0[n].data is Dir);
                            assert(m0[pp].data->Dir_0.contains(filename_spec(n)->0));
                        }
                    }
                    assert(m1.contains_key(n));
                    lemma_find_none(s1, n);
                    let j = choose|j: int| 0 <= j < s1.len() && s1[j].path@ == n;
                    assert(false);
                }
                return Err(FsError::NotFound);
            },
        };
        self.nodes.remove(ni2);
        proof {
            let s2 = self.nodes@;
            assert(s2 == s1.remove(ni2 as int));
            assert forall|j: int| 0 <= j < s1.len() && j != ni2 implies s1[j].path@ != s1[ni2
                as int].path@ by {}
            lemma_map_remove(s1, ni2 as int);
            assert(self@ == m1.remove(n));
            assert(pp != n) by {
                if pp == n {
                    assert(m0[n].data is Dir);
                    assert(m0[pp].data->Dir_0.contains(filename_spec(n)->0));
                }
            }
            lemma_tree_remove(m0, n);
            assert forall|i: int, j: int| 0 <= i < j < s2.len() implies s2[i].path@
                != s2[j].path@ by {
                let oi = if i < ni2 as int { i } else { i + 1 };
                let oj = if j < ni2 as int { j } else { j + 1 };
                assert(s2[i] == s1[oi]);
                assert(s2[j] == s1[oj]);
            }
            assert forall|i: int| 0 <= i < s2.len() implies node_wf(#[trigger] s2[i].node) by {
                let oi = if i < ni2 as int { i } else { i + 1 };
                assert(s2[i] == s1[oi]);
            }
        }
        Ok(())
    }
}

impl FileSystem for RamFs {
    open spec fn fs_map(&self) -> Map<Seq<char>, NodeV> {
        self@
    }

    open spec fn fs_inv(&self) -> bool {
        self.inv()
    }

    fn create_file(&mut self, path: &str) -> (r: FsResult<()>) {
        RamFs::create_file(self, path)
    }

    fn create_dir(&mut self, path: &str) -> (r: FsResult<()>) {
        RamFs::create_dir(self, path)
    }

    fn remove(&mut self, path: &str) -> (r: FsResult<()>) {
        RamFs::remove(self, path)
    }

    fn read_file(&self, path: &str) -> (r: FsResult<Vec<u8>>) {
        RamFs::read_file(self, path)
    }

    fn write_file(&mut self, path: &str, data: &[u8]) -> (r: FsResult<()>) {
        RamFs::write_file(self, path, data)
    }

    fn list_dir(&self, path: &str) -> (r: FsResult<Vec<INode>>) {
        RamFs::list_dir(self, path)
    }

    fn stat(&self, path: &str) -> (r: FsResult<INode>) {
        RamFs::stat(self, path)
    }

    fn path_exists(&self, path: &str) -> (r: bool) {
        RamFs::path_exists(self, path)
    }
}

/// Whether a child list holds the given name.
fn contains_name(entries: &Vec<String>, name: &str) -> (r: bool)
    ensures
        r == entries.deep_view().contains(name@),
{
    let n = entries.len();
    let mut i: usize = 0;
    while i < n
        invariant
            i <= n,
            n == entries@.len(),
            forall|j: int| 0 <= j < i ==> entries.deep_view()[j] != name@,
        decreases n - i,
    {
        if str_eq(entries[i].as_str(), name) {
            proof {
                assert(entries.deep_view()[i as int] == name@);
            }
            return true;
        }
        i += 1;
    }
    proof {
        if entries.deep_view().contains(name@) {
            let j = choose|j: int|
                0 <= j < entries.deep_view().len() && entries.deep_view()[j] == name@;
            assert(false);
        }
    }
    false
}

/// A copy of a child list with every occurrence of a name dropped.
fn filter_out(entries: &Vec<String>, name: &str) -> (r: Vec<String>)
    ensures
        r.deep_view() == remove_name(entries.deep_view(), name@),
{
    let n = entries.len();
    let mut r: Vec<String> = Vec::new();
    let mut i: usize = 0;
    proof {
        assert(entries.deep_view().take(0) =~= Seq::<Seq<char>>::empty());
        assert(r.deep_view() =~= Seq::<Seq<char>>::empty());
    }
    while i < n
        invariant
            i <= n,
            n == entries@.len(),
            r.deep_view() == remove_name(entries.deep_view().take(i as int), name@),
        decreases n - i,
    {
        let ghost dv = entries.deep_view();
        let ghost rdv = r.deep_view();
        proof {
            assert(dv.take(i as int + 1).drop_last() =~= dv.take(i as int));
            assert(dv.take(i as int + 1).last() == dv[i as int]);
        }
        if !str_eq(entries[i].as_str(), name) {
            r.push(entries[i].clone());
            proof {
                assert(r.deep_view() =~= rdv.push(dv[i as int]));
            }
        }
        i += 1;
    }
    proof {
        assert(entries.deep_view().take(n as int) =~= entries.deep_view());
    }
    r
}

} // verus!
