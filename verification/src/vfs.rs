//! The path layer of the virtual filesystem: node metadata types, open
//! options, and the path-normalization helpers of `VFS`.
use vstd::prelude::*;
use vstd::string::StrSliceExecFns;
use vstd::string::StringExecFns;
use crate::paths::{
    segs, join_segs, norm_of_parts, normalize_spec, parent_spec, filename_spec, is_root,
    child_path_spec, lemma_seg_extract, lemma_join_push,
};
use crate::strutil::root_string;

verus! {

#[derive(Clone, Copy, Debug, PartialEq, Eq, Structural)]
pub enum FileType {
    File,
    Directory,
}

#[derive(Clone, Copy, Debug, PartialEq, Eq, Structural)]
pub enum FsError {
    NotFound,
    AlreadyExists,
    NotADirectory,
    NotAFile,
    InvalidPath,
    NoSpace,
    PermissionDenied,
}

/// The short human-readable message of each error kind.
pub open spec fn fs_error_text(e: FsError) -> Seq<char> {
    match e {
        FsError::NotFound => "No such file or directory"@,
        FsError::AlreadyExists => "File or directory already exists"@,
        FsError::NotADirectory => "Not a directory"@,
        FsError::NotAFile => "Not a file"@,
        FsError::InvalidPath => "Invalid path"@,
        FsError::NoSpace => "No space left"@,
        FsError::PermissionDenied => "Permission denied"@,
    }
}

impl FsError {
    /// The short human-readable message surfaced verbatim to interactive callers.
    pub fn message(&self) -> (r: &'static str)
        ensures
            r@ == fs_error_text(*self),
    {
        match self {
            FsError::NotFound => "No such file or directory",
            FsError::AlreadyExists => "File or directory already exists",
            FsError::NotADirectory => "Not a directory",
            FsError::NotAFile => "Not a file",
            FsError::InvalidPath => "Invalid path",
            FsError::NoSpace => "No space left",
            FsError::PermissionDenied => "Permission denied",
        }
    }
}

pub type FsResult<T> = Result<T, FsError>;

/// Metadata of one node, as returned by `stat` and directory listings.
#[derive(Clone, Debug)]
pub struct INode {
    pub name: String,
    pub file_type: FileType,
    pub size: usize,
}

#[derive(Debug)]
pub struct OpenOptions {
    pub read: bool,
    pub write: bool,
    pub create: bool,
    pub truncate: bool,
}

impl Default for OpenOptions {
    fn default() -> (r: Self)
        ensures
            !r.read && !r.write && !r.create && !r.truncate,
    {
        OpenOptions { read: false, write: false, create: false, truncate: false }
    }
}

impl OpenOptions {
    pub fn new() -> (r: Self)
        ensures
            !r.read && !r.write && !r.create && !r.truncate,
    {
        Self::default()
    }

    pub fn read(self, read: bool) -> (r: Self)
        ensures
            r == (Self { read, ..self }),
    {
        OpenOptions { read, ..self }
    }

    pub fn write(self, write: bool) -> (r: Self)
        ensures
            r == (Self { write, ..self }),
    {
        OpenOptions { write, ..self }
    }

    pub fn create(self, create: bool) -> (r: Self)
        ensures
            r == (Self { create, ..self }),
    {
        OpenOptions { create, ..self }
    }

    pub fn truncate(self, truncate: bool) -> (r: Self)
        ensures
            r == (Self { truncate, ..self }),
    {
        OpenOptions { truncate, ..self }
    }
}

/// The mathematical value of a node's payload.
pub enum NodeDataV {
    File(Seq<u8>),
    Dir(Seq<Seq<char>>),
}

/// The mathematical value of a node: its name and payload.
pub struct NodeV {
    pub name: Seq<char>,
    pub data: NodeDataV,
}


/// How many bytes a file holds, or how many children a directory lists.
pub open spec fn node_size(n: NodeV) -> nat {
    match n.data {
        NodeDataV::File(c) => c.len(),
        NodeDataV::Dir(e) => e.len(),
    }
}


/// A directory node with the parent's name and the given child list.
pub open spec fn dir_with(parent: NodeV, entries: Seq<Seq<char>>) -> NodeV {
    NodeV { name: parent.name, data: NodeDataV::Dir(entries) }
}

/// Appends a child name unless it is already listed.
pub open spec fn child_list_add(entries: Seq<Seq<char>>, name: Seq<char>) -> Seq<Seq<char>> {
    if entries.contains(name) {
        entries
    } else {
        entries.push(name)
    }
}

/// The child list with every occurrence of a name dropped.
pub open spec fn remove_name(entries: Seq<Seq<char>>, name: Seq<char>) -> Seq<Seq<char>>
    decreases entries.len(),
{
    if entries.len() == 0 {
        Seq::empty()
    } else if entries.last() == name {
        remove_name(entries.drop_last(), name)
    } else {
        remove_name(entries.drop_last(), name).push(entries.last())
    }
}

pub proof fn lemma_remove_name_contains(entries: Seq<Seq<char>>, name: Seq<char>, y: Seq<char>)
    ensures
        remove_name(entries, name).contains(y) <==> (entries.contains(y) && y != name),
    decreases entries.len(),
{
    if entries.len() > 0 {
        lemma_remove_name_contains(entries.drop_last(), name, y);
        let r = remove_name(entries, name);
        let rr = remove_name(entries.drop_last(), name);
        if entries.contains(y) && y != name {
            let j = choose|j: int| 0 <= j < entries.len() && entries[j] == y;
            if j == entries.len() - 1 {
                assert(entries.last() == y);
                assert(r[r.len() - 1] == y);
            } else {
                assert(entries.drop_last()[j] == y);
                assert(rr.contains(y));
                if entries.last() != name {
                    let t = choose|t: int| 0 <= t < rr.len() && rr[t] == y;
                    assert(r[t] == y);
                }
            }
        }
        if r.contains(y) {
            let j = choose|j: int| 0 <= j < r.len() && r[j] == y;
            if entries.last() == name {
                assert(rr.contains(y));
                let t = choose|t: int| 0 <= t < entries.len() - 1 && entries.drop_last()[t] == y;
                assert(entries[t] == y);
            } else {
                if j == r.len() - 1 {
                    assert(y == entries.last());
                    assert(entries[entries.len() - 1] == y);
                } else {
                    assert(rr[j] == y);
                    let t = choose|t: int| 0 <= t < entries.len() - 1 && entries.drop_last()[t]
                        == y;
                    assert(entries[t] == y);
                }
            }
        }
    }
}

/// The type tag a node value would carry.
pub open spec fn type_of(d: NodeDataV) -> FileType {
    match d {
        NodeDataV::File(_) => FileType::File,
        NodeDataV::Dir(_) => FileType::Directory,
    }
}

/// What creating a node does to the store: the normalized path must be free,
/// its parent present and a directory; the node is inserted empty and its name
/// is appended to the parent's child list unless already there.
pub open spec fn spec_create(m: Map<Seq<char>, NodeV>, raw: Seq<char>, ftype: FileType) -> (
    Map<Seq<char>, NodeV>,
    FsResult<()>,
) {
    let n = normalize_spec(raw);
    if m.contains_key(n) {
        (m, Err(FsError::AlreadyExists))
    } else {
        match parent_spec(n) {
            None => (m, Err(FsError::InvalidPath)),
            Some(pp) => {
                if !m.contains_key(pp) {
                    (m, Err(FsError::NotFound))
                } else if !(m[pp].data is Dir) {
                    (m, Err(FsError::NotADirectory))
                } else {
                    let name = filename_spec(n)->0;
                    let node = NodeV {
                        name,
                        data: if ftype == FileType::File {
                            NodeDataV::File(Seq::empty())
                        } else {
                            NodeDataV::Dir(Seq::empty())
                        },
                    };
                    let parent2 = dir_with(m[pp], child_list_add(m[pp].data->Dir_0, name));
                    (m.insert(n, node).insert(pp, parent2), Ok(()))
                }
            },
        }
    }
}

/// What removing a node does to the store: the root and nonempty directories
/// are refused; otherwise the name leaves the parent's child list and the
/// node leaves the mapping.
pub open spec fn spec_remove(m: Map<Seq<char>, NodeV>, raw: Seq<char>) -> (
    Map<Seq<char>, NodeV>,
    FsResult<()>,
) {
    let n = normalize_spec(raw);
    if is_root(n) {
        (m, Err(FsError::PermissionDenied))
    } else if !m.contains_key(n) {
        (m, Err(FsError::NotFound))
    } else if m[n].data is Dir && m[n].data->Dir_0.len() > 0 {
        (m, Err(FsError::PermissionDenied))
    } else {
        match filename_spec(n) {
            None => (m, Err(FsError::InvalidPath)),
            Some(name) => match parent_spec(n) {
                None => (m.remove(n), Ok(())),
                Some(pp) => {
                    if !m.contains_key(pp) {
                        (m, Err(FsError::NotFound))
                    } else if !(m[pp].data is Dir) {
                        (m, Err(FsError::NotADirectory))
                    } else {
                        let parent2 = dir_with(m[pp], remove_name(m[pp].data->Dir_0, name));
                        (m.insert(pp, parent2).remove(n), Ok(()))
                    }
                },
            },
        }
    }
}

/// What reading a file returns: its byte content, a copy.
pub open spec fn spec_read_file(m: Map<Seq<char>, NodeV>, raw: Seq<char>) -> Result<
    Seq<u8>,
    FsError,
> {
    let n = normalize_spec(raw);
    if !m.contains_key(n) {
        Err(FsError::NotFound)
    } else {
        match m[n].data {
            NodeDataV::File(c) => Ok(c),
            NodeDataV::Dir(_) => Err(FsError::NotAFile),
        }
    }
}

/// What writing a file does: replaces the byte content of an existing file.
pub open spec fn spec_write_file(m: Map<Seq<char>, NodeV>, raw: Seq<char>, data: Seq<u8>) -> (
    Map<Seq<char>, NodeV>,
    FsResult<()>,
) {
    let n = normalize_spec(raw);
    if !m.contains_key(n) {
        (m, Err(FsError::NotFound))
    } else {
        match m[n].data {
            NodeDataV::File(_) => (
                m.insert(n, NodeV { name: m[n].name, data: NodeDataV::File(data) }),
                Ok(()),
            ),
            NodeDataV::Dir(_) => (m, Err(FsError::NotAFile)),
        }
    }
}

/// The metadata value `stat` reports.
pub struct INodeV {
    pub name: Seq<char>,
    pub file_type: FileType,
    pub size: nat,
}

pub open spec fn inode_of(name: Seq<char>, n: NodeV) -> INodeV {
    INodeV { name, file_type: type_of(n.data), size: node_size(n) }
}

pub open spec fn spec_stat(m: Map<Seq<char>, NodeV>, raw: Seq<char>) -> Result<INodeV, FsError> {
    let n = normalize_spec(raw);
    if !m.contains_key(n) {
        Err(FsError::NotFound)
    } else {
        Ok(inode_of(m[n].name, m[n]))
    }
}

/// One metadata line per listed child name that resolves to a stored node,
/// in child-list order; names with no node are skipped.
pub open spec fn list_entries(
    m: Map<Seq<char>, NodeV>,
    base: Seq<char>,
    entries: Seq<Seq<char>>,
) -> Seq<INodeV>
    decreases entries.len(),
{
    if entries.len() == 0 {
        Seq::empty()
    } else {
        let name = entries.last();
        let child = child_path_spec(base, name);
        let front = list_entries(m, base, entries.drop_last());
        if m.contains_key(child) {
            front + seq![inode_of(name, m[child])]
        } else {
            front
        }
    }
}

pub open spec fn spec_list_dir(m: Map<Seq<char>, NodeV>, raw: Seq<char>) -> Result<
    Seq<INodeV>,
    FsError,
> {
    let n = normalize_spec(raw);
    if !m.contains_key(n) {
        Err(FsError::NotFound)
    } else {
        match m[n].data {
            NodeDataV::Dir(entries) => Ok(list_entries(m, n, entries)),
            NodeDataV::File(_) => Err(FsError::NotADirectory),
        }
    }
}

impl View for INode {
    type V = INodeV;

    open spec fn view(&self) -> INodeV {
        INodeV { name: self.name@, file_type: self.file_type, size: self.size as nat }
    }
}

impl DeepView for INode {
    type V = INodeV;

    open spec fn deep_view(&self) -> INodeV {
        self.view()
    }
}


/// The filesystem interface: every operation normalizes its path argument and
/// behaves as the corresponding functional specification says, over the view
/// `fs_map` from normalized paths to node values.
pub trait FileSystem {
    spec fn fs_map(&self) -> Map<Seq<char>, NodeV>;

    spec fn fs_inv(&self) -> bool;

    fn create_file(&mut self, path: &str) -> (r: FsResult<()>)
        requires
            old(self).fs_inv(),
        ensures
            final(self).fs_inv(),
            (final(self).fs_map(), r) == spec_create(old(self).fs_map(), path@, FileType::File),
    ;

    fn create_dir(&mut self, path: &str) -> (r: FsResult<()>)
        requires
            old(self).fs_inv(),
        ensures
            final(self).fs_inv(),
            (final(self).fs_map(), r) == spec_create(
                old(self).fs_map(),
                path@,
                FileType::Directory,
            ),
    ;

    fn remove(&mut self, path: &str) -> (r: FsResult<()>)
        requires
            old(self).fs_inv(),
        ensures
            final(self).fs_inv(),
            (final(self).fs_map(), r) == spec_remove(old(self).fs_map(), path@),
    ;

    fn read_file(&self, path: &str) -> (r: FsResult<Vec<u8>>)
        requires
            self.fs_inv(),
        ensures
            match (r, spec_read_file(self.fs_map(), path@)) {
                (Ok(data), Ok(bytes)) => data@ == bytes,
                (Err(e1), Err(e2)) => e1 == e2,
                _ => false,
            },
    ;

    fn write_file(&mut self, path: &str, data: &[u8]) -> (r: FsResult<()>)
        requires
            old(self).fs_inv(),
        ensures
            final(self).fs_inv(),
            (final(self).fs_map(), r) == spec_write_file(old(self).fs_map(), path@, data@),
    ;

    fn list_dir(&self, path: &str) -> (r: FsResult<Vec<INode>>)
        requires
            self.fs_inv(),
        ensures
            match (r, spec_list_dir(self.fs_map(), path@)) {
                (Ok(items), Ok(entries)) => items.deep_view() == entries,
                (Err(e1), Err(e2)) => e1 == e2,
                _ => false,
            },
    ;

    fn stat(&self, path: &str) -> (r: FsResult<INode>)
        requires
            self.fs_inv(),
        ensures
            match (r, spec_stat(self.fs_map(), path@)) {
                (Ok(ino), Ok(v)) => ino@ == v,
                (Err(e1), Err(e2)) => e1 == e2,
                _ => false,
            },
    ;

    fn path_exists(&self, path: &str) -> (r: bool)
        requires
            self.fs_inv(),
        ensures
            r == self.fs_map().contains_key(normalize_spec(path@)),
    ;
}

pub struct VFS;

/// Splits a path into its nonempty `'/'`-separated segments.
fn split_segments(path: &str) -> (parts: Vec<String>)
    ensures
        parts.deep_view() == segs(path@),
{
    let n = path.unicode_len();
    let mut parts: Vec<String> = Vec::new();
    let mut i: usize = 0;
    proof {
        assert(path@.skip(0) =~= path@);
    }
    while i < n
        invariant
            i <= n,
            n == path@.len(),
            segs(path@) == parts.deep_view() + segs(path@.skip(i as int)),
        decreases n - i,
    {
        let c = path.get_char(i);
        if c == '/' {
            proof {
                assert(path@.skip(i as int).drop_first() =~= path@.skip(i as int + 1));
            }
            i += 1;
        } else {
            let start = i;
            i += 1;
            while i < n && path.get_char(i) != '/'
                invariant
                    start < i <= n,
                    n == path@.len(),
                    forall|t: int| start <= t < i ==> path@[t] != '/',
                decreases n - i,
            {
                i += 1;
            }
            let seg = path.substring_char(start, i);
            let ghost old_parts = parts.deep_view();
            parts.push(seg.to_owned());
            proof {
                let rest = path@.skip(start as int);
                let k = (i - start) as int;
                assert forall|t: int| 0 <= t < k implies rest[t] != '/' by {
                    assert(rest[t] == path@[start + t]);
                }
                if k < rest.len() {
                    assert(rest[k] == path@[i as int]);
                }
                lemma_seg_extract(rest, k);
                assert(rest.take(k) =~= seg@);
                assert(rest.skip(k) =~= path@.skip(i as int));
                assert(segs(rest) == seq![seg@] + segs(path@.skip(i as int)));
                assert(parts.deep_view() =~= old_parts.push(seg@));
                assert(old_parts.push(seg@) + segs(path@.skip(i as int)) =~= old_parts + segs(
                    rest,
                ));
            }
        }
    }
    proof {
        assert(path@.skip(n as int) =~= Seq::<char>::empty());
        assert(parts.deep_view() + segs(path@.skip(n as int)) =~= parts.deep_view());
    }
    parts
}

/// Joins the first `upto` segments under a leading separator.
fn join_upto(parts: &Vec<String>, upto: usize) -> (r: String)
    requires
        upto <= parts@.len(),
    ensures
        r@ == join_segs(parts.deep_view().take(upto as int)),
{
    let mut r = String::new();
    let mut j: usize = 0;
    proof {
        assert(parts.deep_view().take(0) =~= Seq::<Seq<char>>::empty());
    }
    while j < upto
        invariant
            j <= upto <= parts@.len(),
            r@ == join_segs(parts.deep_view().take(j as int)),
        decreases upto - j,
    {
        proof {
            reveal_strlit("/");
            assert("/"@ =~= seq!['/']);
        }
        r.append("/");
        r.append(parts[j].as_str());
        proof {
            let dv = parts.deep_view();
            lemma_join_push(dv.take(j as int), dv[j as int]);
            assert(dv.take(j as int + 1) =~= dv.take(j as int).push(dv[j as int]));
            assert(r@ =~= join_segs(dv.take(j as int + 1)));
        }
        j += 1;
    }
    r
}

impl VFS {
    /// Normalizes a path: empty or non-absolute input becomes the root;
    /// otherwise repeated, leading and trailing separators collapse, leaving
    /// the segments rejoined under one leading `'/'`.
    pub fn normalize_path(path: &str) -> (r: String)
        ensures
            r@ == normalize_spec(path@),
    {
        let n = path.unicode_len();
        if n == 0 || path.get_char(0) != '/' {
            return root_string();
        }
        let parts = split_segments(path);
        if parts.len() == 0 {
            root_string()
        } else {
            let r = join_upto(&parts, parts.len());
            proof {
                assert(parts.deep_view().take(parts@.len() as int) =~= parts.deep_view());
            }
            r
        }
    }

    /// The parent of a path: `None` for the root itself, the root for a
    /// one-segment path, otherwise all but the last segment.
    pub fn parent_path(path: &str) -> (r: Option<String>)
        ensures
            r.deep_view() == parent_spec(path@),
    {
        let n = path.unicode_len();
        if n == 1 && path.get_char(0) == '/' {
            return None;
        }
        let normalized = Self::normalize_path(path);
        let parts = split_segments(normalized.as_str());
        if parts.len() <= 1 {
            Some(root_string())
        } else {
            let r = join_upto(&parts, parts.len() - 1);
            proof {
                assert(norm_of_parts(parts.deep_view().take(parts@.len() - 1)) == r@);
            }
            Some(r)
        }
    }

    /// The last segment of the normalized path, if any.
    pub fn filename(path: &str) -> (r: Option<String>)
        ensures
            r.deep_view() == filename_spec(path@),
    {
        let normalized = Self::normalize_path(path);
        let parts = split_segments(normalized.as_str());
        if parts.len() == 0 {
            None
        } else {
            let r = parts[parts.len() - 1].clone();
            Some(r)
        }
    }
}

} // verus!
