//! Cross-operation laws of the filesystem model, stated over the functional
//! specifications that the executable operations are proved against.
use vstd::prelude::*;
use crate::vfs::{
    FileType, FsError, FsResult, NodeV, NodeDataV, spec_create, spec_remove, spec_read_file,
    spec_write_file, lemma_remove_name_contains,
};
use crate::ramfs::{tree_inv, parent_link_ok};
use crate::paths::{normalize_spec, parent_spec, filename_spec, is_root};

verus! {

/// Creating a node makes it exist: after a successful creation the normalized
/// path is present, and creating it again — with either kind — is refused as
/// already existing.
pub proof fn lemma_create_then_exists(
    m: Map<Seq<char>, NodeV>,
    p: Seq<char>,
    first: FileType,
    second: FileType,
)
    requires
        spec_create(m, p, first).1 is Ok,
    ensures
        spec_create(m, p, first).0.contains_key(normalize_spec(p)),
        spec_create(spec_create(m, p, first).0, p, second).1 == FsResult::<()>::Err(
            FsError::AlreadyExists,
        ),
{
    let n = normalize_spec(p);
    let pp = parent_spec(n)->0;
    assert(m.contains_key(pp));
    assert(!m.contains_key(n));
    assert(pp != n);
}

/// Removal refuses a directory that still lists children, with a permission
/// error; the root gets the same answer.
pub proof fn lemma_remove_nonempty_refused(m: Map<Seq<char>, NodeV>, p: Seq<char>)
    requires
        m.contains_key(normalize_spec(p)),
        m[normalize_spec(p)].data is Dir,
        m[normalize_spec(p)].data->Dir_0.len() > 0,
    ensures
        spec_remove(m, p).1 == FsResult::<()>::Err(FsError::PermissionDenied),
        spec_remove(m, p).0 == m,
{
}

/// Removing an empty directory succeeds, the path is gone, and the parent's
/// child list no longer holds its name.
pub proof fn lemma_remove_empty_dir(m: Map<Seq<char>, NodeV>, p: Seq<char>)
    requires
        tree_inv(m),
        m.contains_key(normalize_spec(p)),
        !is_root(normalize_spec(p)),
        m[normalize_spec(p)].data is Dir,
        m[normalize_spec(p)].data->Dir_0.len() == 0,
    ensures
        spec_remove(m, p).1 is Ok,
        !spec_remove(m, p).0.contains_key(normalize_spec(p)),
        ({
            let n = normalize_spec(p);
            let pp = parent_spec(n)->0;
            let m1 = spec_remove(m, p).0;
            m1.contains_key(pp) && !m1[pp].data->Dir_0.contains(filename_spec(n)->0)
        }),
{
    let n = normalize_spec(p);
    assert(parent_link_ok(m, n));
    let pp = parent_spec(n)->0;
    let name = filename_spec(n)->0;
    assert(pp != n) by {
        if pp == n {
            assert(m[n].data->Dir_0.contains(name));
        }
    }
    lemma_remove_name_contains(m[pp].data->Dir_0, name, name);
}

/// Writing a file that was never created is refused as not found.
pub proof fn lemma_write_before_create(m: Map<Seq<char>, NodeV>, p: Seq<char>, data: Seq<u8>)
    requires
        !m.contains_key(normalize_spec(p)),
    ensures
        spec_write_file(m, p, data).1 == FsResult::<()>::Err(FsError::NotFound),
        spec_write_file(m, p, data).0 == m,
{
}

/// The write/read round trip: after creating a file and writing bytes to it,
/// reading it back returns exactly those bytes.
pub proof fn lemma_write_read_round_trip(m: Map<Seq<char>, NodeV>, p: Seq<char>, data: Seq<u8>)
    requires
        spec_create(m, p, FileType::File).1 is Ok,
    ensures
        ({
            let m1 = spec_create(m, p, FileType::File).0;
            let (m2, wr) = spec_write_file(m1, p, data);
            wr is Ok && spec_read_file(m2, p) == Result::<Seq<u8>, FsError>::Ok(data)
        }),
{
    let n = normalize_spec(p);
    let pp = parent_spec(n)->0;
    assert(m.contains_key(pp));
    assert(!m.contains_key(n));
    assert(pp != n);
    let m1 = spec_create(m, p, FileType::File).0;
    assert(m1.contains_key(n));
    assert(m1[n].data is File);
    let m2 = spec_write_file(m1, p, data).0;
    assert(m2.contains_key(n));
    assert(m2[n].data == NodeDataV::File(data));
}

} // verus!
