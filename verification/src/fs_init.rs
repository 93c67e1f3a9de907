//! Filesystem bring-up: a fresh store holding the root and the three standard
//! top-level directories, in creation order.
use vstd::prelude::*;
use crate::ramfs::RamFs;
use crate::vfs::{NodeV, NodeDataV};
use crate::paths::{seg_wf, lemma_top_level_path};

verus! {

/// The names of the directories created at initialization, in order.
pub open spec fn initial_dirs() -> Seq<Seq<char>> {
    seq![seq!['h', 'o', 'm', 'e'], seq!['t', 'm', 'p'], seq!['b', 'i', 'n']]
}

/// The store's content right after initialization: the root directory listing
/// `home`, `tmp`, `bin` in that order, each present and empty.
pub open spec fn initial_map() -> Map<Seq<char>, NodeV> {
    Map::<Seq<char>, NodeV>::empty().insert(
        seq!['/'],
        NodeV { name: seq!['/'], data: NodeDataV::Dir(initial_dirs()) },
    ).insert(
        seq!['/', 'h', 'o', 'm', 'e'],
        NodeV { name: seq!['h', 'o', 'm', 'e'], data: NodeDataV::Dir(Seq::empty()) },
    ).insert(
        seq!['/', 't', 'm', 'p'],
        NodeV { name: seq!['t', 'm', 'p'], data: NodeDataV::Dir(Seq::empty()) },
    ).insert(
        seq!['/', 'b', 'i', 'n'],
        NodeV { name: seq!['b', 'i', 'n'], data: NodeDataV::Dir(Seq::empty()) },
    )
}

/// Builds the initial filesystem: the root plus `/home`, `/tmp` and `/bin`.
pub fn init() -> (fs: RamFs)
    ensures
        fs.inv(),
        fs@ == initial_map(),
{
    let mut fs = RamFs::new();
    proof {
        reveal_strlit("/home");
        reveal_strlit("/tmp");
        reveal_strlit("/bin");
        assert("/home"@ =~= seq!['/'] + seq!['h', 'o', 'm', 'e']);
        assert("/tmp"@ =~= seq!['/'] + seq!['t', 'm', 'p']);
        assert("/bin"@ =~= seq!['/'] + seq!['b', 'i', 'n']);
        assert(seg_wf(seq!['h', 'o', 'm', 'e']));
        assert(seg_wf(seq!['t', 'm', 'p']));
        assert(seg_wf(seq!['b', 'i', 'n']));
        lemma_top_level_path(seq!['h', 'o', 'm', 'e']);
        lemma_top_level_path(seq!['t', 'm', 'p']);
        lemma_top_level_path(seq!['b', 'i', 'n']);
    }
    let ghost home = seq!['h', 'o', 'm', 'e'];
    let ghost tmp = seq!['t', 'm', 'p'];
    let ghost bin = seq!['b', 'i', 'n'];
    let ghost ph = seq!['/'] + home;
    let ghost pt = seq!['/'] + tmp;
    let ghost pb = seq!['/'] + bin;
    let ghost rootp = seq!['/'];
    let ghost m0 = fs@;
    let r1 = fs.create_dir("/home");
    proof {
        let home_node = NodeV { name: home, data: NodeDataV::Dir(Seq::empty()) };
        assert(ph != rootp && pt != rootp && pb != rootp && ph != pt && ph != pb && pt != pb) by {
            assert(ph[1] == 'h' && pt[1] == 't' && pb[1] == 'b');
        }
        assert(!m0.contains_key(ph));
        assert(m0[rootp].data->Dir_0 =~= Seq::<Seq<char>>::empty());
        assert(!Seq::<Seq<char>>::empty().contains(home));
        assert(Seq::<Seq<char>>::empty().push(home) =~= seq![home]);
        assert(fs@ == m0.insert(ph, home_node).insert(
            rootp,
            NodeV { name: rootp, data: NodeDataV::Dir(seq![home]) },
        ));
    }
    let ghost m1 = fs@;
    let r2 = fs.create_dir("/tmp");
    proof {
        let tmp_node = NodeV { name: tmp, data: NodeDataV::Dir(Seq::empty()) };
        assert(!m1.contains_key(pt));
        assert(m1[rootp].data->Dir_0 == seq![home]);
        assert(!seq![home].contains(tmp)) by {
            assert(seq![home][0] == home);
        }
        assert(seq![home].push(tmp) =~= seq![home, tmp]);
        assert(fs@ == m1.insert(pt, tmp_node).insert(
            rootp,
            NodeV { name: rootp, data: NodeDataV::Dir(seq![home, tmp]) },
        ));
    }
    let ghost m2 = fs@;
    let r3 = fs.create_dir("/bin");
    proof {
        let bin_node = NodeV { name: bin, data: NodeDataV::Dir(Seq::empty()) };
        assert(!m2.contains_key(pb));
        assert(m2[rootp].data->Dir_0 == seq![home, tmp]);
        assert(!seq![home, tmp].contains(bin)) by {
            assert(seq![home, tmp][0] == home && seq![home, tmp][1] == tmp);
        }
        assert(seq![home, tmp].push(bin) =~= initial_dirs());
        assert(ph =~= seq!['/', 'h', 'o', 'm', 'e']);
        assert(pt =~= seq!['/', 't', 'm', 'p']);
        assert(pb =~= seq!['/', 'b', 'i', 'n']);
        assert(fs@ == m2.insert(pb, bin_node).insert(
            rootp,
            NodeV { name: rootp, data: NodeDataV::Dir(initial_dirs()) },
        ));
        assert(fs@ =~~= initial_map());
    }
    fs
}

/// The filesystem handle, if one has been initialized.
pub fn root(slot: &Option<RamFs>) -> (r: Option<&RamFs>)
    ensures
        r is Some <==> slot is Some,
        r matches Some(fs) ==> *fs == slot->0,
{
    match slot {
        Some(fs) => Some(fs),
        None => None,
    }
}

} // verus!
