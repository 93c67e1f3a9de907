//! The mathematical model of absolute paths: a path is split on `'/'` into
//! nonempty segments, and a normalized path is `'/'` followed by those
//! segments rejoined with single separators.
use vstd::prelude::*;

verus! {

/// Length of the leading run of non-separator characters.
pub open spec fn seg_len(s: Seq<char>) -> nat
    decreases s.len(),
{
    if s.len() == 0 || s[0] == '/' {
        0
    } else {
        (1 + seg_len(s.drop_first())) as nat
    }
}

pub proof fn lemma_seg_len(s: Seq<char>)
    ensures
        seg_len(s) <= s.len(),
        forall|i: int| 0 <= i < seg_len(s) ==> s[i] != '/',
        seg_len(s) < s.len() ==> s[seg_len(s) as int] == '/',
    decreases s.len(),
{
    if s.len() == 0 || s[0] == '/' {
    } else {
        lemma_seg_len(s.drop_first());
        assert forall|i: int| 0 <= i < seg_len(s) implies s[i] != '/' by {
            if i > 0 {
                assert(s.drop_first()[i - 1] != '/');
            }
        }
        if seg_len(s) < s.len() {
            assert(s[seg_len(s) as int] == s.drop_first()[seg_len(s.drop_first()) as int]);
        }
    }
}

/// A well-formed segment: nonempty, free of separators.
pub open spec fn seg_wf(p: Seq<char>) -> bool {
    p.len() > 0 && forall|i: int| 0 <= i < p.len() ==> p[i] != '/'
}

pub open spec fn all_segs_wf(parts: Seq<Seq<char>>) -> bool {
    forall|k: int| 0 <= k < parts.len() ==> seg_wf(#[trigger] parts[k])
}

/// The segments of `s`: the maximal nonempty runs of non-separator characters,
/// in order. Empty runs (from repeated, leading or trailing separators) vanish.
pub open spec fn segs(s: Seq<char>) -> Seq<Seq<char>>
    decreases s.len(),
    via segs_dec
{
    if s.len() == 0 {
        Seq::empty()
    } else if s[0] == '/' {
        segs(s.drop_first())
    } else {
        seq![s.take(seg_len(s) as int)] + segs(s.skip(seg_len(s) as int))
    }
}

#[via_fn]
proof fn segs_dec(s: Seq<char>) {
    if s.len() != 0 && s[0] != '/' {
        lemma_seg_len(s);
        assert(seg_len(s) == 1 + seg_len(s.drop_first()));
    }
}

/// Every segment is nonempty and free of separators.
pub proof fn lemma_segs_wf(s: Seq<char>)
    ensures
        all_segs_wf(segs(s)),
    decreases s.len(),
{
    if s.len() == 0 {
    } else if s[0] == '/' {
        lemma_segs_wf(s.drop_first());
    } else {
        lemma_seg_len(s);
        let k = seg_len(s) as int;
        lemma_segs_wf(s.skip(k));
        let first = s.take(k);
        assert(seg_wf(first)) by {
            assert forall|i: int| 0 <= i < first.len() implies first[i] != '/' by {
                assert(first[i] == s[i]);
            }
        }
        assert forall|j: int| 0 <= j < segs(s).len() implies seg_wf(#[trigger] segs(s)[j]) by {
            if j == 0 {
                assert(segs(s)[0] == first);
            } else {
                assert(segs(s)[j] == segs(s.skip(k))[j - 1]);
            }
        }
    }
}

/// A maximal leading separator-free run of length `k` is what `seg_len` measures.
pub proof fn lemma_seg_extract(s: Seq<char>, k: int)
    requires
        0 < k <= s.len(),
        forall|i: int| 0 <= i < k ==> s[i] != '/',
        k == s.len() || s[k] == '/',
    ensures
        seg_len(s) == k,
    decreases k,
{
    assert(s[0] != '/');
    if k == 1 {
        lemma_seg_len(s.drop_first());
        if s.len() > 1 {
            assert(s.drop_first()[0] == s[1]);
            assert(seg_len(s.drop_first()) == 0);
        }
    } else {
        let t = s.drop_first();
        assert forall|i: int| 0 <= i < k - 1 implies t[i] != '/' by {
            assert(t[i] == s[i + 1]);
        }
        if k - 1 < t.len() {
            assert(t[k - 1] == s[k]);
        }
        lemma_seg_extract(t, k - 1);
    }
}

/// `'/' + p0 + '/' + p1 + ...` — empty when there are no parts.
pub open spec fn join_segs(parts: Seq<Seq<char>>) -> Seq<char>
    decreases parts.len(),
{
    if parts.len() == 0 {
        Seq::empty()
    } else {
        seq!['/'] + parts[0] + join_segs(parts.drop_first())
    }
}

/// Joining one more part appends one separator and the part.
pub proof fn lemma_join_push(parts: Seq<Seq<char>>, p: Seq<char>)
    ensures
        join_segs(parts.push(p)) == join_segs(parts) + seq!['/'] + p,
    decreases parts.len(),
{
    let q = parts.push(p);
    assert(q.len() == parts.len() + 1);
    if parts.len() == 0 {
        assert(q.drop_first() =~= Seq::<Seq<char>>::empty());
        assert(q[0] == p);
        assert(join_segs(q) == seq!['/'] + p + join_segs(Seq::<Seq<char>>::empty()));
        assert(join_segs(q) =~= join_segs(parts) + seq!['/'] + p);
    } else {
        assert(q.drop_first() =~= parts.drop_first().push(p));
        lemma_join_push(parts.drop_first(), p);
        assert(q[0] == parts[0]);
        assert(join_segs(q) == seq!['/'] + parts[0] + join_segs(parts.drop_first().push(p)));
        assert(join_segs(q) == seq!['/'] + parts[0] + (join_segs(parts.drop_first()) + seq!['/']
            + p));
        assert(join_segs(parts) == seq!['/'] + parts[0] + join_segs(parts.drop_first()));
        assert(join_segs(q) =~= join_segs(parts) + seq!['/'] + p);
    }
}

/// A separator-free nonempty prefix followed by a separator (or the end)
/// is the first segment.
pub proof fn lemma_first_seg(p: Seq<char>, t: Seq<char>)
    requires
        seg_wf(p),
        t.len() == 0 || t[0] == '/',
    ensures
        segs(p + t) == seq![p] + segs(t),
{
    let s = p + t;
    assert forall|i: int| 0 <= i < p.len() implies s[i] != '/' by {
        assert(s[i] == p[i]);
    }
    if p.len() < s.len() {
        assert(s[p.len() as int] == t[0]);
    }
    lemma_seg_extract(s, p.len() as int);
    assert(s.take(p.len() as int) =~= p);
    assert(s.skip(p.len() as int) =~= t);
}

/// Splitting a joined sequence of well-formed segments gives the parts back.
pub proof fn lemma_segs_of_join(parts: Seq<Seq<char>>)
    requires
        all_segs_wf(parts),
    ensures
        segs(join_segs(parts)) == parts,
    decreases parts.len(),
{
    if parts.len() == 0 {
        assert(segs(join_segs(parts)) =~= parts);
    } else {
        let p0 = parts[0];
        let rest = parts.drop_first();
        assert(seg_wf(p0));
        assert(all_segs_wf(rest)) by {
            assert forall|k: int| 0 <= k < rest.len() implies seg_wf(#[trigger] rest[k]) by {
                assert(rest[k] == parts[k + 1]);
            }
        }
        lemma_segs_of_join(rest);
        let j = join_segs(parts);
        let body = p0 + join_segs(rest);
        assert(j == seq!['/'] + body);
        assert(j[0] == '/');
        assert(j.drop_first() =~= body);
        if rest.len() > 0 {
            assert(join_segs(rest)[0] == '/');
        }
        lemma_first_seg(p0, join_segs(rest));
        assert(segs(j) == segs(body));
        assert(segs(body) == seq![p0] + segs(join_segs(rest)));
        assert(seq![p0] + rest =~= parts);
    }
}

/// A nonempty join starts with the separator.
pub proof fn lemma_join_starts_slash(parts: Seq<Seq<char>>)
    requires
        parts.len() > 0,
    ensures
        join_segs(parts).len() > 0,
        join_segs(parts)[0] == '/',
{
}

/// The root path alone has no segments.
pub proof fn lemma_segs_root()
    ensures
        segs(seq!['/']) == Seq::<Seq<char>>::empty(),
{
    let r: Seq<char> = seq!['/'];
    assert(r.len() == 1);
    assert(r[0] == '/');
    let e = r.drop_first();
    assert(e =~= Seq::<char>::empty());
    assert(segs(r) == segs(e));
    assert(e.len() == 0);
    assert(segs(e) == Seq::<Seq<char>>::empty());
}

/// The segments of a normalized absolute path are those of the original.
pub proof fn lemma_segs_normalize(s: Seq<char>)
    ensures
        segs(normalize_spec(s)) == if s.len() > 0 && s[0] == '/' {
            segs(s)
        } else {
            Seq::<Seq<char>>::empty()
        },
{
    if s.len() == 0 || s[0] != '/' {
        assert(normalize_spec(s) == seq!['/']);
        lemma_segs_root();
    } else {
        lemma_segs_wf(s);
        if segs(s).len() == 0 {
            assert(normalize_spec(s) == seq!['/']);
            lemma_segs_root();
        } else {
            lemma_segs_of_join(segs(s));
        }
    }
}

/// Normalization is idempotent: normalizing a normalized path changes nothing.
pub proof fn lemma_normalize_idempotent(s: Seq<char>)
    ensures
        normalize_spec(normalize_spec(s)) == normalize_spec(s),
{
    let n = normalize_spec(s);
    lemma_segs_normalize(s);
    if s.len() == 0 || s[0] != '/' {
        assert(n == seq!['/']);
        lemma_segs_root();
        assert(normalize_spec(n) == seq!['/']);
    } else if segs(s).len() == 0 {
        assert(n == seq!['/']);
        lemma_segs_root();
        assert(normalize_spec(n) == seq!['/']);
    } else {
        lemma_join_starts_slash(segs(s));
        assert(n[0] == '/');
        lemma_segs_wf(s);
        lemma_segs_of_join(segs(s));
        assert(segs(n) == segs(s));
        assert(normalize_spec(n) == norm_of_parts(segs(s)));
    }
}

/// A normalized path: the root alone when there are no segments.
pub open spec fn norm_of_parts(parts: Seq<Seq<char>>) -> Seq<char> {
    if parts.len() == 0 {
        seq!['/']
    } else {
        join_segs(parts)
    }
}

/// What normalization returns: the root for empty or non-absolute input,
/// otherwise the input's segments rejoined under one leading separator.
pub open spec fn normalize_spec(s: Seq<char>) -> Seq<char> {
    if s.len() == 0 || s[0] != '/' {
        seq!['/']
    } else {
        norm_of_parts(segs(s))
    }
}

pub open spec fn is_root(s: Seq<char>) -> bool {
    s.len() == 1 && s[0] == '/'
}

/// What `parent_path` returns: nothing for the root itself; the root for a
/// one-segment path; otherwise all but the last segment, rejoined.
pub open spec fn parent_spec(s: Seq<char>) -> Option<Seq<char>> {
    if is_root(s) {
        None
    } else {
        let ps = segs(normalize_spec(s));
        if ps.len() == 0 {
            Some(seq!['/'])
        } else {
            Some(norm_of_parts(ps.take(ps.len() - 1)))
        }
    }
}

/// A path that normalization leaves unchanged.
pub open spec fn is_normalized(p: Seq<char>) -> bool {
    normalize_spec(p) == p
}

/// The path of a child of `base` named `name`.
pub open spec fn child_path_spec(base: Seq<char>, name: Seq<char>) -> Seq<char> {
    if is_root(base) {
        base + name
    } else {
        base + seq!['/'] + name
    }
}

/// A normalized non-root path has a normalized parent and a final segment,
/// and is exactly its parent's child under that segment.
pub proof fn lemma_normalized_props(p: Seq<char>)
    requires
        is_normalized(p),
        !is_root(p),
    ensures
        segs(p).len() > 0,
        parent_spec(p) is Some,
        filename_spec(p) is Some,
        is_normalized(parent_spec(p)->0),
        seg_wf(filename_spec(p)->0),
        p == child_path_spec(parent_spec(p)->0, filename_spec(p)->0),
{
    if p.len() == 0 || p[0] != '/' {
        assert(p == seq!['/']);
        assert(is_root(p));
    }
    let ps = segs(p);
    lemma_segs_wf(p);
    if ps.len() == 0 {
        assert(p == seq!['/']);
        assert(is_root(p));
    }
    assert(p == join_segs(ps));
    lemma_segs_of_join(ps);
    assert(segs(normalize_spec(p)) == ps);
    let last = ps.last();
    assert(seg_wf(last));
    let front = ps.take(ps.len() - 1);
    assert(all_segs_wf(front)) by {
        assert forall|k: int| 0 <= k < front.len() implies seg_wf(#[trigger] front[k]) by {
            assert(front[k] == ps[k]);
        }
    }
    let pp = norm_of_parts(front);
    assert(parent_spec(p) == Some(pp));
    // the parent is normalized
    if front.len() == 0 {
        assert(pp == seq!['/']);
        lemma_segs_root();
        assert(normalize_spec(pp) == norm_of_parts(segs(seq!['/'])));
        assert(normalize_spec(pp) == pp);
    } else {
        assert(pp == join_segs(front));
        lemma_join_starts_slash(front);
        lemma_segs_of_join(front);
        assert(normalize_spec(pp) == norm_of_parts(front));
    }
    // reconstruction
    assert(ps =~= front.push(last));
    lemma_join_push(front, last);
    assert(p == join_segs(front) + seq!['/'] + last);
    if front.len() == 0 {
        assert(is_root(pp));
        assert(join_segs(front) =~= Seq::<char>::empty());
        assert(p =~= pp + last) by {
            assert(p == join_segs(front) + seq!['/'] + last);
            assert(pp == seq!['/']);
        }
        assert(p == child_path_spec(pp, last));
    } else {
        assert(pp == join_segs(front));
        assert(pp.len() >= 2) by {
            assert(seg_wf(front[0]));
            assert(pp == seq!['/'] + front[0] + join_segs(front.drop_first()));
        }
        assert(!is_root(pp));
        assert(p == child_path_spec(pp, last));
    }
}

/// A single well-formed segment under the root is already normalized, has the
/// root as parent, and the segment as final name.
pub proof fn lemma_top_level_path(name: Seq<char>)
    requires
        seg_wf(name),
    ensures
        segs(seq!['/'] + name) == seq![name],
        normalize_spec(seq!['/'] + name) == seq!['/'] + name,
        is_normalized(seq!['/'] + name),
        !is_root(seq!['/'] + name),
        parent_spec(seq!['/'] + name) == Some(seq!['/']),
        filename_spec(seq!['/'] + name) == Some(name),
{
    let p = seq!['/'] + name;
    assert(p[0] == '/');
    assert(p.drop_first() =~= name);
    assert(name + Seq::<char>::empty() =~= name);
    lemma_first_seg(name, Seq::<char>::empty());
    assert(segs(Seq::<char>::empty()) == Seq::<Seq<char>>::empty());
    assert(segs(name) =~= seq![name]);
    assert(segs(p) == seq![name]);
    let parts = seq![name];
    assert(join_segs(parts.drop_first()) == Seq::<char>::empty()) by {
        assert(parts.drop_first() =~= Seq::<Seq<char>>::empty());
    }
    assert(join_segs(parts) =~= p);
    assert(normalize_spec(p) == p);
    assert(!is_root(p));
    assert(parts.take(parts.len() - 1) =~= Seq::<Seq<char>>::empty());
    assert(parent_spec(p) == Some(seq!['/']));
    assert(parts.last() == name);
}

/// The root itself is normalized.
pub proof fn lemma_root_normalized()
    ensures
        is_normalized(seq!['/']),
{
    lemma_segs_root();
    assert(normalize_spec(seq!['/']) == norm_of_parts(segs(seq!['/'])));
}

/// What `filename` returns: the last segment of the normalized path.
pub open spec fn filename_spec(s: Seq<char>) -> Option<Seq<char>> {
    let ps = segs(normalize_spec(s));
    if ps.len() == 0 {
        None
    } else {
        Some(ps.last())
    }
}

} // verus!
