//! Paths as sequences of name segments.
//!
//! The library represents a file path as a `Vec<String>` of segments,
//! relative to an implicit root; `a/b/c.alta` is `["a", "b", "c.alta"]`.
//! A canonical path has no empty, `.` or `..` segments.

use vstd::prelude::*;

verus! {

/// The mathematical value of a path: the sequence of its segments' characters.
pub open spec fn path_view(p: &Vec<String>) -> Seq<Seq<char>> {
    p.deep_view()
}

/// Normalization of a segment sequence as if it were rooted: `.` and empty
/// segments vanish, and `..` removes the preceding segment if any (a leading
/// `..` vanishes, as it would under a root).
pub open spec fn chroot_norm(segs: Seq<Seq<char>>) -> Seq<Seq<char>>
    decreases segs.len(),
{
    if segs.len() == 0 {
        Seq::empty()
    } else {
        let prefix = chroot_norm(segs.drop_last());
        let last = segs.last();
        if last == ""@ || last == "."@ {
            prefix
        } else if last == ".."@ {
            if prefix.len() == 0 {
                prefix
            } else {
                prefix.drop_last()
            }
        } else {
            prefix.push(last)
        }
    }
}

/// Does this segment's text equal the literal's?
pub fn seg_is(seg: &String, lit: &str) -> (r: bool)
    ensures
        r == (seg@ == lit@),
{
    let o: String = lit.to_owned();
    seg.eq(&o)
}

/// Clean/normalize a path, treating it as if it were chrooted.
///
/// `..` at the beginning of the path is eliminated the same way as if the
/// path were rooted; the result is always uprooted (no leading separator in
/// segment form).
pub fn resolve_chrooted(path: &Vec<String>) -> (r: Vec<String>)
    ensures
        path_view(&r) == chroot_norm(path_view(path)),
{
    let mut result: Vec<String> = Vec::new();
    let mut i: usize = 0;
    while i < path.len()
        invariant
            i <= path.len(),
            path_view(&result) == chroot_norm(path_view(path).take(i as int)),
        decreases path.len() - i,
    {
        let seg = &path[i];
        proof {
            assert(path_view(path).take(i + 1).drop_last() =~= path_view(path).take(i as int));
            assert(path_view(path).take(i + 1).last() == seg@);
        }
        if seg_is(seg, "") || seg_is(seg, ".") {
            // dropped
        } else if seg_is(seg, "..") {
            if result.len() > 0 {
                result.pop();
                proof {
                    assert(path_view(&result) =~= chroot_norm(path_view(path).take(i + 1)));
                }
            }
        } else {
            result.push(seg.clone());
            proof {
                assert(path_view(&result) =~= chroot_norm(path_view(path).take(i + 1)));
            }
        }
        i = i + 1;
    }
    proof {
        assert(path_view(path).take(path.len() as int) =~= path_view(path));
    }
    result
}

/// Whether two paths have the same segments.
pub fn path_eq(a: &Vec<String>, b: &Vec<String>) -> (r: bool)
    ensures
        r == (path_view(a) == path_view(b)),
{
    if a.len() != b.len() {
        proof {
            assert(path_view(a).len() == a.len());
            assert(path_view(b).len() == b.len());
        }
        return false;
    }
    let mut i: usize = 0;
    while i < a.len()
        invariant
            i <= a.len(),
            a.len() == b.len(),
            forall|j: int| 0 <= j < i ==> path_view(a)[j] == path_view(b)[j],
        decreases a.len() - i,
    {
        if !a[i].eq(&b[i]) {
            proof {
                assert(path_view(a)[i as int] != path_view(b)[i as int]);
            }
            return false;
        }
        i = i + 1;
    }
    proof {
        assert(path_view(a) =~= path_view(b));
    }
    true
}

/// The parent of a path: the path without its last segment; a path with no
/// segments is its own parent.
pub fn parent_of(path: &Vec<String>) -> (r: Vec<String>)
    ensures
        path.len() > 0 ==> path_view(&r) == path_view(path).drop_last(),
        path.len() == 0 ==> path_view(&r) == path_view(path),
{
    let mut r = clone_path(path);
    if r.len() > 0 {
        let ghost pre = path_view(&r);
        r.pop();
        proof {
            assert(forall|j: int| 0 <= j < r@.len() ==> path_view(&r)[j] == pre[j]);
            assert(path_view(&r) =~= pre.drop_last());
        }
    }
    r
}

/// A copy of `path` with `seg` appended.
pub fn join_seg(path: &Vec<String>, seg: String) -> (r: Vec<String>)
    ensures
        path_view(&r) == path_view(path).push(seg@),
{
    let mut r = clone_path(path);
    let ghost s = seg@;
    r.push(seg);
    proof {
        assert(path_view(&r) =~= path_view(path).push(s));
    }
    r
}

/// A copy of `path` with all of `rest`'s segments appended.
pub fn join_path(path: &Vec<String>, rest: &Vec<String>) -> (r: Vec<String>)
    ensures
        path_view(&r) == path_view(path) + path_view(rest),
{
    let mut r = clone_path(path);
    let mut i: usize = 0;
    while i < rest.len()
        invariant
            i <= rest.len(),
            path_view(&r) == path_view(path) + path_view(rest).take(i as int),
        decreases rest.len() - i,
    {
        let ghost pre = path_view(&r);
        r.push(rest[i].clone());
        proof {
            assert(path_view(&r).len() == pre.len() + 1);
            assert(forall|j: int| 0 <= j < pre.len() ==> path_view(&r)[j] == pre[j]);
            assert(path_view(&r)[pre.len() as int] == rest@[i as int]@);
            assert(path_view(&r) =~= pre.push(rest@[i as int]@));
            assert(path_view(path) + path_view(rest).take(i + 1) =~= pre.push(
                rest@[i as int]@,
            ));
        }
        i = i + 1;
    }
    proof {
        assert(path_view(path) + path_view(rest).take(rest.len() as int) =~= path_view(path)
            + path_view(rest));
    }
    r
}

/// A segment-by-segment copy of a path.
pub fn clone_path(path: &Vec<String>) -> (r: Vec<String>)
    ensures
        path_view(&r) == path_view(path),
{
    let mut r: Vec<String> = Vec::new();
    let mut i: usize = 0;
    while i < path.len()
        invariant
            i <= path.len(),
            path_view(&r) == path_view(path).take(i as int),
        decreases path.len() - i,
    {
        let ghost pre = path_view(&r);
        r.push(path[i].clone());
        proof {
            assert(r@.len() == pre.len() + 1);
            assert(path_view(&r).len() == pre.len() + 1);
            assert(forall|j: int| 0 <= j < pre.len() ==> path_view(&r)[j] == pre[j]);
            assert(path_view(&r)[pre.len() as int] == path@[i as int]@);
            assert(path_view(&r) =~= path_view(path).take(i + 1));
        }
        i = i + 1;
    }
    proof {
        assert(path_view(path).take(path.len() as int) =~= path_view(path));
    }
    r
}

} // verus!
