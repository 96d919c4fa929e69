//! The directory pruner: after deletions, remove every directory left
//! empty, to a fixed point.
//!
//! The walk of a managed root yields every surviving path (files and
//! directories alike) and, among them, the directories.  A path lies
//! beneath a directory when it extends it past a separator: a sibling
//! whose name merely extends the directory's name does not count.  A
//! directory is removable when no surviving path lies beneath it; removing
//! a nest of empty directories can make the parent removable, so the round
//! repeats until nothing is removable.  The pruner computes which
//! directories to remove; the caller performs the removals and must fail
//! loudly if a directory thought removable turns out non-empty.

use vstd::prelude::*;
use vstd::string::StringExecFns;
use crate::reconcile::has_str;
use crate::strutil::{is_prefix, str_eq, str_starts_with};

verus! {

/// `p` lies strictly beneath directory `d`: it is `d`, a separator, and
/// more.  The directory itself, and a sibling whose name happens to start
/// with `d`'s name, do not lie beneath `d`.
pub open spec fn lies_beneath(p: Seq<char>, d: Seq<char>) -> bool {
    is_prefix(d + "/"@, p)
}

/// Directory `d` is empty among the surviving `paths`: no path lies
/// beneath it.
pub open spec fn dir_empty(paths: Seq<String>, d: Seq<char>) -> bool {
    forall|i: int| 0 <= i < paths.len() ==> !lies_beneath(paths[i]@, d)
}

/// Whether `d` is an empty directory among `paths`.
pub fn is_dir_empty(paths: &Vec<String>, d: &String) -> (r: bool)
    ensures
        r == dir_empty(paths@, d@),
{
    let mut probe = d.clone();
    probe.append("/");
    let n = paths.len();
    let mut i: usize = 0;
    while i < n
        invariant
            n == paths@.len(),
            i <= n,
            probe@ == d@ + "/"@,
            forall|k: int| 0 <= k < i ==> !lies_beneath(paths@[k]@, d@),
        decreases n - i,
    {
        if str_starts_with(paths[i].as_str(), probe.as_str()) {
            return false;
        }
        i += 1;
    }
    true
}

/// Whether some string in `v` reads as `s`.
fn vec_has_str(v: &Vec<String>, s: &String) -> (r: bool)
    ensures
        r == has_str(v@, s@),
{
    let n = v.len();
    let mut i: usize = 0;
    while i < n
        invariant
            n == v@.len(),
            i <= n,
            forall|k: int| 0 <= k < i ==> v@[k]@ != s@,
        decreases n - i,
    {
        if str_eq(v[i].as_str(), s.as_str()) {
            assert(v@[i as int]@ == s@);
            return true;
        }
        i += 1;
    }
    false
}

/// The directories currently removable: those empty among `paths`.
fn collect_removable(paths: &Vec<String>, dirs: &Vec<String>) -> (r: Vec<String>)
    ensures
        forall|p: Seq<char>|
            #[trigger] has_str(r@, p) <==> has_str(dirs@, p) && dir_empty(paths@, p),
{
    let m = dirs.len();
    let mut out: Vec<String> = Vec::new();
    let mut j: usize = 0;
    while j < m
        invariant
            m == dirs@.len(),
            j <= m,
            forall|p: Seq<char>|
                #[trigger] has_str(out@, p) <==> exists|k: int|
                    0 <= k < j && dirs@[k]@ == p && dir_empty(paths@, p),
        decreases m - j,
    {
        let ghost pre = out@;
        if is_dir_empty(paths, &dirs[j]) {
            out.push(dirs[j].clone());
            proof {
                assert forall|p: Seq<char>| #[trigger] has_str(out@, p) implies exists|k: int|
                    0 <= k < j + 1 && dirs@[k]@ == p && dir_empty(paths@, p) by {
                    let w = choose|w: int| 0 <= w < out@.len() && out@[w]@ == p;
                    if w < pre.len() {
                        assert(has_str(pre, p));
                    } else {
                        assert(dirs@[j as int]@ == p);
                    }
                }
                assert forall|p: Seq<char>|
                    (exists|k: int| 0 <= k < j + 1 && dirs@[k]@ == p && dir_empty(paths@, p))
                    implies #[trigger] has_str(out@, p) by {
                    let k = choose|k: int|
                        0 <= k < j + 1 && dirs@[k]@ == p && dir_empty(paths@, p);
                    if k < j {
                        assert(has_str(pre, p));
                        let w = choose|w: int| 0 <= w < pre.len() && pre[w]@ == p;
                        assert(out@[w]@ == p);
                    } else {
                        assert(out@[pre.len() as int]@ == p);
                    }
                }
            }
        } else {
            proof {
                assert forall|p: Seq<char>|
                    (exists|k: int| 0 <= k < j + 1 && dirs@[k]@ == p && dir_empty(paths@, p))
                    implies #[trigger] has_str(out@, p) by {
                    let k = choose|k: int|
                        0 <= k < j + 1 && dirs@[k]@ == p && dir_empty(paths@, p);
                    if k == j {
                        assert(false);
                    }
                }
            }
        }
        j += 1;
    }
    proof {
        assert forall|p: Seq<char>|
            #[trigger] has_str(out@, p) <==> has_str(dirs@, p) && dir_empty(paths@, p) by {
            if has_str(out@, p) {
                let k = choose|k: int| 0 <= k < m && dirs@[k]@ == p && dir_empty(paths@, p);
                assert(has_str(dirs@, p));
            }
            if has_str(dirs@, p) && dir_empty(paths@, p) {
                let k = choose|k: int| 0 <= k < dirs@.len() && dirs@[k]@ == p;
                assert(0 <= k < m && dirs@[k]@ == p && dir_empty(paths@, p));
            }
        }
    }
    out
}

/// Keep the strings of `v` that are not members of `rem`.
fn remove_members(v: &Vec<String>, rem: &Vec<String>) -> (r: Vec<String>)
    ensures
        forall|p: Seq<char>| #[trigger] has_str(r@, p) <==> has_str(v@, p) && !has_str(rem@, p),
        r@.len() <= v@.len(),
        (exists|i: int| 0 <= i < v@.len() && has_str(rem@, v@[i]@)) ==> r@.len() < v@.len(),
{
    let n = v.len();
    let mut out: Vec<String> = Vec::new();
    let mut i: usize = 0;
    while i < n
        invariant
            n == v@.len(),
            i <= n,
            forall|p: Seq<char>|
                #[trigger] has_str(out@, p) <==> exists|k: int|
                    0 <= k < i && v@[k]@ == p && !has_str(rem@, p),
            out@.len() <= i,
            (exists|k: int| 0 <= k < i && has_str(rem@, v@[k]@)) ==> out@.len() < i,
        decreases n - i,
    {
        let ghost pre = out@;
        if !vec_has_str(rem, &v[i]) {
            out.push(v[i].clone());
            proof {
                assert forall|p: Seq<char>| #[trigger] has_str(out@, p) implies exists|k: int|
                    0 <= k < i + 1 && v@[k]@ == p && !has_str(rem@, p) by {
                    let w = choose|w: int| 0 <= w < out@.len() && out@[w]@ == p;
                    if w < pre.len() {
                        assert(has_str(pre, p));
                    } else {
                        assert(v@[i as int]@ == p);
                    }
                }
                assert forall|p: Seq<char>|
                    (exists|k: int| 0 <= k < i + 1 && v@[k]@ == p && !has_str(rem@, p))
                    implies #[trigger] has_str(out@, p) by {
                    let k = choose|k: int| 0 <= k < i + 1 && v@[k]@ == p && !has_str(rem@, p);
                    if k < i {
                        assert(has_str(pre, p));
                        let w = choose|w: int| 0 <= w < pre.len() && pre[w]@ == p;
                        assert(out@[w]@ == p);
                    } else {
                        assert(out@[pre.len() as int]@ == p);
                    }
                }
            }
        } else {
            proof {
                assert(has_str(rem@, v@[i as int]@));
                assert forall|p: Seq<char>|
                    (exists|k: int| 0 <= k < i + 1 && v@[k]@ == p && !has_str(rem@, p))
                    implies #[trigger] has_str(out@, p) by {
                    let k = choose|k: int| 0 <= k < i + 1 && v@[k]@ == p && !has_str(rem@, p);
                    if k == i {
                        assert(false);
                    }
                }
            }
        }
        i += 1;
    }
    proof {
        assert forall|p: Seq<char>|
            #[trigger] has_str(out@, p) <==> has_str(v@, p) && !has_str(rem@, p) by {
            if has_str(out@, p) {
                let k = choose|k: int| 0 <= k < n && v@[k]@ == p && !has_str(rem@, p);
                assert(has_str(v@, p));
            }
            if has_str(v@, p) && !has_str(rem@, p) {
                let k = choose|k: int| 0 <= k < v@.len() && v@[k]@ == p;
                assert(0 <= k < n && v@[k]@ == p && !has_str(rem@, p));
            }
        }
    }
    out
}

/// Membership in a concatenation is membership in either part.
proof fn lemma_has_str_concat(a: Seq<String>, b: Seq<String>, p: Seq<char>)
    ensures
        has_str(a + b, p) == (has_str(a, p) || has_str(b, p)),
{
    if has_str(a + b, p) {
        let w = choose|w: int| 0 <= w < (a + b).len() && (a + b)[w]@ == p;
        if w < a.len() {
            assert(a[w]@ == p);
        } else {
            assert(b[w - a.len()]@ == p);
        }
    }
    if has_str(a, p) {
        let w = choose|w: int| 0 <= w < a.len() && a[w]@ == p;
        assert((a + b)[w]@ == p);
    }
    if has_str(b, p) {
        let w = choose|w: int| 0 <= w < b.len() && b[w]@ == p;
        assert((a + b)[a.len() + w]@ == p);
    }
}

/// What one pruner run did: the directories it removed, and the surviving
/// paths and directories.
pub struct PruneOutcome {
    pub removed: Vec<String>,
    pub paths: Vec<String>,
    pub dirs: Vec<String>,
}

/// Remove empty directories to a fixed point.
///
/// `paths` are all surviving walk entries of the managed roots, files and
/// directories alike; `dirs` are the directories among them.  The result:
/// no surviving directory is empty (so running the pruner again removes
/// nothing); survivors and removals partition the inputs; only directories
/// are ever removed, each of them empty when its turn came — no path still
/// present at that point, nor any removed later, lay beneath it — and a
/// tree with no empty directory comes back untouched.
pub fn prune_empty_dirs(paths: Vec<String>, dirs: Vec<String>) -> (r: PruneOutcome)
    ensures
        forall|p: Seq<char>| #[trigger] has_str(r.dirs@, p) ==> !dir_empty(r.paths@, p),
        forall|p: Seq<char>|
            #[trigger] has_str(r.paths@, p) <==> has_str(paths@, p) && !has_str(r.removed@, p),
        forall|p: Seq<char>|
            #[trigger] has_str(r.dirs@, p) <==> has_str(dirs@, p) && !has_str(r.removed@, p),
        forall|p: Seq<char>| #[trigger] has_str(r.removed@, p) ==> has_str(dirs@, p),
        forall|k: int, p: Seq<char>|
            #![trigger lies_beneath(p, r.removed@[k]@)]
            0 <= k < r.removed@.len() && has_str(paths@, p) && !has_str(
                r.removed@.subrange(0, k),
                p,
            ) ==> !lies_beneath(p, r.removed@[k]@),
        (forall|p: Seq<char>| #[trigger] has_str(dirs@, p) ==> !dir_empty(paths@, p)) ==> (
        r.removed@.len() == 0 && r.paths@ == paths@ && r.dirs@ == dirs@),
{
    let ghost paths0 = paths@;
    let ghost dirs0 = dirs@;
    let mut cur_paths = paths;
    let mut cur_dirs = dirs;
    let mut removed: Vec<String> = Vec::new();
    loop
        invariant
            forall|p: Seq<char>|
                #[trigger] has_str(cur_paths@, p) <==> has_str(paths0, p) && !has_str(removed@, p),
            forall|p: Seq<char>|
                #[trigger] has_str(cur_dirs@, p) <==> has_str(dirs0, p) && !has_str(removed@, p),
            forall|p: Seq<char>| #[trigger] has_str(removed@, p) ==> has_str(dirs0, p),
            forall|k: int, p: Seq<char>|
                #![trigger lies_beneath(p, removed@[k]@)]
                0 <= k < removed@.len() && has_str(paths0, p) && !has_str(
                    removed@.subrange(0, k),
                    p,
                ) ==> !lies_beneath(p, removed@[k]@),
            (forall|p: Seq<char>| #[trigger] has_str(dirs0, p) ==> !dir_empty(paths0, p)) ==> (
            removed@.len() == 0 && cur_paths@ == paths0 && cur_dirs@ == dirs0),
        ensures
            forall|p: Seq<char>|
                #[trigger] has_str(cur_paths@, p) <==> has_str(paths0, p) && !has_str(removed@, p),
            forall|p: Seq<char>|
                #[trigger] has_str(cur_dirs@, p) <==> has_str(dirs0, p) && !has_str(removed@, p),
            forall|p: Seq<char>| #[trigger] has_str(removed@, p) ==> has_str(dirs0, p),
            forall|k: int, p: Seq<char>|
                #![trigger lies_beneath(p, removed@[k]@)]
                0 <= k < removed@.len() && has_str(paths0, p) && !has_str(
                    removed@.subrange(0, k),
                    p,
                ) ==> !lies_beneath(p, removed@[k]@),
            (forall|p: Seq<char>| #[trigger] has_str(dirs0, p) ==> !dir_empty(paths0, p)) ==> (
            removed@.len() == 0 && cur_paths@ == paths0 && cur_dirs@ == dirs0),
            forall|p: Seq<char>| #[trigger] has_str(cur_dirs@, p) ==> !dir_empty(cur_paths@, p),
        decreases cur_dirs@.len(),
    {
        let removable = collect_removable(&cur_paths, &cur_dirs);
        let ghost removable0 = removable@;
        if removable.is_empty() {
            proof {
                assert forall|p: Seq<char>| #[trigger] has_str(cur_dirs@, p) implies !dir_empty(
                    cur_paths@,
                    p,
                ) by {
                    if dir_empty(cur_paths@, p) {
                        assert(has_str(removable0, p));
                    }
                }
            }
            break;
        }
        proof {
            let p0 = removable0[0]@;
            assert(has_str(removable0, p0));
            assert(has_str(cur_dirs@, p0) && dir_empty(cur_paths@, p0));
            if forall|p: Seq<char>| #[trigger] has_str(dirs0, p) ==> !dir_empty(paths0, p) {
                assert(has_str(dirs0, p0));
                assert(!dir_empty(paths0, p0));
                assert(false);
            }
            let i0 = choose|i: int| 0 <= i < cur_dirs@.len() && cur_dirs@[i]@ == p0;
            assert(has_str(removable0, cur_dirs@[i0]@));
        }
        let ghost pre_paths = cur_paths@;
        let ghost pre_dirs = cur_dirs@;
        let ghost pre_removed = removed@;
        cur_paths = remove_members(&cur_paths, &removable);
        cur_dirs = remove_members(&cur_dirs, &removable);
        let mut draining = removable;
        removed.append(&mut draining);
        proof {
            assert(removed@ == pre_removed + removable0);
            assert forall|p: Seq<char>|
                #[trigger] has_str(cur_paths@, p) <==> has_str(paths0, p) && !has_str(
                removed@,
                p,
            ) by {
                lemma_has_str_concat(pre_removed, removable0, p);
            }
            assert forall|p: Seq<char>|
                #[trigger] has_str(cur_dirs@, p) <==> has_str(dirs0, p) && !has_str(
                removed@,
                p,
            ) by {
                lemma_has_str_concat(pre_removed, removable0, p);
            }
            assert forall|p: Seq<char>| #[trigger] has_str(removed@, p) implies has_str(
                dirs0,
                p,
            ) by {
                lemma_has_str_concat(pre_removed, removable0, p);
                if has_str(removable0, p) {
                    assert(has_str(pre_dirs, p));
                }
            }
            assert forall|k: int, p: Seq<char>|
                #![trigger lies_beneath(p, removed@[k]@)]
                0 <= k < removed@.len() && has_str(paths0, p) && !has_str(
                    removed@.subrange(0, k),
                    p,
                ) implies !lies_beneath(p, removed@[k]@) by {
                if k < pre_removed.len() {
                    assert(removed@[k] == pre_removed[k]);
                    assert(removed@.subrange(0, k) =~= pre_removed.subrange(0, k));
                    assert(!lies_beneath(p, pre_removed[k]@));
                } else {
                    let idx = k - pre_removed.len();
                    let d = removable0[idx]@;
                    assert(removed@[k]@ == d);
                    assert(has_str(removable0, d));
                    assert(dir_empty(pre_paths, d));
                    assert(!has_str(pre_removed, p)) by {
                        if has_str(pre_removed, p) {
                            let w = choose|w: int|
                                0 <= w < pre_removed.len() && pre_removed[w]@ == p;
                            assert(removed@.subrange(0, k)[w]@ == p);
                        }
                    }
                    assert(has_str(pre_paths, p));
                    let w2 = choose|w2: int| 0 <= w2 < pre_paths.len() && pre_paths[w2]@ == p;
                    assert(!lies_beneath(pre_paths[w2]@, d));
                }
            }
        }
    }
    PruneOutcome { removed, paths: cur_paths, dirs: cur_dirs }
}

} // verus!
