//! The reconciler: diff a truth manifest against a local one and classify
//! every path.
//!
//! Comparison is purely by checksum equality, never by size or modification
//! time — sizes only gate whether a checksum was recomputed, never whether
//! a change is detected.  Deletion is gated on an explicit flag: with it
//! off, paths missing from truth are left alone.

use vstd::prelude::*;
use crate::manifest::{m_has, m_idx, m_paths, m_val, EntryV, Manifest};
use crate::scanner::{
    distinct_file_paths, excluded_spec, is_scan, needs_rehash_spec, scanned_entry_spec, FileV,
};

verus! {

/// `p` is the view of some string in `v`.
pub open spec fn has_str(v: Seq<String>, p: Seq<char>) -> bool {
    exists|i: int| 0 <= i < v.len() && v[i]@ == p
}

/// No two strings in `v` read the same.
pub open spec fn distinct_strs(v: Seq<String>) -> bool {
    forall|i: int, j: int| 0 <= i < j < v.len() ==> v[i]@ != v[j]@
}

/// The local state diverges from truth at `p`: the path is absent locally
/// or carries a different checksum.
pub open spec fn changed_spec(
    truth: Seq<(Seq<char>, EntryV)>,
    local: Seq<(Seq<char>, EntryV)>,
    p: Seq<char>,
) -> bool {
    !m_has(local, p) || m_val(local, p).checksum != m_val(truth, p).checksum
}

/// The views of a list of path strings.
pub open spec fn str_views(v: Seq<String>) -> Seq<Seq<char>> {
    v.map_values(|s: String| s@)
}

/// The per-path divergence predicate, as a filter.
pub open spec fn changed_pred(
    truth: Seq<(Seq<char>, EntryV)>,
    local: Seq<(Seq<char>, EntryV)>,
) -> spec_fn(Seq<char>) -> bool {
    |p: Seq<char>| changed_spec(truth, local, p)
}

/// Absence from truth, as a filter.
pub open spec fn stray_pred(truth: Seq<(Seq<char>, EntryV)>) -> spec_fn(Seq<char>) -> bool {
    |p: Seq<char>| !m_has(truth, p)
}

/// What a run must do to converge the local tree with truth.
pub struct ChangeSet {
    /// Paths of truth that are absent locally or carry a different checksum.
    pub to_fetch_or_update: Vec<String>,
    /// Local paths absent from truth; filled only when deletion was asked for.
    pub to_remove: Vec<String>,
}

/// Classify every path of `truth` and `local`.
///
/// `to_remove` is non-empty only when `delete_local` is set: with it off,
/// no path absent from truth is ever scheduled for deletion.
pub fn reconcile(truth: &Manifest, local: &Manifest, delete_local: bool) -> (r: ChangeSet)
    requires
        truth.wf(),
        local.wf(),
    ensures
        forall|p: Seq<char>|
            #[trigger] has_str(r.to_fetch_or_update@, p) <==> m_has(truth@, p) && changed_spec(
                truth@,
                local@,
                p,
            ),
        forall|p: Seq<char>|
            #[trigger] has_str(r.to_remove@, p) <==> delete_local && m_has(local@, p) && !m_has(
                truth@,
                p,
            ),
        !delete_local ==> r.to_remove@.len() == 0,
        distinct_strs(r.to_fetch_or_update@),
        distinct_strs(r.to_remove@),
        (r.to_fetch_or_update@.len() == 0) <==> (forall|p: Seq<char>|
            m_has(truth@, p) ==> !changed_spec(truth@, local@, p)),
        (r.to_remove@.len() == 0) <==> !(delete_local && exists|p: Seq<char>|
            m_has(local@, p) && !m_has(truth@, p)),
        str_views(r.to_fetch_or_update@) == m_paths(truth@).filter(changed_pred(truth@, local@)),
        delete_local ==> str_views(r.to_remove@) == m_paths(local@).filter(stray_pred(truth@)),
{
    let ghost truth_paths = m_paths(truth@);
    let ghost local_paths = m_paths(local@);
    let ghost changed = changed_pred(truth@, local@);
    let ghost stray = stray_pred(truth@);
    let mut to_fetch_or_update: Vec<String> = Vec::new();
    let n = truth.len();
    let mut i: usize = 0;
    proof {
        reveal(Seq::filter);
        assert(str_views(to_fetch_or_update@) =~= truth_paths.subrange(0, 0).filter(changed));
    }
    while i < n
        invariant
            truth.wf(),
            local.wf(),
            n == truth@.len(),
            i <= n,
            forall|p: Seq<char>|
                #[trigger] has_str(to_fetch_or_update@, p) <==> exists|k: int|
                    0 <= k < i && truth@[k].0 == p && changed_spec(truth@, local@, p),
            distinct_strs(to_fetch_or_update@),
            truth_paths == m_paths(truth@),
            changed == changed_pred(truth@, local@),
            str_views(to_fetch_or_update@) == truth_paths.subrange(0, i as int).filter(changed),
        decreases n - i,
    {
        let path = truth.path_at(i);
        let entry = truth.entry_at(i);
        let is_changed = match local.get(path.as_str()) {
            None => true,
            Some(le) => !le.checksum.eq(&entry.checksum),
        };
        let ghost pre = to_fetch_or_update@;
        if is_changed {
            proof {
                assert(changed_spec(truth@, local@, path@));
                if has_str(pre, path@) {
                    let k = choose|k: int|
                        0 <= k < i && truth@[k].0 == path@ && changed_spec(truth@, local@, path@);
                    assert(truth@[k].0 == truth@[i as int].0);
                    assert(false);
                }
            }
            to_fetch_or_update.push(path.clone());
            proof {
                assert forall|p: Seq<char>| #[trigger] has_str(to_fetch_or_update@, p) implies
                    exists|k: int|
                    0 <= k < i + 1 && truth@[k].0 == p && changed_spec(truth@, local@, p) by {
                    let w = choose|w: int|
                        0 <= w < to_fetch_or_update@.len() && to_fetch_or_update@[w]@ == p;
                    if w < pre.len() {
                        assert(has_str(pre, p));
                    } else {
                        assert(truth@[i as int].0 == p);
                    }
                }
                assert forall|p: Seq<char>|
                    (exists|k: int|
                        0 <= k < i + 1 && truth@[k].0 == p && changed_spec(truth@, local@, p))
                    implies #[trigger] has_str(to_fetch_or_update@, p) by {
                    let k = choose|k: int|
                        0 <= k < i + 1 && truth@[k].0 == p && changed_spec(truth@, local@, p);
                    if k < i {
                        assert(has_str(pre, p));
                        let w = choose|w: int| 0 <= w < pre.len() && pre[w]@ == p;
                        assert(to_fetch_or_update@[w]@ == p);
                    } else {
                        assert(to_fetch_or_update@[pre.len() as int]@ == p);
                    }
                }
            }
        } else {
            proof {
                assert(!changed_spec(truth@, local@, path@));
                assert forall|p: Seq<char>|
                    (exists|k: int|
                        0 <= k < i + 1 && truth@[k].0 == p && changed_spec(truth@, local@, p))
                    implies #[trigger] has_str(to_fetch_or_update@, p) by {
                    let k = choose|k: int|
                        0 <= k < i + 1 && truth@[k].0 == p && changed_spec(truth@, local@, p);
                    if k == i {
                        assert(false);
                    }
                }
            }
        }
        proof {
            reveal(Seq::filter);
            let s1 = truth_paths.subrange(0, i + 1 as int);
            assert(s1.drop_last() =~= truth_paths.subrange(0, i as int));
            assert(s1.last() == truth_paths[i as int]);
            assert(truth_paths[i as int] == truth@[i as int].0);
            assert(changed(s1.last()) == is_changed);
            if is_changed {
                assert(str_views(to_fetch_or_update@) =~= str_views(pre).push(path@));
            }
            assert(str_views(to_fetch_or_update@) == s1.filter(changed));
        }
        i += 1;
    }
    proof {
        assert(truth_paths.subrange(0, n as int) =~= truth_paths);
    }

    proof {
        assert forall|p: Seq<char>|
            #[trigger] has_str(to_fetch_or_update@, p) <==> m_has(truth@, p) && changed_spec(
            truth@,
            local@,
            p,
        ) by {
            if has_str(to_fetch_or_update@, p) {
                let k = choose|k: int|
                    0 <= k < n && truth@[k].0 == p && changed_spec(truth@, local@, p);
                assert(0 <= k < truth@.len() && truth@[k].0 == p);
                assert(m_has(truth@, p));
            }
            if m_has(truth@, p) && changed_spec(truth@, local@, p) {
                let k = m_idx(truth@, p);
                assert(0 <= k < n && truth@[k].0 == p && changed_spec(truth@, local@, p));
            }
        }
    }
    let mut to_remove: Vec<String> = Vec::new();
    if delete_local {
        let m = local.len();
        let mut j: usize = 0;
        proof {
            reveal(Seq::filter);
            assert(str_views(to_remove@) =~= local_paths.subrange(0, 0).filter(stray));
        }
        while j < m
            invariant
                truth.wf(),
                local.wf(),
                m == local@.len(),
                j <= m,
                forall|p: Seq<char>|
                    #[trigger] has_str(to_fetch_or_update@, p) <==> m_has(truth@, p)
                        && changed_spec(truth@, local@, p),
                distinct_strs(to_fetch_or_update@),
                forall|p: Seq<char>|
                    #[trigger] has_str(to_remove@, p) <==> exists|k: int|
                        0 <= k < j && local@[k].0 == p && !m_has(truth@, p),
                distinct_strs(to_remove@),
                local_paths == m_paths(local@),
                stray == stray_pred(truth@),
                str_views(to_remove@) == local_paths.subrange(0, j as int).filter(stray),
            decreases m - j,
        {
            let path = local.path_at(j);
            let ghost pre = to_remove@;
            let is_stray = !truth.contains_path(path.as_str());
            if is_stray {
                proof {
                    if has_str(pre, path@) {
                        let k = choose|k: int|
                            0 <= k < j && local@[k].0 == path@ && !m_has(truth@, path@);
                        assert(local@[k].0 == local@[j as int].0);
                        assert(false);
                    }
                }
                to_remove.push(path.clone());
                proof {
                    assert forall|p: Seq<char>| #[trigger] has_str(to_remove@, p) implies exists|
                        k: int,
                    |
                        0 <= k < j + 1 && local@[k].0 == p && !m_has(truth@, p) by {
                        let w = choose|w: int| 0 <= w < to_remove@.len() && to_remove@[w]@ == p;
                        if w < pre.len() {
                            assert(has_str(pre, p));
                        } else {
                            assert(local@[j as int].0 == p);
                        }
                    }
                    assert forall|p: Seq<char>|
                        (exists|k: int| 0 <= k < j + 1 && local@[k].0 == p && !m_has(truth@, p))
                        implies #[trigger] has_str(to_remove@, p) by {
                        let k = choose|k: int|
                            0 <= k < j + 1 && local@[k].0 == p && !m_has(truth@, p);
                        if k < j {
                            assert(has_str(pre, p));
                            let w = choose|w: int| 0 <= w < pre.len() && pre[w]@ == p;
                            assert(to_remove@[w]@ == p);
                        } else {
                            assert(to_remove@[pre.len() as int]@ == p);
                        }
                    }
                }
            } else {
                proof {
                    assert forall|p: Seq<char>|
                        (exists|k: int| 0 <= k < j + 1 && local@[k].0 == p && !m_has(truth@, p))
                        implies #[trigger] has_str(to_remove@, p) by {
                        let k = choose|k: int|
                            0 <= k < j + 1 && local@[k].0 == p && !m_has(truth@, p);
                        if k == j {
                            assert(false);
                        }
                    }
                }
            }
            proof {
                reveal(Seq::filter);
                let s1 = local_paths.subrange(0, j + 1 as int);
                assert(s1.drop_last() =~= local_paths.subrange(0, j as int));
                assert(s1.last() == local_paths[j as int]);
                assert(local_paths[j as int] == local@[j as int].0);
                assert(stray(s1.last()) == is_stray);
                if is_stray {
                    assert(str_views(to_remove@) =~= str_views(pre).push(path@));
                }
                assert(str_views(to_remove@) == s1.filter(stray));
            }
            j += 1;
        }
        proof {
            assert(local_paths.subrange(0, m as int) =~= local_paths);
            assert forall|p: Seq<char>|
                #[trigger] has_str(to_remove@, p) <==> delete_local && m_has(local@, p) && !m_has(
                truth@,
                p,
            ) by {
                if has_str(to_remove@, p) {
                    let k = choose|k: int| 0 <= k < m && local@[k].0 == p && !m_has(truth@, p);
                    assert(0 <= k < local@.len() && local@[k].0 == p);
                    assert(m_has(local@, p));
                }
                if m_has(local@, p) && !m_has(truth@, p) {
                    let k = m_idx(local@, p);
                    assert(0 <= k < m && local@[k].0 == p && !m_has(truth@, p));
                }
            }
        }
    }

    proof {
        if to_fetch_or_update@.len() > 0 {
            assert(has_str(to_fetch_or_update@, to_fetch_or_update@[0]@));
        } else {
            assert forall|p: Seq<char>| m_has(truth@, p) implies !changed_spec(
                truth@,
                local@,
                p,
            ) by {
                if changed_spec(truth@, local@, p) {
                    assert(has_str(to_fetch_or_update@, p));
                }
            }
        }
        if to_remove@.len() > 0 {
            assert(has_str(to_remove@, to_remove@[0]@));
        } else {
            assert forall|p: Seq<char>| !(delete_local && m_has(local@, p) && !m_has(
                truth@,
                p,
            )) by {
                if delete_local && m_has(local@, p) && !m_has(truth@, p) {
                    assert(has_str(to_remove@, p));
                }
            }
        }
    }
    ChangeSet { to_fetch_or_update, to_remove }
}

/// Further classification of a changed path, for dry-run reporting only.
#[derive(Clone, Copy, Debug, PartialEq, Eq, Structural)]
pub enum ChangeKind {
    /// No local entry: the path would be added.
    Add,
    /// Same recorded size, different checksum.
    UpdateSameSize,
    /// The recorded sizes differ.
    UpdateSizeChanged { local_bytes: u64, truth_bytes: u64 },
}

/// The dry-run classification of a changed path `p`.
pub open spec fn change_kind_spec(
    truth: Seq<(Seq<char>, EntryV)>,
    local: Seq<(Seq<char>, EntryV)>,
    p: Seq<char>,
) -> ChangeKind {
    if !m_has(local, p) {
        ChangeKind::Add
    } else if m_val(local, p).uncompressed_size_bytes == m_val(truth, p).uncompressed_size_bytes {
        ChangeKind::UpdateSameSize
    } else {
        ChangeKind::UpdateSizeChanged {
            local_bytes: m_val(local, p).uncompressed_size_bytes,
            truth_bytes: m_val(truth, p).uncompressed_size_bytes,
        }
    }
}

/// Dry run: classify every changed path, purely informationally.  The
/// report lists exactly the paths the reconciler would fetch or update,
/// each with its classification; nothing is touched.
pub fn dry_run_report(truth: &Manifest, local: &Manifest) -> (r: Vec<(String, ChangeKind)>)
    requires
        truth.wf(),
        local.wf(),
    ensures
        forall|k: int|
            0 <= k < r@.len() ==> m_has(truth@, #[trigger] r@[k].0@) && changed_spec(
                truth@,
                local@,
                r@[k].0@,
            ) && r@[k].1 == change_kind_spec(truth@, local@, r@[k].0@),
        forall|p: Seq<char>|
            m_has(truth@, p) && changed_spec(truth@, local@, p) ==> exists|k: int|
                0 <= k < r@.len() && #[trigger] r@[k].0@ == p,
        r@.map_values(|pr: (String, ChangeKind)| pr.0@) == m_paths(truth@).filter(
            changed_pred(truth@, local@),
        ),
{
    let changes = reconcile(truth, local, false);
    let mut report: Vec<(String, ChangeKind)> = Vec::new();
    let n = changes.to_fetch_or_update.len();
    let mut i: usize = 0;
    while i < n
        invariant
            truth.wf(),
            local.wf(),
            n == changes.to_fetch_or_update@.len(),
            i <= n,
            forall|p: Seq<char>|
                #[trigger] has_str(changes.to_fetch_or_update@, p) <==> m_has(truth@, p)
                    && changed_spec(truth@, local@, p),
            forall|k: int|
                0 <= k < report@.len() ==> m_has(truth@, #[trigger] report@[k].0@) && changed_spec(
                    truth@,
                    local@,
                    report@[k].0@,
                ) && report@[k].1 == change_kind_spec(truth@, local@, report@[k].0@),
            report@.len() == i,
            forall|k: int| 0 <= k < i ==> report@[k].0@ == changes.to_fetch_or_update@[k]@,
        decreases n - i,
    {
        let path = &changes.to_fetch_or_update[i];
        proof {
            assert(has_str(changes.to_fetch_or_update@, path@));
        }
        let truth_entry_size = match truth.get(path.as_str()) {
            Some(e) => e.uncompressed_size_bytes,
            None => 0,
        };
        let kind = match local.get(path.as_str()) {
            None => ChangeKind::Add,
            Some(le) => {
                if le.uncompressed_size_bytes == truth_entry_size {
                    ChangeKind::UpdateSameSize
                } else {
                    ChangeKind::UpdateSizeChanged {
                        local_bytes: le.uncompressed_size_bytes,
                        truth_bytes: truth_entry_size,
                    }
                }
            },
        };
        report.push((path.clone(), kind));
        i += 1;
    }
    proof {
        assert forall|p: Seq<char>|
            m_has(truth@, p) && changed_spec(truth@, local@, p) implies exists|k: int|
            0 <= k < report@.len() && #[trigger] report@[k].0@ == p by {
            assert(has_str(changes.to_fetch_or_update@, p));
            let w = choose|w: int|
                0 <= w < changes.to_fetch_or_update@.len() && changes.to_fetch_or_update@[w]@ == p;
            assert(report@[w].0@ == p);
        }
        assert(report@.map_values(|pr: (String, ChangeKind)| pr.0@) =~= str_views(
            changes.to_fetch_or_update@,
        ));
    }
    report
}

/// Idempotence of scanner plus reconciler.
///
/// Scan a tree against any truth manifest and publish the result as the new
/// truth.  Scanning the unchanged tree again against that new truth yields a
/// manifest the reconciler finds nothing to do on: no path to fetch or
/// update, and no path to remove, whatever the deletion flag.
pub proof fn lemma_rescan_finds_no_changes(
    t1: Seq<(Seq<char>, EntryV)>,
    t2: Seq<(Seq<char>, EntryV)>,
    l2: Seq<(Seq<char>, EntryV)>,
    files: Seq<FileV>,
)
    requires
        distinct_file_paths(files),
        is_scan(t1, files, t2),
        is_scan(t2, files, l2),
    ensures
        forall|p: Seq<char>| m_has(t2, p) ==> !changed_spec(t2, l2, p),
        forall|p: Seq<char>| m_has(l2, p) ==> m_has(t2, p),
{
    assert forall|p: Seq<char>| m_has(t2, p) implies !changed_spec(t2, l2, p) by {
        let k = choose|k: int| 0 <= k < files.len() && files[k].path == p && !excluded_spec(p);
        let f = files[k];
        assert(m_val(t2, p) == scanned_entry_spec(t1, f));
        assert(m_has(l2, p) && m_val(l2, p) == scanned_entry_spec(t2, f));
        assert(m_val(t2, p).uncompressed_size_bytes == f.size);
        if f.recent_modtime {
            assert(needs_rehash_spec(t1, f.path, f.size, f.recent_modtime));
            assert(needs_rehash_spec(t2, f.path, f.size, f.recent_modtime));
        } else {
            assert(!needs_rehash_spec(t2, f.path, f.size, f.recent_modtime));
        }
    }
    assert forall|p: Seq<char>| m_has(l2, p) implies m_has(t2, p) by {
        let k = choose|k: int| 0 <= k < files.len() && files[k].path == p && !excluded_spec(p);
        assert(files[k].path == p && !excluded_spec(p));
    }
}

} // verus!
