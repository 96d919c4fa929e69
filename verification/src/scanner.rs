//! The local-state scanner: build a fresh manifest describing the current
//! local tree.
//!
//! The walk itself (directory traversal, metadata, reading bytes) happens
//! outside the library; each file arrives here as a [`ScannedFile`].  The
//! scanner applies the exclusion rules, decides per file whether its
//! checksum must be recomputed or may be reused from the truth manifest
//! (the staleness heuristic), and merges the results by unique path.
//!
//! The heuristic recomputes a checksum when the file was modified recently,
//! is new to the truth manifest, or changed size.  It deliberately trades a
//! theoretical false negative (an old file edited to the same size with a
//! backdated modification time is never rehashed) for not rehashing
//! gigabytes of unchanged data; a size change always forces a rehash.

use vstd::prelude::*;
use crate::checksum::{md5_hex_of, md5sum};
use crate::manifest::{m_has, m_paths, m_val, unique_paths, Entry, EntryV, Manifest};
use crate::strutil::{has_substring, str_contains};

verus! {

/// How recent a modification must be (in seconds) for a file to be
/// rehashed regardless of its size: twelve hours.
pub const RECENT_MODTIME_WINDOW_SECS: u64 = 60 * 60 * 12;

/// A modification `elapsed_secs` ago falls within the recency window.
pub fn modified_recently(elapsed_secs: u64) -> (r: bool)
    ensures
        r == (elapsed_secs < RECENT_MODTIME_WINDOW_SECS),
{
    elapsed_secs < RECENT_MODTIME_WINDOW_SECS
}

/// Paths matching these ancillary asset patterns are not part of the
/// synchronized dataset.
pub open spec fn excluded_spec(p: Seq<char>) -> bool {
    ||| has_substring(p, "system/assets/"@)
    ||| has_substring(p, "system/ltn_proposals"@)
    ||| has_substring(p, "system/proposals"@)
    ||| has_substring(p, "system/study_areas"@)
}

/// Whether the exclusion rules skip `path`.
pub fn is_excluded(path: &str) -> (r: bool)
    ensures
        r == excluded_spec(path@),
{
    str_contains(path, "system/assets/") || str_contains(path, "system/ltn_proposals")
        || str_contains(path, "system/proposals") || str_contains(path, "system/study_areas")
}

/// Mathematical value of one walked file.
pub ghost struct FileV {
    pub path: Seq<char>,
    pub size: u64,
    pub recent_modtime: bool,
    pub content: Seq<u8>,
}

/// One non-directory file found by walking a managed root: its normalized
/// relative path, byte length, whether its modification time falls within
/// the recency window, and its content.
pub struct ScannedFile {
    pub path: String,
    pub size: u64,
    pub recent_modtime: bool,
    pub content: Vec<u8>,
}

impl View for ScannedFile {
    type V = FileV;

    open spec fn view(&self) -> FileV {
        FileV {
            path: self.path@,
            size: self.size,
            recent_modtime: self.recent_modtime,
            content: self.content@,
        }
    }
}

impl DeepView for ScannedFile {
    type V = FileV;

    open spec fn deep_view(&self) -> FileV {
        self@
    }
}

/// The staleness heuristic: the checksum must be recomputed when the file
/// was modified recently, is new to the truth manifest, or changed size.
pub open spec fn needs_rehash_spec(
    truth: Seq<(Seq<char>, EntryV)>,
    path: Seq<char>,
    size: u64,
    recent_modtime: bool,
) -> bool {
    ||| recent_modtime
    ||| !m_has(truth, path)
    ||| m_val(truth, path).uncompressed_size_bytes != size
}

/// Decide whether a file's checksum must be recomputed.
///
/// The final clause is the heuristic's soundness guarantee: whenever the
/// recorded size differs from the file's size, the file is rehashed, no
/// matter its modification time.
pub fn needs_rehash(truth: &Manifest, path: &str, size: u64, recent_modtime: bool) -> (r: bool)
    requires
        truth.wf(),
    ensures
        r == needs_rehash_spec(truth@, path@, size, recent_modtime),
        m_has(truth@, path@) && m_val(truth@, path@).uncompressed_size_bytes != size ==> r,
{
    if recent_modtime {
        true
    } else {
        match truth.get(path) {
            None => true,
            Some(e) => e.uncompressed_size_bytes != size,
        }
    }
}

/// The entry the scanner records for one file: a fresh digest of its
/// content where the heuristic demands one, the truth manifest's checksum
/// otherwise; the file's size; and no compressed artifact yet.
pub open spec fn scanned_entry_spec(truth: Seq<(Seq<char>, EntryV)>, f: FileV) -> EntryV {
    EntryV {
        checksum: if needs_rehash_spec(truth, f.path, f.size, f.recent_modtime) {
            md5_hex_of(f.content)
        } else {
            m_val(truth, f.path).checksum
        },
        uncompressed_size_bytes: f.size,
        compressed_size_bytes: 0,
    }
}

/// Scan one file against the truth manifest.
pub fn scan_file(truth: &Manifest, file: &ScannedFile) -> (r: Entry)
    requires
        truth.wf(),
    ensures
        r@ == scanned_entry_spec(truth@, file@),
{
    let reused: Option<String> = match truth.get(file.path.as_str()) {
        Some(e) => {
            if !file.recent_modtime && e.uncompressed_size_bytes == file.size {
                Some(e.checksum.clone())
            } else {
                None
            }
        },
        None => None,
    };
    let checksum = match reused {
        Some(c) => c,
        None => md5sum(file.content.as_slice()),
    };
    Entry::new(checksum, file.size)
}

/// No two walked files share a path.
pub open spec fn distinct_file_paths(files: Seq<FileV>) -> bool {
    forall|i: int, j: int| 0 <= i < j < files.len() ==> files[i].path != files[j].path
}

/// The paths the scanner keeps, in walk order: every non-excluded file path.
pub open spec fn kept_paths(files: Seq<FileV>) -> Seq<Seq<char>> {
    files.map_values(|f: FileV| f.path).filter(|p: Seq<char>| !excluded_spec(p))
}

/// `result` is exactly what scanning `files` against `truth` yields: its
/// paths are the non-excluded file paths, and each is bound to the entry
/// the staleness heuristic picks.
pub open spec fn is_scan(
    truth: Seq<(Seq<char>, EntryV)>,
    files: Seq<FileV>,
    result: Seq<(Seq<char>, EntryV)>,
) -> bool {
    &&& unique_paths(result)
    &&& (forall|p: Seq<char>|
        #[trigger] m_has(result, p) <==> exists|k: int|
            0 <= k < files.len() && files[k].path == p && !excluded_spec(p))
    &&& (forall|k: int|
        0 <= k < files.len() && !excluded_spec(#[trigger] files[k].path) ==> m_has(
            result,
            files[k].path,
        ) && m_val(result, files[k].path) == scanned_entry_spec(truth, files[k]))
}

/// Hashing is dispatched across a worker pool, one task per file, and the
/// results are merged by unique path; this is why task order cannot affect
/// the outcome: two scans of the same files against the same truth — in
/// whatever order each saw them — agree on every path and entry.
pub proof fn lemma_scan_order_irrelevant(
    truth: Seq<(Seq<char>, EntryV)>,
    files1: Seq<FileV>,
    files2: Seq<FileV>,
    r1: Seq<(Seq<char>, EntryV)>,
    r2: Seq<(Seq<char>, EntryV)>,
)
    requires
        distinct_file_paths(files1),
        distinct_file_paths(files2),
        forall|f: FileV| files1.contains(f) <==> files2.contains(f),
        is_scan(truth, files1, r1),
        is_scan(truth, files2, r2),
    ensures
        forall|p: Seq<char>| m_has(r1, p) == m_has(r2, p),
        forall|p: Seq<char>| m_has(r1, p) ==> m_val(r1, p) == m_val(r2, p),
{
    assert forall|p: Seq<char>| m_has(r1, p) == m_has(r2, p) by {
        if m_has(r1, p) {
            let k = choose|k: int|
                0 <= k < files1.len() && files1[k].path == p && !excluded_spec(p);
            assert(files1.contains(files1[k]));
            let j = choose|j: int| 0 <= j < files2.len() && files2[j] == files1[k];
            assert(files2[j].path == p && !excluded_spec(p));
        }
        if m_has(r2, p) {
            let k = choose|k: int|
                0 <= k < files2.len() && files2[k].path == p && !excluded_spec(p);
            assert(files2.contains(files2[k]));
            let j = choose|j: int| 0 <= j < files1.len() && files1[j] == files2[k];
            assert(files1[j].path == p && !excluded_spec(p));
        }
    }
    assert forall|p: Seq<char>| m_has(r1, p) implies m_val(r1, p) == m_val(r2, p) by {
        let k = choose|k: int| 0 <= k < files1.len() && files1[k].path == p && !excluded_spec(p);
        let f = files1[k];
        assert(m_val(r1, p) == scanned_entry_spec(truth, f));
        assert(files1.contains(f));
        let j = choose|j: int| 0 <= j < files2.len() && files2[j] == f;
        assert(m_val(r2, f.path) == scanned_entry_spec(truth, files2[j]));
    }
}

/// Produce a fresh manifest for the walked files: apply the exclusion
/// rules, run the staleness heuristic per file, and merge the results by
/// unique path.  Every entry starts with no compressed artifact.
pub fn build_local_manifest(truth: &Manifest, files: &Vec<ScannedFile>) -> (r: Manifest)
    requires
        truth.wf(),
        distinct_file_paths(files.deep_view()),
    ensures
        r.wf(),
        is_scan(truth@, files.deep_view(), r@),
        m_paths(r@) == kept_paths(files.deep_view()),
{
    let ghost fv = files.deep_view();
    let ghost all_paths = fv.map_values(|f: FileV| f.path);
    let ghost keep = |p: Seq<char>| !excluded_spec(p);
    proof {
        reveal(Seq::filter);
        assert(m_paths(Seq::<(Seq<char>, EntryV)>::empty()) =~= all_paths
            .subrange(0, 0).filter(keep));
    }
    let n = files.len();
    let mut out = Manifest::new();
    let mut i: usize = 0;
    while i < n
        invariant
            truth.wf(),
            fv == files.deep_view(),
            distinct_file_paths(fv),
            n == files@.len(),
            n == fv.len(),
            i <= n,
            out.wf(),
            forall|p: Seq<char>|
                #[trigger] m_has(out@, p) <==> exists|k: int|
                    0 <= k < i && fv[k].path == p && !excluded_spec(p),
            forall|k: int|
                0 <= k < i && !excluded_spec(#[trigger] fv[k].path) ==> m_has(out@, fv[k].path)
                    && m_val(out@, fv[k].path) == scanned_entry_spec(truth@, fv[k]),
            all_paths == fv.map_values(|f: FileV| f.path),
            keep == (|p: Seq<char>| !excluded_spec(p)),
            m_paths(out@) == all_paths.subrange(0, i as int).filter(keep),
        decreases n - i,
    {
        let file = &files[i];
        let ghost pre_iter = out@;
        proof {
            assert(file@ == fv[i as int]);
        }
        if !is_excluded(file.path.as_str()) {
            let entry = scan_file(truth, file);
            let ghost pre = out@;
            proof {
                if m_has(pre, file.path@) {
                    let k = choose|k: int| 0 <= k < i && fv[k].path == file.path@ && !excluded_spec(
                        file.path@,
                    );
                    assert(fv[k].path == fv[i as int].path);
                    assert(false);
                }
            }
            out.insert(file.path.clone(), entry);
            proof {
                assert forall|p: Seq<char>| #[trigger] m_has(out@, p) implies exists|k: int|
                    0 <= k < i + 1 && fv[k].path == p && !excluded_spec(p) by {
                    if p == file.path@ {
                        assert(fv[i as int].path == p && !excluded_spec(p));
                    } else {
                        assert(m_has(pre, p));
                    }
                }
                assert forall|p: Seq<char>|
                    (exists|k: int| 0 <= k < i + 1 && fv[k].path == p && !excluded_spec(p))
                    implies #[trigger] m_has(out@, p) by {
                    let k = choose|k: int|
                        0 <= k < i + 1 && fv[k].path == p && !excluded_spec(p);
                    if k < i {
                        assert(m_has(pre, p));
                        if p != file.path@ {
                            assert(m_has(out@, p));
                        }
                    }
                }
                assert forall|k: int|
                    0 <= k < i + 1 && !excluded_spec(#[trigger] fv[k].path) implies m_has(
                    out@,
                    fv[k].path,
                ) && m_val(out@, fv[k].path) == scanned_entry_spec(truth@, fv[k]) by {
                    if k < i {
                        assert(fv[k].path != file.path@);
                        assert(m_has(pre, fv[k].path));
                    }
                }
            }
        } else {
            proof {
                assert forall|p: Seq<char>| #[trigger] m_has(out@, p) implies exists|k: int|
                    0 <= k < i + 1 && fv[k].path == p && !excluded_spec(p) by {
                    let k = choose|k: int| 0 <= k < i && fv[k].path == p && !excluded_spec(p);
                    assert(0 <= k < i + 1 && fv[k].path == p && !excluded_spec(p));
                }
                assert forall|p: Seq<char>|
                    (exists|k: int| 0 <= k < i + 1 && fv[k].path == p && !excluded_spec(p))
                    implies #[trigger] m_has(out@, p) by {
                    let k = choose|k: int|
                        0 <= k < i + 1 && fv[k].path == p && !excluded_spec(p);
                    if k == i {
                        assert(excluded_spec(fv[i as int].path));
                        assert(false);
                    }
                }
            }
        }
        proof {
            reveal(Seq::filter);
            let s1 = all_paths.subrange(0, i + 1 as int);
            assert(s1.drop_last() =~= all_paths.subrange(0, i as int));
            assert(s1.last() == all_paths[i as int]);
            assert(all_paths[i as int] == fv[i as int].path);
            assert(keep(s1.last()) == !excluded_spec(fv[i as int].path));
            if !excluded_spec(fv[i as int].path) {
                assert(m_paths(out@) =~= m_paths(pre_iter)
                    .push(fv[i as int].path));
            }
            assert(m_paths(out@) == s1.filter(keep));
        }
        i += 1;
    }
    proof {
        assert(all_paths.subrange(0, n as int) =~= all_paths);
    }
    out
}

} // verus!
