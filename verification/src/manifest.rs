//! The manifest model: an ordered mapping from relative path to the entry
//! describing that path's content.
//!
//! A manifest is the single source of truth for "what version of what data
//! should exist".  Paths are unique keys; two entries describe the same
//! version of a path exactly when their checksums are equal, and the size
//! fields are metadata, never identity.

use vstd::prelude::*;
use crate::strutil::{has_substring, str_contains, str_eq};

verus! {

/// Mathematical value of one manifest entry.
pub ghost struct EntryV {
    pub checksum: Seq<char>,
    pub uncompressed_size_bytes: u64,
    pub compressed_size_bytes: u64,
}

/// Checksum and size metadata for one path.
///
/// The checksum is a hex digest computed over the uncompressed file content.
/// `compressed_size_bytes` is zero until the transfer pipeline has actually
/// produced a compressed artifact for this entry; it is never inferred.
pub struct Entry {
    pub checksum: String,
    pub uncompressed_size_bytes: u64,
    pub compressed_size_bytes: u64,
}

impl View for Entry {
    type V = EntryV;

    open spec fn view(&self) -> EntryV {
        EntryV {
            checksum: self.checksum@,
            uncompressed_size_bytes: self.uncompressed_size_bytes,
            compressed_size_bytes: self.compressed_size_bytes,
        }
    }
}

impl Entry {
    /// A fresh entry for newly scanned content: no compressed artifact yet.
    pub fn new(checksum: String, uncompressed_size_bytes: u64) -> (r: Entry)
        ensures
            r@.checksum == checksum@,
            r@.uncompressed_size_bytes == uncompressed_size_bytes,
            r@.compressed_size_bytes == 0,
    {
        Entry { checksum, uncompressed_size_bytes, compressed_size_bytes: 0 }
    }
}

impl Clone for Entry {
    fn clone(&self) -> (r: Entry)
        ensures
            r@ == self@,
    {
        Entry {
            checksum: self.checksum.clone(),
            uncompressed_size_bytes: self.uncompressed_size_bytes,
            compressed_size_bytes: self.compressed_size_bytes,
        }
    }
}

/// A path `p` is bound in the map view `m`.
pub open spec fn m_has(m: Seq<(Seq<char>, EntryV)>, p: Seq<char>) -> bool {
    exists|i: int| 0 <= i < m.len() && m[i].0 == p
}

/// The position at which `p` is bound in `m` (meaningful when `m_has`).
pub open spec fn m_idx(m: Seq<(Seq<char>, EntryV)>, p: Seq<char>) -> int {
    choose|i: int| 0 <= i < m.len() && m[i].0 == p
}

/// The entry bound to `p` in `m` (meaningful when `m_has` and paths are unique).
pub open spec fn m_val(m: Seq<(Seq<char>, EntryV)>, p: Seq<char>) -> EntryV {
    m[m_idx(m, p)].1
}

/// The paths of a map view, in order.
pub open spec fn m_paths(m: Seq<(Seq<char>, EntryV)>) -> Seq<Seq<char>> {
    m.map_values(|pr: (Seq<char>, EntryV)| pr.0)
}

/// No path is bound twice.
pub open spec fn unique_paths(m: Seq<(Seq<char>, EntryV)>) -> bool {
    forall|i: int, j: int| 0 <= i < j < m.len() ==> m[i].0 != m[j].0
}

/// An ordered mapping from relative path to [`Entry`], with unique paths.
pub struct Manifest {
    entries: Vec<(String, Entry)>,
}

impl View for Manifest {
    type V = Seq<(Seq<char>, EntryV)>;

    closed spec fn view(&self) -> Seq<(Seq<char>, EntryV)> {
        self.entries@.map_values(|pr: (String, Entry)| (pr.0@, pr.1@))
    }
}

impl Manifest {
    /// Well-formed: every path is bound at most once.
    pub open spec fn wf(&self) -> bool {
        unique_paths(self@)
    }

    /// The empty manifest.
    pub fn new() -> (r: Manifest)
        ensures
            r@ =~= Seq::<(Seq<char>, EntryV)>::empty(),
            r.wf(),
    {
        Manifest { entries: Vec::new() }
    }

    /// Number of paths tracked.
    pub fn len(&self) -> (r: usize)
        ensures
            r == self@.len(),
    {
        self.entries.len()
    }

    /// The path at position `i`.
    pub fn path_at(&self, i: usize) -> (r: &String)
        requires
            i < self@.len(),
        ensures
            r@ == self@[i as int].0,
    {
        &self.entries[i].0
    }

    /// The entry at position `i`.
    pub fn entry_at(&self, i: usize) -> (r: &Entry)
        requires
            i < self@.len(),
        ensures
            r@ == self@[i as int].1,
    {
        &self.entries[i].1
    }

    /// Whether `path` is tracked.
    pub fn contains_path(&self, path: &str) -> (r: bool)
        ensures
            r == m_has(self@, path@),
    {
        let n = self.entries.len();
        let mut i: usize = 0;
        while i < n
            invariant
                n == self@.len(),
                n == self.entries@.len(),
                i <= n,
                forall|k: int| 0 <= k < i ==> self@[k].0 != path@,
            decreases n - i,
        {
            if str_eq(self.entries[i].0.as_str(), path) {
                assert(self@[i as int].0 == path@);
                return true;
            }
            i += 1;
        }
        false
    }

    /// Look up the entry bound to `path`.
    pub fn get(&self, path: &str) -> (r: Option<&Entry>)
        requires
            self.wf(),
        ensures
            match r {
                Some(e) => m_has(self@, path@) && e@ == m_val(self@, path@),
                None => !m_has(self@, path@),
            },
    {
        let n = self.entries.len();
        let mut i: usize = 0;
        while i < n
            invariant
                n == self@.len(),
                n == self.entries@.len(),
                self.wf(),
                i <= n,
                forall|k: int| 0 <= k < i ==> self@[k].0 != path@,
            decreases n - i,
        {
            if str_eq(self.entries[i].0.as_str(), path) {
                proof {
                    assert(self@[i as int].0 == path@);
                    let j = m_idx(self@, path@);
                    assert(0 <= j < self@.len() && self@[j].0 == path@);
                    if j != i as int {
                        assert(self@[i as int].0 == self@[j].0);
                        assert(false);
                    }
                }
                return Some(&self.entries[i].1);
            }
            i += 1;
        }
        None
    }

    /// Bind `path` to `entry`, replacing any previous binding.
    pub fn insert(&mut self, path: String, entry: Entry)
        requires
            old(self).wf(),
        ensures
            final(self).wf(),
            m_has(final(self)@, path@),
            m_val(final(self)@, path@) == entry@,
            forall|q: Seq<char>| q != path@ ==> m_has(final(self)@, q) == m_has(old(self)@, q),
            forall|q: Seq<char>| q != path@ && m_has(old(self)@, q) ==> m_val(final(self)@, q)
                == m_val(old(self)@, q),
            final(self)@.len() == if m_has(old(self)@, path@) {
                old(self)@.len()
            } else {
                old(self)@.len() + 1
            },
            !m_has(old(self)@, path@) ==> final(self)@ == old(self)@.push((path@, entry@)),
            m_has(old(self)@, path@) ==> final(self)@ == old(self)@.update(
                m_idx(old(self)@, path@),
                (path@, entry@),
            ),
    {
        let n = self.entries.len();
        let mut i: usize = 0;
        while i < n
            invariant
                self == old(self),
                old(self).wf(),
                n == self@.len(),
                n == self.entries@.len(),
                i <= n,
                forall|k: int| 0 <= k < i ==> self@[k].0 != path@,
            decreases n - i,
        {
            if str_eq(self.entries[i].0.as_str(), path.as_str()) {
                proof {
                    assert(self@[i as int].0 == path@);
                }
                self.entries[i] = (path, entry);
                proof {
                    lemma_update_binding(old(self)@, self@, i as int, entry@);
                }
                return;
            }
            i += 1;
        }
        self.entries.push((path, entry));
        proof {
            lemma_push_binding(old(self)@, self@, entry@);
        }
    }
}

/// A selection of logical data groups (for example by city or region),
/// used only to narrow which paths of a manifest are in scope for a run.
/// A path is in scope when it mentions one of the selected groups.
pub struct DataPacks {
    pub groups: Vec<String>,
}

impl View for DataPacks {
    type V = Seq<Seq<char>>;

    open spec fn view(&self) -> Seq<Seq<char>> {
        self.groups@.map_values(|g: String| g@)
    }
}

/// `p` mentions one of the selected groups.
pub open spec fn in_scope(p: Seq<char>, groups: Seq<Seq<char>>) -> bool {
    exists|k: int| 0 <= k < groups.len() && has_substring(p, groups[k])
}

/// The filtering predicate induced by a group selection.
pub open spec fn scope_pred(groups: Seq<Seq<char>>) -> spec_fn((Seq<char>, EntryV)) -> bool {
    |pr: (Seq<char>, EntryV)| in_scope(pr.0, groups)
}

impl DataPacks {
    /// Whether `path` is in scope for this selection.
    pub fn allows(&self, path: &str) -> (r: bool)
        ensures
            r == in_scope(path@, self@),
    {
        let n = self.groups.len();
        let mut k: usize = 0;
        while k < n
            invariant
                n == self@.len(),
                n == self.groups@.len(),
                k <= n,
                forall|j: int| 0 <= j < k ==> !has_substring(path@, self@[j]),
            decreases n - k,
        {
            if str_contains(path, self.groups[k].as_str()) {
                assert(has_substring(path@, self@[k as int]));
                return true;
            }
            k += 1;
        }
        false
    }
}

impl Manifest {
    /// A new manifest holding exactly the in-scope entries, in order.
    /// The receiver is never changed: filtering selects, it does not mutate.
    pub fn filter(&self, packs: &DataPacks) -> (r: Manifest)
        requires
            self.wf(),
        ensures
            r.wf(),
            r@ == self@.filter(scope_pred(packs@)),
    {
        let ghost pred = scope_pred(packs@);
        let n = self.entries.len();
        let mut out: Manifest = Manifest::new();
        let mut i: usize = 0;
        proof {
            reveal(Seq::filter);
            assert(self@.subrange(0, 0).filter(pred) =~= out@);
        }
        while i < n
            invariant
                n == self@.len(),
                n == self.entries@.len(),
                self.wf(),
                i <= n,
                pred == scope_pred(packs@),
                out@ == self@.subrange(0, i as int).filter(pred),
                out.wf(),
                forall|k: int| 0 <= k < out@.len() ==> #[trigger] m_has(
                    self@.subrange(0, i as int),
                    out@[k].0,
                ),
            decreases n - i,
        {
            let ghost pre_out = out@;
            let keep = packs.allows(self.entries[i].0.as_str());
            proof {
                assert(self@[i as int].0 == self.entries@[i as int].0@);
                assert(pred(self@[i as int]) == keep);
            }
            if keep {
                proof {
                    assert forall|k: int| 0 <= k < out@.len() implies out@[k].0 != self@[
                        i as int
                    ].0 by {
                        assert(m_has(self@.subrange(0, i as int), out@[k].0));
                        let j = m_idx(self@.subrange(0, i as int), out@[k].0);
                        assert(self@[j] == self@.subrange(0, i as int)[j]);
                        if out@[k].0 == self@[i as int].0 {
                            assert(self@[j].0 == self@[i as int].0);
                        }
                    }
                }
                let path = self.entries[i].0.clone();
                let entry = self.entries[i].1.clone();
                out.insert(path, entry);
                proof {
                    if m_has(pre_out, self@[i as int].0) {
                        let k = m_idx(pre_out, self@[i as int].0);
                        assert(pre_out[k].0 == self@[i as int].0);
                        assert(false);
                    }
                    assert(out@ == pre_out.push((self@[i as int].0, self@[i as int].1)));
                }
            }
            proof {
                reveal(Seq::filter);
                let s1 = self@.subrange(0, i + 1 as int);
                assert(s1.drop_last() =~= self@.subrange(0, i as int));
                assert(s1.last() == self@[i as int]);
                assert(s1.filter(pred) == if pred(s1.last()) {
                    s1.drop_last().filter(pred).push(s1.last())
                } else {
                    s1.drop_last().filter(pred)
                });
                assert(out@ == s1.filter(pred));
                assert forall|k: int| 0 <= k < out@.len() implies #[trigger] m_has(
                    self@.subrange(0, (i + 1) as int),
                    out@[k].0,
                ) by {
                    if k < pre_out.len() {
                        assert(m_has(self@.subrange(0, i as int), out@[k].0));
                        let j = m_idx(self@.subrange(0, i as int), out@[k].0);
                        assert(self@.subrange(0, (i + 1) as int)[j] == self@.subrange(
                            0,
                            i as int,
                        )[j]);
                    } else {
                        assert(out@[k].0 == self@[i as int].0);
                        assert(self@.subrange(0, (i + 1) as int)[i as int] == self@[i as int]);
                    }
                }
            }
            i += 1;
        }
        proof {
            assert(self@.subrange(0, n as int) =~= self@);
        }
        out
    }
}

/// After replacing position `i` (whose path equals the new pair's path),
/// the map view is updated exactly at that path.
proof fn lemma_update_binding(
    pre: Seq<(Seq<char>, EntryV)>,
    post: Seq<(Seq<char>, EntryV)>,
    i: int,
    e: EntryV,
)
    requires
        unique_paths(pre),
        0 <= i < pre.len(),
        post =~= pre.update(i, (pre[i].0, e)),
    ensures
        unique_paths(post),
        m_has(post, pre[i].0),
        m_val(post, pre[i].0) == e,
        forall|q: Seq<char>| q != pre[i].0 ==> m_has(post, q) == m_has(pre, q),
        forall|q: Seq<char>| q != pre[i].0 && m_has(pre, q) ==> m_val(post, q) == m_val(pre, q),
        post.len() == pre.len(),
        m_has(pre, pre[i].0),
{
    let p = pre[i].0;
    assert(post[i].0 == p);
    assert(m_has(post, p));
    assert forall|k: int| 0 <= k < post.len() && post[k].0 == p implies k == i by {
        if k != i {
            assert(post[k] == pre[k]);
        }
    }
    assert(m_idx(post, p) == i);
    assert(m_idx(pre, p) == i) by {
        let j = m_idx(pre, p);
        assert(0 <= j < pre.len() && pre[j].0 == p);
        if j != i {
            assert(false);
        }
    }
    assert forall|q: Seq<char>| q != p implies m_has(post, q) == m_has(pre, q) by {
        if m_has(post, q) {
            let k = m_idx(post, q);
            assert(pre[k].0 == q);
        }
        if m_has(pre, q) {
            let k = m_idx(pre, q);
            assert(post[k].0 == q);
        }
    }
    assert forall|q: Seq<char>| q != p && m_has(pre, q) implies m_val(post, q) == m_val(pre, q) by {
        let k1 = m_idx(pre, q);
        let k2 = m_idx(post, q);
        assert(post[k1].0 == q);
        assert(pre[k2].0 == q);
        if k1 != k2 {
            assert(pre[k1].0 == pre[k2].0);
        }
    }
}

/// After pushing a pair whose path is absent from `pre`, the map view
/// gains exactly that binding.
proof fn lemma_push_binding(
    pre: Seq<(Seq<char>, EntryV)>,
    post: Seq<(Seq<char>, EntryV)>,
    e: EntryV,
)
    requires
        unique_paths(pre),
        post.len() == pre.len() + 1,
        post =~= pre.push(post[pre.len() as int]),
        post[pre.len() as int].1 == e,
        !m_has(pre, post[pre.len() as int].0),
    ensures
        unique_paths(post),
        m_has(post, post[pre.len() as int].0),
        m_val(post, post[pre.len() as int].0) == e,
        forall|q: Seq<char>| q != post[pre.len() as int].0 ==> m_has(post, q) == m_has(pre, q),
        forall|q: Seq<char>| q != post[pre.len() as int].0 && m_has(pre, q) ==> m_val(post, q)
            == m_val(pre, q),
{
    let p = post[pre.len() as int].0;
    assert(unique_paths(post)) by {
        assert forall|i: int, j: int| 0 <= i < j < post.len() implies post[i].0 != post[j].0 by {
            if j == pre.len() {
                if post[i].0 == p {
                    assert(m_has(pre, p));
                }
            }
        }
    }
    assert(m_has(post, p));
    assert forall|k: int| 0 <= k < post.len() && post[k].0 == p implies k == pre.len() by {
        if k < pre.len() {
            assert(m_has(pre, p));
        }
    }
    assert(m_val(post, p) == e);
    assert forall|q: Seq<char>| q != p implies m_has(post, q) == m_has(pre, q) by {
        if m_has(post, q) {
            let k = m_idx(post, q);
            assert(0 <= k < post.len() && post[k].0 == q);
            assert(k < pre.len());
            assert(pre[k].0 == q);
        }
        if m_has(pre, q) {
            let k = m_idx(pre, q);
            assert(post[k].0 == q);
        }
    }
    assert forall|q: Seq<char>| q != p && m_has(pre, q) implies m_val(post, q) == m_val(pre, q) by {
        let k1 = m_idx(pre, q);
        let k2 = m_idx(post, q);
        assert(post[k1].0 == q);
        assert(0 <= k2 < post.len() && post[k2].0 == q);
        assert(k2 < pre.len());
        assert(pre[k2].0 == q);
        if k1 != k2 {
            assert(pre[k1].0 == pre[k2].0);
        }
    }
}

} // verus!
