//! The transfer pipeline: produce compressed artifacts for changed paths
//! (upload direction) and turn fetched artifacts back into file content
//! (download direction), collecting per-file failures instead of stopping.
//!
//! Which paths count as changed is the reconciler's job, in both
//! directions: uploading publishes the freshly scanned manifest as truth
//! and diffs the remote state against it, so the reconciler's
//! `to_fetch_or_update` is what must be compressed and its `to_remove`
//! (full upload only) what must be deleted remotely; an incremental upload
//! runs it with deletion off and is a no-op when nothing changed.

use vstd::prelude::*;
use vstd::string::StringExecFns;
use crate::codec::{compress_bytes, decompress_bytes, gunzip_of, gzip_of};
use crate::manifest::{m_has, m_val, Entry, EntryV, Manifest};
use crate::strutil::{has_substring, str_contains, str_eq};

verus! {

/// A minimal install keeps only paths mentioning this area.
pub open spec fn minimal_spec(p: Seq<char>) -> bool {
    has_substring(p, "montlake"@) || p == "data/system/us/seattle/city.bin"@
}

/// The allow-list predicate for lightweight installs.
pub fn keep_in_minimal(path: &str) -> (r: bool)
    ensures
        r == minimal_spec(path@),
{
    str_contains(path, "montlake") || str_eq(path, "data/system/us/seattle/city.bin")
}

/// The name under which a path's compressed artifact is stored.
pub fn artifact_name(path: &str) -> (r: String)
    ensures
        r@ == path@ + ".gz"@,
{
    let mut s = path.to_owned();
    s.append(".gz");
    s
}

/// Compress one changed file for upload: the artifact is the encoded
/// content, and the returned entry records the artifact's actual byte
/// length — never an inferred one — keeping checksum and size unchanged.
/// Decoding the artifact gives the content back.
pub fn compress_for_upload(entry: &Entry, content: &Vec<u8>) -> (r: (Entry, Vec<u8>))
    ensures
        r.1@ == gzip_of(content@),
        gunzip_of(r.1@) == Some(content@),
        r.0@.checksum == entry@.checksum,
        r.0@.uncompressed_size_bytes == entry@.uncompressed_size_bytes,
        r.0@.compressed_size_bytes == r.1@.len(),
{
    let artifact = compress_bytes(content);
    let len = artifact.len();
    let finished = Entry {
        checksum: entry.checksum.clone(),
        uncompressed_size_bytes: entry.uncompressed_size_bytes,
        compressed_size_bytes: len as u64,
    };
    (finished, artifact)
}

/// Uploading an unchanged path still records its artifact's size.
#[derive(Clone, Copy, Debug, PartialEq, Eq, Structural)]
pub enum UploadError {
    /// An artifact that ought to exist remotely is missing: remote state
    /// diverged from the manifest, and the run must stop.
    MissingArtifact,
}

/// Record the size of an unchanged path's existing remote artifact.  An
/// artifact that cannot be found is fatal: the manifest must never be
/// written in a state that does not reflect reality.
pub fn record_existing_artifact(entry: &Entry, artifact_len: Option<u64>) -> (r: Result<
    Entry,
    UploadError,
>)
    ensures
        r is Ok <==> artifact_len is Some,
        r matches Ok(e) ==> e@.checksum == entry@.checksum
            && e@.uncompressed_size_bytes == entry@.uncompressed_size_bytes
            && e@.compressed_size_bytes == artifact_len->Some_0,
        r is Err ==> r matches Err(UploadError::MissingArtifact),
{
    match artifact_len {
        Some(len) => Ok(
            Entry {
                checksum: entry.checksum.clone(),
                uncompressed_size_bytes: entry.uncompressed_size_bytes,
                compressed_size_bytes: len,
            },
        ),
        None => Err(UploadError::MissingArtifact),
    }
}

/// `p` is the path of some pair in `u`.
pub open spec fn pair_has(u: Seq<(String, Entry)>, p: Seq<char>) -> bool {
    exists|k: int| 0 <= k < u.len() && u[k].0@ == p
}

/// No two pairs in `u` share a path.
pub open spec fn distinct_pair_paths(u: Seq<(String, Entry)>) -> bool {
    forall|i: int, j: int| 0 <= i < j < u.len() ==> u[i].0@ != u[j].0@
}

/// Merge finished entries into a manifest: each listed path is bound to its
/// finished entry, every other binding is untouched, and no path appears
/// from nowhere.
pub fn apply_updates(base: &mut Manifest, updates: &Vec<(String, Entry)>)
    requires
        old(base).wf(),
        distinct_pair_paths(updates@),
    ensures
        final(base).wf(),
        forall|k: int|
            0 <= k < updates@.len() ==> m_has(final(base)@, #[trigger] updates@[k].0@) && m_val(
                final(base)@,
                updates@[k].0@,
            ) == updates@[k].1@,
        forall|p: Seq<char>|
            !pair_has(updates@, p) ==> (m_has(final(base)@, p) == m_has(old(base)@, p) && (m_has(
                old(base)@,
                p,
            ) ==> m_val(final(base)@, p) == m_val(old(base)@, p))),
{
    let n = updates.len();
    let mut i: usize = 0;
    while i < n
        invariant
            n == updates@.len(),
            i <= n,
            distinct_pair_paths(updates@),
            base.wf(),
            forall|k: int|
                0 <= k < i ==> m_has(base@, #[trigger] updates@[k].0@) && m_val(
                    base@,
                    updates@[k].0@,
                ) == updates@[k].1@,
            forall|p: Seq<char>|
                !pair_has(updates@, p) ==> (m_has(base@, p) == m_has(old(base)@, p) && (m_has(
                    old(base)@,
                    p,
                ) ==> m_val(base@, p) == m_val(old(base)@, p))),
        decreases n - i,
    {
        let path = updates[i].0.clone();
        let entry = updates[i].1.clone();
        base.insert(path, entry);
        proof {
            assert forall|p: Seq<char>| !pair_has(updates@, p) implies (m_has(base@, p) == m_has(
                old(base)@,
                p,
            ) && (m_has(old(base)@, p) ==> m_val(base@, p) == m_val(old(base)@, p))) by {
                assert(updates@[i as int].0@ != p);
            }
            assert forall|k: int| 0 <= k < i + 1 implies m_has(
                base@,
                #[trigger] updates@[k].0@,
            ) && m_val(base@, updates@[k].0@) == updates@[k].1@ by {
                if k < i {
                    assert(updates@[k].0@ != updates@[i as int].0@);
                }
            }
        }
        i += 1;
    }
}

/// One step of the download loop: given what the fetch returned for
/// `path`, either yield the decoded content to write, or record the path
/// as failed and yield nothing, so the run can go on with the next path.
pub fn receive_artifact(path: &String, fetched: Result<Vec<u8>, String>, failures: &mut Vec<
    String,
>) -> (r: Option<Vec<u8>>)
    ensures
        r is Some <==> (fetched matches Ok(b) && gunzip_of(b@) is Some),
        r matches Some(out) ==> (fetched matches Ok(b) && Some(out@) == gunzip_of(b@)),
        r is Some ==> final(failures)@ == old(failures)@,
        r is None ==> final(failures)@ == old(failures)@.push(*path),
{
    match fetched {
        Ok(bytes) => match decompress_bytes(&bytes) {
            Ok(out) => Some(out),
            Err(_) => {
                failures.push(path.clone());
                None
            },
        },
        Err(_) => {
            failures.push(path.clone());
            None
        },
    }
}

/// Best effort, then fail loud: a run that collected any per-file failure
/// reports overall failure, naming exactly the failed paths, but only
/// after every other path was attempted.
pub fn run_outcome(failures: Vec<String>) -> (r: Result<(), Vec<String>>)
    ensures
        r is Ok <==> failures@.len() == 0,
        r matches Err(v) ==> v@ == failures@,
{
    if failures.is_empty() {
        Ok(())
    } else {
        Err(failures)
    }
}

} // verus!
