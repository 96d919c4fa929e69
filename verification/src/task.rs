//! The task driver's decisions: which operation a run performs, validated
//! before any I/O happens.

use vstd::prelude::*;
use crate::checksum::{md5_hex_of, md5sum};
use crate::manifest::{m_has, m_val, Manifest};
use crate::strutil::str_eq;

verus! {

/// One run performs exactly one of these operations.
pub enum Task {
    /// Publish the local tree as the new truth, deleting remote artifacts
    /// for paths that no longer exist locally.
    Upload { version: String },
    /// Publish changed paths only; never deletes anything remotely.
    IncrementalUpload { version: String },
    /// Report what a download would change; touch nothing.  With a single
    /// file given, check only whether that file changed.
    DryRun { single_file: Option<String> },
    /// Converge the local tree to a published version.
    Download { version: String, minimal: bool, delete_local: bool, from_local_source: bool },
}

/// An incremental upload must not target the primary version: it would
/// irreversibly stomp the published truth from an unintended writer.
pub open spec fn task_allowed(t: Task) -> bool {
    !(t matches Task::IncrementalUpload { version } && version@ == "dev"@)
}

/// Reject a destructive operation under an unintended target identifier
/// before any I/O occurs.
pub fn validate_task(t: &Task) -> (r: bool)
    ensures
        r == task_allowed(*t),
{
    match t {
        Task::IncrementalUpload { version } => !str_eq(version.as_str(), "dev"),
        _ => true,
    }
}

/// Single-file dry run: whether the file's current content diverges from
/// the truth manifest.  A path the manifest does not track yields nothing
/// (the caller reports that as an error).
pub fn check_single_file(truth: &Manifest, path: &str, content: &[u8]) -> (r: Option<bool>)
    requires
        truth.wf(),
    ensures
        r is Some <==> m_has(truth@, path@),
        r matches Some(ch) ==> ch == (md5_hex_of(content@) != m_val(truth@, path@).checksum),
{
    match truth.get(path) {
        None => None,
        Some(e) => {
            let local = md5sum(content);
            Some(!str_eq(local.as_str(), e.checksum.as_str()))
        },
    }
}

} // verus!
