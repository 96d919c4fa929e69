//! A content-addressed data synchronization engine.
//!
//! The library keeps a tree of versioned data files consistent between a
//! local working directory, a content-addressable remote store, and a
//! published manifest.  It decides what changed locally since the last
//! known-good state, what must be fetched or deleted to converge with a
//! target version, and how to transfer only the delta, while a cheap
//! staleness heuristic avoids rehashing unchanged multi-megabyte files.
//!
//! File walking, network transfers and process invocation live outside the
//! library; every decision the engine makes is a verified function over
//! plain values.

pub mod strutil;
pub mod manifest;
pub mod checksum;
pub mod codec;
pub mod scanner;
pub mod reconcile;
pub mod transfer;
pub mod prune;
pub mod task;
pub mod records;
pub mod frontier;
pub mod area;

