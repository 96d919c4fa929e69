//! End-to-end checks of the synchronization engine on concrete values.

use updater::checksum::md5sum;
use updater::codec::{compress_bytes, decompress_bytes};
use updater::manifest::{DataPacks, Entry, Manifest};
use updater::prune::prune_empty_dirs;
use updater::reconcile::{dry_run_report, reconcile, ChangeKind};
use updater::scanner::{
    build_local_manifest, is_excluded, modified_recently, needs_rehash, scan_file, ScannedFile,
    RECENT_MODTIME_WINDOW_SECS,
};
use updater::task::{check_single_file, validate_task, Task};
use updater::transfer::{
    apply_updates, artifact_name, compress_for_upload, keep_in_minimal, receive_artifact,
    record_existing_artifact, run_outcome, UploadError,
};

fn manifest_of(entries: Vec<(&str, Entry)>) -> Manifest {
    let mut m = Manifest::new();
    for (path, entry) in entries {
        m.insert(path.to_string(), entry);
    }
    m
}

fn entry(checksum: &str, size: u64) -> Entry {
    Entry::new(checksum.to_string(), size)
}

#[test]
fn md5_of_known_bytes() {
    assert_eq!(md5sum(b"abc"), "900150983cd24fb0d6963f7d28e17f72");
    assert_eq!(md5sum(b""), "d41d8cd98f00b204e9800998ecf8427e");
    // chunking must not change the digest: span several chunk boundaries
    let big = vec![7u8; 3 * 4096 + 123];
    assert_eq!(md5sum(&big), format!("{:x}", md5::compute(&big)));
}

#[test]
fn codec_round_trip() {
    let data = b"the same bytes, over and over and over and over".to_vec();
    let artifact = compress_bytes(&data);
    assert_ne!(artifact, data);
    assert_eq!(decompress_bytes(&artifact).unwrap(), data);
    let empty: Vec<u8> = Vec::new();
    assert_eq!(decompress_bytes(&compress_bytes(&empty)).unwrap(), empty);
}

#[test]
fn codec_rejects_garbage() {
    let garbage = b"this is not a compressed stream".to_vec();
    assert!(decompress_bytes(&garbage).is_err());
}

#[test]
fn codec_is_deterministic() {
    let data = b"determinism matters for content addressing".to_vec();
    assert_eq!(compress_bytes(&data), compress_bytes(&data));
}

#[test]
fn exclusion_rules() {
    assert!(is_excluded("data/system/assets/icon.png"));
    assert!(is_excluded("data/system/proposals/x.json"));
    assert!(is_excluded("data/system/ltn_proposals/y.json"));
    assert!(is_excluded("data/system/study_areas/z.geojson"));
    assert!(!is_excluded("data/system/us/seattle/city.bin"));
    assert!(!is_excluded("data/input/us/seattle/raw.osm"));
}

#[test]
fn size_change_always_forces_rehash() {
    let truth = manifest_of(vec![("data/input/a.bin", entry("aaaa", 10))]);
    // same size, old modtime: the checksum may be reused
    assert!(!needs_rehash(&truth, "data/input/a.bin", 10, false));
    // a size change forces a rehash no matter the modtime
    assert!(needs_rehash(&truth, "data/input/a.bin", 11, false));
    // a recent modtime forces a rehash even at the same size
    assert!(needs_rehash(&truth, "data/input/a.bin", 10, true));
    // a path new to the truth manifest is always hashed
    assert!(needs_rehash(&truth, "data/input/new.bin", 10, false));
}

#[test]
fn scan_reuses_or_rehashes() {
    let content = b"0123456789".to_vec();
    let truth = manifest_of(vec![("data/input/a.bin", entry("not-a-real-digest", 10))]);
    let reused = scan_file(
        &truth,
        &ScannedFile {
            path: "data/input/a.bin".to_string(),
            size: 10,
            recent_modtime: false,
            content: content.clone(),
        },
    );
    assert_eq!(reused.checksum, "not-a-real-digest");
    assert_eq!(reused.uncompressed_size_bytes, 10);
    assert_eq!(reused.compressed_size_bytes, 0);

    let rehashed = scan_file(
        &truth,
        &ScannedFile {
            path: "data/input/a.bin".to_string(),
            size: 10,
            recent_modtime: true,
            content: content.clone(),
        },
    );
    assert_eq!(rehashed.checksum, md5sum(&content));
}

#[test]
fn scan_skips_excluded_and_merges() {
    let truth = Manifest::new();
    let files = vec![
        ScannedFile {
            path: "data/system/us/seattle/city.bin".to_string(),
            size: 3,
            recent_modtime: true,
            content: b"abc".to_vec(),
        },
        ScannedFile {
            path: "data/system/assets/icon.png".to_string(),
            size: 4,
            recent_modtime: true,
            content: b"pngx".to_vec(),
        },
    ];
    let local = build_local_manifest(&truth, &files);
    assert_eq!(local.len(), 1);
    assert!(local.contains_path("data/system/us/seattle/city.bin"));
    assert!(!local.contains_path("data/system/assets/icon.png"));
    let e = local.get("data/system/us/seattle/city.bin").unwrap();
    assert_eq!(e.checksum, md5sum(b"abc"));
    assert_eq!(e.compressed_size_bytes, 0);
}

#[test]
fn rescan_finds_no_changes() {
    // scan against an empty truth, publish the result, scan again
    let files = vec![
        ScannedFile {
            path: "data/input/a.bin".to_string(),
            size: 5,
            recent_modtime: false,
            content: b"aaaaa".to_vec(),
        },
        ScannedFile {
            path: "data/input/b.bin".to_string(),
            size: 2,
            recent_modtime: true,
            content: b"bb".to_vec(),
        },
    ];
    let t1 = Manifest::new();
    let t2 = build_local_manifest(&t1, &files);
    let l2 = build_local_manifest(&t2, &files);
    let changes = reconcile(&t2, &l2, true);
    assert!(changes.to_fetch_or_update.is_empty());
    assert!(changes.to_remove.is_empty());
}

#[test]
fn download_removes_stray_and_keeps_matching() {
    // local has a.txt (H1) and b.txt (H2); truth has only a.txt (H1)
    let truth = manifest_of(vec![("a.txt", entry("H1", 1))]);
    let local = manifest_of(vec![("a.txt", entry("H1", 1)), ("b.txt", entry("H2", 1))]);
    let changes = reconcile(&truth, &local, true);
    assert!(changes.to_fetch_or_update.is_empty());
    assert_eq!(changes.to_remove, vec!["b.txt".to_string()]);
    // nothing failed: the run reports success
    assert!(run_outcome(Vec::new()).is_ok());
}

#[test]
fn deletion_needs_explicit_flag() {
    let truth = manifest_of(vec![("a.txt", entry("H1", 1))]);
    let local = manifest_of(vec![("a.txt", entry("H1", 1)), ("b.txt", entry("H2", 1))]);
    let changes = reconcile(&truth, &local, false);
    assert!(changes.to_remove.is_empty());
}

#[test]
fn download_fetches_missing_file_with_right_checksum() {
    let content = b"fresh city data".to_vec();
    let digest = md5sum(&content);
    let truth = manifest_of(vec![("c.txt", entry(&digest, content.len() as u64))]);
    let local = Manifest::new();

    let changes = reconcile(&truth, &local, true);
    assert_eq!(changes.to_fetch_or_update, vec!["c.txt".to_string()]);
    assert!(changes.to_remove.is_empty());

    // the remote store holds the compressed artifact; fetch and decode it
    let fetched = compress_bytes(&content);
    let mut failures: Vec<String> = Vec::new();
    let written = receive_artifact(&"c.txt".to_string(), Ok(fetched), &mut failures).unwrap();
    assert_eq!(md5sum(&written), digest);
    assert!(failures.is_empty());
    assert!(run_outcome(failures).is_ok());
}

#[test]
fn one_failed_download_does_not_stop_the_run() {
    let x_content = b"file x".to_vec();
    let mut failures: Vec<String> = Vec::new();

    // x downloads fine
    let x = receive_artifact(
        &"x.txt".to_string(),
        Ok(compress_bytes(&x_content)),
        &mut failures,
    );
    assert_eq!(x.unwrap(), x_content);

    // y hits a network error; the loop goes on
    let y = receive_artifact(
        &"y.txt".to_string(),
        Err("connection reset".to_string()),
        &mut failures,
    );
    assert!(y.is_none());

    // at the end the run fails loudly, naming only the failed path
    assert_eq!(run_outcome(failures), Err(vec!["y.txt".to_string()]));
}

#[test]
fn corrupt_artifact_is_collected_not_fatal() {
    let mut failures: Vec<String> = Vec::new();
    let out = receive_artifact(
        &"z.txt".to_string(),
        Ok(b"corrupted artifact bytes".to_vec()),
        &mut failures,
    );
    assert!(out.is_none());
    assert_eq!(failures, vec!["z.txt".to_string()]);
}

#[test]
fn pruner_reaches_fixed_point() {
    let paths = vec![
        "r".to_string(),
        "r/a".to_string(),
        "r/a/keep.txt".to_string(),
        "r/b".to_string(),
        "r/b/c".to_string(),
    ];
    let dirs = vec![
        "r".to_string(),
        "r/a".to_string(),
        "r/b".to_string(),
        "r/b/c".to_string(),
    ];
    let outcome = prune_empty_dirs(paths, dirs);
    // r/b/c is empty; once it is gone, r/b becomes empty too
    assert_eq!(outcome.removed, vec!["r/b/c".to_string(), "r/b".to_string()]);
    assert_eq!(
        outcome.paths,
        vec!["r".to_string(), "r/a".to_string(), "r/a/keep.txt".to_string()]
    );
    assert_eq!(outcome.dirs, vec!["r".to_string(), "r/a".to_string()]);

    // running the pruner again is a no-op
    let again = prune_empty_dirs(outcome.paths.clone(), outcome.dirs.clone());
    assert!(again.removed.is_empty());
    assert_eq!(again.paths, outcome.paths);
    assert_eq!(again.dirs, outcome.dirs);
}

#[test]
fn dry_run_classifies_changes() {
    let truth = manifest_of(vec![
        ("a.bin", entry("H1new", 5)),
        ("b.bin", entry("H2new", 7)),
        ("c.bin", entry("H3", 9)),
        ("same.bin", entry("H4", 4)),
    ]);
    let local = manifest_of(vec![
        ("a.bin", entry("H1old", 5)),
        ("b.bin", entry("H2old", 9)),
        ("same.bin", entry("H4", 4)),
    ]);
    let report = dry_run_report(&truth, &local);
    assert_eq!(report.len(), 3);
    let find = |p: &str| report.iter().find(|(q, _)| q == p).unwrap().1;
    assert_eq!(find("a.bin"), ChangeKind::UpdateSameSize);
    assert_eq!(
        find("b.bin"),
        ChangeKind::UpdateSizeChanged { local_bytes: 9, truth_bytes: 7 }
    );
    assert_eq!(find("c.bin"), ChangeKind::Add);
    assert!(!report.iter().any(|(q, _)| q == "same.bin"));
}

#[test]
fn incremental_upload_must_not_target_primary_version() {
    assert!(!validate_task(&Task::IncrementalUpload { version: "dev".to_string() }));
    assert!(validate_task(&Task::IncrementalUpload { version: "vm-batch-7".to_string() }));
    assert!(validate_task(&Task::Upload { version: "dev".to_string() }));
}

#[test]
fn single_file_check() {
    let content = b"tracked bytes".to_vec();
    let truth = manifest_of(vec![("t.bin", entry(&md5sum(&content), 13))]);
    assert_eq!(check_single_file(&truth, "t.bin", &content), Some(false));
    assert_eq!(check_single_file(&truth, "t.bin", b"other bytes"), Some(true));
    assert_eq!(check_single_file(&truth, "untracked.bin", &content), None);
}

#[test]
fn upload_records_real_artifact_sizes() {
    let content = b"to be published, to be published, to be published".to_vec();
    let e = entry(&md5sum(&content), content.len() as u64);
    let (finished, artifact) = compress_for_upload(&e, &content);
    assert_eq!(finished.checksum, e.checksum);
    assert_eq!(finished.uncompressed_size_bytes, e.uncompressed_size_bytes);
    assert_eq!(finished.compressed_size_bytes, artifact.len() as u64);
    assert_eq!(decompress_bytes(&artifact).unwrap(), content);
}

#[test]
fn missing_expected_artifact_is_fatal() {
    let e = entry("H1", 3);
    let kept = record_existing_artifact(&e, Some(42)).unwrap();
    assert_eq!(kept.compressed_size_bytes, 42);
    assert_eq!(kept.checksum, "H1");
    assert!(matches!(
        record_existing_artifact(&e, None),
        Err(UploadError::MissingArtifact)
    ));
}

#[test]
fn merging_finished_entries_replaces_bindings() {
    let mut m = manifest_of(vec![("a.bin", entry("H1", 5)), ("b.bin", entry("H2", 6))]);
    let updates = vec![
        ("b.bin".to_string(), Entry { checksum: "H2".to_string(), uncompressed_size_bytes: 6, compressed_size_bytes: 3 }),
        ("c.bin".to_string(), entry("H3", 7)),
    ];
    apply_updates(&mut m, &updates);
    assert_eq!(m.len(), 3);
    assert_eq!(m.get("a.bin").unwrap().checksum, "H1");
    assert_eq!(m.get("b.bin").unwrap().compressed_size_bytes, 3);
    assert_eq!(m.get("c.bin").unwrap().checksum, "H3");
}

#[test]
fn artifact_names_and_minimal_filter() {
    assert_eq!(artifact_name("data/system/us/seattle/city.bin"), "data/system/us/seattle/city.bin.gz");
    assert!(keep_in_minimal("data/system/us/seattle/maps/montlake.bin"));
    assert!(keep_in_minimal("data/system/us/seattle/city.bin"));
    assert!(!keep_in_minimal("data/system/us/detroit/city.bin"));
}

#[test]
fn manifest_filter_selects_in_scope_paths() {
    let m = manifest_of(vec![
        ("data/system/us/seattle/city.bin", entry("H1", 1)),
        ("data/system/de/berlin/city.bin", entry("H2", 2)),
    ]);
    let packs = DataPacks { groups: vec!["us/seattle".to_string()] };
    let filtered = m.filter(&packs);
    assert_eq!(filtered.len(), 1);
    assert!(filtered.contains_path("data/system/us/seattle/city.bin"));
    // filtering never mutates the receiver
    assert_eq!(m.len(), 2);
}

#[test]
fn manifest_insert_replaces_by_path() {
    let mut m = Manifest::new();
    m.insert("p".to_string(), entry("H1", 1));
    m.insert("p".to_string(), entry("H2", 2));
    assert_eq!(m.len(), 1);
    assert_eq!(m.get("p").unwrap().checksum, "H2");
    assert!(m.get("q").is_none());
}

#[test]
fn recency_window_boundary() {
    assert_eq!(RECENT_MODTIME_WINDOW_SECS, 60 * 60 * 12);
    assert!(modified_recently(0));
    assert!(modified_recently(RECENT_MODTIME_WINDOW_SECS - 1));
    assert!(!modified_recently(RECENT_MODTIME_WINDOW_SECS));
}

#[test]
fn scan_order_does_not_matter() {
    let a = || ScannedFile {
        path: "data/input/a.bin".to_string(),
        size: 5,
        recent_modtime: true,
        content: b"aaaaa".to_vec(),
    };
    let b = || ScannedFile {
        path: "data/input/b.bin".to_string(),
        size: 2,
        recent_modtime: true,
        content: b"bb".to_vec(),
    };
    let truth = Manifest::new();
    let first = build_local_manifest(&truth, &vec![a(), b()]);
    let second = build_local_manifest(&truth, &vec![b(), a()]);
    assert_eq!(first.len(), second.len());
    for path in ["data/input/a.bin", "data/input/b.bin"] {
        let e1 = first.get(path).unwrap();
        let e2 = second.get(path).unwrap();
        assert_eq!(e1.checksum, e2.checksum);
        assert_eq!(e1.uncompressed_size_bytes, e2.uncompressed_size_bytes);
        assert_eq!(e1.compressed_size_bytes, e2.compressed_size_bytes);
    }
}

#[test]
fn pruner_removes_dir_whose_name_prefixes_a_sibling() {
    // r/a is empty: r/ab.txt is a sibling whose name merely extends "r/a",
    // nothing lies beneath r/a itself
    let paths = vec!["r".to_string(), "r/a".to_string(), "r/ab.txt".to_string()];
    let dirs = vec!["r".to_string(), "r/a".to_string()];
    let outcome = prune_empty_dirs(paths, dirs);
    assert_eq!(outcome.removed, vec!["r/a".to_string()]);
    assert_eq!(outcome.paths, vec!["r".to_string(), "r/ab.txt".to_string()]);
    assert_eq!(outcome.dirs, vec!["r".to_string()]);
}
