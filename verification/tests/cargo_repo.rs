use std::collections::HashMap;

use git_hook_installer::cargo_repo::{
    ensure_is_within_repo, find_cargo_manifests_bfs, find_cargo_manifests_upwards, manifest_file,
    normalize_path, resolve_cargo_dir_best_effort, resolve_cargo_manifest_dir,
    resolve_manifest_dir_from_cli, select_candidate, upward_directories, ExplicitManifestDir,
    ManifestChoice, ManifestError, MANIFEST_FILE_NAME, MANIFEST_SCAN_DEPTH, MANIFEST_SCAN_ENTRIES,
};
use git_hook_installer::paths::FsPath;
use git_hook_installer::scan::ScanEntry;
use git_hook_installer::types::{ErrorKind, ResolveHookOptions};

fn paths(texts: &[&str]) -> Vec<FsPath> {
    texts.iter().map(|t| FsPath::parse(t)).collect()
}

fn shown(paths: &[FsPath]) -> Vec<String> {
    paths.iter().map(|p| p.display()).collect()
}

fn ask() -> ResolveHookOptions {
    ResolveHookOptions { yes: false, non_interactive: false }
}

fn dir_entry(name: &str) -> ScanEntry {
    ScanEntry { name: Some(name.to_string()), is_dir: true, is_file: false }
}

fn file_entry(name: &str) -> ScanEntry {
    ScanEntry { name: Some(name.to_string()), is_dir: false, is_file: true }
}

fn scan(tree: &HashMap<String, Vec<ScanEntry>>, root: &str, max_depth: usize, max_entries: usize) -> Vec<String> {
    let mut search = find_cargo_manifests_bfs(FsPath::parse(root), max_depth, max_entries);
    while let Some(dir) = search.next_directory() {
        let entries = match tree.get(&dir.dir.display()) {
            Some(entries) => entries.clone(),
            None => Vec::new(),
        };
        let has_manifest = entries.iter().any(|e| e.is_file && e.name.as_deref() == Some(MANIFEST_FILE_NAME));
        if search.record_probe(&dir, has_manifest) {
            search.offer_entries(&dir, &entries);
        }
    }
    shown(&search.finish())
}

#[test]
fn cargo_repo_find_cargo_manifests_upwards_finds_nearest_manifest() {
    // arrange
    let repo_root = FsPath::parse("/tmp/t/repo");
    let nested = repo_root.child("crates").child("foo");

    // act
    let dirs = find_cargo_manifests_upwards(&nested, &repo_root, &vec![true, false, true]);

    // assert
    assert!(dirs.contains(&nested));
    assert!(dirs.contains(&repo_root));
    assert_eq!(shown(&dirs), vec!["/tmp/t/repo/crates/foo", "/tmp/t/repo"]);
}

#[test]
fn main_find_cargo_manifests_upwards_finds_nearest_manifest() {
    // arrange
    let repo_root = FsPath::parse("repo");
    let nested = repo_root.child("crates").child("foo");

    // act
    let dirs = find_cargo_manifests_upwards(&nested, &repo_root, &vec![true, true, true, true]);

    // assert
    assert!(dirs.contains(&nested));
    assert!(dirs.contains(&repo_root));
    assert_eq!(shown(&dirs), vec!["repo/crates/foo", "repo/crates", "repo"]);
}

#[test]
fn the_walk_up_ends_at_the_repository_root() {
    let cwd = FsPath::parse("/w/repo/a/b");
    let root = FsPath::parse("/w/repo");
    assert_eq!(shown(&upward_directories(&cwd, &root)), vec!["/w/repo/a/b", "/w/repo/a", "/w/repo"]);
    assert_eq!(shown(&upward_directories(&root, &root)), vec!["/w/repo"]);
    let outside = FsPath::parse("/x/y");
    assert_eq!(shown(&upward_directories(&outside, &root)), vec!["/x/y", "/x", "/"]);
    assert!(find_cargo_manifests_upwards(&cwd, &root, &vec![]).is_empty());
    assert_eq!(shown(&find_cargo_manifests_upwards(&cwd, &root, &vec![false, true])), vec!["/w/repo/a"]);
    assert_eq!(shown(&find_cargo_manifests_upwards(&cwd, &root, &vec![false, false, false, true, true])), Vec::<String>::new());
}

#[test]
fn an_explicit_directory_must_lie_within_the_repository_and_hold_a_manifest() {
    let root = FsPath::parse("/w/repo");
    assert_eq!(normalize_path(&root, &FsPath::parse("crates/foo")).display(), "/w/repo/crates/foo");
    assert_eq!(normalize_path(&root, &FsPath::parse("/abs")).display(), "/abs");
    assert_eq!(
        resolve_manifest_dir_from_cli(&root, &FsPath::parse("crates/foo"), true).unwrap().display(),
        "/w/repo/crates/foo"
    );
    assert_eq!(
        resolve_manifest_dir_from_cli(&root, &FsPath::parse("/w/repo/x"), true).unwrap().display(),
        "/w/repo/x"
    );
    assert_eq!(
        resolve_manifest_dir_from_cli(&root, &FsPath::parse("crates/foo"), false),
        Err(ManifestError::ExplicitDirHasNoManifest)
    );
    assert_eq!(
        resolve_manifest_dir_from_cli(&root, &FsPath::parse("/elsewhere"), true),
        Err(ManifestError::OutsideRepository)
    );
    assert_eq!(
        resolve_manifest_dir_from_cli(&root, &FsPath::parse("/w/repository"), true),
        Err(ManifestError::OutsideRepository)
    );
    assert_eq!(ensure_is_within_repo(&root, &FsPath::parse("/w/repo")), Ok(()));
    assert_eq!(ensure_is_within_repo(&root, &FsPath::parse("/w")), Err(ManifestError::OutsideRepository));
    let named = ExplicitManifestDir { dir: FsPath::parse("sub"), has_manifest: true };
    let choice = resolve_cargo_manifest_dir(Some(named), &paths(&["/w/repo"]), &vec![], &root, ask());
    assert_eq!(choice, Ok(ManifestChoice::Resolved { dir: FsPath::parse("/w/repo/sub") }));
}

#[test]
fn one_candidate_is_taken() {
    let root = FsPath::parse("/w/repo");
    let choice = resolve_cargo_manifest_dir(None, &paths(&["/w/repo/a", "/w/repo/a"]), &paths(&["/w/repo/z"]), &root, ask());
    assert_eq!(choice, Ok(ManifestChoice::Resolved { dir: FsPath::parse("/w/repo/a") }));
    let scanned = resolve_cargo_manifest_dir(None, &vec![], &paths(&["/w/repo/z"]), &root, ask());
    assert_eq!(scanned, Ok(ManifestChoice::Resolved { dir: FsPath::parse("/w/repo/z") }));
}

#[test]
fn no_candidate_is_an_error() {
    let root = FsPath::parse("/w/repo");
    let r = resolve_cargo_manifest_dir(None, &vec![], &vec![], &root, ask());
    assert_eq!(r, Err(ManifestError::NoManifestFound));
    assert_eq!(ManifestError::NoManifestFound.kind(), ErrorKind::NotFound);
    assert_eq!(ManifestError::NoManifestFound.message(), "No Cargo.toml found in git repository at");
    assert_eq!(resolve_cargo_dir_best_effort(r), None);
}

#[test]
fn several_candidates_are_sorted_for_the_user_or_refused() {
    let root = FsPath::parse("/w/repo");
    let found = paths(&["/w/repo/crates/b", "/w/repo", "/w/repo/crates/a", "/w/repo"]);
    let choice = resolve_cargo_manifest_dir(None, &found, &vec![], &root, ask()).unwrap();
    let (candidates, labels) = match choice {
        ManifestChoice::Ask { candidates, labels } => (candidates, labels),
        other => panic!("unexpected {:?}", other),
    };
    assert_eq!(shown(&candidates), vec!["/w/repo", "/w/repo/crates/a", "/w/repo/crates/b"]);
    assert_eq!(labels, vec![".", "crates/a", "crates/b"]);
    assert_eq!(select_candidate(&candidates, 1).unwrap().display(), "/w/repo/crates/a");
    assert_eq!(select_candidate(&candidates, 3), Err(ManifestError::InvalidSelection));
    for options in [
        ResolveHookOptions { yes: true, non_interactive: false },
        ResolveHookOptions { yes: false, non_interactive: true },
    ] {
        let refused = resolve_cargo_manifest_dir(None, &found, &vec![], &root, options);
        assert_eq!(refused, Err(ManifestError::MultipleManifests));
    }
    assert_eq!(ManifestError::MultipleManifests.kind(), ErrorKind::Ambiguous);
    assert_eq!(
        ManifestError::MultipleManifests.message(),
        "Multiple Cargo.toml files found; re-run with --manifest-dir to choose one"
    );
    assert_eq!(ManifestError::InvalidSelection.message(), "Invalid selection");
    assert_eq!(ManifestError::OutsideRepository.kind(), ErrorKind::InvalidInput);
}

#[test]
fn best_effort_keeps_only_a_resolved_directory() {
    let dir = FsPath::parse("/w/repo");
    assert_eq!(resolve_cargo_dir_best_effort(Ok(ManifestChoice::Resolved { dir: dir.clone() })), Some(dir));
    assert_eq!(resolve_cargo_dir_best_effort(Ok(ManifestChoice::Ask { candidates: vec![], labels: vec![] })), None);
    assert_eq!(resolve_cargo_dir_best_effort(Err(ManifestError::MultipleManifests)), None);
}

#[test]
fn the_search_finds_manifests_anywhere_within_its_depth() {
    let mut tree = HashMap::new();
    tree.insert("/r".to_string(), vec![file_entry("Cargo.toml"), dir_entry("a"), dir_entry("target"), dir_entry("node_modules"), dir_entry(".git")]);
    tree.insert("/r/a".to_string(), vec![dir_entry("b"), file_entry("README")]);
    tree.insert("/r/a/b".to_string(), vec![file_entry("Cargo.toml"), dir_entry("c")]);
    tree.insert("/r/a/b/c".to_string(), vec![file_entry("Cargo.toml")]);
    tree.insert("/r/target".to_string(), vec![file_entry("Cargo.toml")]);
    tree.insert("/r/node_modules".to_string(), vec![file_entry("Cargo.toml")]);
    assert_eq!(scan(&tree, "/r", MANIFEST_SCAN_DEPTH, MANIFEST_SCAN_ENTRIES), vec!["/r", "/r/a/b", "/r/a/b/c"]);
    assert_eq!(scan(&tree, "/r", 2, MANIFEST_SCAN_ENTRIES), vec!["/r", "/r/a/b"]);
    assert_eq!(scan(&tree, "/r", 0, MANIFEST_SCAN_ENTRIES), vec!["/r"]);
    assert_eq!(scan(&tree, "/r", 6, 1), vec!["/r"]);
    assert_eq!(scan(&tree, "/r", 6, 0), Vec::<String>::new());
    assert_eq!(manifest_file(&FsPath::parse("/r/a")).display(), "/r/a/Cargo.toml");
    assert_eq!(MANIFEST_SCAN_DEPTH, 6);
    assert_eq!(MANIFEST_SCAN_ENTRIES, 8_000);
}
