use std::collections::HashMap;

use git_hook_installer::git_repo::{
    dot_git_file, find_git_repo, find_git_repos_under_dir, git_dir_from_repo_root, parse_gitdir_file, DotGit,
    GitDirError, RepositoryLocation, ScanError, MAX_SCAN_ENTRIES,
};
use git_hook_installer::paths::FsPath;
use git_hook_installer::scan::ScanEntry;

struct Dir {
    dot_git: DotGit,
    entries: Vec<ScanEntry>,
}

fn dir_entry(name: &str) -> ScanEntry {
    ScanEntry { name: Some(name.to_string()), is_dir: true, is_file: false }
}

fn file_entry(name: &str) -> ScanEntry {
    ScanEntry { name: Some(name.to_string()), is_dir: false, is_file: true }
}

fn plain(entries: Vec<ScanEntry>) -> Dir {
    Dir { dot_git: DotGit::Missing, entries }
}

fn repo(entries: Vec<ScanEntry>) -> Dir {
    Dir { dot_git: DotGit::Directory, entries }
}

fn worktree(contents: &str, entries: Vec<ScanEntry>) -> Dir {
    Dir { dot_git: DotGit::File { contents: contents.to_string() }, entries }
}

fn scan(
    tree: &HashMap<String, Dir>,
    root: &str,
    max_depth: usize,
) -> Result<Vec<RepositoryLocation>, GitDirError> {
    let mut search = find_git_repos_under_dir(FsPath::parse(root), true, max_depth, MAX_SCAN_ENTRIES).unwrap();
    while let Some(dir) = search.next_directory() {
        let node = tree.get(&dir.dir.display());
        let dot_git = match node {
            Some(node) => node.dot_git.clone(),
            None => DotGit::Missing,
        };
        if search.record_probe(&dir, &dot_git)? {
            let entries = match node {
                Some(node) => node.entries.clone(),
                None => Vec::new(),
            };
            search.offer_entries(&dir, &entries);
        }
    }
    Ok(search.finish())
}

fn roots(repos: &[RepositoryLocation]) -> Vec<String> {
    repos.iter().map(|r| r.root.display()).collect()
}

#[test]
fn git_repo_parse_gitdir_file_supports_relative_gitdir() {
    // arrange
    let repo_root = FsPath::parse("/tmp/work/repo");
    let dot_git_file = repo_root.child(".git");

    // act
    let gitdir = parse_gitdir_file(&dot_git_file, "gitdir: .git/worktrees/foo\n").unwrap();

    // assert
    assert_eq!(gitdir, repo_root.join(&FsPath::parse(".git/worktrees/foo")));
    assert_eq!(gitdir.display(), "/tmp/work/repo/.git/worktrees/foo");
}

#[test]
fn main_parse_gitdir_file_supports_relative_gitdir() {
    // arrange
    let repo_root = FsPath::parse("repo");
    let dot_git_file = repo_root.child(".git");

    // act
    let gitdir = parse_gitdir_file(&dot_git_file, "gitdir: .git/worktrees/foo\n").unwrap();

    // assert
    assert_eq!(gitdir, repo_root.join(&FsPath::parse(".git/worktrees/foo")));
    assert_eq!(gitdir.display(), "repo/.git/worktrees/foo");
}

#[test]
fn worktree_gitdir_resolves_against_the_directory_of_the_dot_git_file() {
    let repo_root = FsPath::parse("/srv/repos/main");
    let git_dir = git_dir_from_repo_root(
        &repo_root,
        &DotGit::File { contents: "gitdir: .git/worktrees/w1".to_string() },
    )
    .unwrap()
    .unwrap();
    assert_eq!(git_dir.display(), "/srv/repos/main/.git/worktrees/w1");
}

#[test]
fn absolute_gitdir_stands_for_itself() {
    let file = FsPath::parse("/a/b/.git");
    let dir = parse_gitdir_file(&file, "  gitdir:   /x/y/.git/worktrees/w \r\n").unwrap();
    assert_eq!(dir.display(), "/x/y/.git/worktrees/w");
    assert!(dir.absolute);
}

#[test]
fn gitdir_files_in_another_format_are_errors() {
    let file = FsPath::parse("/a/b/.git");
    assert_eq!(parse_gitdir_file(&file, "worktree: x\n"), Err(GitDirError::UnsupportedFormat));
    assert_eq!(parse_gitdir_file(&file, ""), Err(GitDirError::UnsupportedFormat));
    assert_eq!(parse_gitdir_file(&file, "Gitdir: x"), Err(GitDirError::UnsupportedFormat));
    assert_eq!(parse_gitdir_file(&file, "gitdir:"), Err(GitDirError::EmptyGitDir));
    assert_eq!(parse_gitdir_file(&file, "gitdir:   \n\n"), Err(GitDirError::EmptyGitDir));
    assert_eq!(parse_gitdir_file(&FsPath::parse(""), "gitdir: x"), Err(GitDirError::NoParentDirectory));
    assert_eq!(GitDirError::UnsupportedFormat.message(), "Unsupported .git file format at");
    assert_eq!(GitDirError::EmptyGitDir.message(), "Invalid gitdir in .git file at");
    assert_eq!(GitDirError::NoParentDirectory.message(), "Invalid .git path:");
}

#[test]
fn a_directory_is_a_repository_root_by_its_dot_git() {
    let root = FsPath::parse("/w/repo");
    assert_eq!(git_dir_from_repo_root(&root, &DotGit::Missing), Ok(None));
    assert_eq!(
        git_dir_from_repo_root(&root, &DotGit::Directory).unwrap().unwrap().display(),
        "/w/repo/.git"
    );
    assert_eq!(
        git_dir_from_repo_root(&root, &DotGit::File { contents: "nonsense".to_string() }),
        Err(GitDirError::UnsupportedFormat)
    );
}

#[test]
fn find_git_repo_walks_up_to_the_nearest_repository() {
    let start = FsPath::parse("/w/repo/src/deep");
    let probes = vec![DotGit::Missing, DotGit::Missing, DotGit::Directory, DotGit::Directory];
    let found = find_git_repo(&start, &probes).unwrap().unwrap();
    assert_eq!(found.root.display(), "/w/repo");
    assert_eq!(found.metadata_dir.display(), "/w/repo/.git");
}

#[test]
fn find_git_repo_without_repository_is_no_error() {
    let start = FsPath::parse("/w/plain/dir");
    let probes = vec![DotGit::Missing, DotGit::Missing, DotGit::Missing, DotGit::Missing];
    assert_eq!(find_git_repo(&start, &probes), Ok(None));
    assert_eq!(find_git_repo(&start, &vec![]), Ok(None));
    let more = vec![DotGit::Missing, DotGit::Missing, DotGit::Missing, DotGit::Missing, DotGit::Directory];
    assert_eq!(find_git_repo(&start, &more), Ok(None));
}

#[test]
fn find_git_repo_finds_a_repository_at_the_root_of_the_file_system() {
    let start = FsPath::parse("/w");
    let probes = vec![DotGit::Missing, DotGit::Directory];
    let found = find_git_repo(&start, &probes).unwrap().unwrap();
    assert_eq!(found.root.display(), "/");
    assert_eq!(found.metadata_dir.display(), "/.git");
}

#[test]
fn find_git_repo_reports_a_broken_dot_git_file() {
    let start = FsPath::parse("/w/repo/src");
    let probes = vec![DotGit::Missing, DotGit::File { contents: "oops".to_string() }, DotGit::Directory];
    assert_eq!(find_git_repo(&start, &probes), Err(GitDirError::UnsupportedFormat));
    let worktree = vec![DotGit::File { contents: "gitdir: ../main/.git/worktrees/src\n".to_string() }];
    let found = find_git_repo(&start, &worktree).unwrap().unwrap();
    assert_eq!(found.root.display(), "/w/repo/src");
    assert_eq!(found.metadata_dir.display(), "/w/repo/src/../main/.git/worktrees/src");
}

#[test]
fn find_git_repos_under_dir_finds_nested_repo_roots() {
    // arrange
    let mut tree = HashMap::new();
    tree.insert(
        "/t/root".to_string(),
        plain(vec![dir_entry("repo-a"), dir_entry("repo-b"), dir_entry("not-a-repo")]),
    );
    tree.insert("/t/root/repo-a".to_string(), repo(vec![dir_entry(".git")]));
    tree.insert(
        "/t/root/repo-b".to_string(),
        worktree("gitdir: .gitdir/worktrees/w1\n", vec![file_entry(".git"), dir_entry(".gitdir")]),
    );
    tree.insert("/t/root/not-a-repo".to_string(), plain(vec![]));

    // act
    let repos = scan(&tree, "/t/root", 1).unwrap();

    // assert
    assert!(repos.iter().any(|r| r.root == FsPath::parse("/t/root/repo-a")));
    assert!(repos.iter().any(|r| r.root == FsPath::parse("/t/root/repo-b")));
    assert!(!repos.iter().any(|r| r.root == FsPath::parse("/t/root/not-a-repo")));
    assert_eq!(roots(&repos), vec!["/t/root/repo-a", "/t/root/repo-b"]);
    assert_eq!(repos[0].metadata_dir.display(), "/t/root/repo-a/.git");
    assert_eq!(repos[1].metadata_dir.display(), "/t/root/repo-b/.gitdir/worktrees/w1");
}

#[test]
fn find_git_repos_under_dir_respects_max_depth() {
    // arrange
    let mut tree = HashMap::new();
    tree.insert("/t/root".to_string(), plain(vec![dir_entry("level-1")]));
    tree.insert("/t/root/level-1".to_string(), plain(vec![dir_entry("repo")]));
    tree.insert("/t/root/level-1/repo".to_string(), repo(vec![dir_entry(".git"), dir_entry("inner")]));
    tree.insert("/t/root/level-1/repo/inner".to_string(), repo(vec![dir_entry(".git")]));
    let nested_repo = FsPath::parse("/t/root/level-1/repo");

    // act
    let repos_depth_1 = scan(&tree, "/t/root", 1).unwrap();
    let repos_depth_2 = scan(&tree, "/t/root", 2).unwrap();
    let repos_depth_9 = scan(&tree, "/t/root", 9).unwrap();

    // assert
    assert!(!repos_depth_1.iter().any(|r| r.root == nested_repo));
    assert!(repos_depth_2.iter().any(|r| r.root == nested_repo));
    assert!(repos_depth_1.is_empty());
    assert_eq!(roots(&repos_depth_2), vec!["/t/root/level-1/repo"]);
    assert_eq!(roots(&repos_depth_9), vec!["/t/root/level-1/repo"]);
}

#[test]
fn a_scan_root_that_is_a_repository_is_reported_alone() {
    let mut tree = HashMap::new();
    tree.insert("/r".to_string(), repo(vec![dir_entry("sub")]));
    tree.insert("/r/sub".to_string(), repo(vec![]));
    assert_eq!(roots(&scan(&tree, "/r", 0).unwrap()), vec!["/r"]);
    assert_eq!(roots(&scan(&tree, "/r", 5).unwrap()), vec!["/r"]);
}

#[test]
fn skipped_directories_are_not_entered() {
    let mut tree = HashMap::new();
    tree.insert(
        "/r".to_string(),
        plain(vec![
            dir_entry("node_modules"),
            dir_entry("target"),
            dir_entry("dist"),
            dir_entry("build"),
            dir_entry(".venv"),
            dir_entry("__pycache__"),
            dir_entry(".tox"),
            dir_entry(".idea"),
            dir_entry(".vscode"),
            dir_entry(".git"),
            file_entry("z"),
            dir_entry("z"),
            ScanEntry { name: None, is_dir: true, is_file: false },
            dir_entry("a"),
        ]),
    );
    for name in ["node_modules", "target", "dist", "build", ".venv", "__pycache__", ".tox", ".idea", ".vscode", ".git"] {
        tree.insert(format!("/r/{name}"), repo(vec![]));
    }
    tree.insert("/r/z".to_string(), repo(vec![]));
    tree.insert("/r/a".to_string(), repo(vec![]));
    assert_eq!(roots(&scan(&tree, "/r", 3).unwrap()), vec!["/r/a", "/r/z"]);
}

#[test]
fn the_scan_stops_when_the_count_is_used_up() {
    let mut search = find_git_repos_under_dir(FsPath::parse("/r"), true, 1, MAX_SCAN_ENTRIES).unwrap();
    let root = search.next_directory().unwrap();
    assert_eq!(search.record_probe(&root, &DotGit::Missing), Ok(true));
    let entries: Vec<ScanEntry> = (0..MAX_SCAN_ENTRIES + 5).map(|i| dir_entry(&format!("d{i}"))).collect();
    search.offer_entries(&root, &entries);
    assert_eq!(search.scan.visited, MAX_SCAN_ENTRIES);
    assert_eq!(search.scan.pending.len(), MAX_SCAN_ENTRIES - 1);
    assert_eq!(search.next_directory(), None);
    assert!(search.finish().is_empty());
}

#[test]
fn a_broken_dot_git_file_ends_the_scan_with_its_error() {
    let mut tree = HashMap::new();
    tree.insert("/r".to_string(), plain(vec![dir_entry("bad")]));
    tree.insert("/r/bad".to_string(), worktree("gitdir:\n", vec![]));
    assert_eq!(scan(&tree, "/r", 1), Err(GitDirError::EmptyGitDir));
}

#[test]
fn a_scan_root_that_is_no_directory_is_refused() {
    let r = find_git_repos_under_dir(FsPath::parse("/r/file"), false, 1, MAX_SCAN_ENTRIES);
    assert!(matches!(r, Err(ScanError::NotADirectory)));
    assert_eq!(ScanError::NotADirectory.message(), "Scan root is not a directory:");
}

#[test]
fn a_root_that_is_probed_twice_is_reported_once() {
    let mut search = find_git_repos_under_dir(FsPath::parse("/r"), true, 1, MAX_SCAN_ENTRIES).unwrap();
    let root = search.next_directory().unwrap();
    assert_eq!(search.record_probe(&root, &DotGit::Directory), Ok(false));
    assert_eq!(search.record_probe(&root, &DotGit::Directory), Ok(false));
    assert_eq!(roots(&search.finish()), vec!["/r"]);
}

#[test]
fn a_git_directory_that_is_not_there_is_an_error() {
    let repo = RepositoryLocation {
        root: FsPath::parse("/w/repo"),
        metadata_dir: FsPath::parse("/w/main/.git/worktrees/gone"),
    };
    assert_eq!(
        git_hook_installer::git_repo::ensure_git_dir_exists(repo.clone(), true),
        Ok(repo.clone())
    );
    let err = git_hook_installer::git_repo::ensure_git_dir_exists(repo, false).unwrap_err();
    assert_eq!(err, GitDirError::MissingGitDir);
    assert_eq!(err.kind(), git_hook_installer::types::ErrorKind::NotFound);
    assert_eq!(err.message(), "Git directory does not exist:");
    assert_eq!(GitDirError::EmptyGitDir.kind(), git_hook_installer::types::ErrorKind::Malformed);
    assert_eq!(ScanError::NotADirectory.kind(), git_hook_installer::types::ErrorKind::InvalidInput);
}

#[test]
fn the_count_of_a_search_is_the_callers() {
    let mut tree = HashMap::new();
    tree.insert("/r".to_string(), plain(vec![dir_entry("a"), dir_entry("b"), dir_entry("c")]));
    for name in ["a", "b", "c"] {
        tree.insert(format!("/r/{name}"), repo(vec![]));
    }
    let run = |max_entries: usize| {
        let mut search = find_git_repos_under_dir(FsPath::parse("/r"), true, 1, max_entries).unwrap();
        while let Some(dir) = search.next_directory() {
            let node = tree.get(&dir.dir.display()).unwrap();
            if search.record_probe(&dir, &node.dot_git).unwrap() {
                search.offer_entries(&dir, &node.entries);
            }
        }
        roots(&search.finish())
    };
    assert_eq!(run(0), Vec::<String>::new());
    assert_eq!(run(4), Vec::<String>::new());
    assert_eq!(run(5), vec!["/r/a"]);
    assert_eq!(run(6), vec!["/r/a", "/r/b"]);
    assert_eq!(run(7), vec!["/r/a", "/r/b", "/r/c"]);
    assert_eq!(dot_git_file(&FsPath::parse("/r/a")).display(), "/r/a/.git");
}
