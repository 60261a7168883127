use git_hook_installer::cargo_repo::{ManifestChoice, ManifestError};
use git_hook_installer::managed_block::{BlockError, MANAGED_BLOCK_BEGIN, MANAGED_BLOCK_END};
use git_hook_installer::paths::FsPath;
use git_hook_installer::status::{
    hook_backups, inspect_pre_commit, parse_cd_dir, resolve_manifest_dir_for_status,
};

#[test]
fn parse_cd_dir_reads_the_first_cd_command() {
    assert_eq!(parse_cd_dir("#!/bin/sh\nset -e\n\ncd \"/w/repo/crates/foo\"\ncd /other\n"), Some("/w/repo/crates/foo".to_string()));
    assert_eq!(parse_cd_dir("  cd   plain/dir  \n"), Some("plain/dir".to_string()));
    assert_eq!(parse_cd_dir("cd cd cd x\n"), Some("x".to_string()));
    assert_eq!(parse_cd_dir("cd \"half\n"), Some("\"half".to_string()));
    assert_eq!(parse_cd_dir("cd \"\n"), Some("\"".to_string()));
    assert_eq!(parse_cd_dir("cd \"\"\n"), Some("".to_string()));
    assert_eq!(parse_cd_dir("cd\n"), None);
    assert_eq!(parse_cd_dir("cdx y\necho cd z\n"), None);
    assert_eq!(parse_cd_dir(""), None);
}

#[test]
fn a_hook_is_inspected_line_by_line() {
    let hook = format!(
        "#!/bin/sh\nset -e\ncd \"/w/repo\"\n{MANAGED_BLOCK_BEGIN}\nGHI_ENABLED=1\n{MANAGED_BLOCK_END}\n  cargo fmt  \n"
    );
    let report = inspect_pre_commit(&hook);
    assert_eq!(report.block, Ok(Some((3, 5))));
    assert!(report.runs_cargo_fmt);
    assert_eq!(report.cd_dir, Some("/w/repo".to_string()));
    assert_eq!(report.line_count, 7);
    assert!(report.has_shebang);
}

#[test]
fn a_hook_without_block_is_reported_as_such() {
    let report = inspect_pre_commit("echo cargo fmt\n");
    assert_eq!(report.block, Ok(None));
    assert!(!report.runs_cargo_fmt);
    assert_eq!(report.cd_dir, None);
    assert_eq!(report.line_count, 1);
    assert!(!report.has_shebang);
    let broken = inspect_pre_commit(&format!("{MANAGED_BLOCK_BEGIN}\n"));
    assert_eq!(broken.block, Err(BlockError::UnterminatedBlock));
    let empty = inspect_pre_commit("");
    assert_eq!(empty.line_count, 0);
}

#[test]
fn backups_are_listed_in_order() {
    let names = vec![
        "pre-commit.bak.2".to_string(),
        "pre-commit".to_string(),
        "pre-commit.bak".to_string(),
        "pre-push.bak".to_string(),
        "pre-commit.snapshot-2026-01-01-00-00-00".to_string(),
        "pre-commit.bak.10".to_string(),
        "pre-commit.bak.1".to_string(),
    ];
    assert_eq!(
        hook_backups(&names, "pre-commit"),
        vec!["pre-commit.bak", "pre-commit.bak.1", "pre-commit.bak.10", "pre-commit.bak.2"]
    );
    assert!(hook_backups(&names, "commit-msg").is_empty());
}

#[test]
fn the_manifest_directory_is_shown_where_one_was_chosen() {
    let dir = FsPath::parse("/w/repo/crates/foo");
    let (path, note) = resolve_manifest_dir_for_status(Ok(ManifestChoice::Resolved { dir: dir.clone() }));
    assert_eq!(path, Some(dir));
    assert_eq!(note, Some("Cargo manifest dir (for comparison): /w/repo/crates/foo".to_string()));
    assert_eq!(resolve_manifest_dir_for_status(Err(ManifestError::NoManifestFound)), (None, None));
    assert_eq!(
        resolve_manifest_dir_for_status(Ok(ManifestChoice::Ask { candidates: vec![], labels: vec![] })),
        (None, None)
    );
}
