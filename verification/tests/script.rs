use git_hook_installer::managed_block::{
    disable_managed_block, find_block, uninstall_managed_block, upsert, upsert_managed_block,
    MANAGED_BLOCK_BEGIN, MANAGED_BLOCK_END,
};
use git_hook_installer::lines::split_lines;
use git_hook_installer::paths::FsPath;
use git_hook_installer::script::{
    cargo_fmt_pre_commit_script, managed_pre_commit_block, shell_escape_path,
};
use git_hook_installer::text::chars_of;
use git_hook_installer::types::{JavaKotlinTool, JsTsTool, ManagedPreCommitSettings, PythonTool};

fn nothing() -> ManagedPreCommitSettings {
    ManagedPreCommitSettings {
        enabled: true,
        maybe_js_ts_tool: None,
        maybe_python_tool: None,
        maybe_java_kotlin_tool: None,
        go_enabled: false,
        shell_enabled: false,
        terraform_enabled: false,
        c_cpp_enabled: false,
        ruby_enabled: false,
        maybe_cargo_manifest_dir: None,
    }
}

fn everything() -> ManagedPreCommitSettings {
    ManagedPreCommitSettings {
        enabled: true,
        maybe_js_ts_tool: Some(JsTsTool::PrettierEslint),
        maybe_python_tool: Some(PythonTool::Black),
        maybe_java_kotlin_tool: Some(JavaKotlinTool::Ktlint),
        go_enabled: true,
        shell_enabled: true,
        terraform_enabled: true,
        c_cpp_enabled: true,
        ruby_enabled: true,
        maybe_cargo_manifest_dir: Some(FsPath::parse("/w/repo/crates/a \"b\"")),
    }
}

#[test]
fn shell_escape_path_guards_the_characters_that_a_shell_reads() {
    assert_eq!(shell_escape_path(&FsPath::parse("/plain/path")), "/plain/path");
    assert_eq!(shell_escape_path(&FsPath::parse("/a \"b\"/$HOME/`x`/c\\d")), "/a \\\"b\\\"/\\$HOME/\\`x\\`/c\\\\d");
    assert_eq!(shell_escape_path(&FsPath::parse("")), "");
}

#[test]
fn the_cargo_fmt_hook_changes_into_the_directory() {
    let script = cargo_fmt_pre_commit_script(&FsPath::parse("/w/my \"repo\""));
    assert_eq!(
        script,
        "#!/bin/sh\nset -e\n\ncd \"/w/my \\\"repo\\\"\"\n\nif ! command -v cargo >/dev/null 2>&1; then\n  echo \"cargo not found; skipping cargo fmt\"\n  exit 0\nfi\n\necho \"Running cargo fmt...\"\ncargo fmt\n\n"
    );
}

#[test]
fn the_block_is_delimited_by_the_markers() {
    for settings in [nothing(), everything()] {
        let block = managed_pre_commit_block(&settings, &FsPath::parse("/w/repo"));
        let lines = split_lines(&chars_of(&block));
        assert_eq!(find_block(&lines), Ok(Some((0, lines.len() - 1))));
        assert!(block.starts_with(&format!("{MANAGED_BLOCK_BEGIN}\n# git-hook-installer settings")));
        assert!(block.ends_with(&format!("ghi_main\n{MANAGED_BLOCK_END}\n")));
        assert_eq!(block.matches(MANAGED_BLOCK_BEGIN).count(), 1);
        assert_eq!(block.matches(MANAGED_BLOCK_END).count(), 1);
        assert_eq!(block.lines().filter(|l| l.trim_start().starts_with("GHI_ENABLED=")).count(), 1);
        assert!(!block.contains('\r'));
        assert!(!block.contains('{') || block.contains("() {"));
    }
}

#[test]
fn the_block_shows_its_settings() {
    let block = managed_pre_commit_block(&everything(), &FsPath::parse("/w/repo"));
    for line in [
        "#   enabled=1",
        "#   js_ts_tool=prettier+eslint",
        "#   python_tool=black",
        "#   java_kotlin_tool=ktlint",
        "#   go_enabled=1",
        "#   shell_enabled=1",
        "#   terraform_enabled=1",
        "#   c_cpp_enabled=1",
        "#   ruby_enabled=1",
        "#   cargo_manifest_dir=crates/a \"b\"",
        "GHI_ENABLED=1",
        "GHI_JS_TS_TOOL=\"prettier+eslint\"",
        "GHI_PYTHON_TOOL=\"black\"",
        "GHI_JAVA_KOTLIN_TOOL=\"ktlint\"",
        "GHI_CARGO_MANIFEST_DIR=\"/w/repo/crates/a \\\"b\\\"\"",
        "ghi_run_go() {",
        "ghi_run_rubocop() {",
        "  ghi_run_cargo_fmt",
    ] {
        assert!(block.lines().any(|l| l == line), "missing line {line}");
    }
    let mut off = nothing();
    off.enabled = false;
    let block = managed_pre_commit_block(&off, &FsPath::parse("/w/repo"));
    for line in [
        "#   enabled=0",
        "#   js_ts_tool=(disabled)",
        "#   python_tool=(disabled)",
        "#   java_kotlin_tool=(disabled)",
        "#   go_enabled=0",
        "#   cargo_manifest_dir=(none)",
        "GHI_ENABLED=0",
        "GHI_JS_TS_TOOL=\"\"",
        "GHI_CARGO_MANIFEST_DIR=\"(none)\"",
    ] {
        assert!(block.lines().any(|l| l == line), "missing line {line}");
    }
    assert!(!block.contains("ghi_run_go()"));
    assert!(!block.contains("ghi_run_js_ts_biome()"));
    assert!(block.len() < managed_pre_commit_block(&everything(), &FsPath::parse("/w/repo")).len());
}

#[test]
fn the_block_goes_through_the_engine_and_back() {
    let root = FsPath::parse("/w/repo");
    let block = managed_pre_commit_block(&everything(), &root);
    let created = upsert(None, &block).unwrap();
    assert_eq!(created, format!("#!/bin/sh\n{block}"));
    assert_eq!(upsert(Some(&created), &block), Ok(created.clone()));
    let hook = upsert_managed_block("#!/bin/bash\necho before\n", &block).unwrap();
    assert_eq!(hook, format!("#!/bin/bash\n\n{block}\necho before\n"));
    assert_eq!(upsert_managed_block(&hook, &block), Ok(hook.clone()));
    let other = managed_pre_commit_block(&nothing(), &root);
    assert_eq!(upsert_managed_block(&hook, &other), Ok(format!("#!/bin/bash\n\n{other}\necho before\n")));
    let disabled = disable_managed_block(&hook).unwrap();
    assert_eq!(disabled, hook.replace("\nGHI_ENABLED=1\n", "\nGHI_ENABLED=0\n"));
    assert_ne!(disabled, hook);
    assert_eq!(uninstall_managed_block(&hook), Ok("#!/bin/bash\n\n\necho before\n".to_string()));
    assert_eq!(uninstall_managed_block(&created), Ok("#!/bin/sh\n".to_string()));
}
