use git_hook_installer::cargo_repo::ManifestError;
use git_hook_installer::detect::RepoFiles;
use git_hook_installer::hook_files::{
    install_hook_script, ConsentDecision, HookChange, HookError, InstallPlan,
};
use git_hook_installer::installer::{
    disable_managed_pre_commit, hook_kind_or_default, install_resolved_hook,
    resolve_cargo_fmt_hook, resolve_hook_kind, resolve_pre_commit_hook,
    resolve_pre_commit_settings, uninstall_managed_pre_commit, HookResolution, LanguageSearch,
    RepoSearches,
};
use git_hook_installer::managed_block::BlockError;
use git_hook_installer::paths::FsPath;
use git_hook_installer::script::{cargo_fmt_pre_commit_script, managed_pre_commit_block};
use git_hook_installer::types::{
    scan_depth, HookKind, InstallOptions, JavaKotlinTool, JsTsTool, PythonTool,
    ResolveHookOptions, ResolvedHook,
};

fn nothing_found() -> RepoSearches {
    let none = LanguageSearch { nested: false, source: false };
    RepoSearches {
        js_ts: none,
        python: none,
        java_kotlin: none,
        go: none,
        shell: none,
        terraform: none,
        c_cpp: none,
        ruby: none,
    }
}

fn files(names: &[&str]) -> RepoFiles {
    RepoFiles {
        root_files: names.iter().map(|n| n.to_string()).collect(),
        package_json: None,
        pyproject_toml: None,
    }
}

fn ask() -> ResolveHookOptions {
    ResolveHookOptions { yes: false, non_interactive: false }
}

fn unasked() -> ResolveHookOptions {
    ResolveHookOptions { yes: true, non_interactive: false }
}

#[test]
fn settings_switch_on_what_the_repository_holds() {
    let repo = files(&["package.json", "biome.json", "go.mod", "build.gradle"]);
    let mut searches = nothing_found();
    searches.ruby.source = true;
    searches.shell.nested = true;
    let dir = FsPath::parse("/w/repo");
    let settings = resolve_pre_commit_settings(&repo, &searches, Some(dir.clone()));
    assert!(settings.enabled);
    assert_eq!(settings.maybe_js_ts_tool, Some(JsTsTool::Biome));
    assert_eq!(settings.maybe_python_tool, None);
    assert_eq!(settings.maybe_java_kotlin_tool, Some(JavaKotlinTool::Spotless));
    assert!(settings.go_enabled);
    assert!(!settings.shell_enabled);
    assert!(!settings.terraform_enabled);
    assert!(!settings.c_cpp_enabled);
    assert!(settings.ruby_enabled);
    assert_eq!(settings.maybe_cargo_manifest_dir, Some(dir));
    let mut searches = nothing_found();
    searches.python.nested = true;
    searches.java_kotlin.source = true;
    searches.js_ts.source = true;
    let settings = resolve_pre_commit_settings(&files(&[]), &searches, None);
    assert_eq!(settings.maybe_js_ts_tool, Some(JsTsTool::PrettierEslint));
    assert_eq!(settings.maybe_python_tool, Some(PythonTool::Ruff));
    assert_eq!(settings.maybe_java_kotlin_tool, Some(JavaKotlinTool::Ktlint));
    assert_eq!(settings.maybe_cargo_manifest_dir, None);
}

#[test]
fn the_managed_hook_is_the_default() {
    assert_eq!(hook_kind_or_default(None), HookKind::PreCommit);
    assert_eq!(hook_kind_or_default(Some(HookKind::CargoFmtPreCommit)), HookKind::CargoFmtPreCommit);
}

#[test]
fn a_hook_is_confirmed_unless_no_question_may_be_asked() {
    let settings = resolve_pre_commit_settings(&files(&[]), &nothing_found(), None);
    let hook = ResolvedHook::PreCommit { settings: settings.clone() };
    assert_eq!(resolve_pre_commit_hook(settings.clone(), unasked()), HookResolution::Install { hook: hook.clone() });
    assert_eq!(
        resolve_pre_commit_hook(settings.clone(), ResolveHookOptions { yes: false, non_interactive: true }),
        HookResolution::Install { hook: hook.clone() }
    );
    let confirm = resolve_pre_commit_hook(settings, ask());
    assert_eq!(confirm, HookResolution::Confirm { hook: hook.clone() });
    assert_eq!(resolve_hook_kind(confirm.clone(), Some(true)), Some(hook.clone()));
    assert_eq!(resolve_hook_kind(confirm.clone(), Some(false)), None);
    assert_eq!(resolve_hook_kind(confirm, None), None);
    assert_eq!(resolve_hook_kind(HookResolution::Install { hook: hook.clone() }, None), Some(hook));
    assert_eq!(resolve_hook_kind(HookResolution::Skip { reason: ManifestError::NoManifestFound }, Some(true)), None);
}

#[test]
fn the_cargo_fmt_hook_needs_a_manifest_directory() {
    let dir = FsPath::parse("/w/repo");
    let hook = ResolvedHook::CargoFmtPreCommit { cargo_dir: dir.clone() };
    assert_eq!(resolve_cargo_fmt_hook(true, Ok(dir.clone()), unasked()), Ok(HookResolution::Install { hook: hook.clone() }));
    assert_eq!(resolve_cargo_fmt_hook(false, Ok(dir), ask()), Ok(HookResolution::Confirm { hook }));
    assert_eq!(
        resolve_cargo_fmt_hook(false, Err(ManifestError::NoManifestFound), ask()),
        Ok(HookResolution::Skip { reason: ManifestError::NoManifestFound })
    );
    assert_eq!(
        resolve_cargo_fmt_hook(true, Err(ManifestError::MultipleManifests), unasked()),
        Err(ManifestError::MultipleManifests)
    );
}

#[test]
fn installing_the_managed_hook_upserts_its_block() {
    let root = FsPath::parse("/w/repo");
    let settings = resolve_pre_commit_settings(&files(&["go.mod"]), &nothing_found(), None);
    let block = managed_pre_commit_block(&settings, &root);
    let hook = ResolvedHook::PreCommit { settings };
    let refuse = InstallOptions { yes: false, non_interactive: true, force: false };
    let fresh = install_resolved_hook(&hook, None, &root, refuse).unwrap();
    assert_eq!(fresh.consent, None);
    assert_eq!(fresh.change, HookChange::Create { contents: format!("#!/bin/sh\n{block}") });
    let foreign = install_resolved_hook(&hook, Some("#!/bin/sh\necho mine\n"), &root, refuse).unwrap();
    assert_eq!(foreign.consent, Some(ConsentDecision::Refuse));
    assert_eq!(
        foreign.change,
        HookChange::SnapshotAndWrite { contents: format!("#!/bin/sh\n\n{block}\necho mine\n") }
    );
    let written = format!("#!/bin/sh\n\n{block}\necho mine\n");
    let again = install_resolved_hook(&hook, Some(&written), &root, refuse).unwrap();
    let broken = "# <<< git-hook-installer managed block <<<\n";
    assert_eq!(
        install_resolved_hook(&hook, Some(broken), &root, refuse),
        Err(HookError::Block(BlockError::EndBeforeBegin))
    );
    assert_eq!(again.consent, None);
    assert_eq!(again.change, HookChange::Unchanged);
}

#[test]
fn installing_the_cargo_fmt_hook_writes_it_whole() {
    let root = FsPath::parse("/w/repo");
    let dir = FsPath::parse("/w/repo/crates/x");
    let hook = ResolvedHook::CargoFmtPreCommit { cargo_dir: dir.clone() };
    let force = InstallOptions { yes: false, non_interactive: false, force: true };
    let plan = install_resolved_hook(&hook, Some("old"), &root, force).unwrap();
    assert_eq!(plan.consent, Some(ConsentDecision::BackUp));
    assert_eq!(plan.change, HookChange::Create { contents: cargo_fmt_pre_commit_script(&dir) });
    let plan = install_resolved_hook(&hook, None, &root, force).unwrap();
    assert_eq!(plan.consent, None);
    let refuse = InstallOptions { yes: false, non_interactive: true, force: false };
    assert_eq!(
        install_hook_script(true, "#!/bin/sh\n".to_string(), refuse),
        InstallPlan {
            consent: Some(ConsentDecision::Refuse),
            change: HookChange::Create { contents: "#!/bin/sh\n".to_string() },
        }
    );
}

#[test]
fn disable_and_uninstall_are_planned_from_the_contents() {
    assert_eq!(disable_managed_pre_commit(None), Err(HookError::NoHook));
    assert_eq!(uninstall_managed_pre_commit(None), Err(HookError::NoHook));
    assert_eq!(disable_managed_pre_commit(Some("x\n")), Err(HookError::Block(BlockError::NotFound)));
    let root = FsPath::parse("/w/repo");
    let settings = resolve_pre_commit_settings(&files(&[]), &nothing_found(), None);
    let block = managed_pre_commit_block(&settings, &root);
    let hook = format!("#!/bin/sh\n{block}");
    assert_eq!(uninstall_managed_pre_commit(Some(&hook)), Ok(HookChange::SnapshotAndWrite { contents: "#!/bin/sh\n".to_string() }));
    assert_eq!(
        disable_managed_pre_commit(Some(&hook)),
        Ok(HookChange::SnapshotAndWrite { contents: hook.replace("\nGHI_ENABLED=1\n", "\nGHI_ENABLED=0\n") })
    );
}

#[test]
fn scan_mode_follows_the_flags() {
    assert_eq!(scan_depth(false, None, false), None);
    assert_eq!(scan_depth(true, None, false), Some(1));
    assert_eq!(scan_depth(false, None, true), Some(0));
    assert_eq!(scan_depth(false, Some(4), false), Some(4));
    assert_eq!(scan_depth(true, Some(0), true), Some(0));
}
