//! From what was found in a repository to the hook that is installed: the
//! settings of the managed hook, the question whether to install, and the
//! change of the hook file.

use vstd::prelude::*;
use crate::cargo_repo::ManifestError;
use crate::detect::{
    choose_java_kotlin_tool, choose_js_ts_tool, choose_python_tool, detect_c_cpp_repo_proof,
    detect_go_repo_proof, detect_java_kotlin_repo_proof, detect_js_ts_repo_proof,
    detect_python_repo_proof, detect_ruby_repo_proof, detect_shell_repo_proof,
    detect_terraform_repo_proof, has_biome_config_spec, has_black_config_spec,
    has_gradle_project_spec, has_ruff_config_spec, js_ts_proof, language_proof, Language, RepoFiles,
};
use crate::hook_files::{
    consent_decision, disable_change, disable_managed_pre_commit_hook, handle_existing_hook,
    install_hook_script, uninstall_change, uninstall_managed_pre_commit_hook, upsert_change,
    upsert_managed_pre_commit_hook, upsert_needs_consent, HookChange, HookChangeView, HookError,
    InstallPlan,
};
use crate::managed_block::contents_view;
use crate::paths::FsPath;
use crate::script::{
    cargo_fmt_pre_commit_script, cargo_fmt_script_text, managed_block_text,
    managed_pre_commit_block,
};
use crate::types::{
    HookKind, InstallOptions, JavaKotlinTool, JsTsTool, ManagedPreCommitSettings, PythonTool,
    ResolveHookOptions, ResolvedHook,
};

verus! {

/// What the searches below the root found for one language.
#[derive(Clone, Copy, Debug, PartialEq, Eq, Structural)]
pub struct LanguageSearch {
    /// Whether one of the files that tell of the language was found.
    pub nested: bool,
    /// Whether a source file of the language was found.
    pub source: bool,
}

/// What the searches below the root found, language by language.
#[derive(Clone, Copy, Debug, PartialEq, Eq, Structural)]
pub struct RepoSearches {
    pub js_ts: LanguageSearch,
    pub python: LanguageSearch,
    pub java_kotlin: LanguageSearch,
    pub go: LanguageSearch,
    pub shell: LanguageSearch,
    pub terraform: LanguageSearch,
    pub c_cpp: LanguageSearch,
    pub ruby: LanguageSearch,
}

/// What is done about a hook that was asked for.
#[derive(Clone, Debug, PartialEq, Eq)]
pub enum HookResolution {
    /// The hook is installed without a question.
    Install { hook: ResolvedHook },
    /// The user is asked whether to install the hook.
    Confirm { hook: ResolvedHook },
    /// No hook is installed, and that is no error: no manifest directory
    /// was found for a hook that the user did not name.
    Skip { reason: ManifestError },
}

/// The hook that is installed where the user names none.
pub fn hook_kind_or_default(maybe_hook: Option<HookKind>) -> (kind: HookKind)
    ensures
        kind == match maybe_hook {
            Some(hook) => hook,
            None => HookKind::PreCommit,
        },
{
    match maybe_hook {
        Some(hook) => hook,
        None => HookKind::PreCommit,
    }
}

/// Makes the settings of the managed hook from what was found in the
/// repository. A language is switched on where there is proof of it; its
/// tool chain is the one chosen for the repository. Nothing is asked.
pub fn resolve_pre_commit_settings(
    files: &RepoFiles,
    searches: &RepoSearches,
    maybe_cargo_dir: Option<FsPath>,
) -> (settings: ManagedPreCommitSettings)
    ensures
        settings.enabled,
        settings.maybe_js_ts_tool == if js_ts_proof(
            *files,
            searches.js_ts.nested,
            searches.js_ts.source,
        ).is_some() {
            Some(
                if has_biome_config_spec(*files) {
                    JsTsTool::Biome
                } else {
                    JsTsTool::PrettierEslint
                },
            )
        } else {
            None
        },
        settings.maybe_python_tool == if language_proof(
            Language::Python,
            *files,
            searches.python.nested,
            searches.python.source,
        ).is_some() {
            Some(
                if !has_ruff_config_spec(*files) && has_black_config_spec(*files) {
                    PythonTool::Black
                } else {
                    PythonTool::Ruff
                },
            )
        } else {
            None
        },
        settings.maybe_java_kotlin_tool == if language_proof(
            Language::JavaKotlin,
            *files,
            searches.java_kotlin.nested,
            searches.java_kotlin.source,
        ).is_some() {
            Some(
                if has_gradle_project_spec(*files) {
                    JavaKotlinTool::Spotless
                } else {
                    JavaKotlinTool::Ktlint
                },
            )
        } else {
            None
        },
        settings.go_enabled == language_proof(
            Language::Go,
            *files,
            searches.go.nested,
            searches.go.source,
        ).is_some(),
        settings.shell_enabled == language_proof(
            Language::Shell,
            *files,
            false,
            searches.shell.source,
        ).is_some(),
        settings.terraform_enabled == language_proof(
            Language::Terraform,
            *files,
            searches.terraform.nested,
            searches.terraform.source,
        ).is_some(),
        settings.c_cpp_enabled == language_proof(
            Language::CCpp,
            *files,
            false,
            searches.c_cpp.source,
        ).is_some(),
        settings.ruby_enabled == language_proof(
            Language::Ruby,
            *files,
            searches.ruby.nested,
            searches.ruby.source,
        ).is_some(),
        settings.maybe_cargo_manifest_dir == maybe_cargo_dir,
{
    let js_ts = detect_js_ts_repo_proof(files, searches.js_ts.nested, searches.js_ts.source);
    let python = detect_python_repo_proof(files, searches.python.nested, searches.python.source);
    let java_kotlin = detect_java_kotlin_repo_proof(
        files,
        searches.java_kotlin.nested,
        searches.java_kotlin.source,
    );
    let go = detect_go_repo_proof(files, searches.go.nested, searches.go.source);
    let shell = detect_shell_repo_proof(files, searches.shell.source);
    let terraform = detect_terraform_repo_proof(
        files,
        searches.terraform.nested,
        searches.terraform.source,
    );
    let c_cpp = detect_c_cpp_repo_proof(files, searches.c_cpp.source);
    let ruby = detect_ruby_repo_proof(files, searches.ruby.nested, searches.ruby.source);
    let js_ts_choice = choose_js_ts_tool(files);
    let python_choice = choose_python_tool(files);
    let java_kotlin_choice = choose_java_kotlin_tool(files);
    ManagedPreCommitSettings {
        enabled: true,
        maybe_js_ts_tool: if js_ts.is_some() {
            Some(js_ts_choice.tool)
        } else {
            None
        },
        maybe_python_tool: if python.is_some() {
            Some(python_choice.tool)
        } else {
            None
        },
        maybe_java_kotlin_tool: if java_kotlin.is_some() {
            Some(java_kotlin_choice.tool)
        } else {
            None
        },
        go_enabled: go.is_some(),
        shell_enabled: shell.is_some(),
        terraform_enabled: terraform.is_some(),
        c_cpp_enabled: c_cpp.is_some(),
        ruby_enabled: ruby.is_some(),
        maybe_cargo_manifest_dir: maybe_cargo_dir,
    }
}

/// Whether a hook is installed without a question under these options.
pub open spec fn installs_unasked(options: ResolveHookOptions) -> bool {
    options.non_interactive || options.yes
}

/// Decides about the managed hook with these settings: it is installed,
/// after a question where one may be asked.
pub fn resolve_pre_commit_hook(settings: ManagedPreCommitSettings, options: ResolveHookOptions)
    -> (resolution: HookResolution)
    ensures
        resolution == if installs_unasked(options) {
            HookResolution::Install { hook: ResolvedHook::PreCommit { settings } }
        } else {
            HookResolution::Confirm { hook: ResolvedHook::PreCommit { settings } }
        },
{
    let hook = ResolvedHook::PreCommit { settings };
    if options.non_interactive || options.yes {
        HookResolution::Install { hook }
    } else {
        HookResolution::Confirm { hook }
    }
}

/// Decides about the plain `cargo fmt` hook. Without a manifest directory
/// a hook that the user named is an error, and one that was only the
/// default is skipped. With one the hook is installed, after a question
/// where one may be asked.
pub fn resolve_cargo_fmt_hook(
    is_explicit_hook: bool,
    cargo_dir: Result<FsPath, ManifestError>,
    options: ResolveHookOptions,
) -> (r: Result<HookResolution, ManifestError>)
    ensures
        r == match cargo_dir {
            Err(e) => if is_explicit_hook {
                Err(e)
            } else {
                Ok(HookResolution::Skip { reason: e })
            },
            Ok(dir) => if installs_unasked(options) {
                Ok(HookResolution::Install { hook: ResolvedHook::CargoFmtPreCommit { cargo_dir: dir } })
            } else {
                Ok(HookResolution::Confirm { hook: ResolvedHook::CargoFmtPreCommit { cargo_dir: dir } })
            },
        },
{
    match cargo_dir {
        Err(e) => if is_explicit_hook {
            Err(e)
        } else {
            Ok(HookResolution::Skip { reason: e })
        },
        Ok(dir) => {
            let hook = ResolvedHook::CargoFmtPreCommit { cargo_dir: dir };
            if options.non_interactive || options.yes {
                Ok(HookResolution::Install { hook })
            } else {
                Ok(HookResolution::Confirm { hook })
            }
        },
    }
}

/// Takes a decision about a hook to its end: the hook to install, if any.
/// `answer` is what the user said where the decision was to ask.
pub fn resolve_hook_kind(resolution: HookResolution, answer: Option<bool>) -> (r: Option<
    ResolvedHook,
>)
    ensures
        r == match resolution {
            HookResolution::Install { hook } => Some(hook),
            HookResolution::Confirm { hook } => if answer == Some(true) {
                Some(hook)
            } else {
                None
            },
            HookResolution::Skip { .. } => None,
        },
{
    match resolution {
        HookResolution::Install { hook } => Some(hook),
        HookResolution::Confirm { hook } => match answer {
            Some(true) => Some(hook),
            _ => None,
        },
        HookResolution::Skip { .. } => None,
    }
}

/// Plans the installation of a hook into the hook file with the contents
/// `existing`, none where there is no file. The managed hook is upserted:
/// a file without managed block needs consent, a file with one is changed
/// behind a snapshot, and a file whose markers are not in order is
/// refused. The plain hook is written whole: any file that is there needs
/// consent.
pub fn install_resolved_hook(
    kind: &ResolvedHook,
    existing: Option<&str>,
    repo_root: &FsPath,
    options: InstallOptions,
) -> (r: Result<InstallPlan, HookError>)
    ensures
        match *kind {
            ResolvedHook::PreCommit { settings } => {
                let block = managed_block_text(settings, repo_root@);
                match r {
                    Ok(plan) => {
                        &&& plan.consent == if upsert_needs_consent(contents_view(existing)) {
                            Some(consent_decision(options))
                        } else {
                            None
                        }
                        &&& upsert_change(contents_view(existing), block) == Ok::<
                            HookChangeView,
                            HookError,
                        >(plan.change@)
                    },
                    Err(e) => upsert_change(contents_view(existing), block) == Err::<
                        HookChangeView,
                        HookError,
                    >(e),
                }
            },
            ResolvedHook::CargoFmtPreCommit { cargo_dir } => match r {
                Ok(plan) => {
                    &&& plan.consent == if existing.is_some() {
                        Some(consent_decision(options))
                    } else {
                        None
                    }
                    &&& plan.change@ == (HookChangeView::Create {
                        contents: cargo_fmt_script_text(cargo_dir@),
                    })
                },
                Err(_) => false,
            },
        },
{
    match kind {
        ResolvedHook::PreCommit { settings } => {
            let block = managed_pre_commit_block(settings, repo_root);
            match upsert_managed_pre_commit_hook(existing, block.as_str()) {
                Err(e) => Err(e),
                Ok(plan) => {
                    let consent = if plan.needs_consent {
                        Some(handle_existing_hook(options))
                    } else {
                        None
                    };
                    Ok(InstallPlan { consent, change: plan.change })
                },
            }
        },
        ResolvedHook::CargoFmtPreCommit { cargo_dir } => {
            let script = cargo_fmt_pre_commit_script(cargo_dir);
            Ok(install_hook_script(existing.is_some(), script, options))
        },
    }
}

/// Plans the switching off of the managed hook.
pub fn disable_managed_pre_commit(existing: Option<&str>) -> (r: Result<HookChange, HookError>)
    ensures
        match r {
            Ok(change) => disable_change(contents_view(existing)) == Ok::<
                HookChangeView,
                HookError,
            >(change@),
            Err(e) => disable_change(contents_view(existing)) == Err::<HookChangeView, HookError>(
                e,
            ),
        },
{
    disable_managed_pre_commit_hook(existing)
}

/// Plans the removal of the managed block.
pub fn uninstall_managed_pre_commit(existing: Option<&str>) -> (r: Result<HookChange, HookError>)
    ensures
        match r {
            Ok(change) => uninstall_change(contents_view(existing)) == Ok::<
                HookChangeView,
                HookError,
            >(change@),
            Err(e) => uninstall_change(contents_view(existing)) == Err::<
                HookChangeView,
                HookError,
            >(e),
        },
{
    uninstall_managed_pre_commit_hook(existing)
}

} // verus!
