//! The text of the hooks that the library writes: the managed block, made
//! from the settings, and the plain `cargo fmt` hook.

use vstd::prelude::*;
use crate::managed_block::{MANAGED_BLOCK_BEGIN, MANAGED_BLOCK_END};
use crate::paths::{text_of_path, FsPath, PathView};
use crate::text::{chars_of, string_of};
use crate::types::{JavaKotlinTool, JsTsTool, ManagedPreCommitSettings, PythonTool};
use crate::util::{relative_display, relative_text};

verus! {

/// The lines of the hook that pick the staged files of JavaScript and TypeScript.
pub const JS_TS_FILTER_LINES: &'static str = r#"  files_js_ts="$(ghi_filter_by_ext "$staged" "*.js" "*.jsx" "*.ts" "*.tsx")"
  files_js_ts_json="$(ghi_filter_by_ext "$staged" "*.js" "*.jsx" "*.ts" "*.tsx" "*.json")"
"#;

/// The shell functions of the hook that format JavaScript and TypeScript.
pub const JS_TS_FUNCTIONS: &'static str = r#"ghi_run_js_ts_biome() {
  files="$1"
  if [ -z "$files" ]; then
    return 0
  fi

  if ghi_has_cmd biome; then
    ghi_echo "Running biome (fix + lint)..."
    biome check --write $files
    return 0
  fi

  if ghi_has_cmd npx; then
    ghi_echo "Running biome via npx (fix + lint)..."
    npx --no-install biome check --write $files
    return 0
  fi

  ghi_echo "biome not found; skipping JS/TS"
  return 0
}

ghi_run_js_ts_prettier_eslint() {
  files_js_ts_json="$1"
  files_js_ts="$2"

  if [ -n "$files_js_ts_json" ]; then
    if ghi_has_cmd prettier; then
      ghi_echo "Running prettier (fix)..."
      prettier --write $files_js_ts_json
    elif ghi_has_cmd npx; then
      ghi_echo "Running prettier via npx (fix)..."
      npx --no-install prettier --write $files_js_ts_json
    else
      ghi_echo "prettier not found; skipping prettier"
    fi
  fi

  if [ -n "$files_js_ts" ]; then
    if ghi_has_cmd eslint; then
      ghi_echo "Running eslint (fix)..."
      eslint --fix $files_js_ts
    elif ghi_has_cmd npx; then
      ghi_echo "Running eslint via npx (fix)..."
      npx --no-install eslint --fix $files_js_ts
    else
      ghi_echo "eslint not found; skipping eslint"
    fi
  fi
}
"#;

/// The lines of the hook that run the tools for JavaScript and TypeScript.
pub const JS_TS_RUN_SECTION: &'static str = r#"  # JS/TS + JSON
  if [ "$GHI_JS_TS_TOOL" = "biome" ]; then
    ghi_run_js_ts_biome "$files_js_ts_json"
  else
    ghi_run_js_ts_prettier_eslint "$files_js_ts_json" "$files_js_ts"
  fi
  ghi_git_add_list "$files_js_ts_json"
"#;

/// The lines of the hook that format Markdown and YAML with Prettier.
pub const MD_YAML_SECTION: &'static str = r#"  # Markdown/YAML always uses prettier if available.
  if [ -n "$files_md_yaml" ]; then
    if ghi_has_cmd prettier; then
      ghi_echo "Running prettier on Markdown/YAML (fix)..."
      prettier --write $files_md_yaml
      ghi_git_add_list "$files_md_yaml"
    elif ghi_has_cmd npx; then
      ghi_echo "Running prettier via npx on Markdown/YAML (fix)..."
      npx --no-install prettier --write $files_md_yaml
      ghi_git_add_list "$files_md_yaml"
    else
      ghi_echo "prettier not found; skipping Markdown/YAML formatting"
    fi
  fi
"#;

/// The shell functions of the hook that format Python.
pub const PYTHON_FUNCTIONS: &'static str = r#"ghi_run_python_ruff() {
  files="$1"
  if [ -z "$files" ]; then
    return 0
  fi

  if ! ghi_has_cmd ruff; then
    ghi_echo "ruff not found; skipping Python"
    return 0
  fi

  ghi_echo "Running ruff format (fix)..."
  ruff format $files

  ghi_echo "Running ruff check --fix..."
  ruff check --fix $files
}

ghi_run_python_black() {
  files="$1"
  if [ -z "$files" ]; then
    return 0
  fi

  if ! ghi_has_cmd black; then
    ghi_echo "black not found; skipping Python"
    return 0
  fi

  ghi_echo "Running black (fix)..."
  black $files
}
"#;

/// The lines of the hook that pick the staged files of Python.
pub const PYTHON_FILTER_LINES: &'static str = r#"  files_py="$(ghi_filter_by_ext "$staged" "*.py")"
"#;

/// The lines of the hook that run the tools for Python.
pub const PYTHON_RUN_SECTION: &'static str = r#"  # Python
  if [ "$GHI_PYTHON_TOOL" = "ruff" ]; then
    ghi_run_python_ruff "$files_py"
  else
    ghi_run_python_black "$files_py"
  fi
  ghi_git_add_list "$files_py"
"#;

/// The shell functions of the hook that format Java and Kotlin.
pub const JAVA_KOTLIN_FUNCTIONS: &'static str = r#"ghi_run_java_kotlin_spotless() {
  all_staged_files="$1"
  if [ -z "$all_staged_files" ]; then
    return 0
  fi

  if [ -x "./gradlew" ]; then
    ghi_echo "Running ./gradlew spotlessApply (fix)..."
    ./gradlew -q spotlessApply
    ghi_git_add_list "$all_staged_files"
    return 0
  fi

  if ghi_has_cmd gradle; then
    ghi_echo "Running gradle spotlessApply (fix)..."
    gradle -q spotlessApply
    ghi_git_add_list "$all_staged_files"
    return 0
  fi

  ghi_echo "spotless requested but gradle/gradlew not found; skipping"
  return 0
}

ghi_run_java_kotlin_ktlint() {
  files="$1"
  if [ -z "$files" ]; then
    return 0
  fi

  if ! ghi_has_cmd ktlint; then
    ghi_echo "ktlint not found; skipping Kotlin"
    return 0
  fi

  ghi_echo "Running ktlint -F (fix)..."
  ktlint -F $files
}
"#;

/// The lines of the hook that pick the staged files of Java and Kotlin.
pub const JAVA_KOTLIN_FILTER_LINES: &'static str = r#"  files_kt="$(ghi_filter_by_ext "$staged" "*.kt" "*.kts")"
"#;

/// The lines of the hook that run the tools for Java and Kotlin.
pub const JAVA_KOTLIN_RUN_SECTION: &'static str = r#"  # Java/Kotlin
  if [ "$GHI_JAVA_KOTLIN_TOOL" = "spotless" ]; then
    ghi_run_java_kotlin_spotless "$staged"
  else
    ghi_run_java_kotlin_ktlint "$files_kt"
    ghi_git_add_list "$files_kt"
  fi
"#;

/// The shell functions of the hook that format Go.
pub const GO_FUNCTIONS: &'static str = r#"ghi_run_go() {
  files="$1"
  if [ -z "$files" ]; then
    return 0
  fi

  if ! ghi_has_cmd gofmt; then
    ghi_echo "gofmt not found; skipping Go"
    return 0
  fi

  ghi_echo "Running gofmt (fix)..."
  gofmt -w $files
}
"#;

/// The lines of the hook that pick the staged files of Go.
pub const GO_FILTER_LINES: &'static str = r#"  files_go="$(ghi_filter_by_ext "$staged" "*.go")"
"#;

/// The lines of the hook that run the tools for Go.
pub const GO_RUN_SECTION: &'static str = r#"  # Go
  ghi_run_go "$files_go"
  ghi_git_add_list "$files_go"
"#;

/// The shell functions of the hook that format shell scripts.
pub const SHELL_FUNCTIONS: &'static str = r#"ghi_run_shell() {
  files="$1"
  if [ -z "$files" ]; then
    return 0
  fi

  if ghi_has_cmd shfmt; then
    ghi_echo "Running shfmt (fix)..."
    shfmt -w $files
  else
    ghi_echo "shfmt not found; skipping shell formatting"
  fi

  if ghi_has_cmd shellcheck; then
    ghi_echo "Running shellcheck (lint)..."
    shellcheck $files
  else
    ghi_echo "shellcheck not found; skipping shellcheck"
  fi
}
"#;

/// The lines of the hook that pick the staged files of shell scripts.
pub const SHELL_FILTER_LINES: &'static str = r#"  files_sh="$(ghi_filter_by_ext "$staged" "*.sh" "*.bash" "*.zsh")"
"#;

/// The lines of the hook that run the tools for shell scripts.
pub const SHELL_RUN_SECTION: &'static str = r#"  # Shell
  ghi_run_shell "$files_sh"
  ghi_git_add_list "$files_sh"
"#;

/// The shell functions of the hook that format Terraform.
pub const TERRAFORM_FUNCTIONS: &'static str = r#"ghi_run_terraform() {
  files="$1"
  if [ -z "$files" ]; then
    return 0
  fi

  if ! ghi_has_cmd terraform; then
    ghi_echo "terraform not found; skipping Terraform"
    return 0
  fi

  dirs="$(printf '%s\n' $files | while read -r f; do dirname "$f"; done | sort -u)"
  if [ -z "$dirs" ]; then
    return 0
  fi

  for d in $dirs; do
    ghi_echo "Running terraform fmt in $d..."
    (cd "$d" && terraform fmt)
  done
}
"#;

/// The lines of the hook that pick the staged files of Terraform.
pub const TERRAFORM_FILTER_LINES: &'static str = r#"  files_tf="$(ghi_filter_by_ext "$staged" "*.tf" "*.tfvars")"
"#;

/// The lines of the hook that run the tools for Terraform.
pub const TERRAFORM_RUN_SECTION: &'static str = r#"  # Terraform
  ghi_run_terraform "$files_tf"
  ghi_git_add_list "$files_tf"
"#;

/// The shell functions of the hook that format C and C++.
pub const C_CPP_FUNCTIONS: &'static str = r#"ghi_run_clang_format() {
  files="$1"
  if [ -z "$files" ]; then
    return 0
  fi

  if ! ghi_has_cmd clang-format; then
    ghi_echo "clang-format not found; skipping C/C++"
    return 0
  fi

  ghi_echo "Running clang-format (fix)..."
  clang-format -i $files
}
"#;

/// The lines of the hook that pick the staged files of C and C++.
pub const C_CPP_FILTER_LINES: &'static str = r#"  files_c_cpp="$(ghi_filter_by_ext "$staged" "*.c" "*.cc" "*.cpp" "*.cxx" "*.h" "*.hh" "*.hpp" "*.hxx")"
"#;

/// The lines of the hook that run the tools for C and C++.
pub const C_CPP_RUN_SECTION: &'static str = r#"  # C/C++
  ghi_run_clang_format "$files_c_cpp"
  ghi_git_add_list "$files_c_cpp"
"#;

/// The shell functions of the hook that format Ruby.
pub const RUBY_FUNCTIONS: &'static str = r#"ghi_run_rubocop() {
  files="$1"
  if [ -z "$files" ]; then
    return 0
  fi

  if ! ghi_has_cmd rubocop; then
    ghi_echo "rubocop not found; skipping Ruby"
    return 0
  fi

  ghi_echo "Running rubocop -A (fix)..."
  rubocop -A $files
}
"#;

/// The lines of the hook that pick the staged files of Ruby.
pub const RUBY_FILTER_LINES: &'static str = r#"  files_rb="$(ghi_filter_by_ext "$staged" "*.rb")"
"#;

/// The lines of the hook that run the tools for Ruby.
pub const RUBY_RUN_SECTION: &'static str = r#"  # Ruby
  ghi_run_rubocop "$files_rb"
  ghi_git_add_list "$files_rb"
"#;

/// The text of the block that stands before the slot `enabled`.
pub const BEFORE_ENABLED: &'static str = r#"
# git-hook-installer settings (stored locally in this hook file):
#   enabled="#;

/// The text of the block that stands before the slot `js_ts_tool_note`.
pub const BEFORE_JS_TS_TOOL_NOTE: &'static str = r#"
#   js_ts_tool="#;

/// The text of the block that stands before the slot `python_tool_note`.
pub const BEFORE_PYTHON_TOOL_NOTE: &'static str = r#"
#   python_tool="#;

/// The text of the block that stands before the slot `java_kotlin_tool_note`.
pub const BEFORE_JAVA_KOTLIN_TOOL_NOTE: &'static str = r#"
#   java_kotlin_tool="#;

/// The text of the block that stands before the slot `go_enabled`.
pub const BEFORE_GO_ENABLED: &'static str = r#"
#   go_enabled="#;

/// The text of the block that stands before the slot `shell_enabled`.
pub const BEFORE_SHELL_ENABLED: &'static str = r#"
#   shell_enabled="#;

/// The text of the block that stands before the slot `terraform_enabled`.
pub const BEFORE_TERRAFORM_ENABLED: &'static str = r#"
#   terraform_enabled="#;

/// The text of the block that stands before the slot `c_cpp_enabled`.
pub const BEFORE_C_CPP_ENABLED: &'static str = r#"
#   c_cpp_enabled="#;

/// The text of the block that stands before the slot `ruby_enabled`.
pub const BEFORE_RUBY_ENABLED: &'static str = r#"
#   ruby_enabled="#;

/// The text of the block that stands before the slot `cargo_manifest_dir_note`.
pub const BEFORE_CARGO_MANIFEST_DIR_NOTE: &'static str = r#"
#   cargo_manifest_dir="#;

/// The text of the block that stands before the slot `enabled`.
pub const BEFORE_ENABLED_2: &'static str = r#"
#   default_mode=fix
#   unstaged_changes=stash(--keep-index --include-untracked) + restore
#   rollback_on_error=git reset --hard + re-apply saved index diff (+ stash pop if used)

GHI_ENABLED="#;

/// The text of the block that stands before the slot `js_ts_tool_value`.
pub const BEFORE_JS_TS_TOOL_VALUE: &'static str = r#"
GHI_JS_TS_TOOL=""#;

/// The text of the block that stands before the slot `python_tool_value`.
pub const BEFORE_PYTHON_TOOL_VALUE: &'static str = r#""
GHI_PYTHON_TOOL=""#;

/// The text of the block that stands before the slot `java_kotlin_tool_value`.
pub const BEFORE_JAVA_KOTLIN_TOOL_VALUE: &'static str = r#""
GHI_JAVA_KOTLIN_TOOL=""#;

/// The text of the block that stands before the slot `cargo_manifest_dir_for_shell`.
pub const BEFORE_CARGO_MANIFEST_DIR_FOR_SHELL: &'static str = r#""
GHI_CARGO_MANIFEST_DIR=""#;

/// The text of the block that stands before the slot `js_ts_functions`.
pub const BEFORE_JS_TS_FUNCTIONS: &'static str = r#""

ghi_echo() {
  printf '%s\n' "git-hook-installer: $*"
}

ghi_has_cmd() {
  command -v "$1" >/dev/null 2>&1
}

ghi_staged_files() {
  git diff --cached --name-only --diff-filter=ACMR
}

ghi_filter_by_ext() {
  # usage: ghi_filter_by_ext "<files>" "<pattern1>" "<pattern2>" ...
  files="$1"
  shift
  if [ -z "$files" ]; then
    return 0
  fi

  for file in $files; do
    for pattern in "$@"; do
      case "$file" in
        $pattern)
          printf '%s\n' "$file"
          break
          ;;
      esac
    done
  done
}

ghi_git_add_list() {
  files="$1"
  if [ -z "$files" ]; then
    return 0
  fi

  # Avoid xargs -0 portability issues; newline-in-filenames is extremely uncommon.
  for file in $files; do
    git add -- "$file"
  done
}

ghi_make_tmpdir() {
  # mktemp(1) has slightly different flags across platforms.
  tmp="$(mktemp -d 2>/dev/null || mktemp -d -t ghi)"
  printf '%s' "$tmp"
}

ghi_has_unstaged_or_untracked() {
  if ! git diff --quiet; then
    return 0
  fi
  if [ -n "$(git ls-files --others --exclude-standard)" ]; then
    return 0
  fi
  return 1
}

GHI_TMPDIR=""
GHI_DID_STASH=0
GHI_SUCCESS=0

ghi_rollback() {
  # Best-effort: restore to state from start of hook run.
  ghi_echo "Rolling back index/worktree to pre-hook state..."

  # Reset index and worktree to HEAD.
  git reset --hard >/dev/null 2>&1 || true

  if [ -s "$GHI_TMPDIR/index.patch" ]; then
    git apply --index "$GHI_TMPDIR/index.patch" >/dev/null 2>&1 || true
  fi

  if [ "$GHI_DID_STASH" = "1" ]; then
    # Pop the stash we created (expected to be top-of-stack).
    git stash pop --index >/dev/null 2>&1 || {
      ghi_echo "WARNING: stash pop had conflicts; your stash was preserved. Run: git stash list"
      return 0
    }
  else
    if [ -s "$GHI_TMPDIR/worktree.patch" ]; then
      git apply "$GHI_TMPDIR/worktree.patch" >/dev/null 2>&1 || true
    fi
  fi
}

ghi_cleanup() {
  status="$1"

  if [ "$status" -ne 0 ] && [ "$GHI_SUCCESS" -ne 1 ]; then
    ghi_rollback
  fi

  if [ "$status" -eq 0 ] && [ "$GHI_DID_STASH" = "1" ]; then
    # Restore unstaged/untracked changes after successful formatting.
    git stash pop --index >/dev/null 2>&1 || {
      ghi_echo "WARNING: stash pop had conflicts; your stash was preserved. Run: git stash list"
      return 0
    }
  fi

  if [ -n "$GHI_TMPDIR" ] && [ -d "$GHI_TMPDIR" ]; then
    rm -rf "$GHI_TMPDIR" >/dev/null 2>&1 || true
  fi
}

"#;

/// The text of the block that stands before the slot `python_functions`.
pub const BEFORE_PYTHON_FUNCTIONS: &'static str = r#"
"#;

/// The text of the block that stands before the slot `go_functions`.
pub const BEFORE_GO_FUNCTIONS: &'static str = r#"
"#;

/// The text of the block that stands before the slot `shell_functions`.
pub const BEFORE_SHELL_FUNCTIONS: &'static str = r#"
"#;

/// The text of the block that stands before the slot `terraform_functions`.
pub const BEFORE_TERRAFORM_FUNCTIONS: &'static str = r#"
"#;

/// The text of the block that stands before the slot `c_cpp_functions`.
pub const BEFORE_C_CPP_FUNCTIONS: &'static str = r#"
"#;

/// The text of the block that stands before the slot `java_kotlin_functions`.
pub const BEFORE_JAVA_KOTLIN_FUNCTIONS: &'static str = r#"
"#;

/// The text of the block that stands before the slot `ruby_functions`.
pub const BEFORE_RUBY_FUNCTIONS: &'static str = r#"
"#;

/// The text of the block that stands before the slot `js_ts_filter_lines`.
pub const BEFORE_JS_TS_FILTER_LINES: &'static str = r#"

ghi_run_cargo_fmt() {
  if [ "$GHI_CARGO_MANIFEST_DIR" = "(none)" ]; then
    return 0
  fi

  if ! ghi_has_cmd cargo; then
    ghi_echo "cargo not found; skipping cargo fmt"
    return 0
  fi

  # NOTE: cargo fmt formats the workspace configured by this manifest dir.
  ghi_echo "Running cargo fmt..."
  cd "$GHI_CARGO_MANIFEST_DIR"
  cargo fmt
}

ghi_main() {
  if [ "$GHI_ENABLED" != "1" ]; then
    return 0
  fi

  set -eu

  if ! ghi_has_cmd git; then
    ghi_echo "git not found; skipping"
    return 0
  fi

  GHI_TMPDIR="$(ghi_make_tmpdir)"
  git diff --cached --binary > "$GHI_TMPDIR/index.patch" 2>/dev/null || true
  git diff --binary > "$GHI_TMPDIR/worktree.patch" 2>/dev/null || true

  if ghi_has_unstaged_or_untracked; then
    ghi_echo "Stashing unstaged/untracked changes (keeping index) before auto-fix..."
    git stash push --keep-index --include-untracked -m "git-hook-installer pre-commit auto-stash" >/dev/null 2>&1
    GHI_DID_STASH=1
  fi

  staged="$(ghi_staged_files)"
  if [ -z "$staged" ]; then
    return 0
  fi

  # Filter file lists.
  files_md_yaml="$(ghi_filter_by_ext "$staged" "*.md" "*.markdown" "*.yml" "*.yaml")"
"#;

/// The text of the block that stands before the slot `python_filter_lines`.
pub const BEFORE_PYTHON_FILTER_LINES: &'static str = r#"
"#;

/// The text of the block that stands before the slot `go_filter_lines`.
pub const BEFORE_GO_FILTER_LINES: &'static str = r#"
"#;

/// The text of the block that stands before the slot `shell_filter_lines`.
pub const BEFORE_SHELL_FILTER_LINES: &'static str = r#"
"#;

/// The text of the block that stands before the slot `terraform_filter_lines`.
pub const BEFORE_TERRAFORM_FILTER_LINES: &'static str = r#"
"#;

/// The text of the block that stands before the slot `c_cpp_filter_lines`.
pub const BEFORE_C_CPP_FILTER_LINES: &'static str = r#"
"#;

/// The text of the block that stands before the slot `java_kotlin_filter_lines`.
pub const BEFORE_JAVA_KOTLIN_FILTER_LINES: &'static str = r#"
"#;

/// The text of the block that stands before the slot `ruby_filter_lines`.
pub const BEFORE_RUBY_FILTER_LINES: &'static str = r#"
"#;

/// The text of the block that stands before the slot `js_ts_run_section`.
pub const BEFORE_JS_TS_RUN_SECTION: &'static str = r#"

"#;

/// The text of the block that stands before the slot `md_yaml_section`.
pub const BEFORE_MD_YAML_SECTION: &'static str = r#"
"#;

/// The text of the block that stands before the slot `python_run_section`.
pub const BEFORE_PYTHON_RUN_SECTION: &'static str = r#"

"#;

/// The text of the block that stands before the slot `go_run_section`.
pub const BEFORE_GO_RUN_SECTION: &'static str = r#"
"#;

/// The text of the block that stands before the slot `shell_run_section`.
pub const BEFORE_SHELL_RUN_SECTION: &'static str = r#"
"#;

/// The text of the block that stands before the slot `terraform_run_section`.
pub const BEFORE_TERRAFORM_RUN_SECTION: &'static str = r#"
"#;

/// The text of the block that stands before the slot `c_cpp_run_section`.
pub const BEFORE_C_CPP_RUN_SECTION: &'static str = r#"
"#;

/// The text of the block that stands before the slot `java_kotlin_run_section`.
pub const BEFORE_JAVA_KOTLIN_RUN_SECTION: &'static str = r#"
"#;

/// The text of the block that stands before the slot `ruby_run_section`.
pub const BEFORE_RUBY_RUN_SECTION: &'static str = r#"
"#;

/// The text of the block that stands before the slot `MANAGED_BLOCK_END`.
pub const BEFORE_MANAGED_BLOCK_END: &'static str = r#"

  # Rust
  # Note: cargo fmt formats at the workspace level and may touch files beyond staging.
  ghi_run_cargo_fmt

  GHI_SUCCESS=1
  return 0
}

trap 'ghi_cleanup $?' EXIT HUP INT TERM
ghi_main
"#;

/// What follows the end marker.
pub const AFTER_END_MARKER: &'static str = r#"
"#;

/// The start of the plain `cargo fmt` hook, before the directory.
pub const CARGO_FMT_SCRIPT_HEAD: &'static str = r#"#!/bin/sh
set -e

cd ""#;

/// The rest of the plain `cargo fmt` hook, behind the directory.
pub const CARGO_FMT_SCRIPT_TAIL: &'static str = r#""

if ! command -v cargo >/dev/null 2>&1; then
  echo "cargo not found; skipping cargo fmt"
  exit 0
fi

echo "Running cargo fmt..."
cargo fmt

"#;

/// A flag as the hook reads it.
pub open spec fn flag_text(on: bool) -> Seq<char> {
    if on {
        "1"@
    } else {
        "0"@
    }
}

/// The name of the tool chain for JavaScript and TypeScript in the hook;
/// empty where there is none.
pub open spec fn js_ts_tool_name(tool: Option<JsTsTool>) -> Seq<char> {
    match tool {
        Some(JsTsTool::Biome) => "biome"@,
        Some(JsTsTool::PrettierEslint) => "prettier+eslint"@,
        None => ""@,
    }
}

/// The name of the tool chain for Python in the hook; empty where there
/// is none.
pub open spec fn python_tool_name(tool: Option<PythonTool>) -> Seq<char> {
    match tool {
        Some(PythonTool::Ruff) => "ruff"@,
        Some(PythonTool::Black) => "black"@,
        None => ""@,
    }
}

/// The name of the tool chain for Java and Kotlin in the hook; empty
/// where there is none.
pub open spec fn java_kotlin_tool_name(tool: Option<JavaKotlinTool>) -> Seq<char> {
    match tool {
        Some(JavaKotlinTool::Spotless) => "spotless"@,
        Some(JavaKotlinTool::Ktlint) => "ktlint"@,
        None => ""@,
    }
}

/// The name of a tool chain as the comment at the top of the block shows
/// it: a missing one is marked as disabled.
pub open spec fn tool_note(name: Seq<char>) -> Seq<char> {
    if name == ""@ {
        "(disabled)"@
    } else {
        name
    }
}

/// A section of the hook, or nothing where it is left out.
pub open spec fn section(included: bool, text: Seq<char>) -> Seq<char> {
    if included {
        text
    } else {
        ""@
    }
}

/// A text made safe inside double quotes of a shell: a backslash stands
/// before each backslash, double quote, dollar sign and backtick.
pub open spec fn shell_escaped(text: Seq<char>) -> Seq<char>
    decreases text.len(),
{
    if text.len() == 0 {
        Seq::empty()
    } else {
        let c = text.last();
        let before = shell_escaped(text.drop_last());
        if c == '\\' || c == '"' || c == '$' || c == '`' {
            before.push('\\').push(c)
        } else {
            before.push(c)
        }
    }
}

/// The manifest directory as the comment at the top of the block shows
/// it: relative to the root of the repository.
pub open spec fn manifest_dir_note(settings: ManagedPreCommitSettings, repo_root: PathView) -> Seq<
    char,
> {
    match settings.maybe_cargo_manifest_dir {
        Some(dir) => relative_text(repo_root, dir@),
        None => "(none)"@,
    }
}

/// The manifest directory as the hook changes into it.
pub open spec fn manifest_dir_for_shell(settings: ManagedPreCommitSettings) -> Seq<char> {
    match settings.maybe_cargo_manifest_dir {
        Some(dir) => shell_escaped(text_of_path(dir@)),
        None => "(none)"@,
    }
}

/// The start of the block: the begin marker, the settings as comments and as variables, and the shell functions that every hook has.
pub open spec fn block_head_text(settings: ManagedPreCommitSettings, repo_root: PathView) -> Seq<char> {
    MANAGED_BLOCK_BEGIN@ + BEFORE_ENABLED@ + flag_text(settings.enabled)
        + BEFORE_JS_TS_TOOL_NOTE@ + tool_note(js_ts_tool_name(settings.maybe_js_ts_tool))
        + BEFORE_PYTHON_TOOL_NOTE@ + tool_note(python_tool_name(settings.maybe_python_tool))
        + BEFORE_JAVA_KOTLIN_TOOL_NOTE@
        + tool_note(java_kotlin_tool_name(settings.maybe_java_kotlin_tool))
        + BEFORE_GO_ENABLED@ + flag_text(settings.go_enabled) + BEFORE_SHELL_ENABLED@
        + flag_text(settings.shell_enabled) + BEFORE_TERRAFORM_ENABLED@
        + flag_text(settings.terraform_enabled) + BEFORE_C_CPP_ENABLED@
        + flag_text(settings.c_cpp_enabled) + BEFORE_RUBY_ENABLED@
        + flag_text(settings.ruby_enabled) + BEFORE_CARGO_MANIFEST_DIR_NOTE@
        + manifest_dir_note(settings, repo_root) + BEFORE_ENABLED_2@
        + flag_text(settings.enabled) + BEFORE_JS_TS_TOOL_VALUE@
        + js_ts_tool_name(settings.maybe_js_ts_tool) + BEFORE_PYTHON_TOOL_VALUE@
        + python_tool_name(settings.maybe_python_tool) + BEFORE_JAVA_KOTLIN_TOOL_VALUE@
        + java_kotlin_tool_name(settings.maybe_java_kotlin_tool)
        + BEFORE_CARGO_MANIFEST_DIR_FOR_SHELL@ + manifest_dir_for_shell(settings)
        + BEFORE_JS_TS_FUNCTIONS@
}

/// The shell functions of the languages that the hook formats.
pub open spec fn block_functions_text(settings: ManagedPreCommitSettings) -> Seq<char> {
    section(settings.maybe_js_ts_tool.is_some(), JS_TS_FUNCTIONS@) + BEFORE_PYTHON_FUNCTIONS@
        + section(settings.maybe_python_tool.is_some(), PYTHON_FUNCTIONS@)
        + BEFORE_GO_FUNCTIONS@ + section(settings.go_enabled, GO_FUNCTIONS@)
        + BEFORE_SHELL_FUNCTIONS@ + section(settings.shell_enabled, SHELL_FUNCTIONS@)
        + BEFORE_TERRAFORM_FUNCTIONS@
        + section(settings.terraform_enabled, TERRAFORM_FUNCTIONS@) + BEFORE_C_CPP_FUNCTIONS@
        + section(settings.c_cpp_enabled, C_CPP_FUNCTIONS@) + BEFORE_JAVA_KOTLIN_FUNCTIONS@
        + section(settings.maybe_java_kotlin_tool.is_some(), JAVA_KOTLIN_FUNCTIONS@)
        + BEFORE_RUBY_FUNCTIONS@ + section(settings.ruby_enabled, RUBY_FUNCTIONS@)
}

/// The main function of the hook, which picks the staged files and runs the tools, and the end marker.
pub open spec fn block_main_text(settings: ManagedPreCommitSettings) -> Seq<char> {
    BEFORE_JS_TS_FILTER_LINES@
        + section(settings.maybe_js_ts_tool.is_some(), JS_TS_FILTER_LINES@)
        + BEFORE_PYTHON_FILTER_LINES@
        + section(settings.maybe_python_tool.is_some(), PYTHON_FILTER_LINES@)
        + BEFORE_GO_FILTER_LINES@ + section(settings.go_enabled, GO_FILTER_LINES@)
        + BEFORE_SHELL_FILTER_LINES@ + section(settings.shell_enabled, SHELL_FILTER_LINES@)
        + BEFORE_TERRAFORM_FILTER_LINES@
        + section(settings.terraform_enabled, TERRAFORM_FILTER_LINES@)
        + BEFORE_C_CPP_FILTER_LINES@ + section(settings.c_cpp_enabled, C_CPP_FILTER_LINES@)
        + BEFORE_JAVA_KOTLIN_FILTER_LINES@
        + section(settings.maybe_java_kotlin_tool.is_some(), JAVA_KOTLIN_FILTER_LINES@)
        + BEFORE_RUBY_FILTER_LINES@ + section(settings.ruby_enabled, RUBY_FILTER_LINES@)
        + BEFORE_JS_TS_RUN_SECTION@
        + section(settings.maybe_js_ts_tool.is_some(), JS_TS_RUN_SECTION@)
        + BEFORE_MD_YAML_SECTION@
        + section(settings.maybe_js_ts_tool.is_some(), MD_YAML_SECTION@)
        + BEFORE_PYTHON_RUN_SECTION@
        + section(settings.maybe_python_tool.is_some(), PYTHON_RUN_SECTION@)
        + BEFORE_GO_RUN_SECTION@ + section(settings.go_enabled, GO_RUN_SECTION@)
        + BEFORE_SHELL_RUN_SECTION@ + section(settings.shell_enabled, SHELL_RUN_SECTION@)
        + BEFORE_TERRAFORM_RUN_SECTION@
        + section(settings.terraform_enabled, TERRAFORM_RUN_SECTION@)
        + BEFORE_C_CPP_RUN_SECTION@ + section(settings.c_cpp_enabled, C_CPP_RUN_SECTION@)
        + BEFORE_JAVA_KOTLIN_RUN_SECTION@
        + section(settings.maybe_java_kotlin_tool.is_some(), JAVA_KOTLIN_RUN_SECTION@)
        + BEFORE_RUBY_RUN_SECTION@ + section(settings.ruby_enabled, RUBY_RUN_SECTION@)
        + BEFORE_MANAGED_BLOCK_END@ + MANAGED_BLOCK_END@ + AFTER_END_MARKER@
}

/// The managed block for the settings: its head, the functions of the
/// languages that are switched on, and the main function.
pub open spec fn managed_block_text(settings: ManagedPreCommitSettings, repo_root: PathView) -> Seq<
    char,
> {
    block_head_text(settings, repo_root) + block_functions_text(settings) + block_main_text(
        settings,
    )
}

/// The plain hook that runs `cargo fmt` in a directory.
pub open spec fn cargo_fmt_script_text(cargo_dir: PathView) -> Seq<char> {
    CARGO_FMT_SCRIPT_HEAD@ + shell_escaped(text_of_path(cargo_dir)) + CARGO_FMT_SCRIPT_TAIL@
}

/// A flag as the hook reads it.
fn flag(on: bool) -> (r: &'static str)
    ensures
        r@ == flag_text(on),
{
    if on {
        "1"
    } else {
        "0"
    }
}

/// The name of the tool chain for JavaScript and TypeScript in the hook.
fn js_ts_tool_value(tool: Option<JsTsTool>) -> (r: &'static str)
    ensures
        r@ == js_ts_tool_name(tool),
{
    match tool {
        Some(JsTsTool::Biome) => "biome",
        Some(JsTsTool::PrettierEslint) => "prettier+eslint",
        None => "",
    }
}

/// The name of the tool chain for Python in the hook.
fn python_tool_value(tool: Option<PythonTool>) -> (r: &'static str)
    ensures
        r@ == python_tool_name(tool),
{
    match tool {
        Some(PythonTool::Ruff) => "ruff",
        Some(PythonTool::Black) => "black",
        None => "",
    }
}

/// The name of the tool chain for Java and Kotlin in the hook.
fn java_kotlin_tool_value(tool: Option<JavaKotlinTool>) -> (r: &'static str)
    ensures
        r@ == java_kotlin_tool_name(tool),
{
    match tool {
        Some(JavaKotlinTool::Spotless) => "spotless",
        Some(JavaKotlinTool::Ktlint) => "ktlint",
        None => "",
    }
}

/// The name of a tool chain as the comment at the top of the block shows
/// it.
fn note_of(name: &'static str) -> (r: &'static str)
    ensures
        r@ == tool_note(name@),
{
    proof {
        reveal_strlit("");
    }
    if name.unicode_len() == 0 {
        assert(name@ =~= ""@);
        "(disabled)"
    } else {
        name
    }
}

/// A section of the hook, or nothing where it is left out.
fn included(wanted: bool, text: &'static str) -> (r: &'static str)
    ensures
        r@ == section(wanted, text@),
{
    if wanted {
        text
    } else {
        ""
    }
}

/// Makes the text of a path safe inside double quotes of a shell: a
/// backslash is put before each backslash, double quote, dollar sign and
/// backtick.
pub fn shell_escape_path(path: &FsPath) -> (r: String)
    ensures
        r@ == shell_escaped(text_of_path(path@)),
{
    let raw = chars_of(path.display().as_str());
    let mut escaped: Vec<char> = Vec::new();
    let mut i: usize = 0;
    assert(raw@.take(0) =~= Seq::empty());
    while i < raw.len()
        invariant
            i <= raw.len(),
            escaped@ == shell_escaped(raw@.take(i as int)),
        decreases raw.len() - i,
    {
        proof {
            assert(raw@.take(i + 1).drop_last() == raw@.take(i as int));
            assert(raw@.take(i + 1).last() == raw@[i as int]);
        }
        let c = raw[i];
        if c == '\\' || c == '"' || c == '$' || c == '`' {
            escaped.push('\\');
        }
        escaped.push(c);
        i += 1;
    }
    assert(raw@.take(raw.len() as int) == raw@);
    string_of(&escaped)
}

/// The start of the block: the begin marker, the settings as comments and as variables, and the shell functions that every hook has.
fn block_head(settings: &ManagedPreCommitSettings, repo_root: &FsPath) -> (r: String)
    ensures
        r@ == block_head_text(*settings, repo_root@),
{
    let note = match &settings.maybe_cargo_manifest_dir {
        Some(dir) => relative_display(repo_root, dir),
        None => none_text(),
    };
    let for_shell = match &settings.maybe_cargo_manifest_dir {
        Some(dir) => shell_escape_path(dir),
        None => none_text(),
    };
    let mut r = start_with(MANAGED_BLOCK_BEGIN);
    r.append(BEFORE_ENABLED);
    r.append(flag(settings.enabled));
    r.append(BEFORE_JS_TS_TOOL_NOTE);
    r.append(note_of(js_ts_tool_value(settings.maybe_js_ts_tool)));
    r.append(BEFORE_PYTHON_TOOL_NOTE);
    r.append(note_of(python_tool_value(settings.maybe_python_tool)));
    r.append(BEFORE_JAVA_KOTLIN_TOOL_NOTE);
    r.append(note_of(java_kotlin_tool_value(settings.maybe_java_kotlin_tool)));
    r.append(BEFORE_GO_ENABLED);
    r.append(flag(settings.go_enabled));
    r.append(BEFORE_SHELL_ENABLED);
    r.append(flag(settings.shell_enabled));
    r.append(BEFORE_TERRAFORM_ENABLED);
    r.append(flag(settings.terraform_enabled));
    r.append(BEFORE_C_CPP_ENABLED);
    r.append(flag(settings.c_cpp_enabled));
    r.append(BEFORE_RUBY_ENABLED);
    r.append(flag(settings.ruby_enabled));
    r.append(BEFORE_CARGO_MANIFEST_DIR_NOTE);
    r.append(note.as_str());
    r.append(BEFORE_ENABLED_2);
    r.append(flag(settings.enabled));
    r.append(BEFORE_JS_TS_TOOL_VALUE);
    r.append(js_ts_tool_value(settings.maybe_js_ts_tool));
    r.append(BEFORE_PYTHON_TOOL_VALUE);
    r.append(python_tool_value(settings.maybe_python_tool));
    r.append(BEFORE_JAVA_KOTLIN_TOOL_VALUE);
    r.append(java_kotlin_tool_value(settings.maybe_java_kotlin_tool));
    r.append(BEFORE_CARGO_MANIFEST_DIR_FOR_SHELL);
    r.append(for_shell.as_str());
    r.append(BEFORE_JS_TS_FUNCTIONS);
    r
}

/// The shell functions of the languages that the hook formats.
fn block_functions(settings: &ManagedPreCommitSettings) -> (r: String)
    ensures
        r@ == block_functions_text(*settings),
{
    let mut r = start_with(included(settings.maybe_js_ts_tool.is_some(), JS_TS_FUNCTIONS));
    r.append(BEFORE_PYTHON_FUNCTIONS);
    r.append(included(settings.maybe_python_tool.is_some(), PYTHON_FUNCTIONS));
    r.append(BEFORE_GO_FUNCTIONS);
    r.append(included(settings.go_enabled, GO_FUNCTIONS));
    r.append(BEFORE_SHELL_FUNCTIONS);
    r.append(included(settings.shell_enabled, SHELL_FUNCTIONS));
    r.append(BEFORE_TERRAFORM_FUNCTIONS);
    r.append(included(settings.terraform_enabled, TERRAFORM_FUNCTIONS));
    r.append(BEFORE_C_CPP_FUNCTIONS);
    r.append(included(settings.c_cpp_enabled, C_CPP_FUNCTIONS));
    r.append(BEFORE_JAVA_KOTLIN_FUNCTIONS);
    r.append(included(settings.maybe_java_kotlin_tool.is_some(), JAVA_KOTLIN_FUNCTIONS));
    r.append(BEFORE_RUBY_FUNCTIONS);
    r.append(included(settings.ruby_enabled, RUBY_FUNCTIONS));
    r
}

/// The main function of the hook, which picks the staged files and runs the tools, and the end marker.
fn block_main(settings: &ManagedPreCommitSettings) -> (r: String)
    ensures
        r@ == block_main_text(*settings),
{
    let mut r = start_with(BEFORE_JS_TS_FILTER_LINES);
    r.append(included(settings.maybe_js_ts_tool.is_some(), JS_TS_FILTER_LINES));
    r.append(BEFORE_PYTHON_FILTER_LINES);
    r.append(included(settings.maybe_python_tool.is_some(), PYTHON_FILTER_LINES));
    r.append(BEFORE_GO_FILTER_LINES);
    r.append(included(settings.go_enabled, GO_FILTER_LINES));
    r.append(BEFORE_SHELL_FILTER_LINES);
    r.append(included(settings.shell_enabled, SHELL_FILTER_LINES));
    r.append(BEFORE_TERRAFORM_FILTER_LINES);
    r.append(included(settings.terraform_enabled, TERRAFORM_FILTER_LINES));
    r.append(BEFORE_C_CPP_FILTER_LINES);
    r.append(included(settings.c_cpp_enabled, C_CPP_FILTER_LINES));
    r.append(BEFORE_JAVA_KOTLIN_FILTER_LINES);
    r.append(included(settings.maybe_java_kotlin_tool.is_some(), JAVA_KOTLIN_FILTER_LINES));
    r.append(BEFORE_RUBY_FILTER_LINES);
    r.append(included(settings.ruby_enabled, RUBY_FILTER_LINES));
    r.append(BEFORE_JS_TS_RUN_SECTION);
    r.append(included(settings.maybe_js_ts_tool.is_some(), JS_TS_RUN_SECTION));
    r.append(BEFORE_MD_YAML_SECTION);
    r.append(included(settings.maybe_js_ts_tool.is_some(), MD_YAML_SECTION));
    r.append(BEFORE_PYTHON_RUN_SECTION);
    r.append(included(settings.maybe_python_tool.is_some(), PYTHON_RUN_SECTION));
    r.append(BEFORE_GO_RUN_SECTION);
    r.append(included(settings.go_enabled, GO_RUN_SECTION));
    r.append(BEFORE_SHELL_RUN_SECTION);
    r.append(included(settings.shell_enabled, SHELL_RUN_SECTION));
    r.append(BEFORE_TERRAFORM_RUN_SECTION);
    r.append(included(settings.terraform_enabled, TERRAFORM_RUN_SECTION));
    r.append(BEFORE_C_CPP_RUN_SECTION);
    r.append(included(settings.c_cpp_enabled, C_CPP_RUN_SECTION));
    r.append(BEFORE_JAVA_KOTLIN_RUN_SECTION);
    r.append(included(settings.maybe_java_kotlin_tool.is_some(), JAVA_KOTLIN_RUN_SECTION));
    r.append(BEFORE_RUBY_RUN_SECTION);
    r.append(included(settings.ruby_enabled, RUBY_RUN_SECTION));
    r.append(BEFORE_MANAGED_BLOCK_END);
    r.append(MANAGED_BLOCK_END);
    r.append(AFTER_END_MARKER);
    r
}

/// The text `(none)`, which stands for a missing directory.
fn none_text() -> (r: String)
    ensures
        r@ == "(none)"@,
{
    start_with("(none)")
}

/// A string that holds `text`.
fn start_with(text: &str) -> (r: String)
    ensures
        r@ == text@,
{
    let mut r = String::new();
    r.append(text);
    assert(r@ =~= text@);
    r
}

/// Writes the managed block for the settings. The block begins with the
/// begin marker and ends with the end marker; between them stand the
/// settings, the shell functions of the languages that are switched on,
/// and the main function that runs them.
pub fn managed_pre_commit_block(settings: &ManagedPreCommitSettings, repo_root: &FsPath) -> (r:
    String)
    ensures
        r@ == managed_block_text(*settings, repo_root@),
{
    let mut r = block_head(settings, repo_root);
    let functions = block_functions(settings);
    let main = block_main(settings);
    r.append(functions.as_str());
    r.append(main.as_str());
    r
}

/// Writes the plain hook that runs `cargo fmt` in `cargo_dir`.
pub fn cargo_fmt_pre_commit_script(cargo_dir: &FsPath) -> (r: String)
    ensures
        r@ == cargo_fmt_script_text(cargo_dir@),
{
    let mut r = start_with(CARGO_FMT_SCRIPT_HEAD);
    let dir = shell_escape_path(cargo_dir);
    r.append(dir.as_str());
    r.append(CARGO_FMT_SCRIPT_TAIL);
    r
}

} // verus!
