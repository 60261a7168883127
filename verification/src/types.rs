//! The plain data that the parts of the library hand to each other: what
//! the user asked for, and the settings of the managed hook.

use vstd::prelude::*;
use crate::paths::FsPath;

verus! {

/// How an installation treats a hook file that is already there.
#[derive(Clone, Copy, Debug, PartialEq, Eq, Structural)]
pub struct InstallOptions {
    /// Answer every question with yes.
    pub yes: bool,
    /// Never ask; fail where a question would be needed.
    pub non_interactive: bool,
    /// Overwrite an existing hook without asking.
    pub force: bool,
}

/// How the choice of a manifest directory treats more than one candidate.
#[derive(Clone, Copy, Debug, PartialEq, Eq, Structural)]
pub struct ResolveHookOptions {
    /// Answer every question with yes.
    pub yes: bool,
    /// Never ask; fail where a question would be needed.
    pub non_interactive: bool,
}

/// The tool chain for JavaScript and TypeScript.
#[derive(Clone, Copy, Debug, PartialEq, Eq, Structural)]
pub enum JsTsTool {
    Biome,
    PrettierEslint,
}

/// The tool chain for Python.
#[derive(Clone, Copy, Debug, PartialEq, Eq, Structural)]
pub enum PythonTool {
    Ruff,
    Black,
}

/// The tool chain for Java and Kotlin.
#[derive(Clone, Copy, Debug, PartialEq, Eq, Structural)]
pub enum JavaKotlinTool {
    Spotless,
    Ktlint,
}

/// The settings that the managed hook is written with.
#[derive(Clone, Debug, PartialEq, Eq)]
pub struct ManagedPreCommitSettings {
    /// Whether the hook does anything when it runs.
    pub enabled: bool,
    /// If none, the hook does not format JavaScript or TypeScript, nor
    /// Markdown and YAML with Prettier.
    pub maybe_js_ts_tool: Option<JsTsTool>,
    /// If none, the hook does not format or lint Python.
    pub maybe_python_tool: Option<PythonTool>,
    /// If none, the hook does not format or lint Java or Kotlin.
    pub maybe_java_kotlin_tool: Option<JavaKotlinTool>,
    pub go_enabled: bool,
    pub shell_enabled: bool,
    pub terraform_enabled: bool,
    pub c_cpp_enabled: bool,
    pub ruby_enabled: bool,
    /// If set, `cargo fmt` runs from this directory.
    pub maybe_cargo_manifest_dir: Option<FsPath>,
}

/// The hooks that can be installed.
#[derive(Clone, Copy, Debug, PartialEq, Eq, Structural)]
pub enum HookKind {
    /// The managed pre-commit hook that runs formatters and linters.
    PreCommit,
    /// A pre-commit hook that runs `cargo fmt` and nothing else.
    CargoFmtPreCommit,
}

/// A hook with all that is needed to write it.
#[derive(Clone, Debug, PartialEq, Eq)]
pub enum ResolvedHook {
    PreCommit { settings: ManagedPreCommitSettings },
    CargoFmtPreCommit { cargo_dir: FsPath },
}

/// The options that come before the command.
#[derive(Clone, Debug, PartialEq, Eq)]
pub struct Cli {
    /// Answer every question with yes.
    pub yes: bool,
    /// Never ask; fail where a question would be needed.
    pub non_interactive: bool,
    /// Overwrite existing hook files without asking.
    pub force: bool,
    /// The command; none stands for an installation.
    pub command: Option<Command>,
}

/// What the program is asked to do.
#[derive(Clone, Debug, PartialEq, Eq)]
pub enum Command {
    /// Install or update a hook.
    Install {
        hook: Option<HookKind>,
        manifest_dir: Option<String>,
        recursive: bool,
        max_depth: Option<usize>,
        dir: Option<String>,
    },
    /// Switch the managed block off.
    Disable { recursive: bool, max_depth: Option<usize>, dir: Option<String> },
    /// Take the managed block out.
    Uninstall { recursive: bool, max_depth: Option<usize>, dir: Option<String> },
    /// List the hooks that can be installed.
    List,
    /// Report the state of the hooks.
    Status { verbose: bool, recursive: bool, max_depth: Option<usize>, dir: Option<String> },
}

/// The kinds of failure that callers tell apart.
#[derive(Clone, Copy, Debug, PartialEq, Eq, Structural)]
pub enum ErrorKind {
    /// Something required is absent.
    NotFound,
    /// Markers or contents are not as they must be.
    Malformed,
    /// More than one candidate, and none may be picked silently.
    Ambiguous,
    /// A file of the user would be overwritten without consent.
    ConsentRequired,
    /// A sanity bound was passed.
    ResourceExhausted,
    /// What the caller passed cannot be used.
    InvalidInput,
}

/// The depth to which repositories are searched for, where the command
/// runs over many repositories. It does so where `--recursive`,
/// `--max-depth` or `--dir` is given. The depth is the one given, else 1
/// with `--recursive`, else 0.
pub open spec fn scan_depth_spec(recursive: bool, max_depth: Option<usize>, has_dir: bool)
    -> Option<usize> {
    if recursive || max_depth.is_some() || has_dir {
        Some(
            match max_depth {
                Some(depth) => depth,
                None => if recursive {
                    1usize
                } else {
                    0usize
                },
            },
        )
    } else {
        None
    }
}

/// Tells whether the command runs over the repositories below a
/// directory, and to which depth it searches for them.
pub fn scan_depth(recursive: bool, max_depth: Option<usize>, has_dir: bool) -> (r: Option<usize>)
    ensures
        r == scan_depth_spec(recursive, max_depth, has_dir),
{
    if recursive || max_depth.is_some() || has_dir {
        match max_depth {
            Some(depth) => Some(depth),
            None => if recursive {
                Some(1)
            } else {
                Some(0)
            },
        }
    } else {
        None
    }
}

} // verus!
