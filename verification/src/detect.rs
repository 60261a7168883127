//! Telling from the files of a repository which languages it holds and
//! which tools it is set up for. The library is told which files are
//! there; each answer comes with the reason for it.

use vstd::prelude::*;
use crate::lines::line_views;
use crate::names::{holds_name, name_views, names_as_chars, str_views};
use crate::seqs::starts_with;
use crate::text::chars_of;
use crate::types::{JavaKotlinTool, JsTsTool, PythonTool};

verus! {

/// Whether a tool was chosen for a reason found in the repository.
#[derive(Clone, Copy, Debug, PartialEq, Eq, Structural)]
pub enum ToolChoiceKind {
    Detected,
    Default,
}

/// A tool, and why it was chosen.
#[derive(Clone, Copy, Debug, PartialEq, Eq)]
pub struct ToolChoice<T> {
    pub tool: T,
    pub kind: ToolChoiceKind,
    pub maybe_reason: Option<&'static str>,
}

/// What was read in the root of a repository.
#[derive(Clone, Debug, PartialEq, Eq)]
pub struct RepoFiles {
    /// The names of the regular files in the root.
    pub root_files: Vec<String>,
    /// The contents of `package.json`, if it could be read.
    pub package_json: Option<String>,
    /// The contents of `pyproject.toml`, if it could be read.
    pub pyproject_toml: Option<String>,
}

/// How deep below the root files are searched for by name.
pub const NAMED_SEARCH_DEPTH: usize = 3;

/// How deep below the root files are searched for by extension.
pub const EXTENSION_SEARCH_DEPTH: usize = 2;

/// How many directories and entries such a search visits at most.
pub const SEARCH_ENTRIES: usize = 10_000;

/// Whether one of `names` is among `files`.
pub open spec fn any_named(files: Seq<Seq<char>>, names: Seq<Seq<char>>) -> bool {
    exists|i: int| 0 <= i < names.len() && files.contains(#[trigger] names[i])
}

/// Whether `needle` stands somewhere in `text`.
pub open spec fn contains_text(text: Seq<char>, needle: Seq<char>) -> bool {
    exists|i: int| 0 <= i && #[trigger] starts_with(text.skip(i), needle) && i <= text.len()
}

/// Whether the contents, if there are any, hold `needle`.
pub open spec fn holds_text(contents: Option<String>, needle: Seq<char>) -> bool {
    match contents {
        Some(text) => contains_text(text@, needle),
        None => false,
    }
}

/// The reason of the first step that holds, in the order given.
pub open spec fn first_reason(
    first: bool,
    first_reason: Seq<char>,
    second: bool,
    second_reason: Seq<char>,
    third: bool,
    third_reason: Seq<char>,
) -> Option<Seq<char>> {
    if first {
        Some(first_reason)
    } else if second {
        Some(second_reason)
    } else if third {
        Some(third_reason)
    } else {
        None
    }
}

/// The text of a reason.
pub open spec fn reason_view(reason: Option<&'static str>) -> Option<Seq<char>> {
    match reason {
        Some(text) => Some(text@),
        None => None,
    }
}

/// Whether one of `names` is among `files`.
pub fn has_any_named(files: &Vec<Vec<char>>, names: &Vec<Vec<char>>) -> (r: bool)
    ensures
        r == any_named(line_views(files@), line_views(names@)),
{
    let mut i: usize = 0;
    while i < names.len()
        invariant
            i <= names.len(),
            forall|j: int| 0 <= j < i ==> !line_views(files@).contains(line_views(names@)[j]),
        decreases names.len() - i,
    {
        if holds_name(files, &names[i]) {
            assert(line_views(files@).contains(line_views(names@)[i as int]));
            return true;
        }
        i += 1;
    }
    false
}

/// Whether `needle` stands in `text` at the index `at`.
fn stands_at(text: &Vec<char>, at: usize, needle: &Vec<char>) -> (r: bool)
    requires
        at <= text.len(),
    ensures
        r == starts_with(text@.skip(at as int), needle@),
{
    if needle.len() > text.len() - at {
        return false;
    }
    let ghost rest = text@.skip(at as int);
    let mut i: usize = 0;
    while i < needle.len()
        invariant
            i <= needle.len() <= text.len() - at,
            at <= text.len(),
            rest == text@.skip(at as int),
            rest.take(i as int) == needle@.take(i as int),
        decreases needle.len() - i,
    {
        if text[at + i] != needle[i] {
            assert(rest.take(needle.len() as int)[i as int] != needle@[i as int]);
            return false;
        }
        assert(rest.take(i + 1) == rest.take(i as int).push(rest[i as int]));
        assert(needle@.take(i + 1) == needle@.take(i as int).push(needle@[i as int]));
        i += 1;
    }
    assert(needle@.take(needle.len() as int) == needle@);
    true
}

/// Whether `needle` stands somewhere in `text`.
pub fn text_contains(text: &Vec<char>, needle: &Vec<char>) -> (r: bool)
    ensures
        r == contains_text(text@, needle@),
{
    let mut i: usize = 0;
    while i <= text.len()
        invariant
            i <= text.len() + 1,
            forall|j: int| 0 <= j < i ==> !starts_with(#[trigger] text@.skip(j), needle@),
        decreases text.len() + 1 - i,
    {
        if stands_at(text, i, needle) {
            return true;
        }
        if i == text.len() {
            return false;
        }
        i += 1;
    }
    false
}

/// Whether the contents, if there are any, hold `needle`.
fn contents_hold(contents: &Option<String>, needle: &str) -> (r: bool)
    ensures
        r == holds_text(*contents, needle@),
{
    match contents {
        Some(text) => text_contains(&chars_of(text.as_str()), &chars_of(needle)),
        None => false,
    }
}

/// The names as character vectors.
fn names_of(names: Vec<&'static str>) -> (out: Vec<Vec<char>>)
    ensures
        line_views(out@) == str_views(names@),
{
    let mut out: Vec<Vec<char>> = Vec::new();
    let mut i: usize = 0;
    assert(str_views(names@).take(0) =~= Seq::empty());
    while i < names.len()
        invariant
            i <= names.len(),
            line_views(out@) == str_views(names@).take(i as int),
        decreases names.len() - i,
    {
        let ghost before = line_views(out@);
        let name = chars_of(names[i]);
        out.push(name);
        assert(line_views(out@) =~= before.push(names@[i as int]@));
        assert(str_views(names@).take(i + 1) =~= str_views(names@).take(i as int).push(
            names@[i as int]@,
        ));
        i += 1;
    }
    assert(str_views(names@).take(names.len() as int) == str_views(names@));
    out
}

/// The files that configure Biome.
pub open spec fn biome_configs() -> Seq<Seq<char>> {
    seq!["biome.json"@, "biome.jsonc"@]
}

/// The files that configure Prettier.
pub open spec fn prettier_configs() -> Seq<Seq<char>> {
    seq![
        ".prettierrc"@,
        ".prettierrc.json"@,
        ".prettierrc.yaml"@,
        ".prettierrc.yml"@,
        ".prettierrc.js"@,
        ".prettierrc.cjs"@,
        "prettier.config.js"@,
        "prettier.config.cjs"@,
        "prettier.config.mjs"@,
    ]
}

/// The files that configure ESLint.
pub open spec fn eslint_configs() -> Seq<Seq<char>> {
    seq![
        ".eslintrc"@,
        ".eslintrc.json"@,
        ".eslintrc.yaml"@,
        ".eslintrc.yml"@,
        ".eslintrc.js"@,
        ".eslintrc.cjs"@,
        "eslint.config.js"@,
        "eslint.config.cjs"@,
        "eslint.config.mjs"@,
    ]
}

/// The files of a Gradle project.
pub open spec fn gradle_files() -> Seq<Seq<char>> {
    seq!["gradlew"@, "build.gradle"@, "build.gradle.kts"@]
}

/// Whether the root holds a configuration of Biome.
pub open spec fn has_biome_config_spec(files: RepoFiles) -> bool {
    any_named(name_views(files.root_files@), biome_configs())
}

/// Whether the root holds a configuration of Prettier or ESLint: one of
/// their files, or a `package.json` that names them.
pub open spec fn has_prettier_or_eslint_config_spec(files: RepoFiles) -> bool {
    ||| any_named(name_views(files.root_files@), prettier_configs())
    ||| any_named(name_views(files.root_files@), eslint_configs())
    ||| holds_text(files.package_json, "\"eslintConfig\""@)
    ||| holds_text(files.package_json, "\"prettier\""@)
    ||| holds_text(files.package_json, "\"eslint\""@)
}

/// Whether the root holds a configuration of Ruff.
pub open spec fn has_ruff_config_spec(files: RepoFiles) -> bool {
    ||| any_named(name_views(files.root_files@), seq!["ruff.toml"@, ".ruff.toml"@])
    ||| holds_text(files.pyproject_toml, "[tool.ruff]"@)
}

/// Whether the root holds a configuration of Black.
pub open spec fn has_black_config_spec(files: RepoFiles) -> bool {
    ||| any_named(name_views(files.root_files@), seq!["black.toml"@])
    ||| holds_text(files.pyproject_toml, "[tool.black]"@)
}

/// Whether the root holds a Gradle project.
pub open spec fn has_gradle_project_spec(files: RepoFiles) -> bool {
    any_named(name_views(files.root_files@), gradle_files())
}

/// Whether one of `names` is a regular file in the root.
fn root_has(files: &RepoFiles, names: Vec<&'static str>) -> (r: bool)
    ensures
        r == any_named(name_views(files.root_files@), str_views(names@)),
{
    let wanted = names_of(names);
    has_any_named(&names_as_chars(&files.root_files), &wanted)
}

/// Whether the root holds a configuration of Biome.
pub fn has_biome_config(files: &RepoFiles) -> (r: bool)
    ensures
        r == has_biome_config_spec(*files),
{
    let names = vec!["biome.json", "biome.jsonc"];
    assert(str_views(names@) =~= biome_configs());
    root_has(files, names)
}

/// Whether the root holds a configuration of Prettier or ESLint.
pub fn has_prettier_or_eslint_config(files: &RepoFiles) -> (r: bool)
    ensures
        r == has_prettier_or_eslint_config_spec(*files),
{
    let prettier = vec![
        ".prettierrc",
        ".prettierrc.json",
        ".prettierrc.yaml",
        ".prettierrc.yml",
        ".prettierrc.js",
        ".prettierrc.cjs",
        "prettier.config.js",
        "prettier.config.cjs",
        "prettier.config.mjs",
    ];
    assert(str_views(prettier@) =~= prettier_configs());
    if root_has(files, prettier) {
        return true;
    }
    let eslint = vec![
        ".eslintrc",
        ".eslintrc.json",
        ".eslintrc.yaml",
        ".eslintrc.yml",
        ".eslintrc.js",
        ".eslintrc.cjs",
        "eslint.config.js",
        "eslint.config.cjs",
        "eslint.config.mjs",
    ];
    assert(str_views(eslint@) =~= eslint_configs());
    if root_has(files, eslint) {
        return true;
    }
    contents_hold(&files.package_json, "\"eslintConfig\"") || contents_hold(
        &files.package_json,
        "\"prettier\"",
    ) || contents_hold(&files.package_json, "\"eslint\"")
}

/// Whether the root holds a configuration of Ruff.
pub fn has_ruff_config(files: &RepoFiles) -> (r: bool)
    ensures
        r == has_ruff_config_spec(*files),
{
    let names = vec!["ruff.toml", ".ruff.toml"];
    assert(str_views(names@) =~= seq!["ruff.toml"@, ".ruff.toml"@]);
    if root_has(files, names) {
        return true;
    }
    contents_hold(&files.pyproject_toml, "[tool.ruff]")
}

/// Whether the root holds a configuration of Black.
pub fn has_black_config(files: &RepoFiles) -> (r: bool)
    ensures
        r == has_black_config_spec(*files),
{
    let names = vec!["black.toml"];
    assert(str_views(names@) =~= seq!["black.toml"@]);
    if root_has(files, names) {
        return true;
    }
    contents_hold(&files.pyproject_toml, "[tool.black]")
}

/// Whether the root holds a Gradle project.
pub fn has_gradle_project(files: &RepoFiles) -> (r: bool)
    ensures
        r == has_gradle_project_spec(*files),
{
    let names = vec!["gradlew", "build.gradle", "build.gradle.kts"];
    assert(str_views(names@) =~= gradle_files());
    root_has(files, names)
}

/// The tool chain for JavaScript and TypeScript where the user names
/// none: Biome where it is configured, else Prettier and ESLint.
pub fn default_js_ts_tool(files: &RepoFiles) -> (tool: JsTsTool)
    ensures
        tool == if has_biome_config_spec(*files) {
            JsTsTool::Biome
        } else {
            JsTsTool::PrettierEslint
        },
{
    if has_biome_config(files) {
        JsTsTool::Biome
    } else {
        JsTsTool::PrettierEslint
    }
}

/// The tool chain for Java and Kotlin where the user names none: Spotless
/// for a Gradle project, else ktlint.
pub fn default_java_kotlin_tool(files: &RepoFiles) -> (tool: JavaKotlinTool)
    ensures
        tool == if has_gradle_project_spec(*files) {
            JavaKotlinTool::Spotless
        } else {
            JavaKotlinTool::Ktlint
        },
{
    if has_gradle_project(files) {
        JavaKotlinTool::Spotless
    } else {
        JavaKotlinTool::Ktlint
    }
}

/// Chooses the tool chain for JavaScript and TypeScript: Biome where it
/// is configured; else Prettier and ESLint, detected where they are
/// configured and by default where not.
pub fn choose_js_ts_tool(files: &RepoFiles) -> (choice: ToolChoice<JsTsTool>)
    ensures
        choice.tool == if has_biome_config_spec(*files) {
            JsTsTool::Biome
        } else {
            JsTsTool::PrettierEslint
        },
        choice.kind == if has_biome_config_spec(*files) || has_prettier_or_eslint_config_spec(
            *files,
        ) {
            ToolChoiceKind::Detected
        } else {
            ToolChoiceKind::Default
        },
        reason_view(choice.maybe_reason) == first_reason(
            has_biome_config_spec(*files),
            "found biome.json/biome.jsonc"@,
            has_prettier_or_eslint_config_spec(*files),
            "found Prettier/ESLint config"@,
            false,
            Seq::empty(),
        ),
{
    if has_biome_config(files) {
        return ToolChoice {
            tool: JsTsTool::Biome,
            kind: ToolChoiceKind::Detected,
            maybe_reason: Some("found biome.json/biome.jsonc"),
        };
    }
    if has_prettier_or_eslint_config(files) {
        return ToolChoice {
            tool: JsTsTool::PrettierEslint,
            kind: ToolChoiceKind::Detected,
            maybe_reason: Some("found Prettier/ESLint config"),
        };
    }
    ToolChoice { tool: JsTsTool::PrettierEslint, kind: ToolChoiceKind::Default, maybe_reason: None }
}

/// Chooses the tool chain for Python: Ruff where it is configured, else
/// Black where that is configured, else Ruff by default.
pub fn choose_python_tool(files: &RepoFiles) -> (choice: ToolChoice<PythonTool>)
    ensures
        choice.tool == if !has_ruff_config_spec(*files) && has_black_config_spec(*files) {
            PythonTool::Black
        } else {
            PythonTool::Ruff
        },
        choice.kind == if has_ruff_config_spec(*files) || has_black_config_spec(*files) {
            ToolChoiceKind::Detected
        } else {
            ToolChoiceKind::Default
        },
        reason_view(choice.maybe_reason) == first_reason(
            has_ruff_config_spec(*files),
            "found ruff.toml/.ruff.toml or [tool.ruff] in pyproject.toml"@,
            has_black_config_spec(*files),
            "found black.toml or [tool.black] in pyproject.toml"@,
            false,
            Seq::empty(),
        ),
{
    if has_ruff_config(files) {
        return ToolChoice {
            tool: PythonTool::Ruff,
            kind: ToolChoiceKind::Detected,
            maybe_reason: Some("found ruff.toml/.ruff.toml or [tool.ruff] in pyproject.toml"),
        };
    }
    if has_black_config(files) {
        return ToolChoice {
            tool: PythonTool::Black,
            kind: ToolChoiceKind::Detected,
            maybe_reason: Some("found black.toml or [tool.black] in pyproject.toml"),
        };
    }
    ToolChoice { tool: PythonTool::Ruff, kind: ToolChoiceKind::Default, maybe_reason: None }
}

/// Chooses the tool chain for Java and Kotlin: Spotless for a Gradle
/// project, else ktlint by default.
pub fn choose_java_kotlin_tool(files: &RepoFiles) -> (choice: ToolChoice<JavaKotlinTool>)
    ensures
        choice.tool == if has_gradle_project_spec(*files) {
            JavaKotlinTool::Spotless
        } else {
            JavaKotlinTool::Ktlint
        },
        choice.kind == if has_gradle_project_spec(*files) {
            ToolChoiceKind::Detected
        } else {
            ToolChoiceKind::Default
        },
        reason_view(choice.maybe_reason) == first_reason(
            has_gradle_project_spec(*files),
            "found gradlew/build.gradle/build.gradle.kts"@,
            false,
            Seq::empty(),
            false,
            Seq::empty(),
        ),
{
    if has_gradle_project(files) {
        return ToolChoice {
            tool: JavaKotlinTool::Spotless,
            kind: ToolChoiceKind::Detected,
            maybe_reason: Some("found gradlew/build.gradle/build.gradle.kts"),
        };
    }
    ToolChoice { tool: JavaKotlinTool::Ktlint, kind: ToolChoiceKind::Default, maybe_reason: None }
}

/// The languages that the managed hook knows.
#[derive(Clone, Copy, Debug, PartialEq, Eq, Structural)]
pub enum Language {
    JsTs,
    Python,
    JavaKotlin,
    Go,
    Ruby,
    Shell,
    Terraform,
    CCpp,
    TypeScript,
}

impl Language {
    /// The names of the files that tell of the language.
    pub open spec fn signal_names_spec(self) -> Seq<Seq<char>> {
        match self {
            Language::JsTs => seq!["package.json"@, "tsconfig.json"@, "jsconfig.json"@, "deno.json"@, "deno.jsonc"@, "bun.lockb"@, "pnpm-lock.yaml"@, "yarn.lock"@, "package-lock.json"@],
            Language::Python => seq!["pyproject.toml"@, "requirements.txt"@, "requirements-dev.txt"@, "setup.py"@, "setup.cfg"@, "Pipfile"@, "poetry.lock"@, "uv.lock"@],
            Language::JavaKotlin => seq!["gradlew"@, "build.gradle"@, "build.gradle.kts"@, "settings.gradle"@, "settings.gradle.kts"@, "pom.xml"@],
            Language::Go => seq!["go.mod"@, "go.work"@, "go.sum"@],
            Language::Ruby => seq!["Gemfile"@, "Gemfile.lock"@, ".ruby-version"@, "Rakefile"@],
            Language::Shell => seq![".shellcheckrc"@, ".shfmt"@],
            Language::Terraform => seq![".terraform.lock.hcl"@],
            Language::CCpp => seq![".clang-format"@],
            Language::TypeScript => seq!["tsconfig.json"@],
        }
    }

    /// The extensions of the source files of the language.
    pub open spec fn extensions_spec(self) -> Seq<Seq<char>> {
        match self {
            Language::JsTs => seq!["js"@, "jsx"@, "ts"@, "tsx"@, "mjs"@, "cjs"@],
            Language::Python => seq!["py"@],
            Language::JavaKotlin => seq!["java"@, "kt"@, "kts"@],
            Language::Go => seq!["go"@],
            Language::Ruby => seq!["rb"@],
            Language::Shell => seq!["sh"@, "bash"@, "zsh"@],
            Language::Terraform => seq!["tf"@, "tfvars"@],
            Language::CCpp => seq!["c"@, "cc"@, "cpp"@, "cxx"@, "h"@, "hh"@, "hpp"@, "hxx"@],
            Language::TypeScript => seq!["ts"@, "tsx"@],
        }
    }

    /// Whether the files that tell of the language are also searched for below the root.
    pub open spec fn searches_names_spec(self) -> bool {
        match self {
            Language::JsTs => true,
            Language::Python => true,
            Language::JavaKotlin => true,
            Language::Go => true,
            Language::Ruby => true,
            Language::Shell => false,
            Language::Terraform => true,
            Language::CCpp => false,
            Language::TypeScript => true,
        }
    }

    /// The reason given where a telling file stands in the root.
    pub open spec fn root_reason_spec(self) -> Seq<char> {
        match self {
            Language::JsTs => "found package/tooling file (package.json/tsconfig/jsconfig/lockfile)"@,
            Language::Python => "found Python tooling file (pyproject/requirements/setup/Pipfile/lockfile)"@,
            Language::JavaKotlin => "found Gradle/Maven project file"@,
            Language::Go => "found Go module/work file (go.mod/go.work)"@,
            Language::Ruby => "found Ruby tooling file (Gemfile/.ruby-version)"@,
            Language::Shell => "found shell tooling file (.shellcheckrc/.shfmt)"@,
            Language::Terraform => "found Terraform lockfile (.terraform.lock.hcl)"@,
            Language::CCpp => "found clang-format config (.clang-format)"@,
            Language::TypeScript => "found tsconfig.json"@,
        }
    }

    /// The reason given where a telling file stands below the root.
    pub open spec fn nested_reason_spec(self) -> Seq<char> {
        match self {
            Language::JsTs => "found nested package/tooling file (shallow scan)"@,
            Language::Python => "found nested Python tooling file (shallow scan)"@,
            Language::JavaKotlin => "found nested Gradle/Maven project file (shallow scan)"@,
            Language::Go => "found nested Go module/work file (shallow scan)"@,
            Language::Ruby => "found nested Ruby tooling file (shallow scan)"@,
            Language::Shell => Seq::empty(),
            Language::Terraform => "found nested Terraform lockfile (shallow scan)"@,
            Language::CCpp => Seq::empty(),
            Language::TypeScript => "found nested tsconfig.json (shallow scan)"@,
        }
    }

    /// The reason given where source files were found.
    pub open spec fn source_reason_spec(self) -> Seq<char> {
        match self {
            Language::JsTs => "found JS/TS source files (shallow scan)"@,
            Language::Python => "found Python source files (shallow scan)"@,
            Language::JavaKotlin => "found Java/Kotlin source files (shallow scan)"@,
            Language::Go => "found Go source files (shallow scan)"@,
            Language::Ruby => "found Ruby source files (shallow scan)"@,
            Language::Shell => "found shell scripts (shallow scan)"@,
            Language::Terraform => "found Terraform files (shallow scan)"@,
            Language::CCpp => "found C/C++ files (shallow scan)"@,
            Language::TypeScript => "found TypeScript source files (shallow scan)"@,
        }
    }

    /// The names of the files that tell of the language.
    pub fn signal_names(&self) -> (r: Vec<&'static str>)
        ensures
            str_views(r@) == self.signal_names_spec(),
    {
        match self {
            Language::JsTs => {
                let names = vec!["package.json", "tsconfig.json", "jsconfig.json", "deno.json", "deno.jsonc", "bun.lockb", "pnpm-lock.yaml", "yarn.lock", "package-lock.json"];
                assert(str_views(names@) =~= seq!["package.json"@, "tsconfig.json"@, "jsconfig.json"@, "deno.json"@, "deno.jsonc"@, "bun.lockb"@, "pnpm-lock.yaml"@, "yarn.lock"@, "package-lock.json"@]);
                names
            },
            Language::Python => {
                let names = vec!["pyproject.toml", "requirements.txt", "requirements-dev.txt", "setup.py", "setup.cfg", "Pipfile", "poetry.lock", "uv.lock"];
                assert(str_views(names@) =~= seq!["pyproject.toml"@, "requirements.txt"@, "requirements-dev.txt"@, "setup.py"@, "setup.cfg"@, "Pipfile"@, "poetry.lock"@, "uv.lock"@]);
                names
            },
            Language::JavaKotlin => {
                let names = vec!["gradlew", "build.gradle", "build.gradle.kts", "settings.gradle", "settings.gradle.kts", "pom.xml"];
                assert(str_views(names@) =~= seq!["gradlew"@, "build.gradle"@, "build.gradle.kts"@, "settings.gradle"@, "settings.gradle.kts"@, "pom.xml"@]);
                names
            },
            Language::Go => {
                let names = vec!["go.mod", "go.work", "go.sum"];
                assert(str_views(names@) =~= seq!["go.mod"@, "go.work"@, "go.sum"@]);
                names
            },
            Language::Ruby => {
                let names = vec!["Gemfile", "Gemfile.lock", ".ruby-version", "Rakefile"];
                assert(str_views(names@) =~= seq!["Gemfile"@, "Gemfile.lock"@, ".ruby-version"@, "Rakefile"@]);
                names
            },
            Language::Shell => {
                let names = vec![".shellcheckrc", ".shfmt"];
                assert(str_views(names@) =~= seq![".shellcheckrc"@, ".shfmt"@]);
                names
            },
            Language::Terraform => {
                let names = vec![".terraform.lock.hcl"];
                assert(str_views(names@) =~= seq![".terraform.lock.hcl"@]);
                names
            },
            Language::CCpp => {
                let names = vec![".clang-format"];
                assert(str_views(names@) =~= seq![".clang-format"@]);
                names
            },
            Language::TypeScript => {
                let names = vec!["tsconfig.json"];
                assert(str_views(names@) =~= seq!["tsconfig.json"@]);
                names
            },
        }
    }

    /// The extensions of the source files of the language, in lower case.
    pub fn extensions(&self) -> (r: Vec<&'static str>)
        ensures
            str_views(r@) == self.extensions_spec(),
    {
        match self {
            Language::JsTs => {
                let names = vec!["js", "jsx", "ts", "tsx", "mjs", "cjs"];
                assert(str_views(names@) =~= seq!["js"@, "jsx"@, "ts"@, "tsx"@, "mjs"@, "cjs"@]);
                names
            },
            Language::Python => {
                let names = vec!["py"];
                assert(str_views(names@) =~= seq!["py"@]);
                names
            },
            Language::JavaKotlin => {
                let names = vec!["java", "kt", "kts"];
                assert(str_views(names@) =~= seq!["java"@, "kt"@, "kts"@]);
                names
            },
            Language::Go => {
                let names = vec!["go"];
                assert(str_views(names@) =~= seq!["go"@]);
                names
            },
            Language::Ruby => {
                let names = vec!["rb"];
                assert(str_views(names@) =~= seq!["rb"@]);
                names
            },
            Language::Shell => {
                let names = vec!["sh", "bash", "zsh"];
                assert(str_views(names@) =~= seq!["sh"@, "bash"@, "zsh"@]);
                names
            },
            Language::Terraform => {
                let names = vec!["tf", "tfvars"];
                assert(str_views(names@) =~= seq!["tf"@, "tfvars"@]);
                names
            },
            Language::CCpp => {
                let names = vec!["c", "cc", "cpp", "cxx", "h", "hh", "hpp", "hxx"];
                assert(str_views(names@) =~= seq!["c"@, "cc"@, "cpp"@, "cxx"@, "h"@, "hh"@, "hpp"@, "hxx"@]);
                names
            },
            Language::TypeScript => {
                let names = vec!["ts", "tsx"];
                assert(str_views(names@) =~= seq!["ts"@, "tsx"@]);
                names
            },
        }
    }

    /// Whether the files that tell of the language are also searched for below the root.
    pub fn searches_names(&self) -> (r: bool)
        ensures
            r == self.searches_names_spec(),
    {
        match self {
            Language::JsTs => true,
            Language::Python => true,
            Language::JavaKotlin => true,
            Language::Go => true,
            Language::Ruby => true,
            Language::Shell => false,
            Language::Terraform => true,
            Language::CCpp => false,
            Language::TypeScript => true,
        }
    }

    /// The reason given where a telling file stands in the root.
    pub fn root_reason(&self) -> (r: &'static str)
        ensures
            r@ == self.root_reason_spec(),
    {
        match self {
            Language::JsTs => "found package/tooling file (package.json/tsconfig/jsconfig/lockfile)",
            Language::Python => "found Python tooling file (pyproject/requirements/setup/Pipfile/lockfile)",
            Language::JavaKotlin => "found Gradle/Maven project file",
            Language::Go => "found Go module/work file (go.mod/go.work)",
            Language::Ruby => "found Ruby tooling file (Gemfile/.ruby-version)",
            Language::Shell => "found shell tooling file (.shellcheckrc/.shfmt)",
            Language::Terraform => "found Terraform lockfile (.terraform.lock.hcl)",
            Language::CCpp => "found clang-format config (.clang-format)",
            Language::TypeScript => "found tsconfig.json",
        }
    }

    /// The reason given where a telling file stands below the root.
    pub fn nested_reason(&self) -> (r: &'static str)
        ensures
            r@ == self.nested_reason_spec(),
    {
        match self {
            Language::JsTs => "found nested package/tooling file (shallow scan)",
            Language::Python => "found nested Python tooling file (shallow scan)",
            Language::JavaKotlin => "found nested Gradle/Maven project file (shallow scan)",
            Language::Go => "found nested Go module/work file (shallow scan)",
            Language::Ruby => "found nested Ruby tooling file (shallow scan)",
            Language::Shell => {
                let none = "";
                proof {
                    reveal_strlit("");
                }
                assert(none@ =~= Seq::<char>::empty());
                none
            },
            Language::Terraform => "found nested Terraform lockfile (shallow scan)",
            Language::CCpp => {
                let none = "";
                proof {
                    reveal_strlit("");
                }
                assert(none@ =~= Seq::<char>::empty());
                none
            },
            Language::TypeScript => "found nested tsconfig.json (shallow scan)",
        }
    }

    /// The reason given where source files were found.
    pub fn source_reason(&self) -> (r: &'static str)
        ensures
            r@ == self.source_reason_spec(),
    {
        match self {
            Language::JsTs => "found JS/TS source files (shallow scan)",
            Language::Python => "found Python source files (shallow scan)",
            Language::JavaKotlin => "found Java/Kotlin source files (shallow scan)",
            Language::Go => "found Go source files (shallow scan)",
            Language::Ruby => "found Ruby source files (shallow scan)",
            Language::Shell => "found shell scripts (shallow scan)",
            Language::Terraform => "found Terraform files (shallow scan)",
            Language::CCpp => "found C/C++ files (shallow scan)",
            Language::TypeScript => "found TypeScript source files (shallow scan)",
        }
    }
}

/// The proof that a repository holds a language, if there is one. A
/// telling file in the root comes first; then, for the languages that
/// search for them, a telling file below the root; then source files.
pub open spec fn language_proof(language: Language, files: RepoFiles, nested: bool, source: bool)
    -> Option<Seq<char>> {
    first_reason(
        any_named(name_views(files.root_files@), language.signal_names_spec()),
        language.root_reason_spec(),
        language.searches_names_spec() && nested,
        language.nested_reason_spec(),
        source,
        language.source_reason_spec(),
    )
}

/// The proof that a repository holds JavaScript or TypeScript, if there
/// is one. Between the telling files in the root and those below it come
/// the configurations of Biome and of Prettier and ESLint.
pub open spec fn js_ts_proof(files: RepoFiles, nested: bool, source: bool) -> Option<Seq<char>> {
    if any_named(name_views(files.root_files@), Language::JsTs.signal_names_spec()) {
        Some(Language::JsTs.root_reason_spec())
    } else {
        first_reason(
            has_biome_config_spec(files),
            "found biome.json/biome.jsonc"@,
            has_prettier_or_eslint_config_spec(files),
            "found Prettier/ESLint config"@,
            nested || source,
            if nested {
                Language::JsTs.nested_reason_spec()
            } else {
                Language::JsTs.source_reason_spec()
            },
        )
    }
}

/// Tells whether a repository holds `language`, and why. `nested` tells
/// whether a search below the root found one of the telling files,
/// `source` whether one found a source file of the language.
pub fn detect_repo_proof(language: Language, files: &RepoFiles, nested: bool, source: bool) -> (r:
    Option<&'static str>)
    ensures
        reason_view(r) == language_proof(language, *files, nested, source),
{
    if root_has(files, language.signal_names()) {
        return Some(language.root_reason());
    }
    if language.searches_names() && nested {
        return Some(language.nested_reason());
    }
    if source {
        return Some(language.source_reason());
    }
    None
}

/// Tells whether a repository holds JavaScript or TypeScript, and why.
pub fn detect_js_ts_repo_proof(files: &RepoFiles, nested: bool, source: bool) -> (r: Option<
    &'static str,
>)
    ensures
        reason_view(r) == js_ts_proof(*files, nested, source),
{
    if root_has(files, Language::JsTs.signal_names()) {
        return Some(Language::JsTs.root_reason());
    }
    if has_biome_config(files) {
        return Some("found biome.json/biome.jsonc");
    }
    if has_prettier_or_eslint_config(files) {
        return Some("found Prettier/ESLint config");
    }
    if nested {
        return Some(Language::JsTs.nested_reason());
    }
    if source {
        return Some(Language::JsTs.source_reason());
    }
    None
}

/// Tells whether a repository holds Python, and why.
pub fn detect_python_repo_proof(files: &RepoFiles, nested: bool, source: bool) -> (r: Option<
    &'static str,
>)
    ensures
        reason_view(r) == language_proof(Language::Python, *files, nested, source),
{
    detect_repo_proof(Language::Python, files, nested, source)
}

/// Tells whether a repository holds Java and Kotlin, and why.
pub fn detect_java_kotlin_repo_proof(files: &RepoFiles, nested: bool, source: bool) -> (r: Option<
    &'static str,
>)
    ensures
        reason_view(r) == language_proof(Language::JavaKotlin, *files, nested, source),
{
    detect_repo_proof(Language::JavaKotlin, files, nested, source)
}

/// Tells whether a repository holds Go, and why.
pub fn detect_go_repo_proof(files: &RepoFiles, nested: bool, source: bool) -> (r: Option<
    &'static str,
>)
    ensures
        reason_view(r) == language_proof(Language::Go, *files, nested, source),
{
    detect_repo_proof(Language::Go, files, nested, source)
}

/// Tells whether a repository holds Ruby, and why.
pub fn detect_ruby_repo_proof(files: &RepoFiles, nested: bool, source: bool) -> (r: Option<
    &'static str,
>)
    ensures
        reason_view(r) == language_proof(Language::Ruby, *files, nested, source),
{
    detect_repo_proof(Language::Ruby, files, nested, source)
}

/// Tells whether a repository holds shell scripts, and why. Their telling files
/// are not searched for below the root.
pub fn detect_shell_repo_proof(files: &RepoFiles, source: bool) -> (r: Option<&'static str>)
    ensures
        reason_view(r) == language_proof(Language::Shell, *files, false, source),
{
    detect_repo_proof(Language::Shell, files, false, source)
}

/// Tells whether a repository holds Terraform, and why.
pub fn detect_terraform_repo_proof(files: &RepoFiles, nested: bool, source: bool) -> (r: Option<
    &'static str,
>)
    ensures
        reason_view(r) == language_proof(Language::Terraform, *files, nested, source),
{
    detect_repo_proof(Language::Terraform, files, nested, source)
}

/// Tells whether a repository holds C and C++, and why. Their telling files
/// are not searched for below the root.
pub fn detect_c_cpp_repo_proof(files: &RepoFiles, source: bool) -> (r: Option<&'static str>)
    ensures
        reason_view(r) == language_proof(Language::CCpp, *files, false, source),
{
    detect_repo_proof(Language::CCpp, files, false, source)
}

/// Tells whether a repository holds TypeScript, and why.
pub fn detect_typescript_repo_proof(files: &RepoFiles, nested: bool, source: bool) -> (r: Option<
    &'static str,
>)
    ensures
        reason_view(r) == language_proof(Language::TypeScript, *files, nested, source),
{
    detect_repo_proof(Language::TypeScript, files, nested, source)
}

} // verus!
