use std::collections::HashMap;

use git_hook_installer::detect::{
    choose_java_kotlin_tool, choose_js_ts_tool, choose_python_tool, default_java_kotlin_tool,
    default_js_ts_tool, detect_c_cpp_repo_proof, detect_go_repo_proof,
    detect_java_kotlin_repo_proof, detect_js_ts_repo_proof, detect_python_repo_proof,
    detect_ruby_repo_proof, detect_shell_repo_proof, detect_terraform_repo_proof,
    detect_typescript_repo_proof, has_gradle_project, has_prettier_or_eslint_config, Language,
    RepoFiles, ToolChoiceKind, EXTENSION_SEARCH_DEPTH, NAMED_SEARCH_DEPTH, SEARCH_ENTRIES,
};
use git_hook_installer::file_search::{
    has_any_file_named_bounded, has_any_file_with_ext_bounded, FileSearch,
};
use git_hook_installer::paths::FsPath;
use git_hook_installer::scan::ScanEntry;
use git_hook_installer::types::{JavaKotlinTool, JsTsTool, PythonTool};

fn files(names: &[&str]) -> RepoFiles {
    RepoFiles {
        root_files: names.iter().map(|n| n.to_string()).collect(),
        package_json: None,
        pyproject_toml: None,
    }
}

fn dir_entry(name: &str) -> ScanEntry {
    ScanEntry { name: Some(name.to_string()), is_dir: true, is_file: false }
}

fn file_entry(name: &str) -> ScanEntry {
    ScanEntry { name: Some(name.to_string()), is_dir: false, is_file: true }
}

fn run(mut search: FileSearch, tree: &HashMap<String, Vec<ScanEntry>>) -> bool {
    while let Some(dir) = search.next_directory() {
        if search.scan.descends_from(dir.depth) {
            let entries = match tree.get(&dir.dir.display()) {
                Some(entries) => entries.clone(),
                None => Vec::new(),
            };
            search.offer_entries(&dir, &entries);
        }
    }
    search.has_found()
}

#[test]
fn choose_js_ts_tool_detects_biome_when_biome_config_exists() {
    // arrange
    let repo = files(&["biome.json"]);

    // act
    let choice = choose_js_ts_tool(&repo);

    // assert
    assert!(matches!(choice.tool, JsTsTool::Biome));
    assert_eq!(choice.kind, ToolChoiceKind::Detected);
    assert_eq!(choice.maybe_reason, Some("found biome.json/biome.jsonc"));
}

#[test]
fn choose_js_ts_tool_detects_prettier_eslint_when_prettier_config_exists() {
    // arrange
    let repo = files(&[".prettierrc"]);

    // act
    let choice = choose_js_ts_tool(&repo);

    // assert
    assert!(matches!(choice.tool, JsTsTool::PrettierEslint));
    assert_eq!(choice.kind, ToolChoiceKind::Detected);
    assert_eq!(choice.maybe_reason, Some("found Prettier/ESLint config"));
}

#[test]
fn detect_js_ts_repo_proof_none_when_no_signals_exist() {
    // arrange
    let repo = files(&[]);

    // act
    let maybe_reason = detect_js_ts_repo_proof(&repo, false, false);

    // assert
    assert!(maybe_reason.is_none());
}

#[test]
fn detect_js_ts_repo_proof_some_when_package_json_exists() {
    // arrange
    let mut repo = files(&["package.json"]);
    repo.package_json = Some("{ }".to_string());

    // act
    let maybe_reason = detect_js_ts_repo_proof(&repo, false, false);

    // assert
    assert!(maybe_reason.is_some());
    assert_eq!(maybe_reason, Some("found package/tooling file (package.json/tsconfig/jsconfig/lockfile)"));
}

#[test]
fn detect_js_ts_repo_proof_some_when_nested_package_json_exists() {
    // arrange
    let repo = files(&[]);
    let mut tree = HashMap::new();
    tree.insert("/t".to_string(), vec![dir_entry("packages")]);
    tree.insert("/t/packages".to_string(), vec![dir_entry("app")]);
    tree.insert("/t/packages/app".to_string(), vec![file_entry("package.json")]);
    let search = has_any_file_named_bounded(
        FsPath::parse("/t"),
        Language::JsTs.signal_names(),
        NAMED_SEARCH_DEPTH,
        SEARCH_ENTRIES,
    );

    // act
    let nested = run(search, &tree);
    let maybe_reason = detect_js_ts_repo_proof(&repo, nested, false);

    // assert
    assert!(nested);
    assert!(maybe_reason.is_some());
    assert_eq!(maybe_reason, Some("found nested package/tooling file (shallow scan)"));
}

#[test]
fn detect_python_repo_proof_some_when_pyproject_exists() {
    let mut repo = files(&["pyproject.toml"]);
    repo.pyproject_toml = Some("[build-system]\n".to_string());
    let maybe_reason = detect_python_repo_proof(&repo, false, false);
    assert!(maybe_reason.is_some());
}

#[test]
fn detect_go_repo_proof_some_when_go_mod_exists() {
    let repo = files(&["go.mod"]);
    let maybe_reason = detect_go_repo_proof(&repo, false, false);
    assert!(maybe_reason.is_some());
    assert_eq!(maybe_reason, Some("found Go module/work file (go.mod/go.work)"));
}

#[test]
fn detect_ruby_repo_proof_some_when_gemfile_exists() {
    let repo = files(&["Gemfile"]);
    let maybe_reason = detect_ruby_repo_proof(&repo, false, false);
    assert!(maybe_reason.is_some());
}

#[test]
fn detect_typescript_repo_proof_some_when_tsconfig_exists() {
    let repo = files(&["tsconfig.json"]);
    let maybe_reason = detect_typescript_repo_proof(&repo, false, false);
    assert!(maybe_reason.is_some());
    assert_eq!(maybe_reason, Some("found tsconfig.json"));
}

#[test]
fn choose_python_tool_detects_ruff_when_pyproject_has_tool_ruff() {
    // arrange
    let mut repo = files(&["pyproject.toml"]);
    repo.pyproject_toml = Some("[tool.ruff]\nline-length = 88\n".to_string());

    // act
    let choice = choose_python_tool(&repo);

    // assert
    assert!(matches!(choice.tool, PythonTool::Ruff));
    assert_eq!(choice.kind, ToolChoiceKind::Detected);
}

#[test]
fn choose_python_tool_detects_black_when_pyproject_has_tool_black() {
    // arrange
    let mut repo = files(&["pyproject.toml"]);
    repo.pyproject_toml = Some("[tool.black]\nline-length = 88\n".to_string());

    // act
    let choice = choose_python_tool(&repo);

    // assert
    assert!(matches!(choice.tool, PythonTool::Black));
    assert_eq!(choice.kind, ToolChoiceKind::Detected);
    assert_eq!(choice.maybe_reason, Some("found black.toml or [tool.black] in pyproject.toml"));
}

#[test]
fn tools_fall_back_to_their_defaults() {
    let repo = files(&["README.md"]);
    let js = choose_js_ts_tool(&repo);
    assert_eq!((js.tool, js.kind, js.maybe_reason), (JsTsTool::PrettierEslint, ToolChoiceKind::Default, None));
    let py = choose_python_tool(&repo);
    assert_eq!((py.tool, py.kind, py.maybe_reason), (PythonTool::Ruff, ToolChoiceKind::Default, None));
    let jk = choose_java_kotlin_tool(&repo);
    assert_eq!((jk.tool, jk.kind, jk.maybe_reason), (JavaKotlinTool::Ktlint, ToolChoiceKind::Default, None));
    assert_eq!(default_js_ts_tool(&repo), JsTsTool::PrettierEslint);
    assert_eq!(default_java_kotlin_tool(&repo), JavaKotlinTool::Ktlint);
    let gradle = files(&["build.gradle.kts"]);
    assert!(has_gradle_project(&gradle));
    assert_eq!(default_java_kotlin_tool(&gradle), JavaKotlinTool::Spotless);
    let jk = choose_java_kotlin_tool(&gradle);
    assert_eq!(jk.kind, ToolChoiceKind::Detected);
    assert_eq!(jk.maybe_reason, Some("found gradlew/build.gradle/build.gradle.kts"));
    assert_eq!(default_js_ts_tool(&files(&["biome.jsonc"])), JsTsTool::Biome);
    let both = files(&["ruff.toml", "black.toml"]);
    assert_eq!(choose_python_tool(&both).tool, PythonTool::Ruff);
    assert_eq!(choose_python_tool(&files(&["black.toml"])).tool, PythonTool::Black);
}

#[test]
fn package_json_can_name_prettier_or_eslint() {
    let mut repo = files(&["package.json"]);
    repo.package_json = Some("{ \"name\": \"x\" }".to_string());
    assert!(!has_prettier_or_eslint_config(&repo));
    for needle in ["\"eslintConfig\"", "\"prettier\"", "\"eslint\""] {
        repo.package_json = Some(format!("{{ \"devDependencies\": {{ {needle}: \"1\" }} }}"));
        assert!(has_prettier_or_eslint_config(&repo));
    }
    repo.package_json = Some("prettier".to_string());
    assert!(!has_prettier_or_eslint_config(&repo));
    assert!(has_prettier_or_eslint_config(&files(&["eslint.config.mjs"])));
}

#[test]
fn proofs_come_in_the_order_root_nested_source() {
    let none = files(&[]);
    assert_eq!(detect_python_repo_proof(&none, true, true), Some("found nested Python tooling file (shallow scan)"));
    assert_eq!(detect_python_repo_proof(&none, false, true), Some("found Python source files (shallow scan)"));
    assert_eq!(detect_python_repo_proof(&none, false, false), None);
    assert_eq!(detect_java_kotlin_repo_proof(&files(&["pom.xml"]), true, true), Some("found Gradle/Maven project file"));
    assert_eq!(detect_java_kotlin_repo_proof(&none, false, true), Some("found Java/Kotlin source files (shallow scan)"));
    assert_eq!(detect_terraform_repo_proof(&none, true, false), Some("found nested Terraform lockfile (shallow scan)"));
    assert_eq!(detect_terraform_repo_proof(&files(&[".terraform.lock.hcl"]), false, false), Some("found Terraform lockfile (.terraform.lock.hcl)"));
    assert_eq!(detect_shell_repo_proof(&files(&[".shfmt"]), false), Some("found shell tooling file (.shellcheckrc/.shfmt)"));
    assert_eq!(detect_shell_repo_proof(&none, true), Some("found shell scripts (shallow scan)"));
    assert_eq!(detect_shell_repo_proof(&none, false), None);
    assert_eq!(detect_c_cpp_repo_proof(&files(&[".clang-format"]), false), Some("found clang-format config (.clang-format)"));
    assert_eq!(detect_c_cpp_repo_proof(&none, true), Some("found C/C++ files (shallow scan)"));
    assert_eq!(detect_ruby_repo_proof(&none, false, true), Some("found Ruby source files (shallow scan)"));
    assert_eq!(detect_go_repo_proof(&none, true, false), Some("found nested Go module/work file (shallow scan)"));
    assert_eq!(detect_typescript_repo_proof(&none, true, true), Some("found nested tsconfig.json (shallow scan)"));
    assert_eq!(detect_typescript_repo_proof(&none, false, true), Some("found TypeScript source files (shallow scan)"));
    assert_eq!(detect_js_ts_repo_proof(&files(&["biome.json"]), true, true), Some("found biome.json/biome.jsonc"));
    assert_eq!(detect_js_ts_repo_proof(&files(&[".eslintrc"]), true, true), Some("found Prettier/ESLint config"));
    assert_eq!(detect_js_ts_repo_proof(&none, false, true), Some("found JS/TS source files (shallow scan)"));
}

#[test]
fn files_are_found_by_extension_whatever_the_case() {
    let mut tree = HashMap::new();
    tree.insert("/t".to_string(), vec![file_entry(".py"), file_entry("py"), file_entry("a.pyc"), dir_entry("src")]);
    tree.insert("/t/src".to_string(), vec![dir_entry("pkg")]);
    tree.insert("/t/src/pkg".to_string(), vec![file_entry("Main.PY")]);
    let search = |depth| has_any_file_with_ext_bounded(FsPath::parse("/t"), Language::Python.extensions(), depth, SEARCH_ENTRIES);
    assert!(run(search(EXTENSION_SEARCH_DEPTH), &tree));
    assert!(!run(search(1), &tree));
    assert!(!run(search(0), &tree));
    let cpp = has_any_file_with_ext_bounded(FsPath::parse("/t"), Language::CCpp.extensions(), 2, SEARCH_ENTRIES);
    assert!(!run(cpp, &tree));
}

#[test]
fn a_search_stays_out_of_skipped_directories_and_within_its_count() {
    let mut tree = HashMap::new();
    tree.insert("/t".to_string(), vec![dir_entry("node_modules"), dir_entry(".venv"), dir_entry("ok"), dir_entry("go.mod")]);
    tree.insert("/t/node_modules".to_string(), vec![file_entry("go.mod")]);
    tree.insert("/t/.venv".to_string(), vec![file_entry("go.mod")]);
    tree.insert("/t/go.mod".to_string(), vec![]);
    tree.insert("/t/ok".to_string(), vec![file_entry("x"), file_entry("go.sum")]);
    let search = |entries| has_any_file_named_bounded(FsPath::parse("/t"), Language::Go.signal_names(), 3, entries);
    assert!(run(search(SEARCH_ENTRIES), &tree));
    tree.insert("/t/ok".to_string(), vec![file_entry("x")]);
    assert!(!run(search(SEARCH_ENTRIES), &tree));
    tree.insert("/t/ok".to_string(), vec![file_entry("x"), file_entry("go.sum")]);
    assert!(!run(search(7), &tree));
    assert!(run(search(8), &tree));
}
