use git_hook_installer::managed_block::{
    disable_managed_block, ensure_shebang, find_block, uninstall_managed_block, upsert,
    upsert_managed_block, BlockError, MANAGED_BLOCK_BEGIN, MANAGED_BLOCK_END,
};
use git_hook_installer::types::ErrorKind;

fn lines(text: &[&str]) -> Vec<Vec<char>> {
    text.iter().map(|l| l.chars().collect()).collect()
}

#[test]
fn managed_block_upsert_managed_block_inserts_after_shebang_when_missing() {
    // arrange
    let existing = "#!/bin/sh\necho hi\n";
    let block = format!("{MANAGED_BLOCK_BEGIN}\nGHI_ENABLED=1\n{MANAGED_BLOCK_END}\n");

    // act
    let updated = upsert_managed_block(existing, &block).unwrap();

    // assert
    assert!(updated.starts_with("#!/bin/sh\n\n# >>> git-hook-installer managed block >>>"));
}

#[test]
fn managed_block_uninstall_managed_block_removes_only_the_managed_section() {
    // arrange
    let existing = "#!/bin/sh\n# >>> git-hook-installer managed block >>>\nGHI_ENABLED=1\n# <<< git-hook-installer managed block <<<\necho hi\n";

    // act
    let updated = uninstall_managed_block(existing).unwrap();

    // assert
    assert!(updated.contains("echo hi"));
    assert!(!updated.contains(MANAGED_BLOCK_BEGIN));
    assert_eq!(updated, "#!/bin/sh\necho hi\n");
}

#[test]
fn managed_block_disable_managed_block_sets_enabled_to_zero() {
    // arrange
    let existing = "#!/bin/sh\n# >>> git-hook-installer managed block >>>\nGHI_ENABLED=1\n# <<< git-hook-installer managed block <<<\n";

    // act
    let updated = disable_managed_block(existing).unwrap();

    // assert
    assert!(updated.contains("GHI_ENABLED=0\n"));
    assert_eq!(
        updated,
        "#!/bin/sh\n# >>> git-hook-installer managed block >>>\nGHI_ENABLED=0\n# <<< git-hook-installer managed block <<<\n"
    );
}

#[test]
fn upsert_into_missing_file_prepends_shebang() {
    assert_eq!(upsert(None, "X\n"), Ok("#!/bin/sh\nX\n".to_string()));
}

#[test]
fn upsert_into_unmanaged_hook_places_block_after_shebang_between_blank_lines() {
    let updated = upsert(Some("#!/bin/sh\necho hi\n"), "# >>> B >>>\nY\n# <<< B <<<\n").unwrap();
    assert_eq!(updated, "#!/bin/sh\n\n# >>> B >>>\nY\n# <<< B <<<\n\necho hi\n");
}

#[test]
fn upsert_without_shebang_puts_block_on_top_and_adds_shebang() {
    let block = format!("{MANAGED_BLOCK_BEGIN}\nGHI_ENABLED=1\n{MANAGED_BLOCK_END}\n");
    let updated = upsert_managed_block("echo hi\n", &block).unwrap();
    assert_eq!(
        updated,
        format!("#!/bin/sh\n{MANAGED_BLOCK_BEGIN}\nGHI_ENABLED=1\n{MANAGED_BLOCK_END}\n\necho hi\n")
    );
}

#[test]
fn upsert_replaces_block_in_place_and_keeps_surroundings() {
    let existing = format!(
        "#!/bin/bash\nbefore\n{MANAGED_BLOCK_BEGIN}\nold\nolder\n{MANAGED_BLOCK_END}\nafter\n"
    );
    let block = format!("{MANAGED_BLOCK_BEGIN}\nnew\n{MANAGED_BLOCK_END}\n");
    let updated = upsert_managed_block(&existing, &block).unwrap();
    assert_eq!(
        updated,
        format!("#!/bin/bash\nbefore\n{MANAGED_BLOCK_BEGIN}\nnew\n{MANAGED_BLOCK_END}\nafter\n")
    );
}

#[test]
fn upsert_twice_gives_the_same_text() {
    let block = format!("{MANAGED_BLOCK_BEGIN}\nGHI_ENABLED=1\n{MANAGED_BLOCK_END}\n");
    for existing in ["", "#!/bin/sh\necho hi\n", "echo hi", "a\r\nb\r\n", "#!/bin/zsh\n\nx\n"] {
        let once = upsert_managed_block(existing, &block).unwrap();
        let twice = upsert_managed_block(&once, &block).unwrap();
        assert_eq!(once, twice);
    }
    let created = upsert(None, &block).unwrap();
    assert_eq!(upsert(Some(&created), &block), Ok(created));
}

#[test]
fn upsert_normalizes_line_endings_to_newlines() {
    let block = format!("{MANAGED_BLOCK_BEGIN}\r\nGHI_ENABLED=1\r\n{MANAGED_BLOCK_END}\r\n");
    let updated = upsert_managed_block("#!/bin/sh\r\necho hi\r\n", &block).unwrap();
    assert_eq!(
        updated,
        format!(
            "#!/bin/sh\n\n{MANAGED_BLOCK_BEGIN}\nGHI_ENABLED=1\n{MANAGED_BLOCK_END}\n\necho hi\n"
        )
    );
}

#[test]
fn uninstall_after_create_leaves_only_the_shebang() {
    let block = format!("{MANAGED_BLOCK_BEGIN}\nGHI_ENABLED=1\n{MANAGED_BLOCK_END}\n");
    let created = upsert(None, &block).unwrap();
    assert_eq!(uninstall_managed_block(&created), Ok("#!/bin/sh\n".to_string()));
}

#[test]
fn disable_after_upsert_changes_exactly_the_flag_line() {
    let existing = format!("#!/bin/sh\nfirst\n{MANAGED_BLOCK_BEGIN}\nold\n{MANAGED_BLOCK_END}\nlast\n");
    let block = format!("{MANAGED_BLOCK_BEGIN}\n# note\nGHI_ENABLED=1\nrun\n{MANAGED_BLOCK_END}\n");
    let upserted = upsert_managed_block(&existing, &block).unwrap();
    let disabled = disable_managed_block(&upserted).unwrap();
    let before: Vec<&str> = upserted.lines().collect();
    let after: Vec<&str> = disabled.lines().collect();
    assert_eq!(before.len(), after.len());
    for i in 0..before.len() {
        if i == 4 {
            assert_eq!(before[i], "GHI_ENABLED=1");
            assert_eq!(after[i], "GHI_ENABLED=0");
        } else {
            assert_eq!(before[i], after[i]);
        }
    }
}

#[test]
fn disable_rewrites_indented_flag_line_and_leaves_lines_outside_the_block() {
    let existing = format!(
        "GHI_ENABLED=1\n{MANAGED_BLOCK_BEGIN}\n  GHI_ENABLED=1\n{MANAGED_BLOCK_END}\nGHI_ENABLED=1\n"
    );
    let disabled = disable_managed_block(&existing).unwrap();
    assert_eq!(
        disabled,
        format!("GHI_ENABLED=1\n{MANAGED_BLOCK_BEGIN}\nGHI_ENABLED=0\n{MANAGED_BLOCK_END}\nGHI_ENABLED=1\n")
    );
}

#[test]
fn disable_without_flag_line_is_malformed() {
    let existing = format!("{MANAGED_BLOCK_BEGIN}\nrun\n{MANAGED_BLOCK_END}\n");
    let err = disable_managed_block(&existing).unwrap_err();
    assert_eq!(err, BlockError::MissingEnabledFlag);
    assert_eq!(err.kind(), ErrorKind::Malformed);
    assert_eq!(err.message(), "Managed block found, but no GHI_ENABLED setting line was found");
}

#[test]
fn operations_that_need_a_block_report_its_absence() {
    assert_eq!(uninstall_managed_block("#!/bin/sh\necho hi\n"), Err(BlockError::NotFound));
    assert_eq!(disable_managed_block(""), Err(BlockError::NotFound));
    assert_eq!(BlockError::NotFound.kind(), ErrorKind::NotFound);
    assert_eq!(
        BlockError::NotFound.message(),
        "No managed git-hook-installer block found in pre-commit hook"
    );
}

#[test]
fn find_block_returns_the_first_pair() {
    let text = lines(&["a", MANAGED_BLOCK_BEGIN, "b", MANAGED_BLOCK_BEGIN, MANAGED_BLOCK_END, "c", MANAGED_BLOCK_END]);
    assert_eq!(find_block(&text), Ok(Some((1, 4))));
    assert_eq!(find_block(&lines(&["a", "b"])), Ok(None));
    assert_eq!(find_block(&lines(&[])), Ok(None));
}

#[test]
fn find_block_rejects_a_begin_marker_without_end() {
    let text = lines(&["a", MANAGED_BLOCK_BEGIN, "b"]);
    assert_eq!(find_block(&text), Err(BlockError::UnterminatedBlock));
    let existing = format!("{MANAGED_BLOCK_BEGIN}\nGHI_ENABLED=1\n");
    assert_eq!(uninstall_managed_block(&existing), Err(BlockError::UnterminatedBlock));
    assert_eq!(BlockError::UnterminatedBlock.kind(), ErrorKind::Malformed);
}

#[test]
fn find_block_rejects_an_end_marker_before_begin() {
    let text = lines(&[MANAGED_BLOCK_END, MANAGED_BLOCK_BEGIN, "b", MANAGED_BLOCK_END]);
    assert_eq!(find_block(&text), Err(BlockError::EndBeforeBegin));
    assert_eq!(find_block(&lines(&["x", MANAGED_BLOCK_END])), Err(BlockError::EndBeforeBegin));
    assert_eq!(
        BlockError::EndBeforeBegin.message(),
        "Invalid managed block markers in pre-commit hook"
    );
}

#[test]
fn markers_match_whole_lines_only() {
    let indented = format!(" {MANAGED_BLOCK_BEGIN}");
    let text = lines(&[&indented, "x"]);
    assert_eq!(find_block(&text), Ok(None));
}

#[test]
fn ensure_shebang_keeps_an_existing_interpreter_line() {
    assert_eq!(ensure_shebang("#!/usr/bin/env bash\nx\n"), "#!/usr/bin/env bash\nx\n");
    assert_eq!(ensure_shebang("x\n"), "#!/bin/sh\nx\n");
    assert_eq!(ensure_shebang(""), "#!/bin/sh\n");
    assert_eq!(ensure_shebang("#"), "#!/bin/sh\n#");
}

#[test]
fn upsert_refuses_markers_that_are_not_in_order() {
    let block = format!("{MANAGED_BLOCK_BEGIN}\nGHI_ENABLED=1\n{MANAGED_BLOCK_END}\n");
    let unterminated = format!("#!/bin/sh\n{MANAGED_BLOCK_BEGIN}\nGHI_ENABLED=1\n");
    assert_eq!(upsert_managed_block(&unterminated, &block), Err(BlockError::UnterminatedBlock));
    assert_eq!(upsert(Some(&unterminated), &block), Err(BlockError::UnterminatedBlock));
    let reversed = format!("{MANAGED_BLOCK_END}\nx\n{MANAGED_BLOCK_BEGIN}\n");
    assert_eq!(upsert_managed_block(&reversed, &block), Err(BlockError::EndBeforeBegin));
    let stray_end = format!("echo hi\n{MANAGED_BLOCK_END}\n");
    assert_eq!(upsert_managed_block(&stray_end, &block), Err(BlockError::EndBeforeBegin));
    assert_eq!(disable_managed_block(&reversed), Err(BlockError::EndBeforeBegin));
    assert_eq!(uninstall_managed_block(&stray_end), Err(BlockError::EndBeforeBegin));
}

#[test]
fn upsert_twice_differs_where_the_text_ends_in_empty_lines() {
    let block = format!("{MANAGED_BLOCK_BEGIN}\nGHI_ENABLED=1\n{MANAGED_BLOCK_END}\n");
    let existing = format!("#!/bin/sh\n{block}\n\n");
    let once = upsert_managed_block(&existing, &block).unwrap();
    let twice = upsert_managed_block(&once, &block).unwrap();
    assert_eq!(once, format!("#!/bin/sh\n{block}\n"));
    assert_eq!(twice, format!("#!/bin/sh\n{block}"));
    assert_eq!(upsert_managed_block(&twice, &block), Ok(twice));
}
