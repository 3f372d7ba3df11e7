use petool_core::patch::{apply_hunks_to_content, find_subsequence, parse_patch_envelope, PatchOperation};

fn lines(v: &[&str]) -> Vec<String> {
    v.iter().map(|s| s.to_string()).collect()
}

#[test]
fn find_subsequence_finds_first_match_from_start() {
    let hay = lines(&["a", "b", "c", "b", "c"]);
    assert_eq!(find_subsequence(&hay, &lines(&["b", "c"]), 0), Some(1));
    assert_eq!(find_subsequence(&hay, &lines(&["b", "c"]), 2), Some(3));
    assert_eq!(find_subsequence(&hay, &lines(&["b", "c"]), 4), None);
    assert_eq!(find_subsequence(&hay, &lines(&["x"]), 0), None);
    assert_eq!(find_subsequence(&hay, &[], 2), Some(2));
    assert_eq!(find_subsequence(&hay, &[], 9), Some(5));
    assert_eq!(find_subsequence(&lines(&["a"]), &lines(&["a", "b"]), 0), None);
}

#[test]
fn hunks_replace_context_and_keep_trailing_newline() {
    let content = "one\ntwo\nthree\n";
    let hunk = lines(&[" one", "-two", "+TWO", " three"]);
    assert_eq!(apply_hunks_to_content(content, &[hunk]).unwrap(), "one\nTWO\nthree\n");
    let no_newline = "one\ntwo";
    let hunk2 = lines(&["-two", "+2"]);
    assert_eq!(apply_hunks_to_content(no_newline, &[hunk2]).unwrap(), "one\n2");
}

#[test]
fn hunk_that_does_not_match_is_an_error() {
    let err = apply_hunks_to_content("a\nb\n", &[lines(&["-zzz"])]).unwrap_err();
    assert_eq!(err, "Failed to locate hunk context in file");
}

#[test]
fn later_hunks_search_after_earlier_ones_then_from_start() {
    let content = "x\ny\nx\ny\n";
    let hunks = vec![lines(&["-x", "+X1"]), lines(&["-x", "+X2"])];
    assert_eq!(apply_hunks_to_content(content, &hunks).unwrap(), "X1\ny\nX2\ny\n");
    let back = vec![lines(&["-y", "+Y"]), lines(&["-x", "+A"])];
    assert_eq!(apply_hunks_to_content("x\ny\n", &back).unwrap(), "A\nY\n");
}

#[test]
fn no_hunks_give_the_text_back() {
    for text in ["", "a", "a\n", "a\n\nb\n\n", "\n"] {
        assert_eq!(apply_hunks_to_content(text, &[]).unwrap(), text);
    }
    assert_eq!(apply_hunks_to_content("a\r\nb\r\n", &[]).unwrap(), "a\nb\n");
}

#[test]
fn context_only_hunk_changes_nothing() {
    let content = "a\nb\nc\n";
    assert_eq!(apply_hunks_to_content(content, &[lines(&[" b", " c"])]).unwrap(), content);
}

#[test]
fn envelope_with_all_operations_parses() {
    let patch = "*** Begin Patch\n*** Add File: new.txt\n+hello\n+world\n*** Delete File:  old.txt \n*** Update File: a.rs\n*** Move to: b.rs\n@@\n-x\n+y\n@@ second\n z\n*** End Patch\n";
    let ops = parse_patch_envelope(patch).unwrap();
    assert_eq!(ops.len(), 3);
    match &ops[0] {
        PatchOperation::Add { path, lines } => {
            assert_eq!(path, "new.txt");
            assert_eq!(lines, &vec!["hello".to_string(), "world".to_string()]);
        }
        _ => panic!("expected add"),
    }
    match &ops[1] {
        PatchOperation::Delete { path } => assert_eq!(path, "old.txt"),
        _ => panic!("expected delete"),
    }
    match &ops[2] {
        PatchOperation::Update { path, move_to, hunks } => {
            assert_eq!(path, "a.rs");
            assert_eq!(move_to.as_deref(), Some("b.rs"));
            assert_eq!(hunks.len(), 2);
            assert_eq!(hunks[0], vec!["-x".to_string(), "+y".to_string()]);
            assert_eq!(hunks[1], vec![" z".to_string()]);
        }
        _ => panic!("expected update"),
    }
}

#[test]
fn envelope_errors_name_the_problem() {
    assert_eq!(parse_patch_envelope("hello").unwrap_err(), "Patch must start with '*** Begin Patch'");
    assert_eq!(parse_patch_envelope("").unwrap_err(), "Patch must start with '*** Begin Patch'");
    assert_eq!(
        parse_patch_envelope("*** Begin Patch\n*** Delete File: a").unwrap_err(),
        "Patch is missing '*** End Patch'"
    );
    assert_eq!(
        parse_patch_envelope("*** Begin Patch\n*** Add File: a\nx\n*** End Patch").unwrap_err(),
        "Add file operation expects '+' lines, found: x"
    );
    assert_eq!(
        parse_patch_envelope("*** Begin Patch\n*** Update File: a\nfoo\n*** End Patch").unwrap_err(),
        "Expected hunk header '@@', got: foo"
    );
    assert_eq!(
        parse_patch_envelope("*** Begin Patch\n*** Update File: a\n@@\n?bad\n*** End Patch").unwrap_err(),
        "Invalid hunk line prefix: ?bad"
    );
    assert_eq!(
        parse_patch_envelope("*** Begin Patch\nwhat\n*** End Patch").unwrap_err(),
        "Unknown patch operation: what"
    );
}

#[test]
fn added_files_end_with_a_newline() {
    let lines = vec!["a".to_string(), "b".to_string()];
    assert_eq!(petool_core::patch::added_file_content(&lines), "a\nb\n");
    assert_eq!(petool_core::patch::added_file_content(&[]), "");
    assert_eq!(
        petool_core::patch::check_add_target("x.txt", true).err().unwrap(),
        "Cannot add file that already exists: x.txt"
    );
    assert!(petool_core::patch::check_add_target("x.txt", false).is_ok());
    assert_eq!(
        petool_core::patch::check_delete_target("y.txt", false).err().unwrap(),
        "Cannot delete missing file: y.txt"
    );
    assert!(petool_core::patch::check_delete_target("y.txt", true).is_ok());
}
