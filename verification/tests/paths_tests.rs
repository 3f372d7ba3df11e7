use petool_core::paths::{check_workspace_dir, configured_workspace_dir, normalize_lexical_path, path_starts_with, resolve_workspace_target, PathPart};

fn n(s: &str) -> PathPart {
    PathPart::Normal(s.to_string())
}

fn names(parts: &[PathPart]) -> Vec<String> {
    parts
        .iter()
        .map(|p| match p {
            PathPart::Prefix(s) => format!("prefix:{}", s),
            PathPart::RootDir => "/".to_string(),
            PathPart::CurDir => ".".to_string(),
            PathPart::ParentDir => "..".to_string(),
            PathPart::Normal(s) => s.clone(),
        })
        .collect()
}

#[test]
fn lexical_normalisation() {
    let parts = vec![PathPart::RootDir, n("a"), PathPart::CurDir, n("b"), PathPart::ParentDir, n("c")];
    assert_eq!(names(&normalize_lexical_path(&parts)), vec!["/", "a", "c"]);
    let up = vec![PathPart::RootDir, PathPart::ParentDir, PathPart::ParentDir, n("x")];
    assert_eq!(names(&normalize_lexical_path(&up)), vec!["x"]);
}

#[test]
fn starts_with_compares_components() {
    let root = vec![PathPart::RootDir, n("ws")];
    assert!(path_starts_with(&vec![PathPart::RootDir, n("ws"), n("f")], &root));
    assert!(!path_starts_with(&vec![PathPart::RootDir, n("wsx")], &root));
    assert!(!path_starts_with(&vec![PathPart::RootDir], &root));
}

#[test]
fn workspace_targets() {
    let root = vec![PathPart::RootDir, n("ws")];
    let ok = resolve_workspace_target(&root, &vec![n("a"), n("new.txt")], false, None, true, "/ws/a/new.txt").unwrap();
    assert_eq!(names(&ok), vec!["/", "ws", "a", "new.txt"]);
    assert_eq!(
        resolve_workspace_target(&root, &vec![PathPart::ParentDir, n("etc")], false, None, true, "/ws/../etc").unwrap_err(),
        "Path is outside workspace root"
    );
    assert_eq!(
        resolve_workspace_target(&root, &vec![n("a")], false, None, false, "/ws/a").unwrap_err(),
        "Path does not exist: /ws/a"
    );
    let existing = vec![PathPart::RootDir, n("other")];
    assert_eq!(
        resolve_workspace_target(&root, &vec![n("link")], false, Some(existing), false, "/ws/link").unwrap_err(),
        "Path is outside workspace root"
    );
    let inside = vec![PathPart::RootDir, n("ws"), n("f")];
    assert_eq!(
        names(&resolve_workspace_target(&root, &vec![PathPart::RootDir, n("ws"), n("f")], true, Some(inside), false, "/ws/f").unwrap()),
        vec!["/", "ws", "f"]
    );
}

#[test]
fn workspace_directory_choice() {
    assert_eq!(configured_workspace_dir(&Some(" /cfg ".to_string()), &Some("  ".to_string())).unwrap(), "/cfg");
    assert_eq!(configured_workspace_dir(&Some("/cfg".to_string()), &Some(" /ov ".to_string())).unwrap(), "/ov");
    assert!(configured_workspace_dir(&None, &None).unwrap_err().starts_with("Workspace directory is not set."));
    assert!(check_workspace_dir("/x", true).is_ok());
    assert_eq!(
        check_workspace_dir("/x", false).unwrap_err(),
        "Configured work_directory does not exist or is not a directory: /x"
    );
}
