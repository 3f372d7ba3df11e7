use petool_core::workspace_tools::{
    build_search_regex, code_search_text, edit_file_content, grep_lines, is_symbol_source, listing_order,
    not_a_directory, not_a_file, read_file_window, search_plan, symbols_in_text, SearchArgs, SearchTool,
};

fn args(pattern: Option<&str>) -> SearchArgs {
    SearchArgs {
        pattern: pattern.map(str::to_string),
        path: None,
        glob: None,
        max_results: None,
        context_lines: None,
        file_max_bytes: None,
    }
}

#[test]
fn edits_replace_first_or_all() {
    assert_eq!(edit_file_content("a-b-a", "a", "x", false).unwrap(), "x-b-a");
    assert_eq!(edit_file_content("a-b-a", "a", "x", true).unwrap(), "x-b-x");
    assert_eq!(edit_file_content("abc", "zz", "x", true).unwrap_err(), "No matching content found to edit");
    assert_eq!(edit_file_content("abc", "b", "b", false).unwrap_err(), "No matching content found to edit");
}

#[test]
fn read_windows() {
    let bytes = b"one\ntwo\nthree\n";
    let w = read_file_window(bytes, 0, 200_000, None);
    assert_eq!((w.content.as_str(), w.start, w.end, w.total_bytes, w.truncated), ("one\ntwo\nthree\n", 0, 14, 14, false));
    let w = read_file_window(bytes, 4, 3, None);
    assert_eq!((w.content.as_str(), w.start, w.end, w.truncated), ("two", 4, 7, true));
    let w = read_file_window(bytes, 0, 100, Some(2));
    assert_eq!((w.content.as_str(), w.truncated), ("one\ntwo", true));
    let w = read_file_window(bytes, 99, 5, None);
    assert_eq!((w.content.as_str(), w.start, w.end), ("", 14, 14));
    let w = read_file_window(&[0xff, b'a'], 0, 10, None);
    assert_eq!(w.content, "\u{fffd}a");
}

#[test]
fn listings_put_directories_first() {
    let entries = vec![
        (false, "b.txt".to_string()),
        (true, "src".to_string()),
        (false, "a.txt".to_string()),
        (true, "docs".to_string()),
    ];
    assert_eq!(listing_order(&entries), vec![3, 1, 2, 0]);
}

#[test]
fn search_expressions() {
    assert_eq!(build_search_regex("a.b", false, true).unwrap(), "a\\.b");
    assert_eq!(build_search_regex("a.b", true, true).unwrap(), "a.b");
    assert!(build_search_regex("(", true, false).unwrap_err().starts_with("Invalid search pattern: "));
}

#[test]
fn grep_reports_matching_lines() {
    let text = "Alpha\nbeta\nALPHABET\r\ngamma";
    let hits = grep_lines(text, "alpha", true, 10);
    let got: Vec<(usize, &str)> = hits.iter().map(|h| (h.line_number, h.line.as_str())).collect();
    assert_eq!(got, vec![(1, "Alpha"), (3, "ALPHABET")]);
    assert_eq!(grep_lines(text, "alpha", false, 10).len(), 0);
    assert_eq!(grep_lines(text, "a", true, 2).len(), 2);
    assert_eq!(grep_lines(text, "a", true, 0).len(), 0);
}

#[test]
fn code_search_snippets() {
    let text = "l1\nl2\nneedle\nl4\nl5";
    let hits = code_search_text(text, "NEEDLE", 1, 10);
    assert_eq!(hits.len(), 1);
    assert_eq!(hits[0].line_number, 3);
    assert_eq!(hits[0].snippet, "2: l2\n3: needle\n4: l4");
    let edge = code_search_text("needle\nx", "needle", 5, 10);
    assert_eq!(edge[0].snippet, "1: needle\n2: x");
}

#[test]
fn symbols_are_found() {
    let text = "pub async fn load_config() {}\nclass Widget:\nexport interface Props {}\n  fn helper() {}\nstruct Point;";
    let all = symbols_in_text(text, "", 100);
    let got: Vec<(&str, &str, usize)> = all.iter().map(|s| (s.name.as_str(), s.kind.as_str(), s.line_number)).collect();
    assert_eq!(
        got,
        vec![
            ("load_config", "function", 1),
            ("Widget", "class", 2),
            ("Props", "type", 3),
            ("helper", "function", 4),
            ("Point", "type", 5),
        ]
    );
    assert_eq!(symbols_in_text(text, "o", 100).len(), 3);
    assert_eq!(symbols_in_text(text, "", 2).len(), 2);
    assert!(is_symbol_source("RS"));
    assert!(!is_symbol_source("md"));
}

#[test]
fn search_plans() {
    let p = search_plan(SearchTool::Grep, &args(Some(" foo "))).unwrap();
    assert_eq!((p.pattern.as_str(), p.path.as_str(), p.max_results, p.context_lines, p.file_max_bytes), ("foo", ".", 200, 2, 2_000_000));
    assert_eq!(search_plan(SearchTool::CodeSearch, &args(None)).unwrap_err(), "'query' is required and cannot be empty");
    assert_eq!(search_plan(SearchTool::Glob, &args(Some(" "))).unwrap_err(), "'pattern' is required and cannot be empty");
    let mut a = args(Some(" MyType "));
    a.max_results = Some(99_999);
    a.context_lines = Some(50);
    let p = search_plan(SearchTool::Symbols, &a).unwrap();
    assert_eq!((p.pattern.as_str(), p.max_results, p.context_lines), ("mytype", 2_000, 20));
    assert_eq!(search_plan(SearchTool::Symbols, &args(None)).unwrap().pattern, "");
    assert_eq!(not_a_directory("/x"), "Not a directory: /x");
    assert_eq!(not_a_file("/x"), "Not a file: /x");
}

#[test]
fn glob_filter_keeps_matching_paths_in_order() {
    let paths: Vec<String> = ["src/main.rs", "README.md", "src/lib.rs", "docs/a.md"].iter().map(|s| s.to_string()).collect();
    assert_eq!(petool_core::workspace_tools::glob_filter("**/*.rs", &paths, 10).unwrap(), vec![0, 2]);
    assert_eq!(petool_core::workspace_tools::glob_filter("*.md", &paths, 10).unwrap(), vec![1, 3]);
    assert_eq!(petool_core::workspace_tools::glob_filter("**/*", &paths, 3).unwrap(), vec![0, 1, 2]);
    let err = petool_core::workspace_tools::glob_filter("a[", &paths, 10).err().unwrap();
    assert!(err.starts_with("Invalid glob 'a[': "));
}
