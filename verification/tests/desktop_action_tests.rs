use petool_core::desktop::{ControlSnapshot, DesktopRect, WindowSnapshot};
use petool_core::desktop_actions::{
    find_window_by_title, screenshots_to_remove, ScreenshotFile,
    is_browser_launch_request, list_application_windows, looks_like_browser_target, parse_hwnd_id,
    parse_i64, parse_usize, plan_launch, read_control_id, read_field_list, read_keyboard_sequence,
    resolve_control, resolve_window_target, select_application_window_target, sort_texts,
    summarize_control_ids, summarize_sorted_ids, trim_to_non_empty, unsupported_action_message,
    wheel_distance, LaunchPlan, WindowTarget,
};

fn chars(s: &str) -> Vec<char> {
    s.chars().collect()
}

fn rect() -> DesktopRect {
    DesktopRect { left: 0, top: 0, right: 10, bottom: 10 }
}

fn window(title: &str, class_name: &str, hwnd: i64) -> WindowSnapshot {
    WindowSnapshot {
        id: hwnd.to_string(),
        title: title.to_string(),
        class_name: class_name.to_string(),
        process_id: 1,
        rect: rect(),
        is_visible: true,
        is_active: false,
        hwnd,
    }
}

fn control(id: &str, name: &str) -> ControlSnapshot {
    ControlSnapshot {
        id: id.to_string(),
        name: name.to_string(),
        class_name: "Button".to_string(),
        rect: rect(),
        parent_window_id: "1".to_string(),
        hwnd: 7,
    }
}

#[test]
fn integers_parse_like_str_parse() {
    assert_eq!(parse_i64(&chars("42")), Some(42));
    assert_eq!(parse_i64(&chars("-9223372036854775808")), Some(i64::MIN));
    assert_eq!(parse_i64(&chars("9223372036854775808")), None);
    assert_eq!(parse_i64(&chars("+7")), Some(7));
    assert_eq!(parse_i64(&chars("-")), None);
    assert_eq!(parse_i64(&chars("1a")), None);
    assert_eq!(parse_usize(&chars("-1")), None);
    assert_eq!(parse_usize(&chars("12")), Some(12));
}

#[test]
fn window_ids_accept_the_hwnd_prefix() {
    assert_eq!(parse_hwnd_id(" hwnd: 1234 "), Some(1234));
    assert_eq!(parse_hwnd_id("5678"), Some(5678));
    assert_eq!(parse_hwnd_id("   "), None);
    assert_eq!(parse_hwnd_id("notepad"), None);
}

#[test]
fn window_target_priority() {
    assert!(matches!(resolve_window_target(Some("hwnd:9"), Some(1), None, Some(2)), Ok(WindowTarget::Hwnd(9))));
    assert_eq!(
        resolve_window_target(Some("abc"), None, None, None).unwrap_err(),
        "Invalid window id: abc"
    );
    assert!(matches!(resolve_window_target(None, Some(1), Some("x"), Some(2)), Ok(WindowTarget::Hwnd(1))));
    match resolve_window_target(None, None, Some("  Notepad "), Some(2)) {
        Ok(WindowTarget::TitleContains(t)) => assert_eq!(t, "Notepad"),
        other => panic!("unexpected {:?}", other),
    }
    assert!(matches!(resolve_window_target(None, None, Some("  "), Some(2)), Ok(WindowTarget::Hwnd(2))));
    assert_eq!(
        resolve_window_target(None, None, None, None).unwrap_err(),
        "No selected window. Call action=select_window first"
    );
}

#[test]
fn application_windows_skip_unnamed_ones() {
    let ws = vec![window("A", "", 1), window(" ", "  ", 2), window("", "Cls", 3)];
    assert_eq!(list_application_windows(&ws, true), vec![0, 2]);
    assert_eq!(list_application_windows(&ws, false), vec![0, 1, 2]);
}

#[test]
fn application_window_selection() {
    let hwnds = vec![100, 200];
    assert_eq!(select_application_window_target(Some(-5), None, None, &hwnds).unwrap(), ("-5".to_string(), -5));
    assert_eq!(
        select_application_window_target(None, Some("hwnd:300".to_string()), None, &hwnds).unwrap(),
        ("hwnd:300".to_string(), 300)
    );
    assert_eq!(
        select_application_window_target(None, Some("x".to_string()), None, &hwnds).unwrap_err(),
        "Invalid window_id: x"
    );
    assert_eq!(select_application_window_target(None, None, Some("2".to_string()), &hwnds).unwrap(), ("2".to_string(), 200));
    assert_eq!(select_application_window_target(None, None, Some("77".to_string()), &hwnds).unwrap(), ("77".to_string(), 77));
    assert_eq!(
        select_application_window_target(None, None, Some("zz".to_string()), &hwnds).unwrap_err(),
        "Invalid application window id: zz"
    );
    assert_eq!(
        select_application_window_target(None, None, None, &hwnds).unwrap_err(),
        "'id', 'window_id', or 'hwnd' is required"
    );
}

#[test]
fn browser_targets_are_recognised() {
    assert!(looks_like_browser_target("chrome"));
    assert!(looks_like_browser_target("\"C:\\Program Files\\Google\\Chrome\\Application\\chrome.exe\""));
    assert!(looks_like_browser_target("cmd /c start chrome https://example.com"));
    assert!(!looks_like_browser_target("https://example.com"));
    assert!(!looks_like_browser_target("notepad.exe"));
    let targets = vec![Some("notepad".to_string()), None];
    assert!(!is_browser_launch_request(&targets, None));
    let args = vec!["--new".to_string(), "MSEdge.exe".to_string()];
    assert!(is_browser_launch_request(&targets, Some(&args)));
}

#[test]
fn launch_plans() {
    let commands = vec![None, Some("notepad.exe".to_string())];
    match plan_launch(false, None, &commands, vec!["a.txt".to_string()]).unwrap() {
        LaunchPlan::Program(p, a) => {
            assert_eq!(p, "notepad.exe");
            assert_eq!(a, vec!["a.txt".to_string()]);
        }
        other => panic!("unexpected {:?}", other),
    }
    match plan_launch(false, Some("ls".to_string()), &commands, Vec::new()).unwrap() {
        LaunchPlan::Script(s) => assert_eq!(s, "ls"),
        other => panic!("unexpected {:?}", other),
    }
    assert!(plan_launch(true, None, &commands, Vec::new()).unwrap_err().starts_with("Browser operations must use tool=browser"));
    assert!(plan_launch(false, None, &vec![None], Vec::new()).unwrap_err().starts_with("'command' is required"));
}

#[test]
fn keyboard_and_wheel_arguments() {
    assert_eq!(read_keyboard_sequence(Some("^a"), Some("x")), ("^a".to_string(), None));
    let (keys, note) = read_keyboard_sequence(None, Some("hello"));
    assert_eq!(keys, "hello");
    assert_eq!(note.as_deref(), Some("Compat: params.text was used as keyboard_input.keys."));
    let (keys, note) = read_keyboard_sequence(None, None);
    assert_eq!(keys, "");
    assert!(note.unwrap().starts_with("Warning:"));
    assert_eq!(wheel_distance(None), -3);
    assert_eq!(wheel_distance(Some(500)), 200);
    assert_eq!(wheel_distance(Some(-900)), -200);
    assert_eq!(wheel_distance(Some(5)), 5);
}

#[test]
fn small_text_helpers() {
    assert_eq!(unsupported_action_message("fly"), "Unsupported desktop action: fly");
    assert_eq!(trim_to_non_empty("  value \n".to_string()), "value");
    let items = vec![Some(" a ".to_string()), None, Some("  ".to_string()), Some("b".to_string())];
    assert_eq!(read_field_list(Some(&items)), Some(vec!["a".to_string(), "b".to_string()]));
    assert_eq!(read_field_list(Some(&vec![None])), None);
    assert_eq!(read_field_list(None), None);
}

#[test]
fn texts_sort_by_character() {
    let sorted = sort_texts(vec![chars("b"), chars("a10"), chars("a2"), chars("a")]);
    let back: Vec<String> = sorted.iter().map(|v| v.iter().collect()).collect();
    assert_eq!(back, vec!["a", "a10", "a2", "b"]);
}

#[test]
fn control_id_summaries() {
    assert_eq!(summarize_sorted_ids(Vec::new()), "[]");
    assert_eq!(summarize_sorted_ids(vec![chars("1"), chars("2")]), "[1, 2]");
    let controls = vec![control("b", ""), control("a", "")];
    assert_eq!(summarize_control_ids(&controls), "[a, b]");
    let many: Vec<ControlSnapshot> = (0..25).map(|i| control(&format!("c{:02}", i), "")).collect();
    let summary = summarize_control_ids(&many);
    assert!(summary.starts_with("[c00, c01"));
    assert!(summary.ends_with("c19, ...]"));
}

#[test]
fn control_ids_are_read_from_text_or_number() {
    assert_eq!(read_control_id(Some(" 12 "), None).as_deref(), Some("12"));
    assert_eq!(read_control_id(Some("  "), None), None);
    assert_eq!(read_control_id(None, Some(34)).as_deref(), Some("34"));
    assert_eq!(read_control_id(None, Some(0)), None);
}

#[test]
fn controls_resolve_by_id() {
    let controls = vec![control("1", "OK"), control("2", "Cancel"), control("2", "Other")];
    let found = resolve_control(Some("2"), None, Some(" Cancel "), &controls).unwrap();
    assert_eq!(found.control.name, "Cancel");
    assert_eq!(found.requested_name.as_deref(), Some("Cancel"));
    assert!(found.name_verified);
    let unnamed = resolve_control(None, Some(1), None, &controls).unwrap();
    assert!(!unnamed.name_verified);
    assert!(unnamed.requested_name.is_none());
    assert_eq!(
        resolve_control(Some("9"), None, None, &controls).err().unwrap(),
        "Control with id '9' not found. Available ids: [1, 2, 2]"
    );
    assert_eq!(
        resolve_control(None, None, None, &controls).err().unwrap(),
        "Control id is required. Provide params.control_id or params.id."
    );
}

#[test]
fn screenshots_removed_are_the_oldest_pngs() {
    let f = |ext: Option<&str>, t: u128| ScreenshotFile { extension: ext.map(str::to_string), modified_nanos: t };
    let files = vec![f(Some("png"), 30), f(Some("txt"), 1), f(Some("PNG"), 10), f(None, 0), f(Some("png"), 10), f(Some("png"), 40)];
    assert_eq!(screenshots_to_remove(&files, 2), vec![2, 4]);
    assert_eq!(screenshots_to_remove(&files, 4), Vec::<usize>::new());
    assert_eq!(screenshots_to_remove(&files, 0), vec![2, 4, 0, 5]);
}

#[test]
fn windows_are_found_by_title() {
    let ws = vec![window("Untitled - Notepad", "", 11), window("ÄRGER Editor", "", 12)];
    assert_eq!(find_window_by_title(&ws, "notepad"), Ok(11));
    assert_eq!(find_window_by_title(&ws, "ärger"), Ok(12));
    assert_eq!(
        find_window_by_title(&ws, "Word"),
        Err("No window matched title_contains='Word'".to_string())
    );
}
