use petool_core::process::{
    append_process_output, background_process_invocation, command_timeout_message, process_read_max_chars,
    run_command_invocation, run_command_plan, unknown_process_message, ProcessRecord, ProcessTable,
};

fn record(id: &str, command: &str, pid: u32) -> ProcessRecord {
    ProcessRecord { id: id.to_string(), command: command.to_string(), started_at: "2024-01-01T00:00:00+00:00".to_string(), pid }
}

#[test]
fn run_command_uses_platform_shell() {
    let w = run_command_invocation("dir", true);
    assert_eq!(w.program, "powershell");
    assert_eq!(w.args, vec!["-NoProfile", "-Command", "dir"]);
    let u = run_command_invocation("ls -la", false);
    assert_eq!(u.program, "sh");
    assert_eq!(u.args, vec!["-lc", "ls -la"]);
}

#[test]
fn background_process_switches_console_to_utf8_on_windows() {
    let w = background_process_invocation("npm run dev", true);
    assert_eq!(w.program, "powershell");
    assert_eq!(w.args.len(), 4);
    assert_eq!(&w.args[..3], &["-NoProfile", "-NonInteractive", "-Command"]);
    assert!(w.args[3].starts_with("$OutputEncoding = [Console]::OutputEncoding"));
    assert!(w.args[3].ends_with("chcp 65001 > $null; npm run dev"));
    let u = background_process_invocation("npm run dev", false);
    assert_eq!(u.args, vec!["-lc", "npm run dev"]);
}

#[test]
fn run_command_arguments() {
    let err = run_command_plan(&Some("   ".to_string()), None).err().unwrap();
    assert_eq!(err, "'command' is required");
    assert!(run_command_plan(&None, None).is_err());
    let p = run_command_plan(&Some(" echo hi ".to_string()), None).unwrap();
    assert_eq!(p.command, "echo hi");
    assert_eq!(p.timeout_ms, 20_000);
    assert_eq!(run_command_plan(&Some("x".to_string()), Some(5)).unwrap().timeout_ms, 1_000);
    assert_eq!(run_command_plan(&Some("x".to_string()), Some(999_999)).unwrap().timeout_ms, 120_000);
    assert_eq!(command_timeout_message(1500), "Command timed out after 1500 ms");
}

#[test]
fn process_read_budget_and_output_tail() {
    assert_eq!(process_read_max_chars(None), 10_000);
    assert_eq!(process_read_max_chars(Some(1)), 200);
    assert_eq!(process_read_max_chars(Some(1_000_000)), 200_000);
    let mut buffer = "abc".to_string();
    append_process_output(&mut buffer, "def\n");
    assert_eq!(buffer, "abcdef\n");
    let mut big = "x".repeat(200_000);
    append_process_output(&mut big, "yz");
    assert_eq!(big.chars().count(), 200_000);
    assert!(big.ends_with("xyz"));
    assert_eq!(unknown_process_message("p1"), "Unknown process id: p1");
}

#[test]
fn process_table_files_finds_and_removes() {
    let mut table = ProcessTable::new();
    table.insert(record("a", "sleep 1", 10));
    table.insert(record("b", "sleep 2", 11));
    assert_eq!(table.records().len(), 2);
    assert_eq!(table.position("b"), Some(1));
    table.insert(record("a", "sleep 3", 12));
    assert_eq!(table.records().len(), 2);
    assert_eq!(table.records()[0].command, "sleep 3");
    let removed = table.remove("a").unwrap();
    assert_eq!(removed.pid, 12);
    assert_eq!(table.position("a"), None);
    assert!(table.remove("a").is_none());
    assert_eq!(table.records().len(), 1);
    assert_eq!(table.records()[0].id, "b");
}
