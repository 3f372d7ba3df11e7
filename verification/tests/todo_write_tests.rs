use petool_core::todo::{apply_todo_write, set_todos, TodoItem, TodoSetItem, TodoStatus, TodoWriteArgs};

fn args(action: &str) -> TodoWriteArgs {
    TodoWriteArgs { action: Some(action.to_string()), text: None, id: None, status: None, items: None }
}

fn fresh(n: usize) -> Vec<String> {
    (0..n).map(|i| format!("fresh-{}", i)).collect()
}

fn set_item(text: Option<&str>, id: Option<&str>, status: Option<&str>) -> TodoSetItem {
    TodoSetItem {
        text: text.map(str::to_string),
        id: id.map(str::to_string),
        status: status.map(str::to_string),
    }
}

#[test]
fn add_update_remove_clear() {
    let mut items: Vec<TodoItem> = Vec::new();
    let mut a = args(" add ");
    a.text = Some("  write tests ".to_string());
    a.status = Some("  ".to_string());
    assert_eq!(apply_todo_write(&mut items, &a, "t1", &fresh(1)).unwrap(), "add");
    assert_eq!(items.len(), 1);
    assert_eq!(items[0].id, "fresh-0");
    assert_eq!(items[0].text, "write tests");
    assert_eq!(items[0].status, TodoStatus::Pending);
    assert_eq!(items[0].created_at, "t1");

    let mut u = args("update");
    u.id = Some("fresh-0".to_string());
    u.status = Some(" Done ".to_string());
    assert_eq!(apply_todo_write(&mut items, &u, "t2", &fresh(1)).unwrap(), "update");
    assert_eq!(items[0].status, TodoStatus::Completed);
    assert_eq!(items[0].updated_at, "t2");
    assert_eq!(items[0].created_at, "t1");

    let mut bad = args("update");
    bad.id = Some("fresh-0".to_string());
    bad.text = Some("renamed".to_string());
    bad.status = Some("later".to_string());
    assert_eq!(apply_todo_write(&mut items, &bad, "t3", &fresh(1)).unwrap_err(), "Invalid TODO status: later");
    assert_eq!(items[0].text, "renamed");
    assert_eq!(items[0].updated_at, "t2");

    let mut missing = args("update");
    missing.id = Some("nope".to_string());
    assert_eq!(apply_todo_write(&mut items, &missing, "t4", &fresh(1)).unwrap_err(), "TODO item not found: nope");

    let mut r = args("remove");
    r.id = Some("nope".to_string());
    assert_eq!(apply_todo_write(&mut items, &r, "t5", &fresh(1)).unwrap_err(), "TODO item not found: nope");
    r.id = Some("fresh-0".to_string());
    assert_eq!(apply_todo_write(&mut items, &r, "t5", &fresh(1)).unwrap(), "remove");
    assert!(items.is_empty());

    let mut a2 = args("add");
    a2.text = Some("x".to_string());
    a2.id = Some(" mine ".to_string());
    apply_todo_write(&mut items, &a2, "t6", &fresh(1)).unwrap();
    assert_eq!(items[0].id, "mine");
    assert_eq!(apply_todo_write(&mut items, &args("clear"), "t7", &fresh(1)).unwrap(), "clear");
    assert!(items.is_empty());
}

#[test]
fn argument_errors_change_nothing() {
    let mut items: Vec<TodoItem> = Vec::new();
    let none = TodoWriteArgs { action: None, text: None, id: None, status: None, items: None };
    assert_eq!(apply_todo_write(&mut items, &none, "t", &fresh(1)).unwrap_err(), "'action' is required and cannot be empty");
    assert_eq!(apply_todo_write(&mut items, &args("add"), "t", &fresh(1)).unwrap_err(), "'text' is required and cannot be empty");
    assert_eq!(apply_todo_write(&mut items, &args("set"), "t", &fresh(1)).unwrap_err(), "'items' is required for action 'set'");
    assert_eq!(
        apply_todo_write(&mut items, &args("Add"), "t", &fresh(1)).unwrap_err(),
        "Unsupported action. Use add|set|update|remove|clear"
    );
    let mut bad = args("add");
    bad.text = Some("x".to_string());
    bad.status = Some("soon".to_string());
    assert_eq!(apply_todo_write(&mut items, &bad, "t", &fresh(1)).unwrap_err(), "Invalid TODO status: soon");
    assert!(items.is_empty());
}

#[test]
fn set_replaces_the_list_up_to_the_first_bad_item() {
    let mut items: Vec<TodoItem> = Vec::new();
    let raws = vec![
        set_item(Some(" a "), None, None),
        set_item(Some("b"), Some(" id-b "), Some("in-progress")),
        set_item(Some("  "), None, None),
        set_item(Some("d"), None, None),
    ];
    assert_eq!(set_todos(&mut items, &raws, &fresh(4), "now").unwrap_err(), "Each TODO item requires non-empty 'text'");
    assert_eq!(items.len(), 2);
    assert_eq!(items[0].id, "fresh-0");
    assert_eq!(items[0].text, "a");
    assert_eq!(items[1].id, "id-b");
    assert_eq!(items[1].status, TodoStatus::InProgress);

    let mut s = args("set");
    s.items = Some(vec![set_item(Some("only"), None, Some(""))]);
    assert_eq!(apply_todo_write(&mut items, &s, "now", &fresh(1)).unwrap_err(), "Invalid TODO status: ");
    assert!(items.is_empty());
    s.items = Some(vec![set_item(Some("only"), None, Some("pending"))]);
    assert_eq!(apply_todo_write(&mut items, &s, "now", &fresh(1)).unwrap(), "set");
    assert_eq!(items.len(), 1);
    assert_eq!(items[0].text, "only");
}
