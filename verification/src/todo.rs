//! The per-conversation TODO list of the `todo_write` and `todo_read`
//! tools, and the reading of tool arguments.
//!
//! A tool's arguments arrive as a JSON object; the caller hands each
//! function here the field it reads (the string, flag or number when the
//! field has that type, else nothing).

use vstd::prelude::*;
use crate::text::{
    chars_of, string_of, owned, push_all, trim_seq, lower_seq, trim_chars, lower_chars,
    str_eq, trimmed_present, opt_view, trim_present,
};

verus! {

pub open spec fn required_message(key: Seq<char>) -> Seq<char> {
    "'"@ + key + "' is required and cannot be empty"@
}

pub open spec fn str_opt_view(o: Option<&str>) -> Option<Seq<char>> {
    match o {
        Some(s) => Some(s@),
        None => None,
    }
}

/// A required string argument: the field trimmed, or an error naming the
/// key when it is absent, not a string or blank.
pub fn read_string_argument(raw: Option<&str>, key: &str) -> (r: Result<String, String>)
    ensures
        match raw {
            Some(v) => if trim_seq(v@).len() > 0 {
                r matches Ok(s) && s@ == trim_seq(v@)
            } else {
                r matches Err(e) && e@ == required_message(key@)
            },
            None => r matches Err(e) && e@ == required_message(key@),
        },
{
    if let Some(v) = raw {
        let cs = chars_of(v);
        let t = trim_chars(cs.as_slice());
        if t.len() > 0 {
            return Ok(string_of(t.as_slice()));
        }
    }
    let mut msg = chars_of("'");
    let k = chars_of(key);
    push_all(&mut msg, k.as_slice());
    let tail = chars_of("' is required and cannot be empty");
    push_all(&mut msg, tail.as_slice());
    Err(string_of(msg.as_slice()))
}

/// An optional string argument: the field trimmed, unless absent or blank.
pub fn read_optional_string_argument(raw: Option<&str>) -> (r: Option<String>)
    ensures
        match raw {
            Some(v) => if trim_seq(v@).len() > 0 {
                r matches Some(s) && s@ == trim_seq(v@)
            } else {
                r is None
            },
            None => r is None,
        },
{
    match raw {
        Some(v) => {
            let cs = chars_of(v);
            let t = trim_chars(cs.as_slice());
            if t.len() > 0 {
                Some(string_of(t.as_slice()))
            } else {
                None
            }
        },
        None => None,
    }
}

/// A flag argument, or its default.
pub fn read_bool_argument(raw: Option<bool>, default_value: bool) -> (r: bool)
    ensures
        r == match raw {
            Some(b) => b,
            None => default_value,
        },
{
    match raw {
        Some(b) => b,
        None => default_value,
    }
}

/// A non-negative integer argument, or its default.
pub fn read_u64_argument(raw: Option<u64>, default_value: u64) -> (r: u64)
    ensures
        r == match raw {
            Some(n) => n,
            None => default_value,
        },
{
    match raw {
        Some(n) => n,
        None => default_value,
    }
}

/// The state of a TODO item.
#[derive(Debug, Clone, Copy, PartialEq, Eq, Structural)]
pub enum TodoStatus {
    Pending,
    InProgress,
    Completed,
}

/// One TODO item.
#[derive(Debug, Clone)]
pub struct TodoItem {
    pub id: String,
    pub text: String,
    pub status: TodoStatus,
    pub created_at: String,
    pub updated_at: String,
}

/// The status a name stands for, after trimming and ASCII lowercasing.
pub open spec fn status_named(n: Seq<char>) -> Option<TodoStatus> {
    if n == "pending"@ {
        Some(TodoStatus::Pending)
    } else if n == "in_progress"@ || n == "inprogress"@ || n == "in-progress"@ {
        Some(TodoStatus::InProgress)
    } else if n == "completed"@ || n == "done"@ {
        Some(TodoStatus::Completed)
    } else {
        None
    }
}

pub open spec fn invalid_status_message(value: Seq<char>) -> Seq<char> {
    "Invalid TODO status: "@ + value
}

/// Reads a TODO status: absent means pending; otherwise one of `pending`,
/// `in_progress` (also `inprogress`, `in-progress`), `completed` (also
/// `done`), in any ASCII case and with surrounding whitespace.
pub fn parse_todo_status(status: Option<&str>) -> (r: Result<TodoStatus, String>)
    ensures
        match status {
            None => r == Ok::<TodoStatus, String>(TodoStatus::Pending),
            Some(v) => match status_named(lower_seq(trim_seq(v@))) {
                Some(st) => r matches Ok(x) && x == st,
                None => r matches Err(e) && e@ == invalid_status_message(v@),
            },
        },
{
    let value = match status {
        None => {
            return Ok(TodoStatus::Pending);
        },
        Some(v) => v,
    };
    let cs = chars_of(value);
    let t = trim_chars(cs.as_slice());
    let n = lower_chars(t.as_slice());
    let s = string_of(n.as_slice());
    if str_eq(s.as_str(), "pending") {
        Ok(TodoStatus::Pending)
    } else if str_eq(s.as_str(), "in_progress") || str_eq(s.as_str(), "inprogress") || str_eq(s.as_str(), "in-progress") {
        Ok(TodoStatus::InProgress)
    } else if str_eq(s.as_str(), "completed") || str_eq(s.as_str(), "done") {
        Ok(TodoStatus::Completed)
    } else {
        let mut msg = chars_of("Invalid TODO status: ");
        push_all(&mut msg, cs.as_slice());
        Err(string_of(msg.as_slice()))
    }
}

/// Adds an item at the end of the list, created and updated at `now`.
pub fn add_todo(items: &mut Vec<TodoItem>, id: String, text: String, status: TodoStatus, now: &str)
    ensures
        final(items)@.len() == old(items)@.len() + 1,
        final(items)@.drop_last() == old(items)@,
        final(items)@.last().id == id,
        final(items)@.last().text == text,
        final(items)@.last().status == status,
        final(items)@.last().created_at@ == now@,
        final(items)@.last().updated_at@ == now@,
{
    let ghost before = items@;
    items.push(TodoItem { id, text, status, created_at: owned(now), updated_at: owned(now) });
    assert(items@.drop_last() =~= before);
}

pub open spec fn not_found_message(id: Seq<char>) -> Seq<char> {
    "TODO item not found: "@ + id
}

/// The position of the first item with this id.
pub open spec fn first_with_id(items: Seq<TodoItem>, id: Seq<char>) -> Option<int> {
    if exists|i: int| 0 <= i < items.len() && items[i].id@ == id {
        Some(choose|i: int| 0 <= i < items.len() && items[i].id@ == id && forall|j: int| 0 <= j < i ==> items[j].id@ != id)
    } else {
        None
    }
}

/// Changes the first item with the id: its text and status where given,
/// and its update time. Fails, changing nothing, when no item has the id.
pub fn update_todo(items: &mut Vec<TodoItem>, id: &str, text: Option<String>, status: Option<TodoStatus>, now: &str) -> (r: Result<(), String>)
    ensures
        match r {
            Ok(()) => exists|i: int| 0 <= i < old(items)@.len() && old(items)@[i].id@ == id@
                && (forall|j: int| 0 <= j < i ==> old(items)@[j].id@ != id@)
                && final(items)@ == old(items)@.update(i, TodoItem {
                    id: old(items)@[i].id,
                    text: match text { Some(t) => t, None => old(items)@[i].text },
                    status: match status { Some(s) => s, None => old(items)@[i].status },
                    created_at: old(items)@[i].created_at,
                    updated_at: final(items)@[i].updated_at,
                })
                && final(items)@[i].updated_at@ == now@,
            Err(e) => (forall|i: int| 0 <= i < old(items)@.len() ==> old(items)@[i].id@ != id@)
                && final(items)@ == old(items)@ && e@ == not_found_message(id@),
        },
{
    let mut i: usize = 0;
    while i < items.len()
        invariant
            i <= items.len(),
            items@ == old(items)@,
            forall|j: int| 0 <= j < i ==> old(items)@[j].id@ != id@,
        decreases items.len() - i,
    {
        if str_eq(items[i].id.as_str(), id) {
            let old_item = &items[i];
            let new_item = TodoItem {
                id: old_item.id.clone(),
                text: match text {
                    Some(t) => t,
                    None => old_item.text.clone(),
                },
                status: match status {
                    Some(s) => s,
                    None => old_item.status,
                },
                created_at: old_item.created_at.clone(),
                updated_at: owned(now),
            };
            items.set(i, new_item);
            return Ok(());
        }
        i += 1;
    }
    let mut msg = chars_of("TODO item not found: ");
    let k = chars_of(id);
    push_all(&mut msg, k.as_slice());
    Err(string_of(msg.as_slice()))
}

/// The items whose id differs from `id`, in order.
pub open spec fn without_id(items: Seq<TodoItem>, id: Seq<char>) -> Seq<TodoItem> {
    items.filter(|t: TodoItem| t.id@ != id)
}

/// Removes every item with the id. Fails, changing nothing, when no item
/// has it.
pub fn remove_todo(items: &mut Vec<TodoItem>, id: &str) -> (r: Result<(), String>)
    ensures
        final(items)@ == without_id(old(items)@, id@),
        (r is Ok) <==> exists|i: int| 0 <= i < old(items)@.len() && old(items)@[i].id@ == id@,
        r matches Err(e) ==> e@ == not_found_message(id@),
{
    let ghost original = items@;
    let mut kept: Vec<TodoItem> = Vec::new();
    let mut i: usize = 0;
    let mut found = false;
    while i < items.len()
        invariant
            i <= items.len(),
            items@ == original,
            kept@ == without_id(original.take(i as int), id@),
            found <==> exists|j: int| 0 <= j < i && original[j].id@ == id@,
        decreases items.len() - i,
    {
        proof {
            reveal(Seq::filter);
            assert(original.take(i + 1).drop_last() =~= original.take(i as int));
            assert(original.take(i + 1).last() == original[i as int]);
        }
        if str_eq(items[i].id.as_str(), id) {
            found = true;
        } else {
            let copy = TodoItem {
                id: items[i].id.clone(),
                text: items[i].text.clone(),
                status: items[i].status,
                created_at: items[i].created_at.clone(),
                updated_at: items[i].updated_at.clone(),
            };
            assert(copy == items@[i as int]);
            kept.push(copy);
        }
        i += 1;
    }
    assert(original.take(original.len() as int) =~= original);
    *items = kept;
    if !found {
        let mut msg = chars_of("TODO item not found: ");
        let k = chars_of(id);
        push_all(&mut msg, k.as_slice());
        return Err(string_of(msg.as_slice()));
    }
    Ok(())
}

/// The items of a `todo_read`: all of them, or those not completed.
pub open spec fn visible_todos(items: Seq<TodoItem>, include_completed: bool) -> Seq<TodoItem> {
    if include_completed {
        items
    } else {
        items.filter(|t: TodoItem| t.status != TodoStatus::Completed)
    }
}

/// The items `todo_read` shows.
pub fn read_todos(items: &Vec<TodoItem>, include_completed: bool) -> (r: Vec<TodoItem>)
    ensures
        r@ == visible_todos(items@, include_completed),
{
    let mut out: Vec<TodoItem> = Vec::new();
    let mut i: usize = 0;
    while i < items.len()
        invariant
            i <= items.len(),
            out@ == visible_todos(items@.take(i as int), include_completed),
        decreases items.len() - i,
    {
        proof {
            reveal(Seq::filter);
            assert(items@.take(i + 1).drop_last() =~= items@.take(i as int));
            assert(items@.take(i + 1).last() == items@[i as int]);
        }
        if include_completed || items[i].status != TodoStatus::Completed {
            let copy = TodoItem {
                id: items[i].id.clone(),
                text: items[i].text.clone(),
                status: items[i].status,
                created_at: items[i].created_at.clone(),
                updated_at: items[i].updated_at.clone(),
            };
            assert(copy == items@[i as int]);
            out.push(copy);
        }
        i += 1;
    }
    assert(items@.take(items.len() as int) =~= items@);
    out
}

/// What `todo_read` shows without completed items: an item is shown exactly
/// when its status is not `Completed` (so pending and in-progress items are
/// always shown), in the order of the list; adding an item to the end adds
/// it to the end of what is shown unless it is completed. With completed
/// items included, the whole list is shown.
pub proof fn lemma_read_hides_only_completed(items: Seq<TodoItem>, item: TodoItem)
    ensures
        visible_todos(items, true) == items,
        visible_todos(Seq::<TodoItem>::empty(), false) == Seq::<TodoItem>::empty(),
        item.status == TodoStatus::Completed ==> visible_todos(items.push(item), false)
            == visible_todos(items, false),
        item.status != TodoStatus::Completed ==> visible_todos(items.push(item), false)
            == visible_todos(items, false).push(item),
        forall|i: int|
            0 <= i < items.len() && items[i].status != TodoStatus::Completed
                ==> #[trigger] visible_todos(items, false).contains(items[i]),
        forall|i: int|
            0 <= i < visible_todos(items, false).len() ==> {
                &&& (#[trigger] visible_todos(items, false)[i]).status != TodoStatus::Completed
                &&& items.contains(visible_todos(items, false)[i])
            },
{
    let keep = |t: TodoItem| t.status != TodoStatus::Completed;
    reveal(Seq::filter);
    assert(Seq::<TodoItem>::empty().filter(keep) =~= Seq::<TodoItem>::empty());
    items.lemma_filter_push(item, keep);
    assert forall|i: int|
        0 <= i < items.len() && items[i].status != TodoStatus::Completed
            implies #[trigger] visible_todos(items, false).contains(items[i]) by {
        items.lemma_filter_contains(keep, i);
    }
    assert forall|i: int| 0 <= i < visible_todos(items, false).len() implies {
        &&& (#[trigger] visible_todos(items, false)[i]).status != TodoStatus::Completed
        &&& items.contains(visible_todos(items, false)[i])
    } by {
        items.lemma_filter_pred(keep, i);
        assert(items.filter(keep).contains(items.filter(keep)[i]));
        items.lemma_filter_contains_rev(keep, items.filter(keep)[i]);
    }
}

/// Removing an id that was just added leaves the list as it was before,
/// when no earlier item had that id.
pub proof fn lemma_add_then_remove(items: Seq<TodoItem>, item: TodoItem)
    requires
        forall|i: int| 0 <= i < items.len() ==> items[i].id@ != item.id@,
    ensures
        without_id(items.push(item), item.id@) == items,
{
    reveal(Seq::filter);
    let s = items.push(item);
    assert(s.drop_last() =~= items);
    lemma_without_absent_id(items, item.id@);
}

proof fn lemma_without_absent_id(items: Seq<TodoItem>, id: Seq<char>)
    requires
        forall|i: int| 0 <= i < items.len() ==> items[i].id@ != id,
    ensures
        without_id(items, id) == items,
    decreases items.len(),
{
    reveal(Seq::filter);
    if items.len() > 0 {
        let init = items.drop_last();
        lemma_without_absent_id(init, id);
        assert(init.push(items.last()) =~= items);
    }
}

/// What a status argument gives: pending when absent, else the status it
/// names (see `parse_todo_status`) or the error.
pub open spec fn status_of(raw: Option<Seq<char>>) -> Result<TodoStatus, Seq<char>> {
    match raw {
        None => Ok(TodoStatus::Pending),
        Some(v) => match status_named(lower_seq(trim_seq(v))) {
            Some(st) => Ok(st),
            None => Err(invalid_status_message(v)),
        },
    }
}

/// An item of the `items` array of `set`: its `text`, `id` and `status`
/// when they are strings.
#[derive(Debug, Clone)]
pub struct TodoSetItem {
    pub text: Option<String>,
    pub id: Option<String>,
    pub status: Option<String>,
}

pub open spec fn missing_text_message() -> Seq<char> {
    "Each TODO item requires non-empty 'text'"@
}

/// The id, text and status of an item.
pub open spec fn todo_core(t: TodoItem) -> (Seq<char>, Seq<char>, TodoStatus) {
    (t.id@, t.text@, t.status)
}

/// What an item of `set` becomes: its text trimmed (required), its id
/// trimmed (else the fresh one), and its status.
pub open spec fn set_item_result(r: TodoSetItem, fresh: Seq<char>) -> Result<(Seq<char>, Seq<char>, TodoStatus), Seq<char>> {
    match trimmed_present(r.text) {
        None => Err(missing_text_message()),
        Some(text) => match status_of(opt_view(r.status)) {
            Err(e) => Err(e),
            Ok(st) => Ok((
                match trimmed_present(r.id) {
                    Some(id) => id,
                    None => fresh,
                },
                text,
                st,
            )),
        },
    }
}

/// The items `set` makes, in order, up to the first item that fails, and
/// that item's error.
pub open spec fn set_outcome(raws: Seq<TodoSetItem>, fresh: Seq<String>) -> (Seq<(Seq<char>, Seq<char>, TodoStatus)>, Option<Seq<char>>)
    decreases raws.len(),
{
    if raws.len() == 0 {
        (Seq::empty(), None)
    } else {
        let (prev, err) = set_outcome(raws.drop_last(), fresh);
        if err is Some {
            (prev, err)
        } else {
            match set_item_result(raws.last(), fresh[raws.len() - 1]@) {
                Ok(x) => (prev.push(x), None),
                Err(e) => (prev, Some(e)),
            }
        }
    }
}

/// Whether the items hold these ids, texts and statuses, in order, all
/// created and updated at `now`.
pub open spec fn items_made_at(items: Seq<TodoItem>, made: Seq<(Seq<char>, Seq<char>, TodoStatus)>, now: Seq<char>) -> bool {
    &&& items.len() == made.len()
    &&& forall|i: int| 0 <= i < items.len() ==> #[trigger] todo_core(items[i]) == made[i]
        && items[i].created_at@ == now && items[i].updated_at@ == now
}

/// Replaces the list with the items of `set`, in order, created and
/// updated at `now`; an item without an id takes the fresh id at its
/// position. Stops at the first item without text or with an invalid
/// status: the items before it stay in the list and its error is
/// returned.
pub fn set_todos(items: &mut Vec<TodoItem>, raws: &Vec<TodoSetItem>, fresh_ids: &Vec<String>, now: &str) -> (r: Result<(), String>)
    requires
        fresh_ids@.len() >= raws@.len(),
    ensures
        items_made_at(final(items)@, set_outcome(raws@, fresh_ids@).0, now@),
        match set_outcome(raws@, fresh_ids@).1 {
            None => r is Ok,
            Some(e) => r matches Err(m) && m@ == e,
        },
{
    items.clear();
    let mut i: usize = 0;
    assert(raws@.take(0) =~= Seq::<TodoSetItem>::empty());
    while i < raws.len()
        invariant
            i <= raws.len(),
            fresh_ids@.len() >= raws@.len(),
            set_outcome(raws@.take(i as int), fresh_ids@).1 is None,
            items_made_at(items@, set_outcome(raws@.take(i as int), fresh_ids@).0, now@),
        decreases raws.len() - i,
    {
        proof {
            assert(raws@.take(i + 1).drop_last() =~= raws@.take(i as int));
            assert(raws@.take(i + 1).last() == raws@[i as int]);
        }
        let raw = &raws[i];
        let text = match trim_present(&raw.text) {
            Some(t) => t,
            None => {
                proof {
                    lemma_set_outcome_stops(raws@, fresh_ids@, i as int + 1);
                }
                return Err(owned("Each TODO item requires non-empty 'text'"));
            },
        };
        let id = match trim_present(&raw.id) {
            Some(v) => v,
            None => fresh_ids[i].clone(),
        };
        let status = match &raw.status {
            Some(v) => parse_todo_status(Some(v.as_str())),
            None => parse_todo_status(None),
        };
        let status = match status {
            Ok(st) => st,
            Err(e) => {
                proof {
                    lemma_set_outcome_stops(raws@, fresh_ids@, i as int + 1);
                }
                return Err(e);
            },
        };
        let ghost before = items@;
        items.push(TodoItem { id, text, status, created_at: owned(now), updated_at: owned(now) });
        proof {
            let made = set_outcome(raws@.take(i + 1), fresh_ids@).0;
            assert(made == set_outcome(raws@.take(i as int), fresh_ids@).0.push(todo_core(items@.last())));
            assert forall|k: int| 0 <= k < items@.len() implies #[trigger] todo_core(items@[k]) == made[k]
                && items@[k].created_at@ == now@ && items@[k].updated_at@ == now@ by {
                if k < before.len() {
                    assert(items@[k] == before[k]);
                }
            }
            assert(items@.len() == made.len());
            assert(items_made_at(items@, made, now@));
        }
        i += 1;
    }
    assert(raws@.take(raws.len() as int) =~= raws@);
    Ok(())
}

/// Once `set` has stopped at an item, the items after it change nothing.
proof fn lemma_set_outcome_stops(raws: Seq<TodoSetItem>, fresh: Seq<String>, k: int)
    requires
        0 < k <= raws.len(),
        set_outcome(raws.take(k), fresh).1 is Some,
    ensures
        set_outcome(raws, fresh) == set_outcome(raws.take(k), fresh),
    decreases raws.len() - k,
{
    if k < raws.len() {
        assert(raws.take(k + 1).drop_last() =~= raws.take(k));
        lemma_set_outcome_stops(raws, fresh, k + 1);
    } else {
        assert(raws.take(k) =~= raws);
    }
}

/// The arguments of `todo_write`: each field when it is a string (for
/// `items`, when it is an array).
#[derive(Debug, Clone)]
pub struct TodoWriteArgs {
    pub action: Option<String>,
    pub text: Option<String>,
    pub id: Option<String>,
    pub status: Option<String>,
    pub items: Option<Vec<TodoSetItem>>,
}

pub open spec fn unsupported_todo_action_message() -> Seq<char> {
    "Unsupported action. Use add|set|update|remove|clear"@
}

pub open spec fn set_items_required_message() -> Seq<char> {
    "'items' is required for action 'set'"@
}

/// The status `add` gives: pending when absent or blank, else the one
/// named.
pub open spec fn add_status(raw: Option<Seq<char>>) -> Result<TodoStatus, Seq<char>> {
    match raw {
        Some(v) => if trim_seq(v).len() > 0 {
            status_of(Some(v))
        } else {
            Ok(TodoStatus::Pending)
        },
        None => Ok(TodoStatus::Pending),
    }
}

/// Whether `i` is the position of the first item with this id.
pub open spec fn first_todo_with_id(items: Seq<TodoItem>, id: Seq<char>, i: int) -> bool {
    &&& 0 <= i < items.len()
    &&& items[i].id@ == id
    &&& forall|j: int| 0 <= j < i ==> #[trigger] items[j].id@ != id
}

/// The first position holding this id.
fn find_todo(items: &Vec<TodoItem>, id: &str) -> (r: Option<usize>)
    ensures
        match r {
            Some(i) => first_todo_with_id(items@, id@, i as int),
            None => forall|j: int| 0 <= j < items@.len() ==> #[trigger] items@[j].id@ != id@,
        },
{
    let mut i: usize = 0;
    while i < items.len()
        invariant
            i <= items.len(),
            forall|j: int| 0 <= j < i ==> #[trigger] items@[j].id@ != id@,
        decreases items.len() - i,
    {
        if str_eq(items[i].id.as_str(), id) {
            return Some(i);
        }
        i += 1;
    }
    None
}

/// Carries out `todo_write` on a conversation's list and returns the
/// action. The action (trimmed, required) is one of:
/// - `add`: a new item with the text (required), the status (pending when
///   absent or blank) and the id (else `fresh_ids[0]`);
/// - `set`: the list replaced by `items` (see `set_todos`);
/// - `update`: the first item with the id gets the text and the status
///   that are given, and the update time; an invalid status is reported
///   after the text was changed;
/// - `remove`: the items with the id are removed (see `remove_todo`);
/// - `clear`: the list emptied.
/// A missing argument, an unknown id and another action are errors that
/// leave the list as it was.
pub fn apply_todo_write(items: &mut Vec<TodoItem>, args: &TodoWriteArgs, now: &str, fresh_ids: &Vec<String>) -> (r: Result<String, String>)
    requires
        fresh_ids@.len() >= 1,
        args.items matches Some(v) ==> fresh_ids@.len() >= v@.len(),
    ensures
        match trimmed_present(args.action) {
            None => r matches Err(e) && e@ == required_message("action"@) && final(items)@ == old(items)@,
            Some(act) => if act == "add"@ {
                match trimmed_present(args.text) {
                    None => r matches Err(e) && e@ == required_message("text"@) && final(items)@ == old(items)@,
                    Some(text) => match add_status(opt_view(args.status)) {
                        Err(m) => r matches Err(e) && e@ == m && final(items)@ == old(items)@,
                        Ok(st) => r matches Ok(a) && a@ == act
                            && final(items)@.drop_last() == old(items)@
                            && items_made_at(final(items)@.skip(old(items)@.len() as int), seq![(
                                match trimmed_present(args.id) {
                                    Some(id) => id,
                                    None => fresh_ids@[0]@,
                                },
                                text,
                                st,
                            )], now@),
                    },
                }
            } else if act == "set"@ {
                match args.items {
                    None => r matches Err(e) && e@ == set_items_required_message() && final(items)@ == old(items)@,
                    Some(v) => items_made_at(final(items)@, set_outcome(v@, fresh_ids@).0, now@)
                        && match set_outcome(v@, fresh_ids@).1 {
                            None => r matches Ok(a) && a@ == act,
                            Some(m) => r matches Err(e) && e@ == m,
                        },
                }
            } else if act == "update"@ {
                match trimmed_present(args.id) {
                    None => r matches Err(e) && e@ == required_message("id"@) && final(items)@ == old(items)@,
                    Some(id) => if exists|i: int| 0 <= i < old(items)@.len() && #[trigger] old(items)@[i].id@ == id {
                        exists|i: int| #[trigger] first_todo_with_id(old(items)@, id, i)
                            && final(items)@.len() == old(items)@.len()
                            && (forall|j: int| 0 <= j < old(items)@.len() && j != i ==> #[trigger] final(items)@[j] == old(items)@[j])
                            && final(items)@[i].id@ == old(items)@[i].id@
                            && final(items)@[i].created_at@ == old(items)@[i].created_at@
                            && final(items)@[i].text@ == (match trimmed_present(args.text) {
                                Some(t) => t,
                                None => old(items)@[i].text@,
                            })
                            && match trimmed_present(args.status) {
                                Some(sv) => match status_of(Some(sv)) {
                                    Err(m) => r matches Err(e) && e@ == m && final(items)@[i].status == old(items)@[i].status
                                        && final(items)@[i].updated_at@ == old(items)@[i].updated_at@,
                                    Ok(st) => r matches Ok(a) && a@ == act && final(items)@[i].status == st
                                        && final(items)@[i].updated_at@ == now@,
                                },
                                None => r matches Ok(a) && a@ == act && final(items)@[i].status == old(items)@[i].status
                                    && final(items)@[i].updated_at@ == now@,
                            }
                    } else {
                        r matches Err(e) && e@ == not_found_message(id) && final(items)@ == old(items)@
                    },
                }
            } else if act == "remove"@ {
                match trimmed_present(args.id) {
                    None => r matches Err(e) && e@ == required_message("id"@) && final(items)@ == old(items)@,
                    Some(id) => final(items)@ == without_id(old(items)@, id)
                        && if exists|i: int| 0 <= i < old(items)@.len() && #[trigger] old(items)@[i].id@ == id {
                            r matches Ok(a) && a@ == act
                        } else {
                            r matches Err(e) && e@ == not_found_message(id)
                        },
                }
            } else if act == "clear"@ {
                r matches Ok(a) && a@ == act && final(items)@.len() == 0
            } else {
                r matches Err(e) && e@ == unsupported_todo_action_message() && final(items)@ == old(items)@
            },
        },
{
    let action = match &args.action {
        Some(a) => read_string_argument(Some(a.as_str()), "action"),
        None => read_string_argument(None, "action"),
    };
    let action = match action {
        Ok(a) => a,
        Err(e) => {
            return Err(e);
        },
    };
    let ghost act = action@;
    let text_raw: Option<&str> = match &args.text {
        Some(t) => Some(t.as_str()),
        None => None,
    };
    let id_raw: Option<&str> = match &args.id {
        Some(t) => Some(t.as_str()),
        None => None,
    };
    if str_eq(action.as_str(), "add") {
        let text = match read_string_argument(text_raw, "text") {
            Ok(t) => t,
            Err(e) => {
                return Err(e);
            },
        };
        let status_raw: Option<&str> = match &args.status {
            Some(v) => {
                let vc = chars_of(v.as_str());
                let vt = trim_chars(vc.as_slice());
                if vt.len() > 0 {
                    Some(v.as_str())
                } else {
                    None
                }
            },
            None => None,
        };
        let status = match parse_todo_status(status_raw) {
            Ok(st) => st,
            Err(e) => {
                return Err(e);
            },
        };
        let id = match read_optional_string_argument(id_raw) {
            Some(v) => v,
            None => fresh_ids[0].clone(),
        };
        let ghost before = items@;
        add_todo(items, id, text, status, now);
        proof {
            let tail = items@.skip(before.len() as int);
            assert(tail.len() == 1);
            assert(tail[0] == items@.last());
        }
        return Ok(action);
    }
    if str_eq(action.as_str(), "set") {
        return match &args.items {
            None => Err(owned("'items' is required for action 'set'")),
            Some(v) => match set_todos(items, v, fresh_ids, now) {
                Ok(()) => Ok(action),
                Err(e) => Err(e),
            },
        };
    }
    if str_eq(action.as_str(), "update") {
        let id = match read_string_argument(id_raw, "id") {
            Ok(t) => t,
            Err(e) => {
                return Err(e);
            },
        };
        let i = match find_todo(items, id.as_str()) {
            Some(i) => i,
            None => {
                let mut msg = chars_of("TODO item not found: ");
                let k = chars_of(id.as_str());
                push_all(&mut msg, k.as_slice());
                return Err(string_of(msg.as_slice()));
            },
        };
        let ghost before = items@;
        let new_text = read_optional_string_argument(text_raw);
        let status_raw = match &args.status {
            Some(v) => read_optional_string_argument(Some(v.as_str())),
            None => None,
        };
        let status: Option<Result<TodoStatus, String>> = match &status_raw {
            Some(v) => Some(parse_todo_status(Some(v.as_str()))),
            None => None,
        };
        let old_item = &items[i];
        let text = match new_text {
            Some(t) => t,
            None => old_item.text.clone(),
        };
        let (st, updated_at, result) = match status {
            Some(Err(e)) => (old_item.status, old_item.updated_at.clone(), Err(e)),
            Some(Ok(st)) => (st, owned(now), Ok(())),
            None => (old_item.status, owned(now), Ok(())),
        };
        let new_item = TodoItem {
            id: old_item.id.clone(),
            text,
            status: st,
            created_at: old_item.created_at.clone(),
            updated_at,
        };
        items.set(i, new_item);
        proof {
            assert(first_todo_with_id(before, id@, i as int));
        }
        return match result {
            Ok(()) => Ok(action),
            Err(e) => Err(e),
        };
    }
    if str_eq(action.as_str(), "remove") {
        let id = match read_string_argument(id_raw, "id") {
            Ok(t) => t,
            Err(e) => {
                return Err(e);
            },
        };
        return match remove_todo(items, id.as_str()) {
            Ok(()) => Ok(action),
            Err(e) => Err(e),
        };
    }
    if str_eq(action.as_str(), "clear") {
        items.clear();
        return Ok(action);
    }
    Err(owned("Unsupported action. Use add|set|update|remove|clear"))
}

} // verus!
