//! The system messages put in front of a conversation before it is sent to
//! the model: the user's system prompt, the tool policy, the skills
//! guidance and the description of the files uploaded with a turn.

use vstd::prelude::*;
use crate::text::{
    chars_of, string_of, owned, push_all, push_decimal, decimal_seq, trim_seq, trim_chars,
    lower_chars, lower_seq, join_seq, join_chars, views, trimmed_present,
    unicode_lowercased, to_lowercase_text,
};
use crate::llm::{ChatMessage, is_plain_message};
use crate::models::Skill;
use crate::order::{is_stable_text_order, stable_text_order};

verus! {

/// A system message with this text.
fn system_message(content: String) -> (r: ChatMessage)
    ensures
        is_plain_message(r, "system"@, content@),
{
    ChatMessage {
        role: owned("system"),
        content: Some(content),
        tool_calls: None,
        tool_call_id: None,
        reasoning_details: None,
        reasoning: None,
    }
}

/// Puts the user's system prompt (trimmed) first, unless there is none or
/// it is blank.
pub fn prepend_system_prompt(messages: &mut Vec<ChatMessage>, system_prompt: Option<&str>)
    ensures
        match system_prompt {
            Some(p) => if trim_seq(p@).len() > 0 {
                final(messages)@.len() == old(messages)@.len() + 1
                    && is_plain_message(final(messages)@[0], "system"@, trim_seq(p@))
                    && final(messages)@.skip(1) == old(messages)@
            } else {
                final(messages)@ == old(messages)@
            },
            None => final(messages)@ == old(messages)@,
        },
{
    let p = match system_prompt {
        Some(p) => p,
        None => {
            return;
        },
    };
    let cs = chars_of(p);
    let t = trim_chars(cs.as_slice());
    if t.len() == 0 {
        return;
    }
    let ghost before = messages@;
    messages.insert(0, system_message(string_of(t.as_slice())));
    assert(messages@.skip(1) =~= before);
}

/// Puts the skills guidance (trimmed) first, unless it is blank.
pub fn prepend_skills_usage_guidance(messages: &mut Vec<ChatMessage>, skills_guidance: &str)
    ensures
        trim_seq(skills_guidance@).len() > 0 ==> final(messages)@.len() == old(messages)@.len() + 1
            && is_plain_message(final(messages)@[0], "system"@, trim_seq(skills_guidance@))
            && final(messages)@.skip(1) == old(messages)@,
        trim_seq(skills_guidance@).len() == 0 ==> final(messages)@ == old(messages)@,
{
    let cs = chars_of(skills_guidance);
    let t = trim_chars(cs.as_slice());
    if t.len() == 0 {
        return;
    }
    let ghost before = messages@;
    messages.insert(0, system_message(string_of(t.as_slice())));
    assert(messages@.skip(1) =~= before);
}

/// The tool policy on Windows.
pub open spec fn windows_tool_policy() -> Seq<char> {
    "Tool selection policy (Windows): Prefer bash for filesystem-heavy tasks such as recursive traversal, counting files, computing folder size, extension/type statistics, sorting/filtering large file lists, and bulk inventory. Use concise PowerShell commands for these operations (for example: Get-ChildItem -Recurse -File | Measure-Object, or Get-ChildItem -Recurse | Measure-Object -Property Length -Sum). Use workspace_list_directory only for quick non-recursive inspection of one directory level or when the user explicitly asks to browse items manually. Desktop automation policy (UFO-style): Always discover controls before acting: get_desktop_app_info/list_windows -> select_application_window/select_window -> get_app_window_controls_info/get_controls(refresh=true) -> control action by exact id + exact name. Use canonical action args: set_edit_text(text), keyboard_input(keys, control_focus), wheel_mouse_input(wheel_dist), select_application_window(id,name). Browser policy: all browser lifecycle/navigation/page actions must use tool=browser only; never use desktop.launch_application or desktop.close_application for browsers. For browser action=act or action=act_batch, action items must use field `kind` (not `action`). Use click_on_coordinates only as fallback when the target control is missing from control list."@
}

/// The tool policy elsewhere.
pub open spec fn default_tool_policy() -> Seq<char> {
    "Tool selection policy: Prefer bash for filesystem-heavy tasks such as recursive traversal, counting files, computing folder size, extension/type statistics, sorting/filtering large file lists, and bulk inventory. Use shell pipelines for these operations. Use workspace_list_directory only for quick non-recursive inspection of one directory level or when the user explicitly asks to browse items manually."@
}

/// Puts the tool policy of the platform first.
pub fn prepend_tool_usage_guidance(messages: &mut Vec<ChatMessage>, on_windows: bool)
    ensures
        final(messages)@.len() == old(messages)@.len() + 1,
        is_plain_message(final(messages)@[0], "system"@, if on_windows { windows_tool_policy() } else { default_tool_policy() }),
        final(messages)@.skip(1) == old(messages)@,
{
    let guidance = if on_windows {
        owned("Tool selection policy (Windows): Prefer bash for filesystem-heavy tasks such as recursive traversal, counting files, computing folder size, extension/type statistics, sorting/filtering large file lists, and bulk inventory. Use concise PowerShell commands for these operations (for example: Get-ChildItem -Recurse -File | Measure-Object, or Get-ChildItem -Recurse | Measure-Object -Property Length -Sum). Use workspace_list_directory only for quick non-recursive inspection of one directory level or when the user explicitly asks to browse items manually. Desktop automation policy (UFO-style): Always discover controls before acting: get_desktop_app_info/list_windows -> select_application_window/select_window -> get_app_window_controls_info/get_controls(refresh=true) -> control action by exact id + exact name. Use canonical action args: set_edit_text(text), keyboard_input(keys, control_focus), wheel_mouse_input(wheel_dist), select_application_window(id,name). Browser policy: all browser lifecycle/navigation/page actions must use tool=browser only; never use desktop.launch_application or desktop.close_application for browsers. For browser action=act or action=act_batch, action items must use field `kind` (not `action`). Use click_on_coordinates only as fallback when the target control is missing from control list.")
    } else {
        owned("Tool selection policy: Prefer bash for filesystem-heavy tasks such as recursive traversal, counting files, computing folder size, extension/type statistics, sorting/filtering large file lists, and bulk inventory. Use shell pipelines for these operations. Use workspace_list_directory only for quick non-recursive inspection of one directory level or when the user explicitly asks to browse items manually.")
    };
    let ghost before = messages@;
    messages.insert(0, system_message(guidance));
    assert(messages@.skip(1) =~= before);
}

/// A file uploaded with a turn, as the user interface describes it.
#[derive(Debug, Clone)]
pub struct UploadedAttachmentInput {
    pub path: String,
    pub name: Option<String>,
    pub size: Option<u64>,
    pub extension: Option<String>,
}

/// A file uploaded with a turn, as the model is told of it. `path` is the
/// file's path relative to the workspace, as displayed.
#[derive(Debug, Clone)]
pub struct UploadedAttachment {
    pub path: String,
    pub name: String,
    pub size: u64,
    pub extension: String,
}

pub open spec fn str_opt(o: Option<&str>) -> Option<Seq<char>> {
    match o {
        Some(s) => Some(s@),
        None => None,
    }
}

/// The name, extension and size of an upload: the given ones (name and
/// extension trimmed and not blank, the extension lowercased), else those
/// of the file on disk.
pub open spec fn is_normalized_attachment(
    a: UploadedAttachment,
    input: UploadedAttachmentInput,
    display_path: Seq<char>,
    file_name: Option<Seq<char>>,
    path_extension: Option<Seq<char>>,
    file_len: u64,
) -> bool {
    &&& a.path@ == display_path
    &&& a.name@ == match trimmed_present(input.name) {
        Some(n) => n,
        None => match file_name {
            Some(f) => f,
            None => display_path,
        },
    }
    &&& a.extension@ == match trimmed_present(input.extension) {
        Some(e) => lower_seq(e),
        None => match path_extension {
            Some(x) => lower_seq(x),
            None => Seq::empty(),
        },
    }
    &&& a.size == match input.size {
        Some(s) => s,
        None => file_len,
    }
}

/// Describes an uploaded file found on disk. `display_path` is its path
/// relative to the workspace, `file_name` and `path_extension` the name and
/// extension of the path, and `file_len` its size on disk.
pub fn normalize_uploaded_attachment(
    input: &UploadedAttachmentInput,
    display_path: &str,
    file_name: Option<&str>,
    path_extension: Option<&str>,
    file_len: u64,
) -> (r: UploadedAttachment)
    ensures
        is_normalized_attachment(r, *input, display_path@, str_opt(file_name), str_opt(path_extension), file_len),
{
    let given_name = match &input.name {
        Some(n) => {
            let cs = chars_of(n.as_str());
            let t = trim_chars(cs.as_slice());
            if t.len() > 0 { Some(string_of(t.as_slice())) } else { None }
        },
        None => None,
    };
    let name = match given_name {
        Some(n) => n,
        None => match file_name {
            Some(f) => owned(f),
            None => owned(display_path),
        },
    };
    let given_ext = match &input.extension {
        Some(e) => {
            let cs = chars_of(e.as_str());
            let t = trim_chars(cs.as_slice());
            if t.len() > 0 {
                let l = lower_chars(t.as_slice());
                Some(string_of(l.as_slice()))
            } else {
                None
            }
        },
        None => None,
    };
    let extension = match given_ext {
        Some(e) => e,
        None => match path_extension {
            Some(x) => {
                let cs = chars_of(x);
                let l = lower_chars(cs.as_slice());
                string_of(l.as_slice())
            },
            None => String::new(),
        },
    };
    let size = match input.size {
        Some(s) => s,
        None => file_len,
    };
    UploadedAttachment { path: owned(display_path), name, size, extension }
}

/// The line describing the upload at position `i`.
pub open spec fn attachment_line(i: nat, a: UploadedAttachment) -> Seq<char> {
    decimal_seq(i + 1) + ". "@ + a.name@ + " | path: "@ + a.path@ + " | size: "@ + decimal_seq(a.size as nat)
        + " bytes | ext: "@ + if a.extension@.len() == 0 {
        "(none)"@
    } else {
        a.extension@
    }
}

pub open spec fn pdf_hint() -> Seq<char> {
    "For PDF files, call `workspace_parse_pdf_markdown` first (export_images=true by default), then use returned markdown/image paths for analysis."@
}

/// The lines telling the model about the uploads of a turn.
pub open spec fn attachment_guidance_lines(attachments: Seq<UploadedAttachment>, workspace_root: Seq<char>) -> Seq<Seq<char>> {
    let head = seq![
        "Uploaded files for this turn (hidden context, do not echo verbatim):"@,
        "- Workspace root: "@ + workspace_root,
        "- Use uploaded files as primary context for the current user request."@,
    ];
    let items = Seq::new(attachments.len(), |i: int| attachment_line(i as nat, attachments[i]));
    let has_pdf = exists|i: int| 0 <= i < attachments.len() && attachments[i].extension@ == "pdf"@;
    head + items + if has_pdf { seq![pdf_hint()] } else { Seq::empty() }
}

fn attachment_line_exec(i: usize, a: &UploadedAttachment) -> (r: Vec<char>)
    requires
        i < usize::MAX,
    ensures
        r@ == attachment_line(i as nat, *a),
{
    let mut out: Vec<char> = Vec::new();
    push_decimal(&mut out, (i as u64) + 1);
    let sep1 = chars_of(". ");
    push_all(&mut out, sep1.as_slice());
    let name = chars_of(a.name.as_str());
    push_all(&mut out, name.as_slice());
    let sep2 = chars_of(" | path: ");
    push_all(&mut out, sep2.as_slice());
    let path = chars_of(a.path.as_str());
    push_all(&mut out, path.as_slice());
    let sep3 = chars_of(" | size: ");
    push_all(&mut out, sep3.as_slice());
    push_decimal(&mut out, a.size);
    let sep4 = chars_of(" bytes | ext: ");
    push_all(&mut out, sep4.as_slice());
    let ext = chars_of(a.extension.as_str());
    if ext.len() == 0 {
        let none = chars_of("(none)");
        push_all(&mut out, none.as_slice());
    } else {
        push_all(&mut out, ext.as_slice());
    }
    assert(out@ =~= attachment_line(i as nat, *a));
    out
}

/// Describes the files uploaded with a turn: where the workspace is, each
/// file with its number, name, path, size and extension, and, when one is
/// a PDF, how to read it. Nothing when no file was uploaded.
pub fn build_uploaded_attachments_guidance(attachments: &[UploadedAttachment], workspace_root: &str) -> (r: Option<String>)
    ensures
        attachments@.len() == 0 <==> r is None,
        r matches Some(t) ==> t@ == join_seq(attachment_guidance_lines(attachments@, workspace_root@), "\n"@),
{
    if attachments.len() == 0 {
        return None;
    }
    let mut lines: Vec<Vec<char>> = Vec::new();
    lines.push(chars_of("Uploaded files for this turn (hidden context, do not echo verbatim):"));
    let mut root_line = chars_of("- Workspace root: ");
    let root = chars_of(workspace_root);
    push_all(&mut root_line, root.as_slice());
    lines.push(root_line);
    lines.push(chars_of("- Use uploaded files as primary context for the current user request."));
    let ghost head = views(lines@);
    let mut has_pdf = false;
    let mut i: usize = 0;
    while i < attachments.len()
        invariant
            i <= attachments.len(),
            views(lines@) =~= head + Seq::new(i as nat, |k: int| attachment_line(k as nat, attachments@[k])),
            has_pdf <==> exists|k: int| 0 <= k < i && attachments@[k].extension@ == "pdf"@,
        decreases attachments.len() - i,
    {
        let ext = chars_of(attachments[i].extension.as_str());
        let pdf = chars_of("pdf");
        if crate::text::chars_eq(ext.as_slice(), pdf.as_slice()) {
            has_pdf = true;
        }
        let ghost before = lines@;
        let line = attachment_line_exec(i, &attachments[i]);
        lines.push(line);
        assert(views(lines@) =~= views(before).push(attachment_line(i as nat, attachments@[i as int])));
        i += 1;
    }
    if has_pdf {
        lines.push(chars_of("For PDF files, call `workspace_parse_pdf_markdown` first (export_images=true by default), then use returned markdown/image paths for analysis."));
    }
    proof {
        let items = Seq::new(attachments@.len(), |k: int| attachment_line(k as nat, attachments@[k]));
        assert(head =~= seq![
            "Uploaded files for this turn (hidden context, do not echo verbatim):"@,
            "- Workspace root: "@ + workspace_root@,
            "- Use uploaded files as primary context for the current user request."@,
        ]);
        if has_pdf {
            assert(views(lines@) =~= head + items + seq![pdf_hint()]);
        } else {
            assert(views(lines@) =~= head + items + Seq::<Seq<char>>::empty());
        }
    }
    let nl = chars_of("\n");
    let joined = join_chars(&lines, nl.as_slice());
    Some(string_of(joined.as_slice()))
}

/// Puts the description of the uploads first, when there are any.
pub fn prepend_uploaded_attachments_guidance(messages: &mut Vec<ChatMessage>, attachments: &[UploadedAttachment], workspace_root: &str)
    ensures
        attachments@.len() == 0 ==> final(messages)@ == old(messages)@,
        attachments@.len() > 0 ==> final(messages)@.len() == old(messages)@.len() + 1
            && is_plain_message(final(messages)@[0], "system"@, join_seq(attachment_guidance_lines(attachments@, workspace_root@), "\n"@))
            && final(messages)@.skip(1) == old(messages)@,
{
    match build_uploaded_attachments_guidance(attachments, workspace_root) {
        None => {},
        Some(guidance) => {
            let ghost before = messages@;
            messages.insert(0, system_message(guidance));
            assert(messages@.skip(1) =~= before);
        },
    }
}

/// The policy that opens the skills guidance, line by line.
pub open spec fn skills_policy_lines() -> Seq<Seq<char>> {
    seq![
        "Skills-first policy (mandatory when uncertain):"@,
        "- Before implementing an unfamiliar/specialized workflow, call `skills_list` first."@,
        "- If exactly one skill clearly matches, call `skills_execute` and follow it."@,
        "- If multiple skills could match, pick the most specific one and execute it."@,
        "- If no suitable installed skill exists, call `skills_discover` with a focused query."@,
        "- Install with `skills_install_from_repo` (and optional `skill_path`) when discovery returns a suitable result."@,
        "- Only if no suitable skill can be found/installed, continue with direct implementation."@,
    ]
}

/// The line that lists a skill: its name and its description, trimmed.
pub open spec fn skill_line(s: Skill) -> Seq<char> {
    "- "@ + s.name@ + ": "@ + trim_seq(s.description@)
}

/// The keys skills are sorted by: their names in Unicode lowercase.
pub open spec fn skill_sort_keys(skills: Seq<Skill>) -> Seq<Seq<char>> {
    skills.map_values(|s: Skill| unicode_lowercased(s.name@))
}

/// The skills guidance: the policy, then `Installed skills: (none)`, or the
/// skills in the given order between `<available_skills>` tags, one per
/// line.
pub open spec fn skills_guidance_text(skills: Seq<Skill>, order: Seq<usize>) -> Seq<char> {
    let lines = if skills.len() == 0 {
        skills_policy_lines().push("Installed skills: (none)"@)
    } else {
        skills_policy_lines().push("<available_skills>"@)
            + order.map_values(|k: usize| skill_line(skills[k as int]))
            + seq!["</available_skills>"@]
    };
    join_seq(lines, "\n"@)
}

/// The guidance on using skills, listing the installed skills sorted by
/// lowercase name (a stable sort; see `skills_guidance_text`).
pub fn build_skills_usage_guidance(skills: &Vec<Skill>) -> (r: String)
    ensures
        exists|order: Seq<usize>| is_stable_text_order(skill_sort_keys(skills@), order)
            && r@ == #[trigger] skills_guidance_text(skills@, order),
{
    let mut keys: Vec<Vec<char>> = Vec::new();
    let mut i: usize = 0;
    while i < skills.len()
        invariant
            i <= skills.len(),
            views(keys@) =~= skill_sort_keys(skills@.take(i as int)),
        decreases skills.len() - i,
    {
        let lower = to_lowercase_text(skills[i].name.as_str());
        let ghost before = views(keys@);
        keys.push(chars_of(lower.as_str()));
        proof {
            assert(views(keys@) =~= before.push(unicode_lowercased(skills@[i as int].name@)));
            assert(skills@.take(i + 1) =~= skills@.take(i as int).push(skills@[i as int]));
        }
        i += 1;
    }
    assert(skills@.take(skills.len() as int) =~= skills@);
    let order = stable_text_order(&keys);
    let mut lines: Vec<Vec<char>> = Vec::new();
    lines.push(chars_of("Skills-first policy (mandatory when uncertain):"));
    lines.push(chars_of("- Before implementing an unfamiliar/specialized workflow, call `skills_list` first."));
    lines.push(chars_of("- If exactly one skill clearly matches, call `skills_execute` and follow it."));
    lines.push(chars_of("- If multiple skills could match, pick the most specific one and execute it."));
    lines.push(chars_of("- If no suitable installed skill exists, call `skills_discover` with a focused query."));
    lines.push(chars_of("- Install with `skills_install_from_repo` (and optional `skill_path`) when discovery returns a suitable result."));
    lines.push(chars_of("- Only if no suitable skill can be found/installed, continue with direct implementation."));
    assert(views(lines@) =~= skills_policy_lines());
    if skills.len() == 0 {
        lines.push(chars_of("Installed skills: (none)"));
        assert(views(lines@) =~= skills_policy_lines().push("Installed skills: (none)"@));
    } else {
        lines.push(chars_of("<available_skills>"));
        let ghost head = views(lines@);
        let mut k: usize = 0;
        while k < order.len()
            invariant
                k <= order.len(),
                order@.len() == skills@.len(),
                forall|a: int| 0 <= a < order@.len() ==> #[trigger] order@[a] < skills@.len(),
                views(lines@) =~= head + order@.take(k as int).map_values(|x: usize| skill_line(skills@[x as int])),
            decreases order.len() - k,
        {
            let s = &skills[order[k]];
            let mut line = chars_of("- ");
            let nc = chars_of(s.name.as_str());
            push_all(&mut line, nc.as_slice());
            let sep = chars_of(": ");
            push_all(&mut line, sep.as_slice());
            let dc = chars_of(s.description.as_str());
            let dt = crate::text::trim_chars(dc.as_slice());
            push_all(&mut line, dt.as_slice());
            let ghost before = views(lines@);
            lines.push(line);
            proof {
                assert(views(lines@) =~= before.push(skill_line(skills@[order@[k as int] as int])));
                assert(order@.take(k + 1) =~= order@.take(k as int).push(order@[k as int]));
            }
            k += 1;
        }
        let ghost before = views(lines@);
        lines.push(chars_of("</available_skills>"));
        assert(order@.take(order.len() as int) =~= order@);
        assert(views(lines@) =~= before.push("</available_skills>"@));
        assert(views(lines@) =~= skills_policy_lines().push("<available_skills>"@)
            + order@.map_values(|x: usize| skill_line(skills@[x as int])) + seq!["</available_skills>"@]);
    }
    let nl = chars_of("\n");
    let joined = join_chars(&lines, nl.as_slice());
    let r = string_of(joined.as_slice());
    assert(r@ == skills_guidance_text(skills@, order@));
    r
}

} // verus!
