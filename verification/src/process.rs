//! Shell commands the agent runs, and the table of background processes it
//! started.

use vstd::prelude::*;
use crate::text::{chars_of, decimal_seq, decimal_text, owned, push_all, str_eq, string_of, trim_present, trimmed_present};
use crate::web_tools::{clamp_u64, clamped, number_or};

verus! {

/// A program and its arguments.
pub struct ShellInvocation {
    pub program: String,
    pub args: Vec<String>,
}

/// The views of a list of strings.
pub open spec fn strings_view(v: Seq<String>) -> Seq<Seq<char>> {
    v.map_values(|s: String| s@)
}

/// The prefix that makes PowerShell read and write UTF-8.
pub open spec fn utf8_console_prefix() -> Seq<char> {
    "$OutputEncoding = [Console]::OutputEncoding = [System.Text.UTF8Encoding]::new($false); [Console]::InputEncoding = [System.Text.UTF8Encoding]::new($false); chcp 65001 > $null; "@
}

/// How a one-off command runs: `powershell -NoProfile -Command <command>`
/// on Windows, `sh -lc <command>` elsewhere.
pub fn run_command_invocation(command: &str, on_windows: bool) -> (r: ShellInvocation)
    ensures
        on_windows ==> r.program@ == "powershell"@ && strings_view(r.args@) == seq!["-NoProfile"@, "-Command"@, command@],
        !on_windows ==> r.program@ == "sh"@ && strings_view(r.args@) == seq!["-lc"@, command@],
{
    let mut args: Vec<String> = Vec::new();
    if on_windows {
        args.push(owned("-NoProfile"));
        args.push(owned("-Command"));
        args.push(owned(command));
        assert(strings_view(args@) =~= seq!["-NoProfile"@, "-Command"@, command@]);
        ShellInvocation { program: owned("powershell"), args }
    } else {
        args.push(owned("-lc"));
        args.push(owned(command));
        assert(strings_view(args@) =~= seq!["-lc"@, command@]);
        ShellInvocation { program: owned("sh"), args }
    }
}

/// How a background process starts: on Windows through PowerShell, without
/// a profile or prompts, with its console switched to UTF-8 first; `sh -lc`
/// elsewhere.
pub fn background_process_invocation(command: &str, on_windows: bool) -> (r: ShellInvocation)
    ensures
        on_windows ==> r.program@ == "powershell"@ && strings_view(r.args@)
            == seq!["-NoProfile"@, "-NonInteractive"@, "-Command"@, utf8_console_prefix() + command@],
        !on_windows ==> r.program@ == "sh"@ && strings_view(r.args@) == seq!["-lc"@, command@],
{
    let mut args: Vec<String> = Vec::new();
    if on_windows {
        let mut wrapped = chars_of("$OutputEncoding = [Console]::OutputEncoding = [System.Text.UTF8Encoding]::new($false); [Console]::InputEncoding = [System.Text.UTF8Encoding]::new($false); chcp 65001 > $null; ");
        let c = chars_of(command);
        push_all(&mut wrapped, c.as_slice());
        args.push(owned("-NoProfile"));
        args.push(owned("-NonInteractive"));
        args.push(owned("-Command"));
        args.push(string_of(wrapped.as_slice()));
        assert(strings_view(args@) =~= seq!["-NoProfile"@, "-NonInteractive"@, "-Command"@, utf8_console_prefix() + command@]);
        ShellInvocation { program: owned("powershell"), args }
    } else {
        args.push(owned("-lc"));
        args.push(owned(command));
        assert(strings_view(args@) =~= seq!["-lc"@, command@]);
        ShellInvocation { program: owned("sh"), args }
    }
}

/// What `workspace_run_command` runs.
pub struct RunCommandPlan {
    pub command: String,
    pub timeout_ms: u64,
}

/// Reads the arguments of `workspace_run_command`: the trimmed command
/// (required) and a timeout (20 s when none is given) held between 1 s and
/// 120 s.
pub fn run_command_plan(command: &Option<String>, timeout_ms: Option<u64>) -> (r: Result<RunCommandPlan, String>)
    ensures
        match trimmed_present(*command) {
            None => r matches Err(e) && e@ == "'command' is required"@,
            Some(c) => r matches Ok(p) && p.command@ == c
                && p.timeout_ms == clamped(number_or(timeout_ms, 20000), 1000, 120000),
        },
{
    match trim_present(command) {
        Some(c) => Ok(RunCommandPlan {
            command: c,
            timeout_ms: clamp_u64(match timeout_ms { Some(t) => t, None => 20000 }, 1000, 120000),
        }),
        None => Err(owned("'command' is required")),
    }
}

/// The error of a command that ran past its timeout.
pub fn command_timeout_message(timeout_ms: u64) -> (r: String)
    ensures
        r@ == "Command timed out after "@ + decimal_seq(timeout_ms as nat) + " ms"@,
{
    let mut out = chars_of("Command timed out after ");
    let n = chars_of(decimal_text(timeout_ms).as_str());
    push_all(&mut out, n.as_slice());
    let tail = chars_of(" ms");
    push_all(&mut out, tail.as_slice());
    string_of(out.as_slice())
}

/// How many characters of each output stream `workspace_process_read`
/// gives: the number asked (10 000 when none is given) held between 200
/// and 200 000.
pub fn process_read_max_chars(requested: Option<u64>) -> (r: u64)
    ensures
        r == clamped(number_or(requested, 10000), 200, 200000),
{
    clamp_u64(match requested { Some(v) => v, None => 10000 }, 200, 200000)
}

/// The most characters of each stream a background process keeps.
pub open spec fn process_output_limit() -> nat {
    200000
}

/// Adds a line a background process wrote to its captured output, keeping
/// the last 200 000 characters.
pub fn append_process_output(buffer: &mut String, line: &str)
    ensures
        final(buffer)@ == crate::text::tail_chars(old(buffer)@ + line@, process_output_limit()),
{
    let mut cs = chars_of(buffer.as_str());
    let l = chars_of(line);
    push_all(&mut cs, l.as_slice());
    let mut joined = string_of(cs.as_slice());
    crate::agent::trim_process_output(&mut joined, 200000);
    *buffer = joined;
}

/// The error for a process id the table does not hold.
pub fn unknown_process_message(process_id: &str) -> (r: String)
    ensures
        r@ == "Unknown process id: "@ + process_id@,
{
    let mut out = chars_of("Unknown process id: ");
    let p = chars_of(process_id);
    push_all(&mut out, p.as_slice());
    string_of(out.as_slice())
}

/// A background process the agent started.
pub struct ProcessRecord {
    pub id: String,
    pub command: String,
    pub started_at: String,
    pub pid: u32,
}

/// No id occurs twice.
pub open spec fn ids_distinct(rs: Seq<ProcessRecord>) -> bool {
    forall|i: int, j: int| 0 <= i < j < rs.len() ==> #[trigger] rs[i].id@ != #[trigger] rs[j].id@
}

/// The record with this id, if the list holds one.
pub open spec fn record_with_id(rs: Seq<ProcessRecord>, id: Seq<char>) -> Option<ProcessRecord> {
    if exists|i: int| 0 <= i < rs.len() && #[trigger] rs[i].id@ == id {
        Some(rs[choose|i: int| 0 <= i < rs.len() && #[trigger] rs[i].id@ == id])
    } else {
        None
    }
}

/// The background processes of a session, each under its own id.
pub struct ProcessTable {
    records: Vec<ProcessRecord>,
}

impl ProcessTable {
    /// The records, in the order they were started.
    pub closed spec fn records_view(&self) -> Seq<ProcessRecord> {
        self.records@
    }

    /// Every table keeps its ids distinct.
    pub open spec fn wf(&self) -> bool {
        ids_distinct(self.records_view())
    }

    /// An empty table.
    pub fn new() -> (r: Self)
        ensures
            r.wf(),
            r.records_view().len() == 0,
    {
        ProcessTable { records: Vec::new() }
    }

    /// The records, in the order they were started.
    pub fn records(&self) -> (r: &Vec<ProcessRecord>)
        ensures
            r@ == self.records_view(),
    {
        &self.records
    }

    /// The position of the record with this id.
    pub fn position(&self, id: &str) -> (r: Option<usize>)
        ensures
            match r {
                Some(i) => i < self.records_view().len() && self.records_view()[i as int].id@ == id@,
                None => forall|i: int| 0 <= i < self.records_view().len() ==> #[trigger] self.records_view()[i].id@ != id@,
            },
    {
        let mut i: usize = 0;
        while i < self.records.len()
            invariant
                i <= self.records@.len(),
                forall|k: int| 0 <= k < i ==> #[trigger] self.records@[k].id@ != id@,
            decreases self.records@.len() - i,
        {
            if str_eq(self.records[i].id.as_str(), id) {
                return Some(i);
            }
            i = i + 1;
        }
        None
    }

    /// Files a record under its id; one already filed under that id is
    /// replaced in place.
    pub fn insert(&mut self, record: ProcessRecord)
        requires
            old(self).wf(),
        ensures
            final(self).wf(),
            (exists|i: int| 0 <= i < old(self).records_view().len() && #[trigger] old(self).records_view()[i].id@ == record.id@)
                ==> exists|i: int| 0 <= i < old(self).records_view().len()
                    && #[trigger] old(self).records_view()[i].id@ == record.id@
                    && final(self).records_view() == old(self).records_view().update(i, record),
            (forall|i: int| 0 <= i < old(self).records_view().len() ==> #[trigger] old(self).records_view()[i].id@ != record.id@)
                ==> final(self).records_view() == old(self).records_view().push(record),
    {
        let ghost before = self.records@;
        match self.position(record.id.as_str()) {
            Some(i) => {
                let ghost rid = record.id@;
                self.records.set(i, record);
                proof {
                    assert(self.records@ == before.update(i as int, self.records@[i as int]));
                    assert forall|a: int, b: int| 0 <= a < b < self.records@.len() implies
                        #[trigger] self.records@[a].id@ != #[trigger] self.records@[b].id@ by {
                        if a != i && b != i {
                            assert(before[a].id@ != before[b].id@);
                        } else if a == i {
                            assert(before[a].id@ != before[b].id@);
                        } else {
                            assert(before[a].id@ != before[b].id@);
                        }
                    }
                }
            },
            None => {
                self.records.push(record);
                proof {
                    assert forall|a: int, b: int| 0 <= a < b < self.records@.len() implies
                        #[trigger] self.records@[a].id@ != #[trigger] self.records@[b].id@ by {
                        if b < before.len() {
                            assert(before[a].id@ != before[b].id@);
                        } else {
                            assert(before[a].id@ != self.records@[b].id@);
                        }
                    }
                }
            },
        }
    }

    /// Takes the record with this id out of the table.
    pub fn remove(&mut self, id: &str) -> (r: Option<ProcessRecord>)
        requires
            old(self).wf(),
        ensures
            final(self).wf(),
            match r {
                Some(rec) => exists|i: int| 0 <= i < old(self).records_view().len()
                    && #[trigger] old(self).records_view()[i].id@ == id@
                    && rec == old(self).records_view()[i]
                    && final(self).records_view() == old(self).records_view().remove(i),
                None => final(self).records_view() == old(self).records_view()
                    && forall|i: int| 0 <= i < old(self).records_view().len() ==> #[trigger] old(self).records_view()[i].id@ != id@,
            },
    {
        let ghost before = self.records@;
        match self.position(id) {
            Some(i) => {
                let rec = self.records.remove(i);
                proof {
                    assert forall|a: int, b: int| 0 <= a < b < self.records@.len() implies
                        #[trigger] self.records@[a].id@ != #[trigger] self.records@[b].id@ by {
                        let a0 = if a < i { a } else { a + 1 };
                        let b0 = if b < i { b } else { b + 1 };
                        assert(self.records@[a] == before[a0]);
                        assert(self.records@[b] == before[b0]);
                        assert(before[a0].id@ != before[b0].id@);
                    }
                    assert(final(self).records_view() == before.remove(i as int));
                }
                Some(rec)
            },
            None => None,
        }
    }
}

/// After a record is filed, the table holds exactly one record under its
/// id, and that record is the one filed.
pub proof fn lemma_inserted_record_found(before: Seq<ProcessRecord>, after: Seq<ProcessRecord>, record: ProcessRecord)
    requires
        ids_distinct(before),
        ids_distinct(after),
        (exists|i: int| 0 <= i < before.len() && #[trigger] before[i].id@ == record.id@)
            ==> exists|i: int| 0 <= i < before.len() && #[trigger] before[i].id@ == record.id@ && after == before.update(i, record),
        (forall|i: int| 0 <= i < before.len() ==> #[trigger] before[i].id@ != record.id@) ==> after == before.push(record),
    ensures
        record_with_id(after, record.id@) == Some(record),
        forall|i: int| 0 <= i < after.len() && #[trigger] after[i].id@ == record.id@ ==> after[i] == record,
{
    if exists|i: int| 0 <= i < before.len() && #[trigger] before[i].id@ == record.id@ {
        let i = choose|i: int| 0 <= i < before.len() && #[trigger] before[i].id@ == record.id@ && after == before.update(i, record);
        assert(after[i] == record);
        assert forall|k: int| 0 <= k < after.len() && #[trigger] after[k].id@ == record.id@ implies after[k] == record by {
            if k != i {
                if k < i {
                    assert(after[k].id@ != after[i].id@);
                } else {
                    assert(after[i].id@ != after[k].id@);
                }
            }
        }
        assert(after[i].id@ == record.id@);
    } else {
        let n = before.len() as int;
        assert(after[n] == record);
        assert forall|k: int| 0 <= k < after.len() && #[trigger] after[k].id@ == record.id@ implies after[k] == record by {
            if k < n {
                assert(before[k].id@ != record.id@);
            }
        }
        assert(after[n].id@ == record.id@);
    }
}

/// After a record is taken out, the table holds none under its id, and
/// every other record stays.
pub proof fn lemma_removed_record_gone(before: Seq<ProcessRecord>, after: Seq<ProcessRecord>, i: int)
    requires
        ids_distinct(before),
        0 <= i < before.len(),
        after == before.remove(i),
    ensures
        record_with_id(after, before[i].id@) is None,
        forall|k: int| 0 <= k < before.len() && k != i ==> after.contains(#[trigger] before[k]),
{
    assert forall|k: int| 0 <= k < after.len() implies #[trigger] after[k].id@ != before[i].id@ by {
        if k < i {
            assert(after[k] == before[k]);
            assert(before[k].id@ != before[i].id@);
        } else {
            assert(after[k] == before[k + 1]);
            assert(before[i].id@ != before[k + 1].id@);
        }
    }
    assert forall|k: int| 0 <= k < before.len() && k != i implies after.contains(#[trigger] before[k]) by {
        if k < i {
            assert(after[k] == before[k]);
        } else {
            assert(after[k - 1] == before[k]);
        }
    }
}

} // verus!
