//! How answers are shown to the operator as plain text. Where JSON is asked
//! for, the formatter says so and leaves the writing to the embedding
//! program.

use crate::cli::OutputFormat;
use crate::clock::{format_instant, instant_text};
use crate::database::{ProcessRecord, RecordView, Timestamp};
use crate::env::entries_view;
use crate::exchange::records_view;
use crate::process::clear::{ClearResult, ClearResultView};
use crate::text::{
    decimal,
    decimal_digits,
    join_from,
    joined,
    padded,
    push_decimal,
    push_padded,
    strings_view,
    trim_end,
    trimmed_end,
    white_space,
};
use vstd::prelude::*;
use vstd::string::StringExecFns;

verus! {

/// An answer as it is to be shown.
#[derive(Debug, PartialEq, Eq)]
pub enum Rendered {
    /// This text.
    Text(String),
    /// The value itself, written as JSON.
    Json,
}

/// Mathematical value of a [`Rendered`].
pub enum RenderedView {
    Text(Seq<char>),
    Json,
}

impl View for Rendered {
    type V = RenderedView;

    open spec fn view(&self) -> RenderedView {
        match self {
            Rendered::Text(text) => RenderedView::Text(text@),
            Rendered::Json => RenderedView::Json,
        }
    }
}

/// `text` under the format `format`.
pub open spec fn rendered(format: OutputFormat, text: Seq<char>) -> RenderedView {
    match format {
        OutputFormat::Text => RenderedView::Text(text),
        OutputFormat::Json => RenderedView::Json,
    }
}

/// `count` dashes.
pub open spec fn dashes(count: nat) -> Seq<char> {
    Seq::new(count, |i: int| '-')
}

/// A command with its arguments, as one line.
pub open spec fn command_line(command: Seq<char>, args: Seq<Seq<char>>) -> Seq<char> {
    command + " "@ + joined(args, " "@)
}

/// A pid in decimal, or `none` where there is no pid.
pub open spec fn pid_text(pid: Option<u32>, none: Seq<char>) -> Seq<char> {
    match pid {
        Some(pid) => decimal_digits(pid as nat),
        None => none,
    }
}

/// An instant as date and time of day, or a dash for an instant that
/// cannot be written so.
pub open spec fn shown_instant(at: Timestamp) -> Seq<char> {
    match instant_text(at.secs, at.nanos) {
        Some(text) => text,
        None => "-"@,
    }
}

/// The heading of the table of processes, with the rule under it.
pub open spec fn list_header() -> Seq<char> {
    padded("NAME"@, 20) + " "@ + padded("STATUS"@, 10) + " "@ + padded("PID"@, 10) + " "@ + padded(
        "COMMAND"@,
        30,
    ) + " "@ + padded("CREATED"@, 20) + "\n"@ + dashes(90) + "\n"@
}

/// The row of one process in the table. The status is written as it is;
/// the other columns are filled with spaces to their width.
pub open spec fn list_row(record: RecordView) -> Seq<char> {
    padded(record.name, 20) + " "@ + record.status.label() + " "@ + padded(
        pid_text(record.pid, "-"@),
        10,
    ) + " "@ + padded(command_line(record.command, record.args), 30) + " "@ + padded(
        shown_instant(record.created_at),
        20,
    ) + "\n"@
}

/// The rows of the processes of `records`, in order.
pub open spec fn list_rows(records: Seq<RecordView>) -> Seq<char>
    decreases records.len(),
{
    if records.len() == 0 {
        Seq::empty()
    } else {
        list_rows(records.drop_last()) + list_row(records.last())
    }
}

/// The table of the processes of `records`.
pub open spec fn list_text(records: Seq<RecordView>) -> Seq<char> {
    list_header() + list_rows(records)
}

/// The variables of `pairs`, one to a line, indented.
pub open spec fn env_lines(pairs: Seq<(Seq<char>, Seq<char>)>) -> Seq<char>
    decreases pairs.len(),
{
    if pairs.len() == 0 {
        Seq::empty()
    } else {
        env_lines(pairs.drop_last()) + "  "@ + pairs.last().0 + "="@ + pairs.last().1 + "\n"@
    }
}

/// One line of a description: `label`, then `value`.
pub open spec fn labelled(label: Seq<char>, value: Seq<char>) -> Seq<char> {
    label + value + "\n"@
}

/// The variables of a process under their heading, or nothing where the
/// process has none.
pub open spec fn env_section(pairs: Seq<(Seq<char>, Seq<char>)>) -> Seq<char> {
    if pairs.len() > 0 {
        "Environment Variables:\n"@ + env_lines(pairs)
    } else {
        Seq::empty()
    }
}

/// The description of one process.
pub open spec fn status_text(record: RecordView) -> Seq<char> {
    labelled("Process: "@, record.name) + labelled("Status: "@, record.status.label())
        + labelled("PID: "@, pid_text(record.pid, "N/A"@)) + labelled(
        "Command: "@,
        command_line(record.command, record.args),
    ) + labelled("Working Directory: "@, record.working_dir) + labelled(
        "Created: "@,
        shown_instant(record.created_at),
    ) + labelled("Updated: "@, shown_instant(record.updated_at)) + labelled(
        "Log File: "@,
        record.log_path,
    ) + env_section(record.env_vars)
}

/// The names of `names`, one to a line, as list items.
pub open spec fn name_lines(names: Seq<Seq<char>>) -> Seq<char>
    decreases names.len(),
{
    if names.len() == 0 {
        Seq::empty()
    } else {
        name_lines(names.drop_last()) + "  - "@ + names.last() + "\n"@
    }
}

/// The account of a sweep, before the white space at its end is cut off.
pub open spec fn clear_body(result: ClearResultView) -> Seq<char> {
    (if result.cleared_count == 0 {
        "No "@ + result.operation_type + " to clear."@
    } else {
        "Cleared "@ + decimal_digits(result.cleared_count) + " "@ + result.operation_type + " ("@
            + decimal_digits(result.cleared_count) + " processes):"@ + "\n"@ + name_lines(
            result.cleared_processes,
        )
    }) + (if result.failed_processes.len() > 0 {
        "\n"@ + "Failed to clear "@ + decimal_digits(result.failed_processes.len())
            + " processes:"@ + "\n"@ + name_lines(result.failed_processes)
    } else {
        Seq::empty()
    })
}

/// The account of a sweep.
pub open spec fn clear_text(result: ClearResultView) -> Seq<char> {
    trimmed_end(clear_body(result))
}

/// What is shown in place of rotated logs where there are none.
pub open spec fn no_rotated_logs(name: Seq<char>) -> Seq<char> {
    "No rotated log files found for process '"@ + name + "'"@
}

/// The rotated logs as one text.
pub open spec fn rotated_logs_text(logs: Seq<Seq<char>>, name: Seq<char>) -> Seq<char> {
    if logs.len() == 0 {
        no_rotated_logs(name)
    } else {
        joined(logs, "\n"@)
    }
}

/// Shows answers in the format that the operator asked for.
#[derive(Debug, Clone, Copy, PartialEq, Eq)]
pub struct Formatter {
    format: OutputFormat,
}

fn push_command_line(out: &mut String, record: &ProcessRecord)
    ensures
        final(out)@ == old(out)@ + command_line(record@.command, record@.args),
{
    let args = join_from(&record.args, 0, " ");
    assert(strings_view(record.args@).skip(0) =~= strings_view(record.args@));
    out.append(record.command.as_str());
    out.append(" ");
    out.append(args.as_str());
    assert(out@ =~= old(out)@ + command_line(record@.command, record@.args));
}

fn instant_string(at: Timestamp) -> (text: String)
    ensures
        text@ == shown_instant(at),
{
    match format_instant(at) {
        Some(text) => text,
        None => String::from_str("-"),
    }
}

fn pid_string(pid: Option<u32>, none: &str) -> (text: String)
    ensures
        text@ == pid_text(pid, none@),
{
    match pid {
        Some(pid) => decimal(pid as u64),
        None => String::from_str(none),
    }
}

fn push_labelled(out: &mut String, label: &str, value: &str)
    ensures
        final(out)@ == old(out)@ + labelled(label@, value@),
{
    out.append(label);
    out.append(value);
    out.append("\n");
    assert(out@ =~= old(out)@ + labelled(label@, value@));
}

fn push_env_section(out: &mut String, entries: &Vec<(String, String)>)
    ensures
        final(out)@ == old(out)@ + env_section(entries_view(entries@)),
{
    let ghost pairs = entries_view(entries@);
    if entries.len() > 0 {
        out.append("Environment Variables:\n");
        let ghost start = out@;
        let mut i: usize = 0;
        assert(pairs.take(0) =~= Seq::<(Seq<char>, Seq<char>)>::empty());
        assert(out@ =~= start + env_lines(pairs.take(0)));
        while i < entries.len()
            invariant
                i <= entries.len(),
                pairs == entries_view(entries@),
                out@ == start + env_lines(pairs.take(i as int)),
            decreases entries.len() - i,
        {
            out.append("  ");
            out.append(entries[i].0.as_str());
            out.append("=");
            out.append(entries[i].1.as_str());
            out.append("\n");
            proof {
                let grown = pairs.take(i + 1);
                assert(grown.drop_last() =~= pairs.take(i as int));
                assert(grown.last() == pairs[i as int]);
                assert(out@ =~= start + env_lines(grown));
            }
            i += 1;
        }
        assert(pairs.take(entries.len() as int) =~= pairs);
        assert(out@ =~= old(out)@ + env_section(pairs));
    } else {
        assert(out@ =~= old(out)@ + env_section(pairs));
    }
}

fn push_name_lines(out: &mut String, names: &Vec<String>)
    ensures
        final(out)@ == old(out)@ + name_lines(strings_view(names@)),
{
    let ghost all = strings_view(names@);
    let mut i: usize = 0;
    assert(all.take(0) =~= Seq::<Seq<char>>::empty());
    assert(out@ =~= old(out)@ + name_lines(all.take(0)));
    while i < names.len()
        invariant
            i <= names.len(),
            all == strings_view(names@),
            out@ == old(out)@ + name_lines(all.take(i as int)),
        decreases names.len() - i,
    {
        let ghost before = out@;
        out.append("  - ");
        out.append(names[i].as_str());
        out.append("\n");
        proof {
            let grown = all.take(i + 1);
            assert(grown.drop_last() =~= all.take(i as int));
            assert(grown.last() == names@[i as int]@);
            assert(out@ =~= old(out)@ + name_lines(grown));
        }
        i += 1;
    }
    assert(all.take(names.len() as int) =~= all);
}

impl Formatter {
    /// The format that answers are shown in.
    pub closed spec fn shown_as(&self) -> OutputFormat {
        self.format
    }

    /// A formatter for the format `format`.
    pub fn new(format: OutputFormat) -> (formatter: Self)
        ensures
            formatter.shown_as() == format,
    {
        Formatter { format }
    }

    /// The format that answers are shown in.
    pub fn format(&self) -> (format: OutputFormat)
        ensures
            format == self.shown_as(),
    {
        self.format
    }

    fn render(&self, text: String) -> (r: Rendered)
        ensures
            r@ == rendered(self.shown_as(), text@),
    {
        match self.format {
            OutputFormat::Text => Rendered::Text(text),
            OutputFormat::Json => Rendered::Json,
        }
    }

    /// The table of the processes of `processes`.
    pub fn format_process_list_text(&self, processes: &Vec<ProcessRecord>) -> (text: String)
        ensures
            text@ == list_text(records_view(processes@)),
    {
        let mut out = String::new();
        push_padded(&mut out, "NAME", 20);
        out.append(" ");
        push_padded(&mut out, "STATUS", 10);
        out.append(" ");
        push_padded(&mut out, "PID", 10);
        out.append(" ");
        push_padded(&mut out, "COMMAND", 30);
        out.append(" ");
        push_padded(&mut out, "CREATED", 20);
        out.append("\n");
        let ghost start = out@;
        let mut d: usize = 0;
        assert(dashes(0) =~= Seq::<char>::empty());
        while d < 90
            invariant
                d <= 90,
                out@ == start + dashes(d as nat),
            decreases 90 - d,
        {
            out.push('-');
            assert(dashes(d as nat).push('-') =~= dashes((d + 1) as nat));
            d += 1;
        }
        out.append("\n");
        assert(out@ =~= list_header());
        let ghost all = records_view(processes@);
        let mut i: usize = 0;
        assert(all.take(0) =~= Seq::<RecordView>::empty());
        assert(out@ =~= list_header() + list_rows(all.take(0)));
        while i < processes.len()
            invariant
                i <= processes.len(),
                all == records_view(processes@),
                out@ == list_header() + list_rows(all.take(i as int)),
            decreases processes.len() - i,
        {
            let record = &processes[i];
            let ghost before = out@;
            let mut row = String::new();
            push_padded(&mut row, record.name.as_str(), 20);
            row.append(" ");
            row.append(record.status.as_str());
            row.append(" ");
            let pid = pid_string(record.pid, "-");
            push_padded(&mut row, pid.as_str(), 10);
            row.append(" ");
            let mut command = String::new();
            push_command_line(&mut command, record);
            assert(command@ =~= command_line(record@.command, record@.args));
            push_padded(&mut row, command.as_str(), 30);
            row.append(" ");
            let created = instant_string(record.created_at);
            push_padded(&mut row, created.as_str(), 20);
            row.append("\n");
            assert(row@ =~= list_row(record@));
            out.append(row.as_str());
            proof {
                let grown = all.take(i + 1);
                assert(grown.drop_last() =~= all.take(i as int));
                assert(grown.last() == processes@[i as int]@);
                assert(out@ =~= list_header() + list_rows(grown));
            }
            i += 1;
        }
        assert(all.take(processes.len() as int) =~= all);
        out
    }

    /// The processes of `processes` as they are to be shown.
    pub fn format_process_list(&self, processes: &Vec<ProcessRecord>) -> (r: Rendered)
        ensures
            r@ == rendered(self.shown_as(), list_text(records_view(processes@))),
    {
        match self.format {
            OutputFormat::Text => Rendered::Text(self.format_process_list_text(processes)),
            OutputFormat::Json => Rendered::Json,
        }
    }

    /// The description of `process`.
    pub fn format_process_status_text(&self, process: &ProcessRecord) -> (text: String)
        ensures
            text@ == status_text(process@),
    {
        let mut out = String::new();
        push_labelled(&mut out, "Process: ", process.name.as_str());
        push_labelled(&mut out, "Status: ", process.status.as_str());
        let pid = pid_string(process.pid, "N/A");
        push_labelled(&mut out, "PID: ", pid.as_str());
        let mut command = String::new();
        push_command_line(&mut command, process);
        push_labelled(&mut out, "Command: ", command.as_str());
        push_labelled(&mut out, "Working Directory: ", process.working_dir.as_str());
        let created = instant_string(process.created_at);
        push_labelled(&mut out, "Created: ", created.as_str());
        let updated = instant_string(process.updated_at);
        push_labelled(&mut out, "Updated: ", updated.as_str());
        push_labelled(&mut out, "Log File: ", process.log_path.as_str());
        push_env_section(&mut out, process.env_vars.entries());
        assert(out@ =~= status_text(process@));
        out
    }

    /// `process` as it is to be shown.
    pub fn format_process_status(&self, process: &ProcessRecord) -> (r: Rendered)
        ensures
            r@ == rendered(self.shown_as(), status_text(process@)),
    {
        match self.format {
            OutputFormat::Text => Rendered::Text(self.format_process_status_text(process)),
            OutputFormat::Json => Rendered::Json,
        }
    }

    /// The log `logs` of the process `process_name` as it is to be shown:
    /// as it is, where text is asked for.
    pub fn format_process_logs(&self, logs: &str, process_name: &str) -> (r: Rendered)
        ensures
            r@ == rendered(self.shown_as(), logs@),
    {
        self.render(String::from_str(logs))
    }

    /// The rotated logs `logs` of the process `process_name` as they are to
    /// be shown: one after the other, or a sentence where there are none.
    pub fn format_rotated_logs(&self, logs: &Vec<String>, process_name: &str) -> (r: Rendered)
        ensures
            r@ == rendered(self.shown_as(), rotated_logs_text(strings_view(logs@), process_name@)),
    {
        match self.format {
            OutputFormat::Text => {
                if logs.len() == 0 {
                    let mut text = String::from_str("No rotated log files found for process '");
                    text.append(process_name);
                    text.append("'");
                    Rendered::Text(text)
                } else {
                    assert(strings_view(logs@).skip(0) =~= strings_view(logs@));
                    Rendered::Text(join_from(logs, 0, "\n"))
                }
            },
            OutputFormat::Json => Rendered::Json,
        }
    }

    /// The account of the sweep `result`.
    pub fn format_clear_result_text(&self, result: &ClearResult) -> (text: String)
        ensures
            text@ == clear_text(result@),
    {
        let mut out = String::new();
        if result.cleared_count == 0 {
            out.append("No ");
            out.append(result.operation_type.as_str());
            out.append(" to clear.");
        } else {
            out.append("Cleared ");
            push_decimal(&mut out, result.cleared_count as u64);
            out.append(" ");
            out.append(result.operation_type.as_str());
            out.append(" (");
            push_decimal(&mut out, result.cleared_count as u64);
            out.append(" processes):");
            out.push('\n');
            push_name_lines(&mut out, &result.cleared_processes);
        }
        let ghost first = out@;
        if result.failed_processes.len() > 0 {
            out.push('\n');
            out.append("Failed to clear ");
            push_decimal(&mut out, result.failed_processes.len() as u64);
            out.append(" processes:");
            out.push('\n');
            push_name_lines(&mut out, &result.failed_processes);
        }
        proof {
            reveal_strlit("\n");
            assert("\n"@ =~= seq!['\n']);
            assert(out@ =~= clear_body(result@));
        }
        trim_end(out.as_str())
    }

    /// The sweep `result` as it is to be shown.
    pub fn format_clear_result(&self, result: &ClearResult) -> (r: Rendered)
        ensures
            r@ == rendered(self.shown_as(), clear_text(result@)),
    {
        match self.format {
            OutputFormat::Text => Rendered::Text(self.format_clear_result_text(result)),
            OutputFormat::Json => Rendered::Json,
        }
    }

    /// The message of a success as it is to be shown.
    pub fn format_success_message(&self, message: &str) -> (r: Rendered)
        ensures
            r@ == rendered(self.shown_as(), message@),
    {
        self.render(String::from_str(message))
    }

    /// The message of a failure as it is to be shown.
    pub fn format_error_message(&self, message: &str) -> (r: Rendered)
        ensures
            r@ == rendered(self.shown_as(), message@),
    {
        self.render(String::from_str(message))
    }

    /// What is shown in place of an empty list.
    pub fn format_empty_list_message(&self, message: &str) -> (r: Rendered)
        ensures
            r@ == rendered(self.shown_as(), message@),
    {
        self.render(String::from_str(message))
    }
}

/// The account of a sweep that cleared nothing and failed at nothing is the
/// one sentence that says so: nothing is cut off its end.
pub proof fn lemma_clear_text_of_nothing(result: ClearResultView)
    requires
        result.cleared_count == 0,
        result.failed_processes.len() == 0,
    ensures
        clear_text(result) == "No "@ + result.operation_type + " to clear."@,
{
    reveal_strlit(" to clear.");
    let body = "No "@ + result.operation_type + " to clear."@;
    assert(clear_body(result) =~= body);
    assert(" to clear."@.len() == 10);
    assert(body.last() == " to clear."@[9]);
    assert(" to clear."@[9] == '.');
    assert(!white_space('.'));
}

/// The account of a sweep that failed at nothing, and whose last cleared
/// name does not end in white space, is the heading and the list of the
/// cleared names, without the line feed after the last of them.
pub proof fn lemma_clear_text_of_cleared(result: ClearResultView)
    requires
        result.cleared_count > 0,
        result.failed_processes.len() == 0,
        result.cleared_processes.len() > 0,
        result.cleared_processes.last().len() > 0,
        !white_space(result.cleared_processes.last().last()),
    ensures
        clear_text(result) == clear_body(result).drop_last(),
{
    reveal_strlit("\n");
    let names = result.cleared_processes;
    let lines = name_lines(names);
    let body = clear_body(result);
    let last = names.last();
    assert("\n"@.len() == 1 && "\n"@[0] == '\n');
    assert(lines == name_lines(names.drop_last()) + "  - "@ + last + "\n"@);
    assert(lines.len() >= last.len() + 1);
    assert(lines.last() == '\n');
    assert(lines[lines.len() - 2] == last.last());
    assert(body.last() == lines.last());
    assert(body[body.len() - 2] == lines[lines.len() - 2]);
    assert(white_space('\n'));
    let cut = body.drop_last();
    assert(cut.last() == last.last());
    assert(trimmed_end(cut) == cut);
}

} // verus!
