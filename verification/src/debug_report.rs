use vstd::prelude::*;

use crate::fetch::{path_assignment, path_assignment_text};
use crate::text::{escape_quotes_and_newlines, escaped, trim_text, trimmed};

verus! {

/// A command whose output the diagnostics report, and what it reports.
pub struct DebugProbe {
    pub program: String,
    pub args: Vec<String>,
    pub description: String,
}

/// How one diagnostic command went.
pub enum ProbeOutcome {
    /// It succeeded; its standard output.
    Succeeded(String),
    /// It exited with a failure status; its standard error.
    Failed(String),
    /// It could not be run; the error's message.
    NotRun(String),
}

/// The number of diagnostic commands.
pub open spec fn probe_count() -> int {
    6
}

/// The shell script of the `i`-th diagnostic, run by `sh -c` with the widened `PATH`.
pub open spec fn probe_command(i: int) -> Seq<char> {
    path_assignment() + if i == 0 {
        " which npx"@
    } else if i == 1 {
        " which node"@
    } else if i == 2 {
        " which ccusage"@
    } else if i == 3 {
        " npx --version"@
    } else if i == 4 {
        " node --version"@
    } else {
        " ccusage --version 2>&1 || echo 'not found'"@
    }
}

/// What the `i`-th diagnostic reports.
pub open spec fn probe_description(i: int) -> Seq<char> {
    if i == 0 {
        "npx location"@
    } else if i == 1 {
        "node location"@
    } else if i == 2 {
        "ccusage location"@
    } else if i == 3 {
        "npx version"@
    } else if i == 4 {
        "node version"@
    } else {
        "ccusage version"@
    }
}

/// The opening of the diagnostics: the process's `PATH` (if set), the widened
/// `PATH`, and the heading of the command list.
pub open spec fn report_header(path: Option<Seq<char>>) -> Seq<char> {
    "Environment:\n"@ + match path {
        Some(p) => "Default PATH: "@ + p + "\n"@,
        None => "Default PATH: (not set)\n"@,
    } + "Extended PATH used: "@ + path_assignment() + "\n\n"@
        + "Command availability (with extended PATH):\n"@
}

/// The line of the diagnostics for a command described by `description`.
pub open spec fn probe_line(description: Seq<char>, outcome: ProbeOutcome) -> Seq<char> {
    match outcome {
        ProbeOutcome::Succeeded(out) => description + ": "@ + trimmed(out@) + "\n"@,
        ProbeOutcome::Failed(err) => if trimmed(err@).len() == 0 {
            description + ": not found\n"@
        } else {
            description + ": "@ + trimmed(err@) + "\n"@
        },
        ProbeOutcome::NotRun(message) => description + ": error - "@ + message@ + "\n"@,
    }
}

/// The lines of the first `k` diagnostics.
pub open spec fn probe_lines(outcomes: Seq<ProbeOutcome>, k: int) -> Seq<char>
    decreases k,
{
    if k <= 0 {
        Seq::empty()
    } else {
        probe_lines(outcomes, k - 1) + probe_line(probe_description(k - 1), outcomes[k - 1])
    }
}

/// The whole diagnostics text.
pub open spec fn debug_report_text(path: Option<Seq<char>>, outcomes: Seq<ProbeOutcome>) -> Seq<char> {
    report_header(path) + probe_lines(outcomes, outcomes.len() as int)
}

/// The dialog script that shows the diagnostics `info`.
pub open spec fn dialog_script_text(info: Seq<char>) -> Seq<char> {
    "display dialog \""@ + escaped(info)
        + "\" buttons {\"OK\"} default button \"OK\" with title \"CCUsage Debug Info\""@
}

/// The diagnostics `info` framed for the console.
pub open spec fn console_report_text(info: Seq<char>) -> Seq<char> {
    "=== DEBUG INFO ===\n"@ + info + "\n=================="@
}

impl DebugProbe {
    /// This is the `i`-th diagnostic: its command run by `sh -c`, and its description.
    pub open spec fn is_probe(self, i: int) -> bool {
        &&& self.program@ == "sh"@
        &&& self.args@.len() == 2
        &&& self.args@[0]@ == "-c"@
        &&& self.args@[1]@ == probe_command(i)
        &&& self.description@ == probe_description(i)
    }
}

fn probe(tail: &str, description: &str) -> (r: DebugProbe)
    ensures
        r.program@ == "sh"@,
        r.args@.len() == 2,
        r.args@[0]@ == "-c"@,
        r.args@[1]@ == path_assignment() + tail@,
        r.description@ == description@,
{
    DebugProbe {
        program: String::from_str("sh"),
        args: vec![String::from_str("-c"), path_assignment_text().concat(tail)],
        description: String::from_str(description),
    }
}

/// The diagnostic commands, in the order they are run and reported, each a
/// shell script run by `sh -c`.
pub fn debug_probes() -> (r: Vec<DebugProbe>)
    ensures
        r@.len() == probe_count(),
        forall|i: int| 0 <= i < probe_count() ==> (#[trigger] r@[i]).is_probe(i),
{
    let mut r: Vec<DebugProbe> = Vec::new();
    r.push(probe(" which npx", "npx location"));
    r.push(probe(" which node", "node location"));
    r.push(probe(" which ccusage", "ccusage location"));
    r.push(probe(" npx --version", "npx version"));
    r.push(probe(" node --version", "node version"));
    r.push(probe(" ccusage --version 2>&1 || echo 'not found'", "ccusage version"));
    r
}

/// The opening of the diagnostics for the process's `PATH` value `path`.
pub fn report_header_text(path: Option<&str>) -> (r: String)
    ensures
        r@ == report_header(
            match path {
                Some(p) => Some(p@),
                None => None,
            },
        ),
{
    let mut out = String::from_str("Environment:\n");
    match path {
        Some(p) => {
            out.append("Default PATH: ");
            out.append(p);
            out.append("\n");
        },
        None => {
            out.append("Default PATH: (not set)\n");
        },
    }
    out.append("Extended PATH used: ");
    out.append(path_assignment_text().as_str());
    out.append("\n\n");
    out.append("Command availability (with extended PATH):\n");
    out
}

/// The line of the diagnostics for the command described by `description`:
/// its trimmed output, or for a failure its trimmed error output ("not found"
/// when that is blank), or the error that kept it from running.
pub fn probe_line_text(description: &str, outcome: &ProbeOutcome) -> (r: String)
    ensures
        r@ == probe_line(description@, *outcome),
{
    let mut out = String::from_str(description);
    match outcome {
        ProbeOutcome::Succeeded(stdout) => {
            out.append(": ");
            out.append(trim_text(stdout.as_str()).as_str());
            out.append("\n");
        },
        ProbeOutcome::Failed(stderr) => {
            let err = trim_text(stderr.as_str());
            if err.as_str().unicode_len() == 0 {
                out.append(": not found\n");
            } else {
                out.append(": ");
                out.append(err.as_str());
                out.append("\n");
            }
        },
        ProbeOutcome::NotRun(message) => {
            out.append(": error - ");
            out.append(message.as_str());
            out.append("\n");
        },
    }
    out
}

/// The diagnostics text: the header for `path`, then one line per diagnostic
/// command, `outcomes[i]` being how the `i`-th of `debug_probes` went.
pub fn debug_report(path: Option<&str>, outcomes: &Vec<ProbeOutcome>) -> (r: String)
    requires
        outcomes@.len() == probe_count(),
    ensures
        r@ == debug_report_text(
            match path {
                Some(p) => Some(p@),
                None => None,
            },
            outcomes@,
        ),
{
    let mut out = report_header_text(path);
    let ghost header = out@;
    let descriptions = debug_probes();
    let mut i: usize = 0;
    while i < outcomes.len()
        invariant
            i <= outcomes@.len(),
            outcomes@.len() == probe_count(),
            descriptions@.len() == probe_count(),
            forall|j: int| 0 <= j < probe_count() ==> (#[trigger] descriptions@[j]).is_probe(j),
            out@ == header + probe_lines(outcomes@, i as int),
        decreases outcomes@.len() - i,
    {
        let line = probe_line_text(descriptions[i].description.as_str(), &outcomes[i]);
        out.append(line.as_str());
        i = i + 1;
    }
    out
}

/// The dialog script that shows the diagnostics `info`, with its quotes and
/// line breaks escaped.
pub fn debug_dialog_script(info: &str) -> (r: String)
    ensures
        r@ == dialog_script_text(info@),
{
    let mut out = String::from_str("display dialog \"");
    out.append(escape_quotes_and_newlines(info).as_str());
    out.append("\" buttons {\"OK\"} default button \"OK\" with title \"CCUsage Debug Info\"");
    out
}

/// The diagnostics `info` framed for the console.
pub fn debug_console_text(info: &str) -> (r: String)
    ensures
        r@ == console_report_text(info@),
{
    let mut out = String::from_str("=== DEBUG INFO ===\n");
    out.append(info);
    out.append("\n==================");
    out
}

} // verus!
