use vstd::prelude::*;

verus! {

/// One way to run the usage reporter: a program and its arguments.
pub struct CommandSpec {
    pub program: String,
    pub args: Vec<String>,
}

/// How one run of the usage reporter went.
#[derive(Clone, Copy, Debug, PartialEq, Eq, Structural)]
pub enum AttemptOutcome {
    /// It succeeded and its output parsed as a daily report.
    Parsed,
    /// It succeeded but its output did not parse.
    Unparsable,
    /// It ran and exited with a failure status.
    Failed,
    /// It could not be started.
    NotStarted,
}

/// What the fetch does next.
#[derive(Clone, Copy, Debug, PartialEq, Eq, Structural)]
pub enum FetchStep {
    /// Run the attempt with this index.
    Run(usize),
    /// Stop; `available` tells whether a daily report was obtained.
    Finish { available: bool },
}

/// The shell assignment that widens `PATH` to the usual install places of
/// Node tools before the reporter is looked up.
pub open spec fn path_assignment() -> Seq<char> {
    "PATH=/usr/local/bin:/opt/homebrew/bin:/usr/bin:/bin:$HOME/.npm/bin:$HOME/.nvm/versions/node/*/bin:$HOME/.volta/bin:$PATH"@
}

/// The number of ways the reporter is tried.
pub open spec fn attempt_count() -> int {
    6
}

/// The program of the `i`-th way to run the reporter.
pub open spec fn attempt_program(i: int) -> Seq<char> {
    if i <= 3 {
        "sh"@
    } else if i == 4 {
        "npx"@
    } else {
        "ccusage"@
    }
}

/// The arguments of the `i`-th way to run the reporter.
pub open spec fn attempt_args(i: int) -> Seq<Seq<char>> {
    if i == 0 {
        seq!["-c"@, path_assignment() + " npx ccusage@latest daily --json"@]
    } else if i == 1 {
        seq!["-c"@, path_assignment() + " ccusage daily --json"@]
    } else if i == 2 {
        seq!["-c"@, "npx ccusage@latest daily --json"@]
    } else if i == 3 {
        seq!["-c"@, "ccusage daily --json"@]
    } else if i == 4 {
        seq!["ccusage@latest"@, "daily"@, "--json"@]
    } else {
        seq!["daily"@, "--json"@]
    }
}

impl CommandSpec {
    /// This is the `i`-th way to run the reporter.
    pub open spec fn is_attempt(self, i: int) -> bool {
        &&& self.program@ == attempt_program(i)
        &&& self.args@.len() == attempt_args(i).len()
        &&& forall|j: int| 0 <= j < self.args@.len() ==> #[trigger] self.args@[j]@ == attempt_args(i)[j]
    }
}

/// The shell assignment that widens `PATH`, as text.
pub fn path_assignment_text() -> (r: String)
    ensures
        r@ == path_assignment(),
{
    String::from_str(
        "PATH=/usr/local/bin:/opt/homebrew/bin:/usr/bin:/bin:$HOME/.npm/bin:$HOME/.nvm/versions/node/*/bin:$HOME/.volta/bin:$PATH",
    )
}

/// The shell command that runs `tail` with the widened `PATH`.
fn with_path(tail: &str) -> (r: String)
    ensures
        r@ == path_assignment() + tail@,
{
    path_assignment_text().concat(tail)
}

fn shell_command(script: String) -> (r: CommandSpec)
    ensures
        r.program@ == "sh"@,
        r.args@.len() == 2,
        r.args@[0]@ == "-c"@,
        r.args@[1]@ == script@,
{
    CommandSpec { program: String::from_str("sh"), args: vec![String::from_str("-c"), script] }
}

/// The ways to run the usage reporter, in the order they are tried.
pub fn reporter_attempts() -> (r: Vec<CommandSpec>)
    ensures
        r@.len() == attempt_count(),
        forall|i: int| 0 <= i < attempt_count() ==> #[trigger] r@[i].is_attempt(i),
{
    let mut r: Vec<CommandSpec> = Vec::new();
    r.push(shell_command(with_path(" npx ccusage@latest daily --json")));
    r.push(shell_command(with_path(" ccusage daily --json")));
    r.push(shell_command(String::from_str("npx ccusage@latest daily --json")));
    r.push(shell_command(String::from_str("ccusage daily --json")));
    r.push(
        CommandSpec {
            program: String::from_str("npx"),
            args: vec![
                String::from_str("ccusage@latest"),
                String::from_str("daily"),
                String::from_str("--json"),
            ],
        },
    );
    r.push(
        CommandSpec {
            program: String::from_str("ccusage"),
            args: vec![String::from_str("daily"), String::from_str("--json")],
        },
    );
    r
}

/// The step that follows the attempt with index `attempt`, given how it went.
pub open spec fn next_step(attempt: int, outcome: AttemptOutcome) -> FetchStep {
    if outcome == AttemptOutcome::Parsed {
        FetchStep::Finish { available: true }
    } else if attempt + 1 < attempt_count() {
        FetchStep::Run((attempt + 1) as usize)
    } else {
        FetchStep::Finish { available: false }
    }
}

/// The fetch starts with the first way to run the reporter.
pub fn first_fetch_step() -> (r: FetchStep)
    ensures
        r == FetchStep::Run(0),
{
    FetchStep::Run(0)
}

/// The step that follows the attempt with index `attempt`: stop with the report
/// once one parses, else try the next way, and give up after the last.
pub fn fetch_step_after(attempt: usize, outcome: AttemptOutcome) -> (r: FetchStep)
    requires
        attempt < attempt_count(),
    ensures
        r == next_step(attempt as int, outcome),
{
    match outcome {
        AttemptOutcome::Parsed => FetchStep::Finish { available: true },
        _ => if attempt + 1 < 6 {
            FetchStep::Run(attempt + 1)
        } else {
            FetchStep::Finish { available: false }
        },
    }
}

} // verus!

verus! {

/// Whether a fetch that has reached the attempt with index `attempt` obtains a
/// report, and how many attempts it has made when it stops, when the `i`-th
/// attempt goes as `outcomes[i]`.
pub open spec fn fetch_result(outcomes: Seq<AttemptOutcome>, attempt: int) -> (bool, int)
    decreases attempt_count() - attempt,
{
    if attempt < 0 || attempt >= attempt_count() {
        (false, attempt_count())
    } else {
        match next_step(attempt, outcomes[attempt]) {
            FetchStep::Finish { available } => (available, attempt + 1),
            FetchStep::Run(_) => fetch_result(outcomes, attempt + 1),
        }
    }
}

/// The fetch moves on to the very next way to run the reporter, never skipping one.
pub proof fn lemma_fetch_moves_to_next(attempt: int, outcome: AttemptOutcome)
    requires
        0 <= attempt < attempt_count(),
    ensures
        next_step(attempt, outcome) matches FetchStep::Run(n) ==> n == attempt + 1,
{
}

/// The ways to run the reporter are tried in order, each at most once, until a
/// run's output parses: a report is obtained exactly when some run parses, the
/// fetch stops right after the first such run, and otherwise it tries them all.
pub proof fn lemma_fetch_until_parsed(outcomes: Seq<AttemptOutcome>, from: int)
    requires
        outcomes.len() == attempt_count(),
        0 <= from <= attempt_count(),
    ensures
        fetch_result(outcomes, from).0 <==> exists|i: int|
            from <= i < attempt_count() && #[trigger] outcomes[i] == AttemptOutcome::Parsed,
        fetch_result(outcomes, from).0 ==> {
            let made = fetch_result(outcomes, from).1;
            &&& from < made <= attempt_count()
            &&& outcomes[made - 1] == AttemptOutcome::Parsed
            &&& forall|i: int| from <= i < made - 1 ==> #[trigger] outcomes[i] != AttemptOutcome::Parsed
        },
        !fetch_result(outcomes, from).0 ==> fetch_result(outcomes, from).1 == attempt_count(),
    decreases attempt_count() - from,
{
    if from < attempt_count() {
        lemma_fetch_until_parsed(outcomes, from + 1);
        if outcomes[from] != AttemptOutcome::Parsed {
            assert forall|i: int|
                from <= i < attempt_count() && #[trigger] outcomes[i] == AttemptOutcome::Parsed
                    implies from + 1 <= i by {}
        }
    }
}

} // verus!
