//! The developer tasks: which commands each one runs, in which order, and what
//! becomes of a task whose command fails.

use crate::text;
use vstd::prelude::*;

verus! {

/// The hooks the repository tracks, which git has to be pointed at.
pub const HOOKS: &'static str = ".githooks";

/// The probe's page, which is where its own tools run from.
pub const UI: &'static str = "probe/ui";

/// What the tasks are.
pub const HELP: &'static str = "cargo xtask <task>

  bindings   hold the probe's TypeScript to its Rust types, rewriting it if not
  probe      run the conformance probe (--exit to quit once it reports)

  hello      the least that renders over the protocol
  session    sessions, with the token held out of the webview

  lint       fmt, the page's own two, clippy over every feature, and the docs
  test       the suites, the doctests, then the page against its bindings
  check      lint then test, which between them are what CI runs
  hooks      run check before every commit, too (once per clone)";

/// One command: the program, its arguments, and the directory it runs in if
/// that is not the current one.
#[derive(Debug, PartialEq, Eq)]
pub struct Command {
    /// The program.
    pub program: String,
    /// Its arguments.
    pub arguments: Vec<String>,
    /// The directory it runs in.
    pub directory: Option<String>,
}

impl View for Command {
    type V = (Seq<char>, Seq<Seq<char>>, Option<Seq<char>>);

    open spec fn view(&self) -> (Seq<char>, Seq<Seq<char>>, Option<Seq<char>>) {
        (self.program@, text::texts(self.arguments@), text::text_or_none(self.directory))
    }
}

/// What each of some commands is.
pub open spec fn commands(all: Seq<Command>) -> Seq<
    (Seq<char>, Seq<Seq<char>>, Option<Seq<char>>),
> {
    all.map_values(|command: Command| command@)
}

/// The characters of each of some words.
pub open spec fn letters(all: Seq<&str>) -> Seq<Seq<char>> {
    all.map_values(|word: &str| word@)
}

/// Words that can be handed to a program.
fn words(all: Vec<&str>) -> (owned: Vec<String>)
    ensures
        text::texts(owned@) == letters(all@),
{
    let mut owned: Vec<String> = Vec::new();
    let mut at: usize = 0;
    while at < all.len()
        invariant
            at <= all@.len(),
            text::texts(owned@) == letters(all@.take(at as int)),
        decreases all.len() - at,
    {
        let word: &str = all[at];
        let ghost before = text::texts(owned@);
        owned.push(word.to_owned());
        proof {
            assert(text::texts(owned@) =~= before.push(word@));
            assert(letters(all@.take(at + 1)) =~= letters(all@.take(at as int)).push(word@));
        }
        at = at + 1;
    }
    proof {
        assert(all@.take(at as int) =~= all@);
    }
    owned
}

/// Cargo against the committed lock: no task has any business changing it.
pub open spec fn cargo_command(arguments: Seq<Seq<char>>) -> (
    Seq<char>,
    Seq<Seq<char>>,
    Option<Seq<char>>,
) {
    ("cargo"@, seq!["--locked"@] + arguments, None)
}

/// Clippy over one selection, with a warning counted as a failure.
pub open spec fn lint_command(arguments: Seq<Seq<char>>) -> (
    Seq<char>,
    Seq<Seq<char>>,
    Option<Seq<char>>,
) {
    cargo_command(seq!["clippy"@] + arguments + seq!["--"@, "-D"@, "warnings"@])
}

/// One of the page's own tools.
pub open spec fn pnpm_command(arguments: Seq<Seq<char>>) -> (
    Seq<char>,
    Seq<Seq<char>>,
    Option<Seq<char>>,
) {
    ("pnpm"@, arguments, Some(UI@))
}

/// Everything that can be answered without running the code, cheapest first.
pub open spec fn lint_commands() -> Seq<(Seq<char>, Seq<Seq<char>>, Option<Seq<char>>)> {
    seq![
        cargo_command(seq!["fmt"@, "--all"@, "--check"@]),
        lint_command(seq!["--workspace"@, "--all-targets"@]),
        pnpm_command(seq!["run"@, "fmt:check"@]),
        pnpm_command(seq!["run"@, "lint"@]),
        lint_command(seq!["--workspace"@, "--all-targets"@, "--all-features"@]),
        lint_command(
            seq!["--all-targets"@, "-p"@, "custom-protocol-http"@, "--no-default-features"@],
        ),
        lint_command(
            seq![
                "--all-targets"@,
                "-p"@,
                "custom-protocol-http"@,
                "--no-default-features"@,
                "--features"@,
                "tracing"@,
            ],
        ),
        lint_command(
            seq!["--all-targets"@, "-p"@, "tauri-plugin-topcoat"@, "--features"@, "session"@],
        ),
        lint_command(
            seq!["--all-targets"@, "-p"@, "tauri-plugin-topcoat"@, "--features"@, "tracing"@],
        ),
        cargo_command(seq!["doc"@, "--workspace"@, "--no-deps"@, "--all-features"@]),
    ]
}

/// Everything you only learn by running it. The page is type-checked last,
/// because the bindings it is checked against are what the first of these
/// rewrites.
pub open spec fn test_commands() -> Seq<(Seq<char>, Seq<Seq<char>>, Option<Seq<char>>)> {
    seq![
        cargo_command(seq!["test"@, "--workspace"@, "--all-targets"@]),
        cargo_command(seq!["test"@, "--workspace"@, "--all-targets"@, "--all-features"@]),
        cargo_command(seq!["test"@, "--workspace"@, "--doc"@, "--all-features"@]),
        pnpm_command(seq!["run"@, "typecheck"@]),
    ]
}

/// The commands of a task, with what followed its name, or nothing if there is
/// no such task.
pub open spec fn planned(task: Seq<char>, rest: Seq<Seq<char>>) -> Option<
    Seq<(Seq<char>, Seq<Seq<char>>, Option<Seq<char>>)>,
> {
    if task == "bindings"@ {
        Some(seq![cargo_command(seq!["test"@, "-p"@, "topcoat-probe"@, "bindings"@])])
    } else if task == "probe"@ {
        Some(
            seq![
                cargo_command(
                    seq!["run"@, "--release"@, "-p"@, "topcoat-probe"@, "--"@] + rest,
                ),
            ],
        )
    } else if task == "hello"@ {
        Some(seq![cargo_command(seq!["run"@, "--release"@, "-p"@, "example-hello"@])])
    } else if task == "session"@ {
        Some(seq![cargo_command(seq!["run"@, "--release"@, "-p"@, "example-session"@])])
    } else if task == "lint"@ {
        Some(lint_commands())
    } else if task == "test"@ {
        Some(test_commands())
    } else if task == "check"@ {
        Some(lint_commands() + test_commands())
    } else if task == "hooks"@ {
        Some(seq![("git"@, seq!["config"@, "core.hooksPath"@, HOOKS@], None)])
    } else {
        None
    }
}

/// Runs cargo against the committed lock.
fn cargo(arguments: Vec<String>) -> (command: Command)
    ensures
        command@ == cargo_command(text::texts(arguments@)),
{
    let mut locked = words(vec!["--locked"]);
    let mut rest = arguments;
    let ghost first = text::texts(locked@);
    let ghost second = text::texts(rest@);
    locked.append(&mut rest);
    proof {
        assert(first =~= seq!["--locked"@]);
        assert(text::texts(locked@) =~= first + second);
    }
    Command { program: "cargo".to_owned(), arguments: locked, directory: None }
}

/// Runs clippy over one selection with a warning counted as a failure.
fn lint_with(arguments: Vec<&str>) -> (command: Command)
    ensures
        command@ == lint_command(letters(arguments@)),
{
    let mut clippy = words(vec!["clippy"]);
    let mut middle = words(arguments);
    let mut strict = words(vec!["--", "-D", "warnings"]);
    let ghost first = text::texts(clippy@);
    let ghost second = text::texts(middle@);
    let ghost third = text::texts(strict@);
    clippy.append(&mut middle);
    clippy.append(&mut strict);
    proof {
        assert(first =~= seq!["clippy"@]);
        assert(third =~= seq!["--"@, "-D"@, "warnings"@]);
        assert(text::texts(clippy@) =~= first + second + third);
    }
    cargo(clippy)
}

/// Runs one of the page's own tools.
fn pnpm(arguments: Vec<&str>) -> (command: Command)
    ensures
        command@ == pnpm_command(letters(arguments@)),
{
    Command { program: "pnpm".to_owned(), arguments: words(arguments), directory: Some(UI.to_owned()) }
}

/// Runs one example application, in release, because these are windows somebody
/// is going to interact with.
fn example(package: &str) -> (command: Command)
    ensures
        command@ == cargo_command(seq!["run"@, "--release"@, "-p"@, package@]),
{
    let arguments = words(vec!["run", "--release", "-p", package]);
    proof {
        assert(text::texts(arguments@) =~= seq!["run"@, "--release"@, "-p"@, package@]);
    }
    cargo(arguments)
}

/// Runs the conformance probe with whatever followed the task name.
fn probe(rest: Vec<String>) -> (command: Command)
    ensures
        command@ == cargo_command(
            seq!["run"@, "--release"@, "-p"@, "topcoat-probe"@, "--"@] + text::texts(rest@),
        ),
{
    let mut arguments = words(vec!["run", "--release", "-p", "topcoat-probe", "--"]);
    let mut rest = rest;
    let ghost first = text::texts(arguments@);
    let ghost second = text::texts(rest@);
    arguments.append(&mut rest);
    proof {
        assert(first =~= seq!["run"@, "--release"@, "-p"@, "topcoat-probe"@, "--"@]);
        assert(text::texts(arguments@) =~= first + second);
    }
    cargo(arguments)
}

/// Points git at the hooks the repository tracks.
fn hooks() -> (command: Command)
    ensures
        command@ == ("git"@, seq!["config"@, "core.hooksPath"@, HOOKS@], None::<Seq<char>>),
{
    let arguments = words(vec!["config", "core.hooksPath", HOOKS]);
    proof {
        assert(text::texts(arguments@) =~= seq!["config"@, "core.hooksPath"@, HOOKS@]);
    }
    Command { program: "git".to_owned(), arguments, directory: None }
}

/// Everything that can be answered without running the code.
fn lint() -> (all: Vec<Command>)
    ensures
        commands(all@) == lint_commands(),
{
    let mut all: Vec<Command> = Vec::new();
    let arguments = vec!["fmt", "--all", "--check"];
    proof {
        assert(letters(arguments@) =~= seq!["fmt"@, "--all"@, "--check"@]);
    }
    all.push(cargo(words(arguments)));
    let arguments = vec!["--workspace", "--all-targets"];
    proof {
        assert(letters(arguments@) =~= seq!["--workspace"@, "--all-targets"@]);
    }
    all.push(lint_with(arguments));
    let arguments = vec!["run", "fmt:check"];
    proof {
        assert(letters(arguments@) =~= seq!["run"@, "fmt:check"@]);
    }
    all.push(pnpm(arguments));
    let arguments = vec!["run", "lint"];
    proof {
        assert(letters(arguments@) =~= seq!["run"@, "lint"@]);
    }
    all.push(pnpm(arguments));
    let arguments = vec!["--workspace", "--all-targets", "--all-features"];
    proof {
        assert(letters(arguments@) =~= seq!["--workspace"@, "--all-targets"@, "--all-features"@]);
    }
    all.push(lint_with(arguments));
    let arguments = vec!["--all-targets", "-p", "custom-protocol-http", "--no-default-features"];
    proof {
        assert(letters(arguments@) =~= seq!["--all-targets"@, "-p"@, "custom-protocol-http"@, "--no-default-features"@]);
    }
    all.push(lint_with(arguments));
    let arguments = vec!["--all-targets", "-p", "custom-protocol-http", "--no-default-features", "--features", "tracing"];
    proof {
        assert(letters(arguments@) =~= seq!["--all-targets"@, "-p"@, "custom-protocol-http"@, "--no-default-features"@, "--features"@, "tracing"@]);
    }
    all.push(lint_with(arguments));
    let arguments = vec!["--all-targets", "-p", "tauri-plugin-topcoat", "--features", "session"];
    proof {
        assert(letters(arguments@) =~= seq!["--all-targets"@, "-p"@, "tauri-plugin-topcoat"@, "--features"@, "session"@]);
    }
    all.push(lint_with(arguments));
    let arguments = vec!["--all-targets", "-p", "tauri-plugin-topcoat", "--features", "tracing"];
    proof {
        assert(letters(arguments@) =~= seq!["--all-targets"@, "-p"@, "tauri-plugin-topcoat"@, "--features"@, "tracing"@]);
    }
    all.push(lint_with(arguments));
    let arguments = vec!["doc", "--workspace", "--no-deps", "--all-features"];
    proof {
        assert(letters(arguments@) =~= seq!["doc"@, "--workspace"@, "--no-deps"@, "--all-features"@]);
    }
    all.push(cargo(words(arguments)));
    proof {
        assert(commands(all@) =~= lint_commands());
    }
    all
}

/// Everything you only learn by running it.
fn test() -> (all: Vec<Command>)
    ensures
        commands(all@) == test_commands(),
{
    let mut all: Vec<Command> = Vec::new();
    let arguments = vec!["test", "--workspace", "--all-targets"];
    proof {
        assert(letters(arguments@) =~= seq!["test"@, "--workspace"@, "--all-targets"@]);
    }
    all.push(cargo(words(arguments)));
    let arguments = vec!["test", "--workspace", "--all-targets", "--all-features"];
    proof {
        assert(letters(arguments@) =~= seq!["test"@, "--workspace"@, "--all-targets"@, "--all-features"@]);
    }
    all.push(cargo(words(arguments)));
    let arguments = vec!["test", "--workspace", "--doc", "--all-features"];
    proof {
        assert(letters(arguments@) =~= seq!["test"@, "--workspace"@, "--doc"@, "--all-features"@]);
    }
    all.push(cargo(words(arguments)));
    let arguments = vec!["run", "typecheck"];
    proof {
        assert(letters(arguments@) =~= seq!["run"@, "typecheck"@]);
    }
    all.push(pnpm(arguments));
    proof {
        assert(commands(all@) =~= test_commands());
    }
    all
}

/// One command alone.
fn one(command: Command) -> (all: Vec<Command>)
    ensures
        commands(all@) == seq![command@],
{
    let mut all: Vec<Command> = Vec::new();
    all.push(command);
    proof {
        assert(commands(all@) =~= seq![command@]);
    }
    all
}

/// What each of some commands is, where there are any.
pub open spec fn commands_or_none(all: Option<Vec<Command>>) -> Option<
    Seq<(Seq<char>, Seq<Seq<char>>, Option<Seq<char>>)>,
> {
    match all {
        Some(all) => Some(commands(all@)),
        None => None,
    }
}

/// The commands of a task, in the order they run, or nothing if there is no
/// such task. Anything after the task belongs to what the task runs.
pub fn plan(task: &str, rest: Vec<String>) -> (all: Option<Vec<Command>>)
    ensures
        commands_or_none(all) == planned(task@, text::texts(rest@)),
{
    if text::same(task, "bindings") {
        let arguments = words(vec!["test", "-p", "topcoat-probe", "bindings"]);
        proof {
            assert(text::texts(arguments@) =~= seq![
                "test"@,
                "-p"@,
                "topcoat-probe"@,
                "bindings"@,
            ]);
        }
        Some(one(cargo(arguments)))
    } else if text::same(task, "probe") {
        Some(one(probe(rest)))
    } else if text::same(task, "hello") {
        Some(one(example("example-hello")))
    } else if text::same(task, "session") {
        Some(one(example("example-session")))
    } else if text::same(task, "lint") {
        Some(lint())
    } else if text::same(task, "test") {
        Some(test())
    } else if text::same(task, "check") {
        let mut all = lint();
        let mut more = test();
        let ghost first = commands(all@);
        let ghost second = commands(more@);
        all.append(&mut more);
        proof {
            assert(commands(all@) =~= first + second);
        }
        Some(all)
    } else if text::same(task, "hooks") {
        Some(one(hooks()))
    } else {
        None
    }
}

/// Whether a task that is none succeeds: asking for help does.
pub fn is_help(task: &str) -> (help: bool)
    ensures
        help == (task@ == "help"@),
{
    text::same(task, "help")
}

/// The line a command is announced by.
pub fn announcement(command: &Command) -> (line: String)
    ensures
        line@ == "$ "@ + command.program@ + " "@ + text::joined(
            text::texts(command.arguments@),
            " "@,
        ),
{
    let mut line = "$ ".to_owned();
    line.append(command.program.as_str());
    line.append(" ");
    let arguments = text::join(&command.arguments, " ");
    line.append(arguments.as_str());
    line
}

/// What is said of a program that could not be run.
pub fn could_not_run(program: &str, error: &str) -> (line: String)
    ensures
        line@ == "could not run "@ + program@ + ": "@ + error@,
{
    let mut line = "could not run ".to_owned();
    line.append(program);
    line.append(": ");
    line.append(error);
    line
}

/// Which name of a program is tried.
#[derive(Debug, Clone, Copy, PartialEq, Eq, Structural)]
pub enum Name {
    /// The one it goes by.
    Plain,
    /// The batch shim that some tools are installed as on Windows.
    Shim,
}

/// The name of a program that is tried.
pub fn tried(program: &str, name: Name) -> (tried: String)
    ensures
        tried@ == (match name {
            Name::Plain => program@,
            Name::Shim => program@ + ".cmd"@,
        }),
{
    let mut tried = program.to_owned();
    match name {
        Name::Plain => {},
        Name::Shim => tried.append(".cmd"),
    }
    tried
}

/// What came of trying to run a command.
#[derive(Debug, Clone, Copy, PartialEq, Eq, Structural)]
pub enum Outcome {
    /// It ran, and succeeded.
    Succeeded,
    /// It ran, and failed.
    Failed,
    /// It could not be started.
    NotStarted,
}

/// What to do next with a task of several commands.
#[derive(Debug, Clone, Copy, PartialEq, Eq, Structural)]
pub enum Next {
    /// Try the command at a place under a name.
    Try {
        /// The place of the command.
        at: usize,
        /// The name of its program.
        name: Name,
    },
    /// The task is over, and this is how it went.
    Over {
        /// Whether it succeeded.
        succeeded: bool,
    },
}

/// What to do next once the command at a place among `count` was tried under a
/// name. A command that could not be started is tried as a shim; one that fails
/// ends the task; and the last that succeeds ends it well.
pub open spec fn next_of(count: int, at: usize, name: Name, outcome: Outcome) -> Next {
    match outcome {
        Outcome::Succeeded => if at + 1 < count {
            Next::Try { at: (at + 1) as usize, name: Name::Plain }
        } else {
            Next::Over { succeeded: true }
        },
        Outcome::Failed => Next::Over { succeeded: false },
        Outcome::NotStarted => match name {
            Name::Plain => Next::Try { at, name: Name::Shim },
            Name::Shim => Next::Over { succeeded: false },
        },
    }
}

/// What to do next once the command at a place among `count` was tried under a
/// name.
pub fn next(count: usize, at: usize, name: Name, outcome: Outcome) -> (next: Next)
    requires
        at < count,
    ensures
        next == next_of(count as int, at, name, outcome),
        next matches Next::Try { at, .. } ==> at < count,
{
    match outcome {
        Outcome::Succeeded => if at + 1 < count {
            Next::Try { at: at + 1, name: Name::Plain }
        } else {
            Next::Over { succeeded: true }
        },
        Outcome::Failed => Next::Over { succeeded: false },
        Outcome::NotStarted => match name {
            Name::Plain => Next::Try { at, name: Name::Shim },
            Name::Shim => Next::Over { succeeded: false },
        },
    }
}

/// Whether a task of `count` commands succeeds, from the command at a place on,
/// given what comes of trying each under either name.
pub open spec fn succeeds(
    count: nat,
    at: nat,
    name: Name,
    outcomes: spec_fn(int, Name) -> Outcome,
) -> bool
    decreases
            count - at,
            if name == Name::Plain {
                1nat
            } else {
                0nat
            },
{
    if at >= count {
        true
    } else {
        match outcomes(at as int, name) {
            Outcome::Succeeded => succeeds(count, at + 1, Name::Plain, outcomes),
            Outcome::Failed => false,
            Outcome::NotStarted => name == Name::Plain && succeeds(count, at, Name::Shim, outcomes),
        }
    }
}

/// What [`next`] says to do leads to what the task comes to.
pub proof fn law_each_step_decides_the_task(
    count: usize,
    at: usize,
    name: Name,
    outcomes: spec_fn(int, Name) -> Outcome,
)
    requires
        at < count,
    ensures
        succeeds(count as nat, at as nat, name, outcomes) == (match next_of(
            count as int,
            at,
            name,
            outcomes(at as int, name),
        ) {
            Next::Try { at: then, name: under } => succeeds(
                count as nat,
                then as nat,
                under,
                outcomes,
            ),
            Next::Over { succeeded } => succeeded,
        }),
{
    reveal_with_fuel(succeeds, 2);
}

/// Whether a command succeeds under the first of its names that starts.
pub open spec fn works(at: int, outcomes: spec_fn(int, Name) -> Outcome) -> bool {
    outcomes(at, Name::Plain) == Outcome::Succeeded || (outcomes(at, Name::Plain)
        == Outcome::NotStarted && outcomes(at, Name::Shim) == Outcome::Succeeded)
}

/// A task succeeds exactly if each of its commands does, under the first of its
/// names that starts.
pub proof fn law_a_task_is_all_of_its_commands(
    count: nat,
    at: nat,
    outcomes: spec_fn(int, Name) -> Outcome,
)
    requires
        at <= count,
    ensures
        succeeds(count, at, Name::Plain, outcomes) <==> forall|i: int|
            at <= i < count ==> works(i, outcomes),
    decreases count - at,
{
    if at < count {
        law_a_task_is_all_of_its_commands(count, at + 1, outcomes);
        reveal_with_fuel(succeeds, 3);
        if forall|i: int| at <= i < count ==> works(i, outcomes) {
            assert(works(at as int, outcomes));
        }
    }
}

/// Checking is linting, then testing, and nothing else.
pub proof fn law_check_is_lint_then_test(rest: Seq<Seq<char>>)
    ensures
        planned("check"@, rest) == Some(
            planned("lint"@, rest)->0 + planned("test"@, rest)->0,
        ),
{
    reveal_strlit("bindings");
    reveal_strlit("probe");
    reveal_strlit("hello");
    reveal_strlit("session");
    reveal_strlit("lint");
    reveal_strlit("test");
    reveal_strlit("check");
    assert("check"@[0] == 'c');
    assert("lint"@[0] == 'l');
    assert("test"@[0] == 't');
    assert("probe"@[0] == 'p');
    assert("hello"@[0] == 'h');
    assert("session"@[0] == 's');
    assert("bindings"@[0] == 'b');
}

/// The first letters and the lengths tell the tasks apart.
proof fn lemma_tasks()
    ensures
        "bindings"@ != "probe"@,
        "bindings"@ != "hello"@,
        "bindings"@ != "session"@,
        "bindings"@ != "lint"@,
        "bindings"@ != "test"@,
        "bindings"@ != "check"@,
        "bindings"@ != "hooks"@,
        "probe"@ != "hello"@,
        "probe"@ != "session"@,
        "probe"@ != "lint"@,
        "probe"@ != "test"@,
        "probe"@ != "check"@,
        "probe"@ != "hooks"@,
        "hello"@ != "session"@,
        "hello"@ != "lint"@,
        "hello"@ != "test"@,
        "hello"@ != "check"@,
        "hello"@ != "hooks"@,
        "session"@ != "lint"@,
        "session"@ != "test"@,
        "session"@ != "check"@,
        "session"@ != "hooks"@,
        "lint"@ != "test"@,
        "lint"@ != "check"@,
        "lint"@ != "hooks"@,
        "test"@ != "check"@,
        "test"@ != "hooks"@,
        "check"@ != "hooks"@,
{
    reveal_strlit("bindings");
    reveal_strlit("probe");
    reveal_strlit("hello");
    reveal_strlit("session");
    reveal_strlit("lint");
    reveal_strlit("test");
    reveal_strlit("check");
    reveal_strlit("hooks");
    assert("bindings"@.len() == 8 && "session"@.len() == 7);
    assert("probe"@[0] == 'p' && "hello"@[0] == 'h' && "check"@[0] == 'c');
    assert("hello"@[1] == 'e' && "hooks"@[1] == 'o');
    assert("lint"@[0] == 'l' && "test"@[0] == 't');
    assert("lint"@.len() == 4 && "test"@.len() == 4 && "hooks"@.len() == 5);
}

/// There are eight tasks. What follows the name of one is handed to the probe,
/// behind everything else, and makes no difference to any other.
pub proof fn law_what_follows_is_the_probes(
    task: Seq<char>,
    rest: Seq<Seq<char>>,
    other: Seq<Seq<char>>,
)
    ensures
        planned(task, rest) is Some <==> task == "bindings"@ || task == "probe"@ || task
            == "hello"@ || task == "session"@ || task == "lint"@ || task == "test"@ || task
            == "check"@ || task == "hooks"@,
        task != "probe"@ ==> planned(task, rest) == planned(task, other),
        task == "probe"@ ==> planned(task, rest) == Some(
            seq![
                (
                    "cargo"@,
                    seq!["--locked"@, "run"@, "--release"@, "-p"@, "topcoat-probe"@, "--"@] + rest,
                    None::<Seq<char>>,
                ),
            ],
        ),
{
    lemma_tasks();
    assert(seq!["--locked"@] + (seq!["run"@, "--release"@, "-p"@, "topcoat-probe"@, "--"@] + rest)
        =~= seq!["--locked"@, "run"@, "--release"@, "-p"@, "topcoat-probe"@, "--"@] + rest);
}

/// Whichever task runs it, cargo is held to the lock, where the workspace is, and
/// the page's own tools run where the page is.
pub proof fn law_cargo_keeps_to_the_lock(task: Seq<char>, rest: Seq<Seq<char>>, at: int)
    requires
        planned(task, rest) is Some,
        0 <= at < planned(task, rest)->0.len(),
    ensures
        ({
            let (program, arguments, directory) = planned(task, rest)->0[at];
            &&& program == "cargo"@ || program == "pnpm"@ || (program == "git"@ && task == "hooks"@)
            &&& program == "cargo"@ ==> arguments.len() > 1 && arguments[0] == "--locked"@
                && directory is None
            &&& program == "pnpm"@ ==> directory == Some("probe/ui"@)
            &&& program == "git"@ ==> directory is None
        }),
{
    reveal_strlit("cargo");
    reveal_strlit("pnpm");
    reveal_strlit("git");
    assert("cargo"@.len() == 5 && "pnpm"@.len() == 4 && "git"@.len() == 3);
}

/// Wherever clippy runs, a warning is a failure.
pub proof fn law_a_warning_is_a_failure(task: Seq<char>, rest: Seq<Seq<char>>, at: int)
    requires
        planned(task, rest) is Some,
        0 <= at < planned(task, rest)->0.len(),
    ensures
        ({
            let (program, arguments, directory) = planned(task, rest)->0[at];
            let count = arguments.len() as int;
            program == "cargo"@ && arguments[1] == "clippy"@ ==> count > 4 && arguments[count - 3]
                == "--"@ && arguments[count - 2] == "-D"@ && arguments[count - 1] == "warnings"@
        }),
{
    reveal_strlit("cargo");
    reveal_strlit("pnpm");
    reveal_strlit("git");
    reveal_strlit("clippy");
    reveal_strlit("fmt");
    reveal_strlit("doc");
    reveal_strlit("test");
    reveal_strlit("run");
    assert("cargo"@.len() == 5 && "pnpm"@.len() == 4 && "git"@.len() == 3);
    assert("clippy"@.len() == 6 && "fmt"@.len() == 3 && "doc"@.len() == 3);
    assert("test"@.len() == 4 && "run"@.len() == 3);
}

/// The tasks of one command run what they are named after: the probe's own test of
/// its bindings, an example in release, and git on the tracked hooks.
pub proof fn law_a_task_runs_what_it_is_named_after(rest: Seq<Seq<char>>)
    ensures
        planned("bindings"@, rest)->0 == seq![
            (
                "cargo"@,
                seq!["--locked"@, "test"@, "-p"@, "topcoat-probe"@, "bindings"@],
                None::<Seq<char>>,
            ),
        ],
        planned("hello"@, rest)->0 == seq![
            (
                "cargo"@,
                seq!["--locked"@, "run"@, "--release"@, "-p"@, "example-hello"@],
                None::<Seq<char>>,
            ),
        ],
        planned("session"@, rest)->0 == seq![
            (
                "cargo"@,
                seq!["--locked"@, "run"@, "--release"@, "-p"@, "example-session"@],
                None::<Seq<char>>,
            ),
        ],
        planned("hooks"@, rest)->0 == seq![
            ("git"@, seq!["config"@, "core.hooksPath"@, ".githooks"@], None::<Seq<char>>),
        ],
{
    lemma_tasks();
    assert(seq!["--locked"@] + seq!["test"@, "-p"@, "topcoat-probe"@, "bindings"@] =~= seq![
        "--locked"@,
        "test"@,
        "-p"@,
        "topcoat-probe"@,
        "bindings"@,
    ]);
    assert(seq!["--locked"@] + seq!["run"@, "--release"@, "-p"@, "example-hello"@] =~= seq![
        "--locked"@,
        "run"@,
        "--release"@,
        "-p"@,
        "example-hello"@,
    ]);
    assert(seq!["--locked"@] + seq!["run"@, "--release"@, "-p"@, "example-session"@] =~= seq![
        "--locked"@,
        "run"@,
        "--release"@,
        "-p"@,
        "example-session"@,
    ]);
}

} // verus!
