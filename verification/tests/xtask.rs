use tauri_plugin_topcoat::xtask::{
    announcement, could_not_run, is_help, next, plan, tried, Command, Name, Next, Outcome, HELP,
};

fn lines(task: &str, rest: &[&str]) -> Option<Vec<String>> {
    let rest = rest.iter().map(|word| word.to_string()).collect();
    plan(task, rest).map(|all| {
        all.iter()
            .map(|command| match &command.directory {
                Some(directory) => format!("{directory}: {}", announcement(command)),
                None => announcement(command),
            })
            .collect()
    })
}

#[test]
fn each_task_is_its_commands() {
    assert_eq!(
        lines("bindings", &[]).unwrap(),
        ["$ cargo --locked test -p topcoat-probe bindings"]
    );
    assert_eq!(
        lines("probe", &["--exit", "now"]).unwrap(),
        ["$ cargo --locked run --release -p topcoat-probe -- --exit now"]
    );
    assert_eq!(
        lines("hello", &["ignored"]).unwrap(),
        ["$ cargo --locked run --release -p example-hello"]
    );
    assert_eq!(
        lines("session", &[]).unwrap(),
        ["$ cargo --locked run --release -p example-session"]
    );
    assert_eq!(lines("hooks", &[]).unwrap(), ["$ git config core.hooksPath .githooks"]);
    assert_eq!(lines("help", &[]), None);
    assert_eq!(lines("", &[]), None);
    assert!(is_help("help"));
    assert!(!is_help("halp"));
    assert!(HELP.starts_with("cargo xtask <task>\n\n  bindings   hold"));
    assert!(HELP.ends_with("(once per clone)"));
}

#[test]
fn linting_is_cheapest_first() {
    assert_eq!(
        lines("lint", &[]).unwrap(),
        [
            "$ cargo --locked fmt --all --check",
            "$ cargo --locked clippy --workspace --all-targets -- -D warnings",
            "probe/ui: $ pnpm run fmt:check",
            "probe/ui: $ pnpm run lint",
            "$ cargo --locked clippy --workspace --all-targets --all-features -- -D warnings",
            "$ cargo --locked clippy --all-targets -p custom-protocol-http \
             --no-default-features -- -D warnings",
            "$ cargo --locked clippy --all-targets -p custom-protocol-http \
             --no-default-features --features tracing -- -D warnings",
            "$ cargo --locked clippy --all-targets -p tauri-plugin-topcoat --features session \
             -- -D warnings",
            "$ cargo --locked clippy --all-targets -p tauri-plugin-topcoat --features tracing \
             -- -D warnings",
            "$ cargo --locked doc --workspace --no-deps --all-features",
        ]
    );
}

#[test]
fn checking_is_linting_then_testing() {
    let mut both = lines("lint", &[]).unwrap();
    let test = lines("test", &[]).unwrap();
    assert_eq!(
        test,
        [
            "$ cargo --locked test --workspace --all-targets",
            "$ cargo --locked test --workspace --all-targets --all-features",
            "$ cargo --locked test --workspace --doc --all-features",
            "probe/ui: $ pnpm run typecheck",
        ]
    );
    both.extend(test);
    assert_eq!(lines("check", &[]).unwrap(), both);
}

#[test]
fn a_task_stops_where_it_fails() {
    let plain = Name::Plain;
    let shim = Name::Shim;
    assert_eq!(next(2, 0, plain, Outcome::Succeeded), Next::Try { at: 1, name: plain });
    assert_eq!(next(2, 0, shim, Outcome::Succeeded), Next::Try { at: 1, name: plain });
    assert_eq!(next(2, 1, plain, Outcome::Succeeded), Next::Over { succeeded: true });
    assert_eq!(next(2, 0, plain, Outcome::Failed), Next::Over { succeeded: false });
    assert_eq!(next(2, 0, plain, Outcome::NotStarted), Next::Try { at: 0, name: shim });
    assert_eq!(next(2, 0, shim, Outcome::NotStarted), Next::Over { succeeded: false });
    assert_eq!(tried("pnpm", plain), "pnpm");
    assert_eq!(tried("pnpm", shim), "pnpm.cmd");
    assert_eq!(could_not_run("pnpm", "not found"), "could not run pnpm: not found");
}

#[test]
fn a_command_is_announced_with_its_arguments() {
    let command = Command {
        program: "git".to_owned(),
        arguments: Vec::new(),
        directory: None,
    };
    assert_eq!(announcement(&command), "$ git ");
}
