use dfiles::aspects::{ContainerAspect, EntrypointFn};
use dfiles::config::Config;
use dfiles::containermanager::{Action, ContainerManager, Start};
use dfiles::entrypoint::{plan_steps, resolve, Entrypoint, EntrypointAction};
use dfiles::error::Error;

fn strings(items: &[&str]) -> Vec<String> {
    items.iter().map(|s| String::from(*s)).collect()
}

fn step(description: &str, sudo_args: &[&str]) -> EntrypointFn {
    EntrypointFn { description: String::from(description), sudo_args: strings(sudo_args) }
}

fn aspect(name: &str, steps: Vec<EntrypointFn>) -> ContainerAspect {
    let mut aspect = ContainerAspect::new(String::from(name));
    aspect.entrypoint_fns = steps;
    aspect
}

fn manager() -> ContainerManager {
    ContainerManager::default_debian(
        String::from("app"),
        strings(&["app:v1"]),
        Vec::new(),
        vec![
            aspect("user", vec![step("create user", &["-u", "me"]), step("create group", &["-g", "us"])]),
            aspect("plain", Vec::new()),
            aspect("audio", vec![step("join audio group", &[])]),
        ],
        Vec::new(),
    )
}

fn expect_step(action: EntrypointAction, index: usize, aspect: &str, description: &str) {
    match action {
        EntrypointAction::RunStep { index: i, aspect: a, description: d } => {
            assert_eq!(i, index);
            assert_eq!(a, aspect);
            assert_eq!(d, description);
        }
        other => panic!("unexpected: {:?}", other),
    }
}

#[test]
fn entrypoint_is_refused_outside_the_container() {
    let m = manager();
    for binary in ["/usr/bin/app", "", "/entrypoint2", "entrypoint", "/entrypoint/"] {
        match m.entrypoint(binary, strings(&["app", "cmd"])) {
            Err(Error::NotInEntrypointMode) => {}
            other => panic!("unexpected for {}: {:?}", binary, other),
        }
    }
}

#[test]
fn entrypoint_runs_steps_then_hands_over() {
    let m = manager();
    let mut e = m.entrypoint("/entrypoint", strings(&["/entrypoint", "firefox", "--private"])).unwrap();
    expect_step(e.action(), 0, "user", "create user");
    e.step_finished(Ok(()));
    expect_step(e.action(), 1, "user", "create group");
    e.step_finished(Ok(()));
    expect_step(e.action(), 2, "audio", "join audio group");
    e.step_finished(Ok(()));
    match e.action() {
        EntrypointAction::Resolve { program } => assert_eq!(program, "sudo"),
        other => panic!("unexpected: {:?}", other),
    }
    e.escalator_resolved(Ok(String::from("/usr/bin/sudo")));
    match e.action() {
        EntrypointAction::Exec { program, args } => {
            assert_eq!(program, "/usr/bin/sudo");
            assert_eq!(args, strings(&["-u", "me", "-g", "us", "--", "firefox", "--private"]));
        }
        other => panic!("unexpected: {:?}", other),
    }
}

#[test]
fn setup_runs_before_missing_arguments_are_noticed() {
    let m = manager();
    let mut e = m.entrypoint("/entrypoint", strings(&["/entrypoint"])).unwrap();
    expect_step(e.action(), 0, "user", "create user");
    e.step_finished(Ok(()));
    expect_step(e.action(), 1, "user", "create group");
    e.step_finished(Ok(()));
    expect_step(e.action(), 2, "audio", "join audio group");
    e.step_finished(Ok(()));
    assert!(matches!(e.action(), EntrypointAction::Fail(Error::MissingEntrypointArgs)));
}

#[test]
fn empty_argument_vector_is_missing_arguments() {
    let mut e = Entrypoint::begin(plan_steps(&vec![aspect("a", vec![step("s", &[])])]), Vec::new());
    expect_step(e.action(), 0, "a", "s");
    e.step_finished(Ok(()));
    assert!(matches!(e.action(), EntrypointAction::Fail(Error::MissingEntrypointArgs)));
}

#[test]
fn without_steps_the_arguments_are_checked_at_once() {
    let e = Entrypoint::begin(Vec::new(), strings(&["app"]));
    assert!(matches!(e.action(), EntrypointAction::Fail(Error::MissingEntrypointArgs)));
    let e = Entrypoint::begin(Vec::new(), strings(&["app", "cmd"]));
    assert!(matches!(e.action(), EntrypointAction::Resolve { .. }));
}

#[test]
fn failing_step_is_fatal() {
    let m = manager();
    let mut e = m.entrypoint("/entrypoint", strings(&["/entrypoint", "cmd"])).unwrap();
    e.step_finished(Ok(()));
    e.step_finished(Err(Error::MissingGroup(String::from("us"))));
    match e.action() {
        EntrypointAction::Fail(Error::MissingGroup(g)) => assert_eq!(g, "us"),
        other => panic!("unexpected: {:?}", other),
    }
    e.step_finished(Ok(()));
    e.escalator_resolved(Ok(String::from("/usr/bin/sudo")));
    assert!(matches!(e.action(), EntrypointAction::Fail(Error::MissingGroup(_))));
}

#[test]
fn escalator_not_found_is_fatal() {
    let mut e = Entrypoint::begin(Vec::new(), strings(&["app", "cmd"]));
    e.escalator_resolved(Err(Error::WhichError(String::from("cannot find binary path"))));
    match e.action() {
        EntrypointAction::Fail(Error::WhichError(m)) => assert_eq!(m, "cannot find binary path"),
        other => panic!("unexpected: {:?}", other),
    }
}

#[test]
fn reports_that_are_not_due_change_nothing() {
    let m = manager();
    let mut e = m.entrypoint("/entrypoint", strings(&["/entrypoint", "cmd"])).unwrap();
    e.escalator_resolved(Ok(String::from("/usr/bin/sudo")));
    expect_step(e.action(), 0, "user", "create user");
    let mut e = Entrypoint::begin(Vec::new(), strings(&["app", "cmd"]));
    e.step_finished(Err(Error::MissingDirectory));
    assert!(matches!(e.action(), EntrypointAction::Resolve { .. }));
    e.escalator_resolved(Ok(String::from("/usr/bin/sudo")));
    e.escalator_resolved(Ok(String::from("/other")));
    match e.action() {
        EntrypointAction::Exec { program, args } => {
            assert_eq!(program, "/usr/bin/sudo");
            assert_eq!(args, strings(&["--", "cmd"]));
        }
        other => panic!("unexpected: {:?}", other),
    }
}

#[test]
fn plan_lists_steps_in_aspect_order() {
    let plan = plan_steps(manager().aspects());
    let seen: Vec<(String, String)> =
        plan.iter().map(|s| (s.aspect.clone(), s.description.clone())).collect();
    assert_eq!(
        seen,
        vec![
            (String::from("user"), String::from("create user")),
            (String::from("user"), String::from("create group")),
            (String::from("audio"), String::from("join audio group")),
        ]
    );
    assert_eq!(plan[1].sudo_args, strings(&["-g", "us"]));
}

#[test]
fn execute_at_the_entrypoint_path_begins_the_entrypoint() {
    let mut m = manager();
    match m.execute("/entrypoint", strings(&["/entrypoint", "cmd"]), Some("/home/me")) {
        Start::Entrypoint(e) => expect_step(e.action(), 0, "user", "create user"),
        other => panic!("unexpected: {:?}", other),
    }
    assert_eq!(m.aspects().len(), 4);
    assert_eq!(m.aspects()[0].name, "Debian");
}

#[test]
fn execute_elsewhere_describes_the_command_line() {
    let mut m = manager();
    let subcommands = match m.execute("/usr/bin/app", strings(&["app", "run"]), Some("/home/me")) {
        Start::Cli(subcommands) => subcommands,
        other => panic!("unexpected: {:?}", other),
    };
    let names: Vec<&str> = subcommands.iter().map(|s| s.name.as_str()).collect();
    assert_eq!(names, vec!["run", "build", "config", "entrypoint", "generate-archive"]);
    assert_eq!(m.aspects().len(), 5);
    assert_eq!(m.aspects()[0].name, "Profile");
    assert_eq!(m.aspects()[1].name, "Debian");
}

#[test]
fn entrypoint_subcommand_is_refused_outside_the_container() {
    let mut supplied = Config::new();
    supplied.set("command", strings(&["ls"]));
    for binary in [Ok(String::from("/usr/bin/app")), Ok(String::new()), Err(String::from("gone"))] {
        let mut m = manager();
        match m.dispatch("entrypoint", Some(&supplied), &Config::new(), binary) {
            Err(Error::NotInEntrypointMode) => {}
            other => panic!("unexpected: {:?}", other),
        }
    }
    let mut m = manager();
    match m.dispatch("entrypoint", Some(&Config::new()), &Config::new(), Ok(String::from("/x"))) {
        Err(Error::NotInEntrypointMode) => {}
        other => panic!("unexpected: {:?}", other),
    }
}

#[test]
fn entrypoint_subcommand_runs_the_entrypoint_by_hand() {
    let mut m = manager();
    let mut supplied = Config::new();
    supplied.set("command", strings(&["ls"]));
    match m.dispatch("entrypoint", Some(&supplied), &Config::new(), Ok(String::from("/entrypoint"))) {
        Ok(Action::Entrypoint(mut e)) => {
            expect_step(e.action(), 0, "user", "create user");
            e.step_finished(Ok(()));
            e.step_finished(Ok(()));
            e.step_finished(Ok(()));
            e.escalator_resolved(Ok(String::from("/usr/bin/sudo")));
            match e.action() {
                EntrypointAction::Exec { args, .. } => {
                    assert_eq!(args, strings(&["-u", "me", "-g", "us", "--", "ls"]))
                }
                other => panic!("unexpected: {:?}", other),
            }
        }
        other => panic!("unexpected: {:?}", other),
    }
    let mut m = manager();
    match m.dispatch("entrypoint", Some(&Config::new()), &Config::new(), Ok(String::from("/entrypoint"))) {
        Err(Error::MissingEntrypointArgs) => {}
        other => panic!("unexpected: {:?}", other),
    }
}

#[test]
fn resolve_finds_a_shell_and_misses_nonsense() {
    let found = resolve("sh").unwrap();
    assert!(found.ends_with("/sh"));
    assert_ne!(found, "sh");
    match resolve("no-such-program-anywhere-on-this-path") {
        Err(Error::WhichError(message)) => assert!(!message.is_empty()),
        other => panic!("unexpected: {:?}", other),
    }
}
