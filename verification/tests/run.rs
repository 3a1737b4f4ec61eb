use dfiles::aspects::{ConfigArg, ContainerAspect, EntrypointFn};
use dfiles::config::Config;
use dfiles::containermanager::profile;
use dfiles::containermanager::ContainerManager;
use dfiles::error::Error;

fn strings(items: &[&str]) -> Vec<String> {
    items.iter().map(|s| String::from(*s)).collect()
}

fn manager(aspects: Vec<ContainerAspect>) -> ContainerManager {
    ContainerManager::default_debian(
        String::from("app"),
        strings(&["app:v1", "app:latest"]),
        Vec::new(),
        aspects,
        strings(&["cmd", "--flag"]),
    )
}

fn flags(name: &str, args: &[&str]) -> ContainerAspect {
    let mut aspect = ContainerAspect::new(String::from(name));
    aspect.run_args = Ok(strings(args));
    aspect
}

fn with_step(mut aspect: ContainerAspect) -> ContainerAspect {
    aspect.entrypoint_fns.push(EntrypointFn {
        description: String::from("create user"),
        sudo_args: strings(&["-u", "me"]),
    });
    aspect
}

#[test]
fn run_collects_flags_image_and_arguments() {
    let m = manager(vec![flags("foo", &["--foo", "bar"])]);
    let line = m.run(Ok(String::from("/usr/bin/app"))).unwrap();
    assert_eq!(line, strings(&["--rm", "--foo", "bar", "app:v1", "cmd", "--flag"]));
}

#[test]
fn run_keeps_the_order_of_the_aspects() {
    let m = manager(vec![flags("a", &["-a"]), flags("b", &[]), flags("c", &["-c", "1"])]);
    let line = m.run(Err(String::from("unknown"))).unwrap();
    assert_eq!(line, strings(&["--rm", "-a", "-c", "1", "app:v1", "cmd", "--flag"]));
}

#[test]
fn image_is_the_first_tag() {
    let m = manager(Vec::new());
    assert_eq!(m.image(), "app:v1");
}

#[test]
fn privileged_setup_installs_the_binary_as_entrypoint() {
    let m = manager(vec![flags("a", &["-a"]), with_step(flags("user", &["-b"]))]);
    assert!(m.has_entrypoint());
    let line = m.run(Ok(String::from("/usr/bin/app"))).unwrap();
    assert_eq!(
        line,
        strings(&[
            "--rm",
            "-v",
            "/usr/bin/app:/entrypoint",
            "--entrypoint",
            "/entrypoint",
            "-a",
            "-b",
            "app:v1",
            "cmd",
            "--flag"
        ])
    );
}

#[test]
fn entrypoint_flags_come_once_for_several_aspects_with_setup() {
    let m = manager(vec![with_step(flags("a", &["-a"])), with_step(flags("b", &["-b"]))]);
    let line = m.run(Ok(String::from("/bin/x"))).unwrap();
    let mounts = line.iter().filter(|a| a.as_str() == "--entrypoint").count();
    assert_eq!(mounts, 1);
    assert_eq!(line[1], "-v");
    assert_eq!(line[2], "/bin/x:/entrypoint");
}

#[test]
fn no_setup_no_entrypoint_flags() {
    let m = manager(vec![flags("a", &["-a"])]);
    assert!(!m.has_entrypoint());
    let line = m.run(Err(String::from("gone"))).unwrap();
    assert!(!line.contains(&String::from("--entrypoint")));
}

#[test]
fn unknown_binary_fails_a_run_that_needs_it() {
    let m = manager(vec![with_step(flags("user", &[]))]);
    match m.run(Err(String::from("no such file"))) {
        Err(Error::CouldNotFindCurrentBinary(reason)) => assert_eq!(reason, "no such file"),
        other => panic!("unexpected: {:?}", other),
    }
}

#[test]
fn first_failing_aspect_aborts_the_run() {
    let mut broken = ContainerAspect::new(String::from("broken"));
    broken.run_args = Err(Error::MissingUser(String::from("1000")));
    let mut later = ContainerAspect::new(String::from("later"));
    later.run_args = Err(Error::MissingDirectory);
    let m = manager(vec![flags("a", &["-a"]), broken, later]);
    match m.run(Ok(String::from("/bin/x"))) {
        Err(Error::MissingUser(id)) => assert_eq!(id, "1000"),
        other => panic!("unexpected: {:?}", other),
    }
}

#[test]
fn unknown_binary_is_reported_before_a_failing_aspect() {
    let mut broken = with_step(ContainerAspect::new(String::from("broken")));
    broken.run_args = Err(Error::InvalidMount(String::from("x")));
    let m = manager(vec![broken]);
    assert!(matches!(
        m.run(Err(String::from("gone"))),
        Err(Error::CouldNotFindCurrentBinary(_))
    ));
    assert!(matches!(
        m.run(Ok(String::from("/bin/x"))),
        Err(Error::InvalidMount(_))
    ));
}

#[test]
fn configured_values_reach_the_run_as_flag_and_value() {
    let mut mounts = flags("mounts", &["--init"]);
    mounts.config_args.push(ConfigArg {
        name: String::from("mount"),
        multiple: true,
        required: false,
        run_flag: Some(String::from("-v")),
        snippet: None,
    });
    mounts.config_args.push(ConfigArg::new("silent"));
    let mut m = manager(vec![mounts, flags("z", &["-z"])]);
    let mut config = Config::new();
    config.set("mount", strings(&["/a:/b", "/c:/d"]));
    config.set("silent", strings(&["yes"]));
    config.set("undeclared", strings(&["x"]));
    let merged = m.load_config(&Config::new(), &config);
    assert_eq!(merged.get("mount"), Some(&strings(&["/a:/b", "/c:/d"])));
    let names: Vec<&str> = m.aspects().iter().map(|a| a.name.as_str()).collect();
    assert_eq!(names, vec!["Debian", "mounts", "z", "mount", "silent"]);
    let line = m.run(Ok(String::from("/bin/x"))).unwrap();
    assert_eq!(
        line,
        strings(&["--rm", "--init", "-z", "-v", "/a:/b", "-v", "/c:/d", "app:v1", "cmd", "--flag"])
    );
}

#[test]
fn profile_keeps_container_paths_below_home() {
    let aspect = profile("app", &strings(&["/data", "/home/me/.cache/"]), Some("/home/me"));
    assert_eq!(aspect.name, "Profile");
    assert_eq!(
        aspect.run_args.unwrap(),
        strings(&[
            "-v",
            "/home/me/.local/share/dfiles/app/data:/data",
            "-v",
            "/home/me/.local/share/dfiles/app/home/me/.cache/:/home/me/.cache/",
        ])
    );
    let aspect = profile("app", &Vec::new(), Some("/home/me"));
    assert!(aspect.run_args.unwrap().is_empty());
}

#[test]
fn profile_without_home_fails_the_run_only() {
    let aspect = profile("app", &strings(&["/data"]), None);
    assert!(matches!(aspect.run_args, Err(Error::MissingDirectory)));
    let mut m = manager(vec![flags("a", &["-a"])]);
    m.execute_clap(None);
    assert!(matches!(m.run(Ok(String::from("/bin/x"))), Err(Error::MissingDirectory)));
    assert!(m.build().is_ok());
}

#[test]
fn run_is_deterministic() {
    let m = manager(vec![flags("foo", &["--foo", "bar"])]);
    let first = m.run(Ok(String::from("/bin/x"))).unwrap();
    let second = m.run(Ok(String::from("/bin/x"))).unwrap();
    assert_eq!(first, second);
}

#[test]
fn getters_give_back_what_the_manager_was_made_of() {
    let m = ContainerManager::default_debian(
        String::from("app"),
        strings(&["t1"]),
        strings(&["/data"]),
        Vec::new(),
        strings(&["x"]),
    );
    assert_eq!(m.name(), "app");
    assert_eq!(m.tags(), &strings(&["t1"]));
    assert_eq!(m.container_paths(), &strings(&["/data"]));
    assert_eq!(m.args(), &strings(&["x"]));
    assert_eq!(m.aspects().len(), 1);
}

#[test]
fn duplicate_copies_every_error() {
    let errors = vec![
        Error::NotInEntrypointMode,
        Error::MissingEntrypointArgs,
        Error::CouldNotFindCurrentBinary(String::from("a")),
        Error::FailedToAddFileToArchive { source: String::from("b") },
        Error::MissingUser(String::from("c")),
        Error::MissingGroup(String::from("d")),
        Error::InvalidMount(String::from("e")),
        Error::InvalidLocale(String::from("f")),
        Error::MissingDirectory,
        Error::DockerError(String::from("g")),
        Error::FailedToSaveConfig,
        Error::FailedToLoadConfig,
        Error::WhichError(String::from("h")),
    ];
    for e in errors {
        assert_eq!(format!("{:?}", e.duplicate()), format!("{:?}", e));
    }
}
