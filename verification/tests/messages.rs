use dfiles::archive::archive_failure;
use dfiles::containermanager::{build_progress, BuildOutput};
use dfiles::entrypoint::lookup_outcome;
use dfiles::error::Error;

#[test]
fn every_error_has_its_message() {
    assert_eq!(Error::NotInEntrypointMode.message(), "not in entrypoint mode");
    assert_eq!(Error::MissingEntrypointArgs.message(), "missing entrypoint args");
    assert_eq!(
        Error::CouldNotFindCurrentBinary(String::from("gone")).message(),
        "could not find current binary"
    );
    assert_eq!(
        Error::FailedToAddFileToArchive { source: String::from("full") }.message(),
        "could not find current binary"
    );
    assert_eq!(Error::MissingDirectory.message(), "could not identify directory");
    assert_eq!(Error::DockerError(String::from("x")).message(), "directory");
    assert_eq!(Error::FailedToSaveConfig.message(), "failed to save config to file");
    assert_eq!(Error::FailedToLoadConfig.message(), "failed to load config from file");
    assert_eq!(Error::WhichError(String::from("x")).message(), "failed to find binary");
}

#[test]
fn messages_quote_their_subject() {
    assert_eq!(
        Error::MissingUser(String::from("1000")).message(),
        "could not identify user with uid `\"1000\"`"
    );
    assert_eq!(
        Error::MissingGroup(String::from("44")).message(),
        "could not identify user with gid `\"44\"`"
    );
    assert_eq!(
        Error::InvalidMount(String::from("a\"b\n")).message(),
        "invalid mount string `\"a\\\"b\\n\"`"
    );
    assert_eq!(Error::InvalidLocale(String::new()).message(), "invalide locale `\"\"`");
}

#[test]
fn parsed_log_lines_are_printed_and_others_dropped() {
    let line = BuildOutput { stream: String::from("Step 1/3 : FROM debian:buster\n") };
    assert_eq!(build_progress(Some(line)), Some(String::from("Step 1/3 : FROM debian:buster\n")));
    assert_eq!(build_progress(Some(BuildOutput { stream: String::new() })), Some(String::new()));
    assert_eq!(build_progress(None), None);
}

#[test]
fn failed_write_keeps_its_reason() {
    match archive_failure(String::from("disk full")) {
        Error::FailedToAddFileToArchive { source } => assert_eq!(source, "disk full"),
        other => panic!("unexpected: {:?}", other),
    }
}

#[test]
fn search_outcome_is_the_path_or_the_reason() {
    match lookup_outcome(Ok(String::from("/usr/bin/sudo"))) {
        Ok(path) => assert_eq!(path, "/usr/bin/sudo"),
        other => panic!("unexpected: {:?}", other),
    }
    match lookup_outcome(Err(String::from("cannot find binary path"))) {
        Err(Error::WhichError(reason)) => assert_eq!(reason, "cannot find binary path"),
        other => panic!("unexpected: {:?}", other),
    }
}
