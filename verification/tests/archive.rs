use std::io::Read;

use dfiles::archive::write_archive;
use dfiles::aspects::{ContainerAspect, ContainerFile, DockerfileSnippet};
use dfiles::config::Config;
use dfiles::containermanager::{Action, ContainerManager};
use dfiles::error::Error;

fn strings(items: &[&str]) -> Vec<String> {
    items.iter().map(|s| String::from(*s)).collect()
}

fn file(path: &str, contents: &str) -> ContainerFile {
    ContainerFile { container_path: String::from(path), contents: String::from(contents) }
}

fn entries(bytes: &[u8]) -> Vec<(String, String)> {
    let mut archive = tar::Archive::new(bytes);
    let mut seen = Vec::new();
    for entry in archive.entries().unwrap() {
        let mut entry = entry.unwrap();
        let path = entry.path().unwrap().to_string_lossy().into_owned();
        let mut contents = String::new();
        entry.read_to_string(&mut contents).unwrap();
        seen.push((path, contents));
    }
    seen
}

fn manager() -> ContainerManager {
    let mut a = ContainerAspect::new(String::from("a"));
    a.container_files = vec![file("etc/a.conf", "alpha\n"), file("pulse-client.conf", "")];
    a.dockerfile_snippets = vec![DockerfileSnippet { order: 5, content: String::from("X") }];
    let mut b = ContainerAspect::new(String::from("b"));
    b.container_files = vec![file("b.sh", "#!/bin/sh\necho b\n")];
    b.dockerfile_snippets = vec![DockerfileSnippet { order: 5, content: String::from("Y") }];
    ContainerManager::default_debian(
        String::from("app"),
        strings(&["app:v1", "app:latest"]),
        Vec::new(),
        vec![a, b],
        Vec::new(),
    )
}

#[test]
fn stream_holds_the_entries_in_order() {
    let files = vec![file("one.txt", "1"), file("dir/two.txt", "two two"), file("three", "")];
    let bytes = write_archive(&files).unwrap();
    assert_eq!(
        entries(&bytes),
        vec![
            (String::from("one.txt"), String::from("1")),
            (String::from("dir/two.txt"), String::from("two two")),
            (String::from("three"), String::from("")),
        ]
    );
}

#[test]
fn stream_is_blocks_of_512_bytes_and_ends_with_two_zero_blocks() {
    let bytes = write_archive(&Vec::new()).unwrap();
    assert_eq!(bytes, vec![0u8; 1024]);
    let bytes = write_archive(&vec![file("a", "abc")]).unwrap();
    assert_eq!(bytes.len(), 512 + 512 + 1024);
    assert_eq!(&bytes[512..515], b"abc");
    assert!(bytes[515..].iter().all(|b| *b == 0));
    let bytes = write_archive(&vec![file("a", &"x".repeat(512))]).unwrap();
    assert_eq!(bytes.len(), 512 + 512 + 1024);
    let bytes = write_archive(&vec![file("a", &"x".repeat(513))]).unwrap();
    assert_eq!(bytes.len(), 512 + 1024 + 1024);
}

#[test]
fn header_is_a_gnu_header_with_path_size_and_checksum() {
    let bytes = write_archive(&vec![file("hello.txt", "hello world")]).unwrap();
    let header = &bytes[..512];
    assert_eq!(&header[..9], b"hello.txt");
    assert_eq!(header[9], 0);
    assert_eq!(&header[124..136], b"00000000013\0");
    assert_eq!(&header[136..148], b"00000000000\0");
    assert_eq!(&header[257..265], b"ustar  \0");
    let sum: u32 = header
        .iter()
        .enumerate()
        .map(|(i, b)| if (148..156).contains(&i) { 32u32 } else { *b as u32 })
        .sum();
    let stored = std::str::from_utf8(&header[148..155]).unwrap();
    assert_eq!(u32::from_str_radix(stored, 8).unwrap(), sum);
}

#[test]
fn size_is_counted_in_bytes_of_utf8() {
    let bytes = write_archive(&vec![file("u", "grüße")]).unwrap();
    assert_eq!(&bytes[124..136], b"00000000007\0");
    assert_eq!(entries(&bytes), vec![(String::from("u"), String::from("grüße"))]);
}

#[test]
fn path_that_cannot_be_stored_fails_the_archive() {
    let long = "x".repeat(101);
    for path in ["", "/absolute", "../up", long.as_str(), "nul\0byte"] {
        match write_archive(&vec![file("ok", "1"), file(path, "2")]) {
            Err(Error::FailedToAddFileToArchive { source }) => assert!(!source.is_empty()),
            other => panic!("unexpected for {:?}: {:?}", path, other.map(|b| b.len())),
        }
    }
}

#[test]
fn writing_twice_gives_the_same_bytes() {
    let files = vec![file("one.txt", "1"), file("two.txt", "22")];
    assert_eq!(write_archive(&files).unwrap(), write_archive(&files).unwrap());
}

#[test]
fn context_lists_files_of_aspects_then_the_recipe() {
    let m = manager();
    let context = m.context();
    let paths: Vec<&str> = context.iter().map(|f| f.container_path.as_str()).collect();
    assert_eq!(paths, vec!["etc/a.conf", "pulse-client.conf", "b.sh", "Dockerfile"]);
    assert_eq!(context[0].contents, "alpha\n");
    assert_eq!(context[3].contents, m.dockerfile());
    assert!(context[3].contents.ends_with("X\nY\n\n"));
}

#[test]
fn archive_of_the_manager_ends_with_the_recipe() {
    let m = manager();
    let bytes = m.generate_archive_impl().unwrap();
    let seen = entries(&bytes);
    assert_eq!(seen.len(), 4);
    assert_eq!(seen[0], (String::from("etc/a.conf"), String::from("alpha\n")));
    assert_eq!(seen[1], (String::from("pulse-client.conf"), String::from("")));
    assert_eq!(seen[2], (String::from("b.sh"), String::from("#!/bin/sh\necho b\n")));
    assert_eq!(seen[3], (String::from("Dockerfile"), m.dockerfile()));
}

#[test]
fn recipe_file_is_last_even_if_an_aspect_brings_one() {
    let mut a = ContainerAspect::new(String::from("a"));
    a.container_files = vec![file("Dockerfile", "FROM scratch")];
    let m = ContainerManager::default_debian(
        String::from("app"),
        strings(&["app:v1"]),
        Vec::new(),
        vec![a],
        Vec::new(),
    );
    let seen = entries(&m.generate_archive_impl().unwrap());
    assert_eq!(seen.len(), 2);
    assert_eq!(seen[0], (String::from("Dockerfile"), String::from("FROM scratch")));
    assert_eq!(seen[1], (String::from("Dockerfile"), m.dockerfile()));
}

#[test]
fn generate_archive_names_the_file() {
    let m = manager();
    let (path, bytes) = m.generate_archive().unwrap();
    assert_eq!(path, "whatever.tar");
    assert_eq!(bytes, m.generate_archive_impl().unwrap());
}

#[test]
fn build_asks_for_all_tags() {
    let m = manager();
    let request = m.build().unwrap();
    assert_eq!(request.dockerfile, "Dockerfile");
    assert_eq!(request.t, strings(&["app:v1", "app:latest"]));
    assert_eq!(request.context, m.generate_archive_impl().unwrap());
}

#[test]
fn bad_file_path_fails_build_and_archive() {
    let mut a = ContainerAspect::new(String::from("a"));
    a.container_files = vec![file("/etc/passwd", "x")];
    let mut m = ContainerManager::default_debian(
        String::from("app"),
        strings(&["app:v1"]),
        Vec::new(),
        vec![a],
        Vec::new(),
    );
    assert!(matches!(m.build(), Err(Error::FailedToAddFileToArchive { .. })));
    assert!(matches!(m.generate_archive(), Err(Error::FailedToAddFileToArchive { .. })));
    assert!(matches!(
        m.dispatch("build", None, &Config::new(), Ok(String::from("/x"))),
        Err(Error::FailedToAddFileToArchive { .. })
    ));
}

#[test]
fn dispatch_knows_the_five_subcommands() {
    let mut m = manager();
    let none = Config::new();
    let binary = || Ok(String::from("/usr/bin/app"));
    assert!(matches!(m.dispatch("run", Some(&none), &none, binary()), Ok(Action::Run(_))));
    assert!(matches!(m.dispatch("build", Some(&none), &none, binary()), Ok(Action::Build(_))));
    assert!(matches!(m.dispatch("build", None, &none, binary()), Ok(Action::Build(_))));
    assert!(matches!(m.dispatch("config", Some(&none), &none, binary()), Ok(Action::SaveConfig(_))));
    match m.dispatch("generate-archive", None, &none, binary()) {
        Ok(Action::WriteArchive { path, context }) => {
            assert_eq!(path, "whatever.tar");
            assert_eq!(context, m.generate_archive_impl().unwrap());
        }
        other => panic!("unexpected: {:?}", other),
    }
}

#[test]
fn anything_else_asks_for_the_usage() {
    let mut m = manager();
    let none = Config::new();
    for name in ["", "help", "Run", "generate_archive"] {
        assert!(matches!(
            m.dispatch(name, None, &none, Ok(String::from("/x"))),
            Ok(Action::Usage)
        ));
    }
    for name in ["run", "config", "entrypoint"] {
        assert!(matches!(
            m.dispatch(name, None, &none, Ok(String::from("/x"))),
            Ok(Action::Usage)
        ));
    }
}

#[test]
fn command_line_offers_the_options_of_the_aspects() {
    let mut a = ContainerAspect::new(String::from("a"));
    a.config_args.push(dfiles::aspects::ConfigArg::new("mount"));
    a.cli_build_args.push(dfiles::aspects::ConfigArg::new("no-cache"));
    let mut m = ContainerManager::default_debian(
        String::from("app"),
        strings(&["app:v1"]),
        Vec::new(),
        vec![a],
        Vec::new(),
    );
    let subcommands = m.execute_clap(Some("/home/me"));
    let names = |i: usize| -> Vec<String> {
        subcommands[i].args.iter().map(|a| a.name.clone()).collect()
    };
    assert_eq!(subcommands.len(), 5);
    assert_eq!(subcommands[0].about, "run app in container");
    assert_eq!(names(0), strings(&["profile", "mount"]));
    assert_eq!(subcommands[1].about, "build app container");
    assert_eq!(names(1), strings(&["no-cache"]));
    assert_eq!(subcommands[2].about, "configure app container settings");
    assert_eq!(names(2), strings(&["profile", "mount"]));
    assert_eq!(subcommands[3].about, "entrypoint test mode");
    assert_eq!(names(3), strings(&["command"]));
    assert!(subcommands[3].args[0].multiple && subcommands[3].args[0].required);
    assert_eq!(subcommands[4].about, "generate archive used to build container");
    assert!(subcommands[4].args.is_empty());
    assert_eq!(m.config_args().len(), 1);
    assert_eq!(m.aspects()[0].name, "Profile");
    assert_eq!(m.build_args().len(), 1);
}
