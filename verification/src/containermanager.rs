//! The container manager: the orchestrator that composes an application's
//! aspects into what each operation needs.

use vstd::prelude::*;
use vstd::string::StringExecFns;
use crate::archive::{tar_stream, write_archive};
use crate::aspects::{
    ArgView, AspectView, ConfigArg, ContainerAspect, ContainerFile, DockerfileSnippet, FileView,
    SnippetView, append_args, blank_aspect,
};
use crate::entrypoint::{Entrypoint, EntrypointView, plan_steps, planned_steps, settled};
use crate::recipe::{
    ImageRecipe, law_two_snippets_concatenate, lemma_recipe_of_empty, lemma_recipe_of_push,
    recipe_of, recipe_text,
};
use crate::config::{
    Config, cli_args, cli_args_view, declares, derived_aspects, merged, profile_of,
};
use crate::error::Error;
use crate::strings::{append_strings, copy_strings, same_text};

verus! {

/// The base image of the [`debian`] aspect.
pub const DEBIAN_BASE: &'static str = "FROM debian:buster";

/// The language packs of the [`debian`] aspect.
pub const DEBIAN_LANGUAGE_PACKS: &'static str = r#"# Useful language packs
RUN apt-get update && apt-get install -y --no-install-recommends \
  fonts-arphic-bkai00mp \
  fonts-arphic-bsmi00lp \
  fonts-arphic-gbsn00lp \
  fonts-arphic-gbsn00lp \
  \
  && rm -rf /var/lib/apt/lists/* \
  && rm -rf /src/*.deb"#;

/// The tools of the [`debian`] aspect.
pub const DEBIAN_TOOLS: &'static str = r#"RUN apt-get update && apt-get install -y \
    --no-install-recommends \
    apt-utils \
    apt-transport-https \
    apt \
    bzip2 \
    ca-certificates \
    curl \
    debian-goodies \
    dirmngr \
    gnupg \
    keychain \
    lsb-release \
    locales \
    lsof \
    procps \
    sudo \
  && apt-get purge --autoremove \
  && rm -rf /var/lib/apt/lists/* \
  && rm -rf /src/*.deb "#;

/// The value of the [`debian`] aspect.
pub open spec fn debian_view() -> AspectView {
    AspectView {
        dockerfile_snippets: seq![
            SnippetView { order: 0, content: DEBIAN_BASE@ },
            SnippetView { order: 3, content: DEBIAN_LANGUAGE_PACKS@ },
            SnippetView { order: 2, content: DEBIAN_TOOLS@ },
        ],
        ..blank_aspect("Debian"@)
    }
}

/// The base operating system: a Debian image with the tools that the other
/// aspects rely on.
pub fn debian() -> (aspect: ContainerAspect)
    ensures
        aspect@ == debian_view(),
{
    let mut snippets: Vec<DockerfileSnippet> = Vec::new();
    snippets.push(DockerfileSnippet { order: 0, content: String::from_str(DEBIAN_BASE) });
    snippets.push(DockerfileSnippet { order: 3, content: String::from_str(DEBIAN_LANGUAGE_PACKS) });
    snippets.push(DockerfileSnippet { order: 2, content: String::from_str(DEBIAN_TOOLS) });
    assert(snippets.deep_view() =~= debian_view().dockerfile_snippets) by {
        assert(snippets.deep_view()[0] == debian_view().dockerfile_snippets[0]);
        assert(snippets.deep_view()[1] == debian_view().dockerfile_snippets[1]);
        assert(snippets.deep_view()[2] == debian_view().dockerfile_snippets[2]);
    }
    let mut aspect = ContainerAspect::new(String::from_str("Debian"));
    aspect.dockerfile_snippets = snippets;
    aspect
}

/// The argument that makes a container ephemeral.
pub const EPHEMERAL: &'static str = "--rm";

/// Where the running binary is mounted to serve as the container's
/// entrypoint.
pub const ENTRYPOINT_PATH: &'static str = "/entrypoint";

/// The state of an application's container manager.
pub struct ContainerManager {
    name: String,
    tags: Vec<String>,
    container_paths: Vec<String>,
    aspects: Vec<ContainerAspect>,
    args: Vec<String>,
}

/// The mathematical value of a [`ContainerManager`].
pub struct ManagerView {
    /// The application's name.
    pub name: Seq<char>,
    /// The image tags; the first one is the canonical one.
    pub tags: Seq<Seq<char>>,
    /// The paths inside the container that a profile keeps.
    pub container_paths: Seq<Seq<char>>,
    /// The aspects in the order of composition.
    pub aspects: Seq<AspectView>,
    /// The arguments handed through to the containerised program.
    pub args: Seq<Seq<char>>,
}

impl View for ContainerManager {
    type V = ManagerView;

    closed spec fn view(&self) -> ManagerView {
        ManagerView {
            name: self.name@,
            tags: self.tags.deep_view(),
            container_paths: self.container_paths.deep_view(),
            aspects: self.aspects.deep_view(),
            args: self.args.deep_view(),
        }
    }
}

/// Whether one of `aspects` declares a step of privileged setup.
pub open spec fn needs_entrypoint(aspects: Seq<AspectView>) -> bool {
    exists|i: int| 0 <= i < aspects.len() && (#[trigger] aspects[i]).entrypoint_fns.len() > 0
}

/// The arguments that mount the binary at `binary` into the container and
/// make it the container's entrypoint.
pub open spec fn entrypoint_args(binary: Seq<char>) -> Seq<Seq<char>> {
    seq!["-v"@, binary + ":"@ + ENTRYPOINT_PATH@, "--entrypoint"@, ENTRYPOINT_PATH@]
}

/// The arguments that the aspects add to a container run, in the order of
/// the aspects.
pub open spec fn all_run_args(aspects: Seq<AspectView>) -> Seq<Seq<char>> {
    aspects.flat_map(|aspect: AspectView| aspect.run_args->Ok_0)
}

/// The argument list of a container run: the ephemeral flag, the entrypoint
/// arguments where an aspect declares privileged setup, every aspect's
/// arguments in the order of the aspects, the canonical image tag and the
/// arguments of the containerised program.
pub open spec fn run_line(manager: ManagerView, binary: Seq<char>) -> Seq<Seq<char>> {
    seq![EPHEMERAL@] + (if needs_entrypoint(manager.aspects) {
        entrypoint_args(binary)
    } else {
        Seq::empty()
    }) + all_run_args(manager.aspects) + seq![manager.tags[0]] + manager.args
}

/// What a container run comes to. It fails where privileged setup is
/// declared and the running binary is unknown, and else with the error of
/// the first aspect that has one; it succeeds with [`run_line`] where there
/// is neither.
pub open spec fn run_outcome(
    manager: ManagerView,
    binary: Result<Seq<char>, Seq<char>>,
    outcome: Result<Seq<Seq<char>>, Error>,
) -> bool {
    if needs_entrypoint(manager.aspects) && binary is Err {
        outcome matches Err(Error::CouldNotFindCurrentBinary(message)) && message@
            == binary->Err_0
    } else {
        match outcome {
            Ok(line) => {
                &&& forall|i: int|
                    0 <= i < manager.aspects.len() ==> (#[trigger] manager.aspects[i]).run_args is Ok
                &&& line == run_line(
                    manager,
                    match binary {
                        Ok(path) => path,
                        Err(_) => Seq::empty(),
                    },
                )
            },
            Err(error) => exists|i: int|
                {
                    &&& 0 <= i < manager.aspects.len()
                    &&& (#[trigger] manager.aspects[i]).run_args == Err::<Seq<Seq<char>>, Error>(
                        error,
                    )
                    &&& forall|j: int| 0 <= j < i ==> (#[trigger] manager.aspects[j]).run_args is Ok
                },
        }
    }
}

/// Where a profile keeps its data, below the home directory.
pub const PROFILE_DIR: &'static str = "/.local/share/dfiles/";

/// The mount that keeps the container path `path` of the application `name`
/// below the home directory `home`.
pub open spec fn profile_mount(home: Seq<char>, name: Seq<char>, path: Seq<char>) -> Seq<char> {
    home + PROFILE_DIR@ + name + path + ":"@ + path
}

/// The value of the profile aspect of the application `name`: for each of
/// its container paths a volume argument and the mount. Without a home
/// directory the aspect cannot serve a run.
pub open spec fn profile_view(
    name: Seq<char>,
    container_paths: Seq<Seq<char>>,
    home: Option<Seq<char>>,
) -> AspectView {
    AspectView {
        run_args: match home {
            Some(home) => Ok(
                container_paths.flat_map(
                    |path: Seq<char>| seq!["-v"@, profile_mount(home, name, path)],
                ),
            ),
            None => Err(Error::MissingDirectory),
        },
        ..blank_aspect("Profile"@)
    }
}

/// The profile aspect of the application `name`: it keeps the application's
/// container paths below the home directory.
pub fn profile(name: &str, container_paths: &Vec<String>, home: Option<&str>) -> (aspect:
    ContainerAspect)
    ensures
        aspect@ == profile_view(
            name@,
            container_paths.deep_view(),
            match home {
                Some(home) => Some(home@),
                None => None,
            },
        ),
{
    let mut aspect = ContainerAspect::new(String::from_str("Profile"));
    match home {
        Some(home) => {
            let ghost paths = container_paths.deep_view();
            let ghost mount = |path: Seq<char>| seq!["-v"@, profile_mount(home@, name@, path)];
            let mut args: Vec<String> = Vec::new();
            let mut i: usize = 0;
            proof {
                assert(paths.take(0).flat_map(mount) =~= Seq::empty()) by {
                    assert(paths.take(0).map_values(mount) =~= Seq::empty());
                }
                assert(args.deep_view() =~= Seq::empty());
            }
            while i < container_paths.len()
                invariant
                    i <= container_paths.len(),
                    paths == container_paths.deep_view(),
                    mount == |path: Seq<char>| seq!["-v"@, profile_mount(home@, name@, path)],
                    args.deep_view() == paths.take(i as int).flat_map(mount),
                decreases container_paths.len() - i,
            {
                proof {
                    paths.lemma_flat_map_take_append(mount, i as int);
                }
                let ghost before = args.deep_view();
                let path = &container_paths[i];
                let mut text = String::from_str(home);
                text.append(PROFILE_DIR);
                text.append(name);
                text.append(path.as_str());
                text.append(":");
                text.append(path.as_str());
                args.push(String::from_str("-v"));
                args.push(text);
                assert(args.deep_view() =~= before + mount(paths[i as int]));
                i = i + 1;
            }
            assert(paths.take(i as int) =~= paths);
            aspect.run_args = Ok(args);
        },
        None => {
            aspect.run_args = Err(Error::MissingDirectory);
        },
    }
    aspect
}

/// The name of the recipe file in the build context.
pub const DOCKERFILE: &'static str = "Dockerfile";

/// The name of the file that the build context is written to on request.
pub const ARCHIVE_FILE: &'static str = "whatever.tar";

/// The snippets of all aspects, in the order of the aspects.
pub open spec fn all_snippets(aspects: Seq<AspectView>) -> Seq<SnippetView> {
    aspects.flat_map(|aspect: AspectView| aspect.dockerfile_snippets)
}

/// The files of all aspects, in the order of the aspects.
pub open spec fn all_files(aspects: Seq<AspectView>) -> Seq<FileView> {
    aspects.flat_map(|aspect: AspectView| aspect.container_files)
}

/// The build context: every aspect's files in the order of the aspects, and
/// last the recipe file with the composed recipe text.
pub open spec fn build_context(aspects: Seq<AspectView>) -> Seq<FileView> {
    all_files(aspects).push(
        FileView { container_path: DOCKERFILE@, contents: recipe_text(all_snippets(aspects)) },
    )
}

/// The snippets of a list of aspects are those of its front followed by
/// those of its back: the order of the aspects is the order of their
/// snippets.
pub proof fn law_aspect_order_is_snippet_order(front: Seq<AspectView>, back: Seq<AspectView>)
    ensures
        all_snippets(front + back) == all_snippets(front) + all_snippets(back),
{
    let snippets_of = |aspect: AspectView| aspect.dockerfile_snippets;
    assert((front + back).map_values(snippets_of) =~= front.map_values(snippets_of)
        + back.map_values(snippets_of));
    vstd::seq_lib::lemma_flatten_concat(
        front.map_values(snippets_of),
        back.map_values(snippets_of),
    );
}

/// Two aspects that each contribute one snippet, both at one priority: the
/// recipe holds, at that priority, the text of the aspect that was
/// registered first, a line break, and the text of the other, and nothing
/// else.
pub proof fn law_registration_order_breaks_ties(
    first: AspectView,
    second: AspectView,
    a: SnippetView,
    b: SnippetView,
)
    requires
        first.dockerfile_snippets == seq![a],
        second.dockerfile_snippets == seq![b],
        a.order == b.order,
    ensures
        recipe_of(all_snippets(seq![first, second])) == Map::<u8, Seq<char>>::empty().insert(
            a.order,
            a.content + seq!['\n'] + b.content,
        ),
{
    law_aspect_order_is_snippet_order(seq![first], seq![second]);
    assert(seq![first] + seq![second] =~= seq![first, second]);
    let snippets_of = |aspect: AspectView| aspect.dockerfile_snippets;
    seq![first].lemma_flat_map_singleton(snippets_of);
    seq![second].lemma_flat_map_singleton(snippets_of);
    assert(seq![a] + seq![b] =~= seq![a, b]);
    law_two_snippets_concatenate(a, b);
}

/// Composition is a function of the aspects: equal lists of aspects give
/// the same recipe text and the same build context.
pub proof fn law_composition_is_deterministic(first: Seq<AspectView>, second: Seq<AspectView>)
    requires
        first == second,
    ensures
        recipe_text(all_snippets(first)) == recipe_text(all_snippets(second)),
        build_context(first) == build_context(second),
        tar_stream(build_context(first)) == tar_stream(build_context(second)),
{
}

/// A line of the container engine's build log, parsed.
#[derive(Debug)]
pub struct BuildOutput {
    /// The text that the build printed.
    pub stream: String,
}

/// What to print for a line of the build log: the text of a line that could
/// be parsed, as it is; nothing for a line that could not.
pub fn build_progress(line: Option<BuildOutput>) -> (text: Option<String>)
    ensures
        match line {
            Some(output) => text == Some(output.stream),
            None => text is None,
        },
{
    match line {
        Some(output) => Some(output.stream),
        None => None,
    }
}

/// What the container engine is asked to build.
#[derive(Debug)]
pub struct BuildRequest {
    /// The name of the recipe file within the context.
    pub dockerfile: String,
    /// The tags that the image gets.
    pub t: Vec<String>,
    /// The build context as a tar stream.
    pub context: Vec<u8>,
}

/// The subcommand that launches the application in a fresh container.
pub const RUN: &'static str = "run";

/// The subcommand that builds the image.
pub const BUILD: &'static str = "build";

/// The subcommand that persists options.
pub const CONFIG: &'static str = "config";

/// The subcommand that runs the entrypoint by hand.
pub const ENTRYPOINT: &'static str = "entrypoint";

/// The subcommand that writes the build context to a file.
pub const GENERATE_ARCHIVE: &'static str = "generate-archive";

/// The argument of the entrypoint subcommand: the command to hand over to.
pub const COMMAND: &'static str = "command";

/// A subcommand of the application's command line.
#[derive(Debug)]
pub struct Subcommand {
    pub name: String,
    pub about: String,
    pub args: Vec<ConfigArg>,
}

/// The mathematical value of a [`Subcommand`].
pub struct SubcommandView {
    pub name: Seq<char>,
    pub about: Seq<char>,
    pub args: Seq<ArgView>,
}

impl View for Subcommand {
    type V = SubcommandView;

    open spec fn view(&self) -> SubcommandView {
        SubcommandView { name: self.name@, about: self.about@, args: self.args.deep_view() }
    }
}

impl DeepView for Subcommand {
    type V = SubcommandView;

    open spec fn deep_view(&self) -> SubcommandView {
        self@
    }
}

/// The options that the aspects offer for a run and for the configuration,
/// in the order of the aspects.
pub open spec fn all_config_args(aspects: Seq<AspectView>) -> Seq<ArgView> {
    aspects.flat_map(|aspect: AspectView| aspect.config_args)
}

/// The options that the aspects offer for a build, in the order of the
/// aspects.
pub open spec fn all_build_args(aspects: Seq<AspectView>) -> Seq<ArgView> {
    aspects.flat_map(|aspect: AspectView| aspect.cli_build_args)
}

/// The command line of an application with the given aspects: the five
/// subcommands with their options.
pub open spec fn command_line(aspects: Seq<AspectView>) -> Seq<SubcommandView> {
    seq![
        SubcommandView {
            name: RUN@,
            about: "run app in container"@,
            args: cli_args_view() + all_config_args(aspects),
        },
        SubcommandView {
            name: BUILD@,
            about: "build app container"@,
            args: all_build_args(aspects),
        },
        SubcommandView {
            name: CONFIG@,
            about: "configure app container settings"@,
            args: cli_args_view() + all_config_args(aspects),
        },
        SubcommandView {
            name: ENTRYPOINT@,
            about: "entrypoint test mode"@,
            args: seq![
                ArgView {
                    name: COMMAND@,
                    multiple: true,
                    required: true,
                    run_flag: None,
                    snippet: None,
                },
            ],
        },
        SubcommandView {
            name: GENERATE_ARCHIVE@,
            about: "generate archive used to build container"@,
            args: Seq::empty(),
        },
    ]
}

/// What `config` hands on for persisting: the record and the key it is kept
/// under.
#[derive(Debug)]
pub struct SavedConfig {
    /// The application's name.
    pub name: String,
    /// The profile, if one was selected.
    pub profile: Option<String>,
    /// The values to persist.
    pub config: Config,
}

/// What the caller is to do for an operation.
#[derive(Debug)]
pub enum Action {
    /// Ask the container engine to run a container with these arguments.
    Run(Vec<String>),
    /// Ask the container engine to build the image, and print its log.
    Build(BuildRequest),
    /// Persist the configuration.
    SaveConfig(SavedConfig),
    /// Drive the entrypoint.
    Entrypoint(Entrypoint),
    /// Write the build context to the file at `path`.
    WriteArchive { path: String, context: Vec<u8> },
    /// Print the usage and exit successfully.
    Usage,
}

/// How an invocation starts.
#[derive(Debug)]
pub enum Start {
    /// The binary is the container's entrypoint: drive the entrypoint.
    Entrypoint(Entrypoint),
    /// The binary is the host-side tool: parse the command line against
    /// these subcommands, then dispatch.
    Cli(Vec<Subcommand>),
}

/// The entrypoint of an application with the given aspects, started with
/// `args`, before any step has run.
pub open spec fn fresh_entrypoint(aspects: Seq<AspectView>, args: Seq<Seq<char>>) -> EntrypointView {
    EntrypointView {
        plan: planned_steps(aspects),
        args,
        state: settled(planned_steps(aspects), args, 0),
    }
}

/// The values among `supplied` that `config` persists: those of the options
/// that the aspects declare.
pub open spec fn persisted_values(
    aspects: Seq<AspectView>,
    supplied: Map<Seq<char>, Seq<Seq<char>>>,
) -> Map<Seq<char>, Seq<Seq<char>>> {
    supplied.restrict(Set::new(|name: Seq<char>| declares(all_config_args(aspects), name)))
}

/// The configuration that an operation works under: the persisted values
/// merged with the supplied ones, under the options that the aspects
/// declare.
pub open spec fn loaded_config(
    aspects: Seq<AspectView>,
    persisted: Map<Seq<char>, Seq<Seq<char>>>,
    supplied: Map<Seq<char>, Seq<Seq<char>>>,
) -> Map<Seq<char>, Seq<Seq<char>>> {
    merged(persisted, supplied, all_config_args(aspects))
}

/// The manager after the configuration was loaded: the aspects that the
/// loaded configuration makes follow its own.
pub open spec fn loaded(
    manager: ManagerView,
    persisted: Map<Seq<char>, Seq<Seq<char>>>,
    supplied: Map<Seq<char>, Seq<Seq<char>>>,
) -> ManagerView {
    ManagerView {
        aspects: manager.aspects + derived_aspects(
            all_config_args(manager.aspects),
            loaded_config(manager.aspects, persisted, supplied),
        ),
        ..manager
    }
}

/// The manager that a subcommand works on: where the command line supplied
/// values to the subcommand, the configuration is loaded first.
pub open spec fn prepared(
    manager: ManagerView,
    persisted: Map<Seq<char>, Seq<Seq<char>>>,
    supplied: Option<Map<Seq<char>, Seq<Seq<char>>>>,
) -> ManagerView {
    match supplied {
        Some(supplied) => loaded(manager, persisted, supplied),
        None => manager,
    }
}

/// What the build context comes to as a tar stream, for `build`.
pub open spec fn build_outcome(manager: ManagerView, request: Result<BuildRequest, Error>) -> bool {
    match tar_stream(build_context(manager.aspects)) {
        Some(bytes) => request matches Ok(asked) && {
            &&& asked.dockerfile@ == DOCKERFILE@
            &&& asked.t.deep_view() == manager.tags
            &&& asked.context@ == bytes
        },
        None => request matches Err(e) && e is FailedToAddFileToArchive,
    }
}

/// What `dispatch` comes to, subcommand by subcommand. `before` is the
/// manager as it was, `manager` the one that the subcommand works on.
pub open spec fn dispatched(
    before: ManagerView,
    manager: ManagerView,
    subcommand: Seq<char>,
    supplied: Option<Map<Seq<char>, Seq<Seq<char>>>>,
    binary: Result<Seq<char>, Seq<char>>,
    outcome: Result<Action, Error>,
) -> bool {
    if subcommand == RUN@ && supplied is Some {
        match outcome {
            Ok(Action::Run(line)) => run_outcome(manager, binary, Ok(line.deep_view())),
            Ok(_) => false,
            Err(e) => run_outcome(manager, binary, Err(e)),
        }
    } else if subcommand == BUILD@ {
        match outcome {
            Ok(Action::Build(request)) => build_outcome(manager, Ok(request)),
            Ok(_) => false,
            Err(e) => build_outcome(manager, Err(e)),
        }
    } else if subcommand == CONFIG@ && supplied is Some {
        outcome matches Ok(Action::SaveConfig(saved)) && {
            &&& saved.name@ == before.name
            &&& match saved.profile {
                Some(profile) => profile_of(supplied->Some_0) == Some(profile@),
                None => profile_of(supplied->Some_0) is None,
            }
            &&& saved.config@ == persisted_values(before.aspects, supplied->Some_0)
        }
    } else if subcommand == ENTRYPOINT@ && supplied is Some {
        if binary != Ok::<Seq<char>, Seq<char>>(ENTRYPOINT_PATH@) {
            outcome == Err::<Action, Error>(Error::NotInEntrypointMode)
        } else if supplied->Some_0.contains_key(COMMAND@) {
            outcome matches Ok(Action::Entrypoint(entrypoint)) && entrypoint@ == fresh_entrypoint(
                manager.aspects,
                seq![ENTRYPOINT_PATH@] + supplied->Some_0[COMMAND@],
            )
        } else {
            outcome == Err::<Action, Error>(Error::MissingEntrypointArgs)
        }
    } else if subcommand == GENERATE_ARCHIVE@ {
        match tar_stream(build_context(manager.aspects)) {
            Some(bytes) => outcome matches Ok(Action::WriteArchive { path, context }) && path@
                == ARCHIVE_FILE@ && context@ == bytes,
            None => outcome matches Err(e) && e is FailedToAddFileToArchive,
        }
    } else {
        outcome is Ok && outcome->Ok_0 is Usage
    }
}

impl ContainerManager {
    #[verifier::type_invariant]
    spec fn has_a_tag(&self) -> bool {
        self.tags@.len() > 0
    }

    /// A manager for the application `name`, whose image goes by `tags` and
    /// is built on Debian: the [`debian`] aspect is put in front of
    /// `aspects`.
    pub fn default_debian(
        name: String,
        tags: Vec<String>,
        container_paths: Vec<String>,
        mut aspects: Vec<ContainerAspect>,
        args: Vec<String>,
    ) -> (manager: ContainerManager)
        requires
            tags@.len() > 0,
        ensures
            manager@ == (ManagerView {
                name: name@,
                tags: tags.deep_view(),
                container_paths: container_paths.deep_view(),
                aspects: seq![debian_view()] + aspects.deep_view(),
                args: args.deep_view(),
            }),
    {
        let ghost given = aspects.deep_view();
        aspects.insert(0, debian());
        assert(aspects.deep_view() =~= seq![debian_view()] + given);
        ContainerManager { name, tags, container_paths, aspects, args }
    }

    /// The canonical image tag: the first one.
    pub fn image(&self) -> (tag: String)
        ensures
            self@.tags.len() > 0,
            tag@ == self@.tags[0],
    {
        proof {
            use_type_invariant(self);
        }
        self.tags[0].clone()
    }

    /// Whether an aspect declares a step of privileged setup.
    pub fn has_entrypoint(&self) -> (needed: bool)
        ensures
            needed == needs_entrypoint(self@.aspects),
    {
        let mut i: usize = 0;
        while i < self.aspects.len()
            invariant
                i <= self.aspects.len(),
                forall|j: int|
                    0 <= j < i ==> (#[trigger] self.aspects.deep_view()[j]).entrypoint_fns.len()
                        == 0,
            decreases self.aspects.len() - i,
        {
            if self.aspects[i].entrypoint_fns.len() > 0 {
                assert(self.aspects.deep_view()[i as int].entrypoint_fns.len() > 0);
                return true;
            }
            i = i + 1;
        }
        false
    }

    /// The argument list for the container engine's run. `binary` is the
    /// path of the running executable, or the reason why it could not be
    /// resolved.
    pub fn run(&self, binary: Result<String, String>) -> (outcome: Result<Vec<String>, Error>)
        ensures
            run_outcome(
                self@,
                match binary {
                    Ok(path) => Ok(path@),
                    Err(reason) => Err(reason@),
                },
                match outcome {
                    Ok(line) => Ok(line.deep_view()),
                    Err(error) => Err(error),
                },
            ),
    {
        let ghost own = |aspect: AspectView| aspect.run_args->Ok_0;
        let ghost aspects = self.aspects.deep_view();
        let mut line: Vec<String> = Vec::new();
        line.push(String::from_str(EPHEMERAL));
        let ghost mut path: Seq<char> = Seq::empty();
        if self.has_entrypoint() {
            match binary {
                Ok(binary) => {
                    let mut mount = binary.clone();
                    mount.append(":");
                    mount.append(ENTRYPOINT_PATH);
                    line.push(String::from_str("-v"));
                    line.push(mount);
                    line.push(String::from_str("--entrypoint"));
                    line.push(String::from_str(ENTRYPOINT_PATH));
                    proof {
                        path = binary@;
                    }
                },
                Err(reason) => {
                    return Err(Error::CouldNotFindCurrentBinary(reason));
                },
            }
        } else {
            proof {
                path = match binary {
                    Ok(p) => p@,
                    Err(_) => Seq::empty(),
                };
            }
        }
        let ghost head = line.deep_view();
        assert(head =~= seq![EPHEMERAL@] + (if needs_entrypoint(aspects) {
            entrypoint_args(path)
        } else {
            Seq::empty()
        }));
        let mut i: usize = 0;
        assert(aspects.take(0).flat_map(own) =~= Seq::empty()) by {
            assert(aspects.take(0).map_values(own) =~= Seq::empty());
        }
        assert(line.deep_view() =~= head + aspects.take(0).flat_map(own));
        while i < self.aspects.len()
            invariant
                i <= self.aspects.len(),
                aspects == self.aspects.deep_view(),
                aspects == self@.aspects,
                !(needs_entrypoint(aspects) && binary is Err),
                own == |aspect: AspectView| aspect.run_args->Ok_0,
                forall|j: int| 0 <= j < i ==> (#[trigger] aspects[j]).run_args is Ok,
                line.deep_view() == head + aspects.take(i as int).flat_map(own),
            decreases self.aspects.len() - i,
        {
            proof {
                aspects.lemma_flat_map_take_append(own, i as int);
            }
            let ghost before = line.deep_view();
            match &self.aspects[i].run_args {
                Ok(args) => {
                    append_strings(&mut line, args);
                },
                Err(error) => {
                    let copy = error.duplicate();
                    assert(aspects[i as int].run_args == Err::<Seq<Seq<char>>, Error>(copy));
                    return Err(copy);
                },
            }
            assert(line.deep_view() =~= before + own(aspects[i as int]));
            i = i + 1;
        }
        assert(aspects.take(i as int) =~= aspects);
        let ghost body = line.deep_view();
        line.push(self.image());
        append_strings(&mut line, &self.args);
        assert(line.deep_view() =~= body + seq![self@.tags[0]] + self@.args);
        Ok(line)
    }

    /// The recipe text that the aspects compose to.
    pub fn dockerfile(&self) -> (text: String)
        ensures
            text@ == recipe_text(all_snippets(self@.aspects)),
    {
        let ghost aspects = self.aspects.deep_view();
        let ghost snippets_of = |aspect: AspectView| aspect.dockerfile_snippets;
        let mut recipe = ImageRecipe::new();
        let mut i: usize = 0;
        proof {
            lemma_recipe_of_empty();
            assert(aspects.take(0).flat_map(snippets_of) =~= Seq::empty()) by {
                assert(aspects.take(0).map_values(snippets_of) =~= Seq::empty());
            }
        }
        while i < self.aspects.len()
            invariant
                i <= self.aspects.len(),
                aspects == self.aspects.deep_view(),
                snippets_of == |aspect: AspectView| aspect.dockerfile_snippets,
                recipe@ == recipe_of(aspects.take(i as int).flat_map(snippets_of)),
            decreases self.aspects.len() - i,
        {
            proof {
                aspects.lemma_flat_map_take_append(snippets_of, i as int);
            }
            let ghost done = aspects.take(i as int).flat_map(snippets_of);
            let snippets = &self.aspects[i].dockerfile_snippets;
            let mut k: usize = 0;
            assert(done + snippets.deep_view().take(0) =~= done);
            while k < snippets.len()
                invariant
                    k <= snippets.len(),
                    recipe@ == recipe_of(done + snippets.deep_view().take(k as int)),
                decreases snippets.len() - k,
            {
                proof {
                    let own = snippets.deep_view();
                    lemma_recipe_of_push(done + own.take(k as int), own[k as int]);
                    assert((done + own.take(k as int)).push(own[k as int]) =~= done + own.take(
                        k + 1,
                    ));
                }
                recipe.add(snippets[k].order, snippets[k].content.as_str());
                k = k + 1;
            }
            assert(snippets.deep_view().take(k as int) =~= snippets.deep_view());
            i = i + 1;
        }
        assert(aspects.take(i as int) =~= aspects);
        recipe.text()
    }

    /// The build context: the files of the aspects, and last the recipe
    /// file.
    pub fn context(&self) -> (files: Vec<ContainerFile>)
        ensures
            files.deep_view() == build_context(self@.aspects),
    {
        let ghost aspects = self.aspects.deep_view();
        let ghost files_of = |aspect: AspectView| aspect.container_files;
        let mut files: Vec<ContainerFile> = Vec::new();
        let mut i: usize = 0;
        proof {
            assert(aspects.take(0).flat_map(files_of) =~= Seq::empty()) by {
                assert(aspects.take(0).map_values(files_of) =~= Seq::empty());
            }
            assert(files.deep_view() =~= Seq::empty());
        }
        while i < self.aspects.len()
            invariant
                i <= self.aspects.len(),
                aspects == self.aspects.deep_view(),
                files_of == |aspect: AspectView| aspect.container_files,
                files.deep_view() == aspects.take(i as int).flat_map(files_of),
            decreases self.aspects.len() - i,
        {
            proof {
                aspects.lemma_flat_map_take_append(files_of, i as int);
            }
            let ghost done = files.deep_view();
            let own = &self.aspects[i].container_files;
            let mut k: usize = 0;
            assert(files.deep_view() =~= done + own.deep_view().take(0));
            while k < own.len()
                invariant
                    k <= own.len(),
                    files.deep_view() == done + own.deep_view().take(k as int),
                decreases own.len() - k,
            {
                let ghost before = files.deep_view();
                files.push(
                    ContainerFile {
                        container_path: own[k].container_path.clone(),
                        contents: own[k].contents.clone(),
                    },
                );
                assert(files.deep_view() =~= before.push(own.deep_view()[k as int]));
                assert(done + own.deep_view().take(k + 1) =~= before.push(
                    own.deep_view()[k as int],
                ));
                k = k + 1;
            }
            assert(own.deep_view().take(k as int) =~= own.deep_view());
            i = i + 1;
        }
        assert(aspects.take(i as int) =~= aspects);
        let ghost before = files.deep_view();
        files.push(
            ContainerFile { container_path: String::from_str(DOCKERFILE), contents: self.dockerfile() },
        );
        assert(files.deep_view() =~= before.push(
            FileView {
                container_path: DOCKERFILE@,
                contents: recipe_text(all_snippets(self@.aspects)),
            },
        ));
        files
    }

    /// The build context as a tar stream.
    pub fn generate_archive_impl(&self) -> (stream: Result<Vec<u8>, Error>)
        ensures
            match tar_stream(build_context(self@.aspects)) {
                Some(bytes) => stream matches Ok(written) && written@ == bytes,
                None => stream matches Err(e) && e is FailedToAddFileToArchive,
            },
    {
        let files = self.context();
        write_archive(&files)
    }

    /// The file to write for an inspection of the build context: its name
    /// and the tar stream it is to hold.
    pub fn generate_archive(&self) -> (file: Result<(String, Vec<u8>), Error>)
        ensures
            match tar_stream(build_context(self@.aspects)) {
                Some(bytes) => file matches Ok((path, written)) && path@ == ARCHIVE_FILE@
                    && written@ == bytes,
                None => file matches Err(e) && e is FailedToAddFileToArchive,
            },
    {
        match self.generate_archive_impl() {
            Ok(bytes) => Ok((String::from_str(ARCHIVE_FILE), bytes)),
            Err(e) => Err(e),
        }
    }

    /// What to ask of the container engine to build the image: the build
    /// context, the name of the recipe file in it and all the image tags.
    pub fn build(&self) -> (request: Result<BuildRequest, Error>)
        ensures
            build_outcome(self@, request),
    {
        match self.generate_archive_impl() {
            Ok(context) => Ok(
                BuildRequest {
                    dockerfile: String::from_str(DOCKERFILE),
                    t: copy_strings(&self.tags),
                    context,
                },
            ),
            Err(e) => Err(e),
        }
    }

    /// The application's name.
    pub fn name(&self) -> (name: &String)
        ensures
            name@ == self@.name,
    {
        &self.name
    }

    /// The image tags.
    pub fn tags(&self) -> (tags: &Vec<String>)
        ensures
            tags.deep_view() == self@.tags,
    {
        &self.tags
    }

    /// The paths inside the container that a profile keeps.
    pub fn container_paths(&self) -> (paths: &Vec<String>)
        ensures
            paths.deep_view() == self@.container_paths,
    {
        &self.container_paths
    }

    /// The aspects in the order of composition.
    pub fn aspects(&self) -> (aspects: &Vec<ContainerAspect>)
        ensures
            aspects.deep_view() == self@.aspects,
    {
        &self.aspects
    }

    /// The arguments handed through to the containerised program.
    pub fn args(&self) -> (args: &Vec<String>)
        ensures
            args.deep_view() == self@.args,
    {
        &self.args
    }

    /// The options that the aspects offer for a run and for the
    /// configuration.
    pub fn config_args(&self) -> (args: Vec<ConfigArg>)
        ensures
            args.deep_view() == all_config_args(self@.aspects),
    {
        let ghost aspects = self.aspects.deep_view();
        let ghost offered = |aspect: AspectView| aspect.config_args;
        let mut args: Vec<ConfigArg> = Vec::new();
        let mut i: usize = 0;
        proof {
            assert(aspects.take(0).flat_map(offered) =~= Seq::empty()) by {
                assert(aspects.take(0).map_values(offered) =~= Seq::empty());
            }
            assert(args.deep_view() =~= Seq::empty());
        }
        while i < self.aspects.len()
            invariant
                i <= self.aspects.len(),
                aspects == self.aspects.deep_view(),
                offered == |aspect: AspectView| aspect.config_args,
                args.deep_view() == aspects.take(i as int).flat_map(offered),
            decreases self.aspects.len() - i,
        {
            proof {
                aspects.lemma_flat_map_take_append(offered, i as int);
            }
            append_args(&mut args, &self.aspects[i].config_args);
            i = i + 1;
        }
        assert(aspects.take(i as int) =~= aspects);
        args
    }

    /// The options that the aspects offer for a build.
    pub fn build_args(&self) -> (args: Vec<ConfigArg>)
        ensures
            args.deep_view() == all_build_args(self@.aspects),
    {
        let ghost aspects = self.aspects.deep_view();
        let ghost offered = |aspect: AspectView| aspect.cli_build_args;
        let mut args: Vec<ConfigArg> = Vec::new();
        let mut i: usize = 0;
        proof {
            assert(aspects.take(0).flat_map(offered) =~= Seq::empty()) by {
                assert(aspects.take(0).map_values(offered) =~= Seq::empty());
            }
            assert(args.deep_view() =~= Seq::empty());
        }
        while i < self.aspects.len()
            invariant
                i <= self.aspects.len(),
                aspects == self.aspects.deep_view(),
                offered == |aspect: AspectView| aspect.cli_build_args,
                args.deep_view() == aspects.take(i as int).flat_map(offered),
            decreases self.aspects.len() - i,
        {
            proof {
                aspects.lemma_flat_map_take_append(offered, i as int);
            }
            append_args(&mut args, &self.aspects[i].cli_build_args);
            i = i + 1;
        }
        assert(aspects.take(i as int) =~= aspects);
        args
    }

    /// What to persist of the values that the command line supplied: the
    /// values of the options that the aspects declare, under the
    /// application's name and the selected profile.
    pub fn config(&self, matches: &Config) -> (saved: SavedConfig)
        ensures
            saved.name@ == self@.name,
            match saved.profile {
                Some(profile) => profile_of(matches@) == Some(profile@),
                None => profile_of(matches@) is None,
            },
            saved.config@ == persisted_values(self@.aspects, matches@),
    {
        let declared = self.config_args();
        SavedConfig {
            name: self.name.clone(),
            profile: matches.profile(),
            config: matches.restricted_to(&declared),
        }
    }

    /// Loads the configuration: what was persisted is merged with what the
    /// command line supplied, and the aspects that the merged values make
    /// are put behind the aspects. The merged configuration is handed back.
    pub fn load_config(&mut self, persisted: &Config, matches: &Config) -> (config: Config)
        ensures
            config@ == loaded_config(old(self)@.aspects, persisted@, matches@),
            final(self)@ == loaded(old(self)@, persisted@, matches@),
    {
        let declared = self.config_args();
        let config = persisted.merge(matches, &declared);
        let mut derived = config.get_aspects(&declared);
        let ghost before = self.aspects.deep_view();
        let ghost added = derived.deep_view();
        proof {
            use_type_invariant(&*self);
        }
        let mut aspects: Vec<ContainerAspect> = Vec::new();
        std::mem::swap(&mut aspects, &mut self.aspects);
        aspects.append(&mut derived);
        assert(aspects.deep_view() =~= before + added);
        self.aspects = aspects;
        config
    }

    /// The entrypoint of the container, for the binary at `binary` that was
    /// started with the argument vector `args`. It is refused to a binary
    /// that is not the container's entrypoint, so that none of its steps can
    /// ever run there.
    pub fn entrypoint(&self, binary: &str, args: Vec<String>) -> (entrypoint: Result<
        Entrypoint,
        Error,
    >)
        ensures
            match entrypoint {
                Ok(entrypoint) => binary@ == ENTRYPOINT_PATH@ && entrypoint@ == fresh_entrypoint(
                    self@.aspects,
                    args.deep_view(),
                ),
                Err(e) => binary@ != ENTRYPOINT_PATH@ && e == Error::NotInEntrypointMode,
            },
    {
        if same_text(binary, ENTRYPOINT_PATH) {
            Ok(Entrypoint::begin(plan_steps(&self.aspects), args))
        } else {
            Err(Error::NotInEntrypointMode)
        }
    }

    /// Puts the application's profile aspect in front of the aspects and
    /// describes the command line that the application then has. `home` is
    /// the user's home directory, if there is one.
    pub fn execute_clap(&mut self, home: Option<&str>) -> (subcommands: Vec<Subcommand>)
        ensures
            final(self)@ == (ManagerView {
                aspects: seq![
                    profile_view(
                        old(self)@.name,
                        old(self)@.container_paths,
                        match home {
                            Some(home) => Some(home@),
                            None => None,
                        },
                    ),
                ] + old(self)@.aspects,
                ..old(self)@
            }),
            subcommands.deep_view() == command_line(final(self)@.aspects),
    {
        let ghost before = self.aspects.deep_view();
        proof {
            use_type_invariant(&*self);
        }
        let profile = profile(self.name.as_str(), &self.container_paths, home);
        let mut aspects: Vec<ContainerAspect> = Vec::new();
        std::mem::swap(&mut aspects, &mut self.aspects);
        aspects.insert(0, profile);
        assert(aspects.deep_view() =~= seq![profile@] + before);
        self.aspects = aspects;
        let mut run_args = cli_args();
        append_args(&mut run_args, &self.config_args());
        let mut config_args = cli_args();
        append_args(&mut config_args, &self.config_args());
        let mut command: Vec<ConfigArg> = Vec::new();
        command.push(
            ConfigArg {
                name: String::from_str(COMMAND),
                multiple: true,
                required: true,
                run_flag: None,
                snippet: None,
            },
        );
        let mut subcommands: Vec<Subcommand> = Vec::new();
        subcommands.push(
            Subcommand {
                name: String::from_str(RUN),
                about: String::from_str("run app in container"),
                args: run_args,
            },
        );
        subcommands.push(
            Subcommand {
                name: String::from_str(BUILD),
                about: String::from_str("build app container"),
                args: self.build_args(),
            },
        );
        subcommands.push(
            Subcommand {
                name: String::from_str(CONFIG),
                about: String::from_str("configure app container settings"),
                args: config_args,
            },
        );
        subcommands.push(
            Subcommand {
                name: String::from_str(ENTRYPOINT),
                about: String::from_str("entrypoint test mode"),
                args: command,
            },
        );
        subcommands.push(
            Subcommand {
                name: String::from_str(GENERATE_ARCHIVE),
                about: String::from_str("generate archive used to build container"),
                args: Vec::new(),
            },
        );
        proof {
            let expected = command_line(self@.aspects);
            let got = subcommands.deep_view();
            assert(got[3].args =~= expected[3].args);
            assert(got[4].args =~= expected[4].args);
            assert(got[0] == expected[0]);
            assert(got[1] == expected[1]);
            assert(got[2] == expected[2]);
            assert(got[3] == expected[3]);
            assert(got[4] == expected[4]);
            assert(got =~= expected);
        }
        subcommands
    }

    /// Decides by the path of the running binary which of its two roles the
    /// program plays. At the entrypoint path it is the container's first
    /// process, and the entrypoint begins with the argument vector `args`;
    /// anywhere else it is the host-side tool, the profile aspect goes in
    /// front of the aspects, and the command line is described.
    pub fn execute(&mut self, binary: &str, args: Vec<String>, home: Option<&str>) -> (start: Start)
        ensures
            binary@ == ENTRYPOINT_PATH@ ==> final(self)@ == old(self)@ && (start matches Start::Entrypoint(
                entrypoint,
            ) && entrypoint@ == fresh_entrypoint(old(self)@.aspects, args.deep_view())),
            binary@ != ENTRYPOINT_PATH@ ==> final(self)@ == (ManagerView {
                aspects: seq![
                    profile_view(
                        old(self)@.name,
                        old(self)@.container_paths,
                        match home {
                            Some(home) => Some(home@),
                            None => None,
                        },
                    ),
                ] + old(self)@.aspects,
                ..old(self)@
            }) && (start matches Start::Cli(subcommands) && subcommands.deep_view()
                == command_line(final(self)@.aspects)),
    {
        if same_text(binary, ENTRYPOINT_PATH) {
            Start::Entrypoint(Entrypoint::begin(plan_steps(&self.aspects), args))
        } else {
            Start::Cli(self.execute_clap(home))
        }
    }

    /// What is to be done for the subcommand that the command line named.
    /// `matches` holds the values that the command line supplied to it,
    /// `persisted` the configuration that is kept for it, and `binary` the
    /// path of the running executable or the reason why it could not be
    /// resolved. Where there are supplied values the configuration is loaded
    /// first, whatever the subcommand. The entrypoint is refused to a binary
    /// that is not the container's entrypoint; its argument vector is the
    /// binary's path and the words of the command. A name that is no
    /// subcommand asks for the usage.
    pub fn dispatch(
        &mut self,
        subcommand: &str,
        matches: Option<&Config>,
        persisted: &Config,
        binary: Result<String, String>,
    ) -> (outcome: Result<Action, Error>)
        ensures
            final(self)@ == prepared(
                old(self)@,
                persisted@,
                match matches {
                    Some(m) => Some(m@),
                    None => None,
                },
            ),
            dispatched(
                old(self)@,
                final(self)@,
                subcommand@,
                match matches {
                    Some(m) => Some(m@),
                    None => None,
                },
                match binary {
                    Ok(path) => Ok(path@),
                    Err(reason) => Err(reason@),
                },
                outcome,
            ),
    {
        proof {
            reveal_strlit("run");
            reveal_strlit("build");
            reveal_strlit("config");
            reveal_strlit("entrypoint");
            reveal_strlit("generate-archive");
        }
        let saved = match matches {
            Some(supplied) => {
                let saved = self.config(supplied);
                let _ = self.load_config(persisted, supplied);
                Some(saved)
            },
            None => None,
        };
        if matches.is_some() && same_text(subcommand, RUN) {
            match self.run(binary) {
                Ok(line) => Ok(Action::Run(line)),
                Err(e) => Err(e),
            }
        } else if same_text(subcommand, BUILD) {
            match self.build() {
                Ok(request) => Ok(Action::Build(request)),
                Err(e) => Err(e),
            }
        } else if matches.is_some() && same_text(subcommand, CONFIG) {
            Ok(Action::SaveConfig(saved.unwrap()))
        } else if matches.is_some() && same_text(subcommand, ENTRYPOINT) {
            let at_entrypoint = match &binary {
                Ok(path) => same_text(path.as_str(), ENTRYPOINT_PATH),
                Err(_) => false,
            };
            if !at_entrypoint {
                Err(Error::NotInEntrypointMode)
            } else {
                match matches.unwrap().get(COMMAND) {
                    Some(command) => {
                        let mut args: Vec<String> = Vec::new();
                        args.push(String::from_str(ENTRYPOINT_PATH));
                        assert(args.deep_view() =~= seq![ENTRYPOINT_PATH@]);
                        append_strings(&mut args, command);
                        match self.entrypoint(ENTRYPOINT_PATH, args) {
                            Ok(entrypoint) => Ok(Action::Entrypoint(entrypoint)),
                            Err(e) => Err(e),
                        }
                    },
                    None => Err(Error::MissingEntrypointArgs),
                }
            }
        } else if same_text(subcommand, GENERATE_ARCHIVE) {
            match self.generate_archive() {
                Ok((path, context)) => Ok(Action::WriteArchive { path, context }),
                Err(e) => Err(e),
            }
        } else {
            Ok(Action::Usage)
        }
    }
}

} // verus!
