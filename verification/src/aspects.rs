//! Aspects: the units of capability that an application is assembled from.
//!
//! An aspect is a plain value. It states what it contributes to each stage of
//! a container's life: text for the image recipe, files for the build
//! context, arguments for the container run, options for the command line and
//! steps of privileged setup. It has no say in the order of composition; that
//! is the container manager's business.

use vstd::prelude::*;
use vstd::string::StringExecFns;
use crate::error::Error;

verus! {

/// A piece of image recipe text and the priority it is placed at.
#[derive(Debug)]
pub struct DockerfileSnippet {
    pub order: u8,
    pub content: String,
}

/// The mathematical value of a [`DockerfileSnippet`].
pub struct SnippetView {
    pub order: u8,
    pub content: Seq<char>,
}

impl View for DockerfileSnippet {
    type V = SnippetView;

    open spec fn view(&self) -> SnippetView {
        SnippetView { order: self.order, content: self.content@ }
    }
}

impl DeepView for DockerfileSnippet {
    type V = SnippetView;

    open spec fn deep_view(&self) -> SnippetView {
        self@
    }
}

/// A file of the build context: where it goes and what it holds.
#[derive(Debug)]
pub struct ContainerFile {
    pub container_path: String,
    pub contents: String,
}

/// The mathematical value of a [`ContainerFile`].
pub struct FileView {
    pub container_path: Seq<char>,
    pub contents: Seq<char>,
}

impl View for ContainerFile {
    type V = FileView;

    open spec fn view(&self) -> FileView {
        FileView { container_path: self.container_path@, contents: self.contents@ }
    }
}

impl DeepView for ContainerFile {
    type V = FileView;

    open spec fn deep_view(&self) -> FileView {
        self@
    }
}

/// An option that an aspect offers on the command line.
///
/// An option that may be given several times is append-only: merging two
/// configurations unites its values instead of replacing them.
///
/// The configured values of an option make an aspect of their own. Where
/// `run_flag` is set, every value reaches the container run as that flag
/// followed by the value. Where `snippet` is set, every value adds to the
/// image recipe, at the snippet's priority, the snippet's text followed by
/// the value.
#[derive(Debug)]
pub struct ConfigArg {
    pub name: String,
    pub multiple: bool,
    pub required: bool,
    pub run_flag: Option<String>,
    pub snippet: Option<DockerfileSnippet>,
}

/// The mathematical value of a [`ConfigArg`].
pub struct ArgView {
    pub name: Seq<char>,
    pub multiple: bool,
    pub required: bool,
    pub run_flag: Option<Seq<char>>,
    pub snippet: Option<SnippetView>,
}

impl View for ConfigArg {
    type V = ArgView;

    open spec fn view(&self) -> ArgView {
        ArgView {
            name: self.name@,
            multiple: self.multiple,
            required: self.required,
            run_flag: match self.run_flag {
                Some(f) => Some(f@),
                None => None,
            },
            snippet: match self.snippet {
                Some(s) => Some(s@),
                None => None,
            },
        }
    }
}

impl DeepView for ConfigArg {
    type V = ArgView;

    open spec fn deep_view(&self) -> ArgView {
        self@
    }
}

/// A step of privileged setup that runs inside the container before the
/// containerised command starts.
///
/// The step's action belongs to whoever drives the entrypoint. Here the step
/// is its description and the arguments it adds to the privilege escalator's
/// command line.
#[derive(Debug)]
pub struct EntrypointFn {
    pub description: String,
    pub sudo_args: Vec<String>,
}

/// The mathematical value of an [`EntrypointFn`].
pub struct StepView {
    pub description: Seq<char>,
    pub sudo_args: Seq<Seq<char>>,
}

impl View for EntrypointFn {
    type V = StepView;

    open spec fn view(&self) -> StepView {
        StepView { description: self.description@, sudo_args: self.sudo_args.deep_view() }
    }
}

impl DeepView for EntrypointFn {
    type V = StepView;

    open spec fn deep_view(&self) -> StepView {
        self@
    }
}

/// A unit of capability.
///
/// Every stage that the aspect takes no part in is left empty. `run_args`
/// holds an error where the aspect found that it cannot serve a container
/// run.
#[derive(Debug)]
pub struct ContainerAspect {
    pub name: String,
    pub run_args: Result<Vec<String>, Error>,
    pub dockerfile_snippets: Vec<DockerfileSnippet>,
    pub container_files: Vec<ContainerFile>,
    pub config_args: Vec<ConfigArg>,
    pub cli_build_args: Vec<ConfigArg>,
    pub entrypoint_fns: Vec<EntrypointFn>,
}

/// The mathematical value of a [`ContainerAspect`].
pub struct AspectView {
    pub name: Seq<char>,
    pub run_args: Result<Seq<Seq<char>>, Error>,
    pub dockerfile_snippets: Seq<SnippetView>,
    pub container_files: Seq<FileView>,
    pub config_args: Seq<ArgView>,
    pub cli_build_args: Seq<ArgView>,
    pub entrypoint_fns: Seq<StepView>,
}

impl View for ContainerAspect {
    type V = AspectView;

    open spec fn view(&self) -> AspectView {
        AspectView {
            name: self.name@,
            run_args: match self.run_args {
                Ok(args) => Ok(args.deep_view()),
                Err(e) => Err(e),
            },
            dockerfile_snippets: self.dockerfile_snippets.deep_view(),
            container_files: self.container_files.deep_view(),
            config_args: self.config_args.deep_view(),
            cli_build_args: self.cli_build_args.deep_view(),
            entrypoint_fns: self.entrypoint_fns.deep_view(),
        }
    }
}

impl DeepView for ContainerAspect {
    type V = AspectView;

    open spec fn deep_view(&self) -> AspectView {
        self@
    }
}

/// The value of an aspect that has a name and contributes nothing.
pub open spec fn blank_aspect(name: Seq<char>) -> AspectView {
    AspectView {
        name,
        run_args: Ok(Seq::empty()),
        dockerfile_snippets: Seq::empty(),
        container_files: Seq::empty(),
        config_args: Seq::empty(),
        cli_build_args: Seq::empty(),
        entrypoint_fns: Seq::empty(),
    }
}

impl ContainerAspect {
    /// An aspect that takes part in no stage.
    pub fn new(name: String) -> (aspect: ContainerAspect)
        ensures
            aspect@ == blank_aspect(name@),
    {
        let aspect = ContainerAspect {
            name,
            run_args: Ok(Vec::new()),
            dockerfile_snippets: Vec::new(),
            container_files: Vec::new(),
            config_args: Vec::new(),
            cli_build_args: Vec::new(),
            entrypoint_fns: Vec::new(),
        };
        assert(aspect@.dockerfile_snippets =~= Seq::empty());
        assert(aspect@.container_files =~= Seq::empty());
        assert(aspect@.config_args =~= Seq::empty());
        assert(aspect@.cli_build_args =~= Seq::empty());
        assert(aspect@.entrypoint_fns =~= Seq::empty());
        assert(aspect@.run_args->Ok_0 =~= Seq::empty());
        aspect
    }
}

impl ConfigArg {
    /// An option that is given at most once, need not be given, and reaches
    /// neither a container run nor the image recipe.
    pub fn new(name: &str) -> (arg: ConfigArg)
        ensures
            arg@ == (ArgView {
                name: name@,
                multiple: false,
                required: false,
                run_flag: None,
                snippet: None,
            }),
    {
        ConfigArg {
            name: String::from_str(name),
            multiple: false,
            required: false,
            run_flag: None,
            snippet: None,
        }
    }

    /// A copy of this option.
    pub fn duplicate(&self) -> (copy: ConfigArg)
        ensures
            copy@ == self@,
    {
        ConfigArg {
            name: self.name.clone(),
            multiple: self.multiple,
            required: self.required,
            run_flag: match &self.run_flag {
                Some(flag) => Some(flag.clone()),
                None => None,
            },
            snippet: match &self.snippet {
                Some(snippet) => Some(
                    DockerfileSnippet { order: snippet.order, content: snippet.content.clone() },
                ),
                None => None,
            },
        }
    }
}

/// Appends copies of the options of `from` to `into`.
pub fn append_args(into: &mut Vec<ConfigArg>, from: &Vec<ConfigArg>)
    ensures
        final(into).deep_view() == old(into).deep_view() + from.deep_view(),
{
    let ghost start = into.deep_view();
    let mut i: usize = 0;
    assert(into.deep_view() =~= start + from.deep_view().take(0));
    while i < from.len()
        invariant
            i <= from.len(),
            into.deep_view() == start + from.deep_view().take(i as int),
        decreases from.len() - i,
    {
        let ghost before = into.deep_view();
        into.push(from[i].duplicate());
        assert(into.deep_view() =~= before.push(from.deep_view()[i as int]));
        assert(start + from.deep_view().take(i + 1) =~= before.push(from.deep_view()[i as int]));
        i = i + 1;
    }
    assert(from.deep_view().take(i as int) =~= from.deep_view());
}

} // verus!
