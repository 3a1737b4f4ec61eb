//! The one error type of the crate.

use vstd::prelude::*;
use vstd::string::StringExecFns;

verus! {

/// What can go wrong while composing or launching a container.
///
/// Variants that stand for a failure of the operating system or of the
/// container engine carry that failure's own message.
#[derive(Debug)]
pub enum Error {
    /// Entrypoint logic was asked for by a binary that is not the container's
    /// entrypoint.
    NotInEntrypointMode,
    /// The entrypoint was started without a command to hand over to.
    MissingEntrypointArgs,
    /// The path of the running executable could not be resolved.
    CouldNotFindCurrentBinary(String),
    /// Writing an entry of the build context failed.
    FailedToAddFileToArchive { source: String },
    /// No user goes by the given id.
    MissingUser(String),
    /// No group goes by the given id.
    MissingGroup(String),
    /// A mount was not given as a host path, a colon and a container path.
    InvalidMount(String),
    /// A locale was not given in a form the container understands.
    InvalidLocale(String),
    /// A directory that an aspect relies on could not be determined.
    MissingDirectory,
    /// The container engine reported a failure.
    DockerError(String),
    /// The configuration could not be written.
    FailedToSaveConfig,
    /// The configuration could not be read.
    FailedToLoadConfig,
    /// The privilege escalator was not found.
    WhichError(String),
}

/// A text as `Debug` prints it: between double quotes, with the characters
/// escaped that Rust escapes in a string literal.
pub uninterp spec fn quoted(text: Seq<char>) -> Seq<char>;

/// `Debug` for `str`, through `format!`: the text between double quotes and
/// escaped.
#[verifier::external_body]
fn debug_text(text: &str) -> (shown: String)
    ensures
        shown@ == quoted(text@),
{
    format!("{:?}", text)
}

/// The message of an error.
pub open spec fn message_of(error: Error) -> Seq<char> {
    match error {
        Error::NotInEntrypointMode => "not in entrypoint mode"@,
        Error::MissingEntrypointArgs => "missing entrypoint args"@,
        Error::CouldNotFindCurrentBinary(_) => "could not find current binary"@,
        Error::FailedToAddFileToArchive { .. } => "could not find current binary"@,
        Error::MissingUser(id) => "could not identify user with uid `"@ + quoted(id@) + "`"@,
        Error::MissingGroup(id) => "could not identify user with gid `"@ + quoted(id@) + "`"@,
        Error::InvalidMount(mount) => "invalid mount string `"@ + quoted(mount@) + "`"@,
        Error::InvalidLocale(locale) => "invalide locale `"@ + quoted(locale@) + "`"@,
        Error::MissingDirectory => "could not identify directory"@,
        Error::DockerError(_) => "directory"@,
        Error::FailedToSaveConfig => "failed to save config to file"@,
        Error::FailedToLoadConfig => "failed to load config from file"@,
        Error::WhichError(_) => "failed to find binary"@,
    }
}

/// `prefix`, then `subject` as `Debug` prints it, then a backquote.
fn about(prefix: &str, subject: &String) -> (text: String)
    ensures
        text@ == prefix@ + quoted(subject@) + "`"@,
{
    let mut text = String::from_str(prefix);
    text.append(debug_text(subject.as_str()).as_str());
    text.append("`");
    text
}

impl Error {
    /// A copy of this error.
    pub fn duplicate(&self) -> (r: Error)
        ensures
            r == *self,
    {
        match self {
            Error::NotInEntrypointMode => Error::NotInEntrypointMode,
            Error::MissingEntrypointArgs => Error::MissingEntrypointArgs,
            Error::CouldNotFindCurrentBinary(m) => Error::CouldNotFindCurrentBinary(m.clone()),
            Error::FailedToAddFileToArchive { source } => Error::FailedToAddFileToArchive {
                source: source.clone(),
            },
            Error::MissingUser(id) => Error::MissingUser(id.clone()),
            Error::MissingGroup(id) => Error::MissingGroup(id.clone()),
            Error::InvalidMount(m) => Error::InvalidMount(m.clone()),
            Error::InvalidLocale(l) => Error::InvalidLocale(l.clone()),
            Error::MissingDirectory => Error::MissingDirectory,
            Error::DockerError(m) => Error::DockerError(m.clone()),
            Error::FailedToSaveConfig => Error::FailedToSaveConfig,
            Error::FailedToLoadConfig => Error::FailedToLoadConfig,
            Error::WhichError(m) => Error::WhichError(m.clone()),
        }
    }

    /// The message to show to the user.
    pub fn message(&self) -> (text: String)
        ensures
            text@ == message_of(*self),
    {
        match self {
            Error::NotInEntrypointMode => String::from_str("not in entrypoint mode"),
            Error::MissingEntrypointArgs => String::from_str("missing entrypoint args"),
            Error::CouldNotFindCurrentBinary(_) => String::from_str("could not find current binary"),
            Error::FailedToAddFileToArchive { .. } => String::from_str(
                "could not find current binary",
            ),
            Error::MissingUser(id) => about("could not identify user with uid `", id),
            Error::MissingGroup(id) => about("could not identify user with gid `", id),
            Error::InvalidMount(mount) => about("invalid mount string `", mount),
            Error::InvalidLocale(locale) => about("invalide locale `", locale),
            Error::MissingDirectory => String::from_str("could not identify directory"),
            Error::DockerError(_) => String::from_str("directory"),
            Error::FailedToSaveConfig => String::from_str("failed to save config to file"),
            Error::FailedToLoadConfig => String::from_str("failed to load config from file"),
            Error::WhichError(_) => String::from_str("failed to find binary"),
        }
    }
}

} // verus!
