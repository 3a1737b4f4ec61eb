//! Aspect composition and container-lifecycle orchestration for GUI
//! applications that run inside containers.
//!
//! An application is described by a list of aspects. The container manager
//! composes that list into an image recipe, a build context, the argument
//! list of a container run and the privileged setup that precedes the
//! containerised command. The library computes on plain values: talking to
//! the container engine, the file system and the terminal is left to the
//! caller, who is told what to do and tells how it went. The one thing the
//! library looks up itself is the privilege escalator on the path.

pub mod error;
pub mod strings;
pub mod aspects;
pub mod recipe;
pub mod config;
pub mod archive;
pub mod escalator;
pub mod entrypoint;
pub mod containermanager;
