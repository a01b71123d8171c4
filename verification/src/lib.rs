//! Generator for Windows resource-definition (`.rc`) scripts.
//!
//! The library holds the verified core of a build-time resource helper: a
//! descriptor of version information, icons and manifest data, a serializer
//! that renders the descriptor into resource-definition text, a parser for
//! the output of the registry query that locates an installed Windows SDK,
//! and the planning logic that lays out the compiler invocations for the
//! GNU and MSVC resource toolchains.  File and process I/O stay outside;
//! the library computes texts, paths and command lines from plain values.

mod descriptor;
mod errors;
mod escape;
mod locate;
mod metadata;
mod numfmt;
mod plan;
mod render;
mod sdk;
mod text;

pub use descriptor::BuildConfig;
pub use descriptor::VersionInfo;
pub use descriptor::WindowsResource;
pub use errors::ResourceError;
pub use locate::{FsSnapshot, locate_toolkits, probe_roots, registry_roots};
pub use plan::{command_failure_error, CommandSpec, CompilePlan};
pub use escape::escape_string;
pub use escape::unescape_string;
pub use sdk::win_sdk_inlcude_root;
pub use text::join_path;
