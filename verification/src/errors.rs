//! The failure taxonomy: every error of the library is one value of a
//! single enumeration carrying a descriptive message.

use vstd::prelude::*;

verus! {

/// What went wrong: an unrecognized toolchain identifier, a failed or
/// empty toolkit discovery, or a failed external compiler or archiver run.
#[derive(Debug)]
pub enum ResourceError {
    /// The target-toolchain identifier is neither of the two recognized
    /// values.
    UnknownTargetEnv,
    /// No installed toolkit was found among the discovered candidates.
    ToolkitNotFound,
    /// The registry query itself failed; the payload is its error output.
    RegistryQueryFailed(String),
    /// The resource compiler exited with a failure status.
    CompilerFailed,
    /// The archiver exited with a failure status.
    ArchiverFailed,
}

/// The descriptive message of each error.
pub open spec fn message_spec(e: ResourceError) -> Seq<char> {
    match e {
        ResourceError::UnknownTargetEnv => (
        "Can only compile resource file when target_env is \"gnu\" or \"msvc\"")@,
        ResourceError::ToolkitNotFound => ("Can not find Windows SDK")@,
        ResourceError::RegistryQueryFailed(s) => (
        "Querying the registry failed with error message:\n")@ + s@,
        ResourceError::CompilerFailed => ("Could not compile resource file")@,
        ResourceError::ArchiverFailed => ("Could not create static library for resource file")@,
    }
}

impl ResourceError {
    /// The human-readable message carried by this error.
    pub fn message(&self) -> (r: String)
        ensures
            r@ == message_spec(*self),
    {
        match self {
            ResourceError::UnknownTargetEnv => String::from_str(
                "Can only compile resource file when target_env is \"gnu\" or \"msvc\"",
            ),
            ResourceError::ToolkitNotFound => String::from_str("Can not find Windows SDK"),
            ResourceError::RegistryQueryFailed(s) => {
                let mut m = String::from_str("Querying the registry failed with error message:\n");
                m.append(s.as_str());
                m
            },
            ResourceError::CompilerFailed => String::from_str("Could not compile resource file"),
            ResourceError::ArchiverFailed => String::from_str(
                "Could not create static library for resource file",
            ),
        }
    }
}

} // verus!
