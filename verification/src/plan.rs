//! Compile planning: from a descriptor and a target-toolchain identifier
//! to the exact external commands to run, the resource text to write, and
//! the link lines to report to the build system.
//!
//! Only the two recognized toolchain identifiers are planned; running the
//! commands and writing the file stay outside the library.

use vstd::prelude::*;

use crate::descriptor::{DescriptorView, WindowsResource};
use crate::errors::ResourceError;
use crate::locate::{fs_has_file, FsSnapshot};
use crate::render::render_spec;
use crate::sdk::{sdk_include_root_spec, win_sdk_inlcude_root};
use crate::text::{join_path, join_path_spec, str_eq};

verus! {

/// One external command: the program, the working directory to run it in,
/// and its arguments in order.
#[derive(Debug)]
pub struct CommandSpec {
    pub program: String,
    pub current_dir: Option<String>,
    pub args: Vec<String>,
}

/// The mathematical value of a command.
#[verifier::ext_equal]
pub struct CommandView {
    pub program: Seq<char>,
    pub current_dir: Option<Seq<char>>,
    pub args: Seq<Seq<char>>,
}

impl DeepView for CommandSpec {
    type V = CommandView;

    open spec fn deep_view(&self) -> CommandView {
        CommandView {
            program: self.program@,
            current_dir: match self.current_dir {
                Some(ref d) => Some(d@),
                None => None,
            },
            args: self.args.deep_view(),
        }
    }
}

/// A whole compile plan: the resource text to write first (none where a
/// caller-supplied file is used), the resource file's path, the commands
/// to run in order, and the two link lines for the build system.
#[derive(Debug)]
pub struct CompilePlan {
    pub resource_text: Option<String>,
    pub resource_path: String,
    pub commands: Vec<CommandSpec>,
    pub link_search_line: String,
    pub link_lib_line: String,
}

/// The mathematical value of a compile plan.
#[verifier::ext_equal]
pub struct PlanView {
    pub resource_text: Option<Seq<char>>,
    pub resource_path: Seq<char>,
    pub commands: Seq<CommandView>,
    pub link_search_line: Seq<char>,
    pub link_lib_line: Seq<char>,
}

impl DeepView for CompilePlan {
    type V = PlanView;

    open spec fn deep_view(&self) -> PlanView {
        PlanView {
            resource_text: match self.resource_text {
                Some(ref t) => Some(t@),
                None => None,
            },
            resource_path: self.resource_path@,
            commands: self.commands.deep_view(),
            link_search_line: self.link_search_line@,
            link_lib_line: self.link_lib_line@,
        }
    }
}

/// The path of the resource file handed to the compiler: the
/// caller-supplied file, or the generated one in the output directory.
pub open spec fn resource_input_spec(d: DescriptorView) -> Seq<char> {
    match d.rc_file {
        Some(p) => p,
        None => join_path_spec(d.output_directory, ("resource.rc")@),
    }
}

/// The text to write before compiling: the rendered descriptor, unless a
/// caller-supplied resource file bypasses the serializer.
pub open spec fn resource_text_spec(d: DescriptorView) -> Option<Seq<char>> {
    match d.rc_file {
        Some(_) => None,
        None => Some(render_spec(d)),
    }
}

/// The link-search line naming the output directory.
pub open spec fn link_search_line_spec(d: DescriptorView) -> Seq<char> {
    ("cargo:rustc-link-search=native=")@ + d.output_directory
}

/// The windres invocation of the GNU toolchain.
pub open spec fn windres_command_spec(d: DescriptorView, manifest_dir: Seq<char>) -> CommandView {
    CommandView {
        program: d.windres_path,
        current_dir: Some(d.toolkit_path),
        args: seq![
            ("-I")@ + manifest_dir,
            resource_input_spec(d),
            join_path_spec(d.output_directory, ("resource.o")@),
        ],
    }
}

/// The archiver invocation of the GNU toolchain.
pub open spec fn ar_command_spec(d: DescriptorView) -> CommandView {
    CommandView {
        program: d.ar_path,
        current_dir: Some(d.toolkit_path),
        args: seq![
            ("rsc")@,
            join_path_spec(d.output_directory, ("libresource.a")@),
            join_path_spec(d.output_directory, ("resource.o")@),
        ],
    }
}

/// The GNU plan: run windres, pack the object with the archiver, link the
/// result statically.
pub open spec fn gnu_plan_spec(d: DescriptorView, manifest_dir: Seq<char>) -> PlanView {
    PlanView {
        resource_text: resource_text_spec(d),
        resource_path: resource_input_spec(d),
        commands: seq![windres_command_spec(d, manifest_dir), ar_command_spec(d)],
        link_search_line: link_search_line_spec(d),
        link_lib_line: ("cargo:rustc-link-lib=static=resource")@,
    }
}

/// The resource-compiler binary of the MSVC toolchain: directly under the
/// toolkit path where it exists there, else under the architecture's
/// `bin` layout.
pub open spec fn msvc_rc_exe_spec(d: DescriptorView, arch64: bool, fs: crate::locate::FsView) -> Seq<
    char,
> {
    if fs_has_file(fs, join_path_spec(d.toolkit_path, ("rc.exe")@)) {
        join_path_spec(d.toolkit_path, ("rc.exe")@)
    } else if arch64 {
        join_path_spec(d.toolkit_path, ("bin\\x64\\rc.exe")@)
    } else {
        join_path_spec(d.toolkit_path, ("bin\\x86\\rc.exe")@)
    }
}

/// The include arguments added for the toolkit's own headers, where the
/// caller asked for them.
pub open spec fn msvc_include_args_spec(rc_exe: Seq<char>, add: bool) -> Seq<Seq<char>> {
    if add {
        let root = sdk_include_root_spec(rc_exe);
        seq![
            ("/I")@ + join_path_spec(root, ("um")@),
            ("/I")@ + join_path_spec(root, ("shared")@),
        ]
    } else {
        Seq::empty()
    }
}

/// The MSVC resource-compiler invocation.
pub open spec fn msvc_command_spec(
    d: DescriptorView,
    manifest_dir: Seq<char>,
    arch64: bool,
    fs: crate::locate::FsView,
) -> CommandView {
    let rc_exe = msvc_rc_exe_spec(d, arch64, fs);
    CommandView {
        program: rc_exe,
        current_dir: None,
        args: seq![("/I")@ + manifest_dir] + msvc_include_args_spec(rc_exe, d.add_toolkit_include)
            + seq![
            ("/fo")@ + join_path_spec(d.output_directory, ("resource.lib")@),
            resource_input_spec(d),
        ],
    }
}

/// The MSVC plan: one compiler invocation, the result linked dynamically.
pub open spec fn msvc_plan_spec(
    d: DescriptorView,
    manifest_dir: Seq<char>,
    arch64: bool,
    fs: crate::locate::FsView,
) -> PlanView {
    PlanView {
        resource_text: resource_text_spec(d),
        resource_path: resource_input_spec(d),
        commands: seq![msvc_command_spec(d, manifest_dir, arch64, fs)],
        link_search_line: link_search_line_spec(d),
        link_lib_line: ("cargo:rustc-link-lib=dylib=resource")@,
    }
}

/// The plan for a target-toolchain identifier: the GNU plan for `gnu`,
/// the MSVC plan for `msvc`, an error for anything else.
pub open spec fn plan_spec(
    d: DescriptorView,
    target_env: Seq<char>,
    manifest_dir: Seq<char>,
    arch64: bool,
    fs: crate::locate::FsView,
) -> Result<PlanView, ResourceError> {
    if target_env == ("gnu")@ {
        Ok(gnu_plan_spec(d, manifest_dir))
    } else if target_env == ("msvc")@ {
        Ok(msvc_plan_spec(d, manifest_dir, arch64, fs))
    } else {
        Err(ResourceError::UnknownTargetEnv)
    }
}

/// The error reported when the command at a position of the plan fails:
/// the first command is the compiler, any later one the archiver.
pub open spec fn command_failure_spec(index: int) -> ResourceError {
    if index == 0 {
        ResourceError::CompilerFailed
    } else {
        ResourceError::ArchiverFailed
    }
}

/// The error for a failed command of the plan.
pub fn command_failure_error(index: usize) -> (e: ResourceError)
    ensures
        e == command_failure_spec(index as int),
{
    if index == 0 {
        ResourceError::CompilerFailed
    } else {
        ResourceError::ArchiverFailed
    }
}

fn prefixed(prefix: &str, tail: &str) -> (r: String)
    ensures
        r@ == prefix@ + tail@,
{
    let mut r = String::from_str(prefix);
    r.append(tail);
    r
}

impl WindowsResource {
    fn resource_input(&self) -> (r: String)
        ensures
            r@ == resource_input_spec(self@),
    {
        match &self.rc_file {
            Some(p) => String::from_str(p.as_str()),
            None => join_path(self.output_directory.as_str(), "resource.rc"),
        }
    }

    fn resource_text(&self) -> (r: Option<String>)
        ensures
            match r {
                Some(t) => resource_text_spec(self@) == Some(t@),
                None => resource_text_spec(self@) is None,
            },
    {
        match &self.rc_file {
            Some(_) => None,
            None => Some(self.render()),
        }
    }

    fn gnu_plan(&self, manifest_dir: &str) -> (p: CompilePlan)
        ensures
            p.deep_view() == gnu_plan_spec(self@, manifest_dir@),
    {
        let mut windres_args: Vec<String> = Vec::new();
        windres_args.push(prefixed("-I", manifest_dir));
        windres_args.push(self.resource_input());
        windres_args.push(join_path(self.output_directory.as_str(), "resource.o"));
        let windres = CommandSpec {
            program: String::from_str(self.windres_path.as_str()),
            current_dir: Some(String::from_str(self.toolkit_path.as_str())),
            args: windres_args,
        };
        proof {
            assert(windres.deep_view().args =~= windres_command_spec(self@, manifest_dir@).args);
            assert(windres.deep_view() =~= windres_command_spec(self@, manifest_dir@));
        }
        let mut ar_args: Vec<String> = Vec::new();
        ar_args.push(String::from_str("rsc"));
        ar_args.push(join_path(self.output_directory.as_str(), "libresource.a"));
        ar_args.push(join_path(self.output_directory.as_str(), "resource.o"));
        let ar = CommandSpec {
            program: String::from_str(self.ar_path.as_str()),
            current_dir: Some(String::from_str(self.toolkit_path.as_str())),
            args: ar_args,
        };
        proof {
            assert(ar.deep_view().args =~= ar_command_spec(self@).args);
            assert(ar.deep_view() =~= ar_command_spec(self@));
        }
        let mut commands: Vec<CommandSpec> = Vec::new();
        commands.push(windres);
        commands.push(ar);
        let p = CompilePlan {
            resource_text: self.resource_text(),
            resource_path: self.resource_input(),
            commands,
            link_search_line: prefixed(
                "cargo:rustc-link-search=native=",
                self.output_directory.as_str(),
            ),
            link_lib_line: String::from_str("cargo:rustc-link-lib=static=resource"),
        };
        proof {
            assert(p.deep_view().commands =~= gnu_plan_spec(self@, manifest_dir@).commands);
            assert(p.deep_view() =~= gnu_plan_spec(self@, manifest_dir@));
        }
        p
    }

    fn msvc_plan(&self, manifest_dir: &str, arch64: bool, fs: &FsSnapshot) -> (p: CompilePlan)
        ensures
            p.deep_view() == msvc_plan_spec(self@, manifest_dir@, arch64, fs@),
    {
        let direct = join_path(self.toolkit_path.as_str(), "rc.exe");
        let rc_exe = if fs.has_file(direct.as_str()) {
            direct
        } else if arch64 {
            join_path(self.toolkit_path.as_str(), "bin\\x64\\rc.exe")
        } else {
            join_path(self.toolkit_path.as_str(), "bin\\x86\\rc.exe")
        };
        proof {
            assert(rc_exe@ == msvc_rc_exe_spec(self@, arch64, fs@));
        }
        let mut args: Vec<String> = Vec::new();
        args.push(prefixed("/I", manifest_dir));
        if self.add_toolkit_include {
            let root = win_sdk_inlcude_root(rc_exe.as_str());
            let um = join_path(root.as_str(), "um");
            args.push(prefixed("/I", um.as_str()));
            let shared = join_path(root.as_str(), "shared");
            args.push(prefixed("/I", shared.as_str()));
        }
        args.push(prefixed(
            "/fo",
            join_path(self.output_directory.as_str(), "resource.lib").as_str(),
        ));
        args.push(self.resource_input());
        let command = CommandSpec { program: rc_exe, current_dir: None, args };
        proof {
            assert(command.deep_view().args =~= msvc_command_spec(
                self@,
                manifest_dir@,
                arch64,
                fs@,
            ).args);
            assert(command.deep_view() =~= msvc_command_spec(self@, manifest_dir@, arch64, fs@));
        }
        let mut commands: Vec<CommandSpec> = Vec::new();
        commands.push(command);
        let p = CompilePlan {
            resource_text: self.resource_text(),
            resource_path: self.resource_input(),
            commands,
            link_search_line: prefixed(
                "cargo:rustc-link-search=native=",
                self.output_directory.as_str(),
            ),
            link_lib_line: String::from_str("cargo:rustc-link-lib=dylib=resource"),
        };
        proof {
            assert(p.deep_view().commands =~= msvc_plan_spec(
                self@,
                manifest_dir@,
                arch64,
                fs@,
            ).commands);
            assert(p.deep_view() =~= msvc_plan_spec(self@, manifest_dir@, arch64, fs@));
        }
        p
    }

    /// Lay out the whole compile step for a target toolchain: the text to
    /// write, the commands to run and the link lines to report; an
    /// unrecognized toolchain identifier is refused, not attempted.
    pub fn compile_plan(
        &self,
        target_env: &str,
        manifest_dir: &str,
        arch64: bool,
        fs: &FsSnapshot,
    ) -> (r: Result<CompilePlan, ResourceError>)
        ensures
            match r {
                Ok(p) => plan_spec(self@, target_env@, manifest_dir@, arch64, fs@) == Ok::<
                    PlanView,
                    ResourceError,
                >(p.deep_view()),
                Err(e) => e is UnknownTargetEnv && plan_spec(
                    self@,
                    target_env@,
                    manifest_dir@,
                    arch64,
                    fs@,
                ) == Err::<PlanView, ResourceError>(ResourceError::UnknownTargetEnv),
            },
    {
        if str_eq(target_env, "gnu") {
            Ok(self.gnu_plan(manifest_dir))
        } else if str_eq(target_env, "msvc") {
            Ok(self.msvc_plan(manifest_dir, arch64, fs))
        } else {
            Err(ResourceError::UnknownTargetEnv)
        }
    }
}

} // verus!
