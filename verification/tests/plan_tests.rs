use winres::{
    command_failure_error, BuildConfig, FsSnapshot, ResourceError, WindowsResource,
};

fn planned_resource() -> WindowsResource {
    let mut res = WindowsResource::from_config(BuildConfig {
        package_name: String::from("demo"),
        package_version: String::from("1.0.0"),
        version_major: 1,
        version_minor: 0,
        version_patch: 0,
        output_directory: String::from("C:\\out"),
        toolkit_path: String::from("C:\\toolkit"),
        windres_path: String::from("windres.exe"),
        ar_path: String::from("ar.exe"),
    });
    res.set_icon("demo.ico");
    res
}

#[test]
fn gnu_plan_runs_windres_then_ar() {
    let res = planned_resource();
    let fs = FsSnapshot::new();
    let plan = res.compile_plan("gnu", "C:\\project", true, &fs).expect("plan expected");
    assert_eq!(plan.resource_path, "C:\\out\\resource.rc");
    assert!(plan.resource_text.as_deref().unwrap().contains("1 VERSIONINFO\n"));
    assert_eq!(plan.commands.len(), 2);
    let windres = &plan.commands[0];
    assert_eq!(windres.program, "windres.exe");
    assert_eq!(windres.current_dir.as_deref(), Some("C:\\toolkit"));
    assert_eq!(
        windres.args,
        vec![
            String::from("-IC:\\project"),
            String::from("C:\\out\\resource.rc"),
            String::from("C:\\out\\resource.o"),
        ]
    );
    let ar = &plan.commands[1];
    assert_eq!(ar.program, "ar.exe");
    assert_eq!(ar.current_dir.as_deref(), Some("C:\\toolkit"));
    assert_eq!(
        ar.args,
        vec![
            String::from("rsc"),
            String::from("C:\\out\\libresource.a"),
            String::from("C:\\out\\resource.o"),
        ]
    );
    assert_eq!(plan.link_search_line, "cargo:rustc-link-search=native=C:\\out");
    assert_eq!(plan.link_lib_line, "cargo:rustc-link-lib=static=resource");
}

#[test]
fn msvc_plan_prefers_direct_rc_path() {
    let res = planned_resource();
    let mut fs = FsSnapshot::new();
    fs.add_file("C:\\toolkit\\rc.exe");
    let plan = res.compile_plan("msvc", "C:\\project", true, &fs).expect("plan expected");
    assert_eq!(plan.commands.len(), 1);
    let rc = &plan.commands[0];
    assert_eq!(rc.program, "C:\\toolkit\\rc.exe");
    assert_eq!(rc.current_dir, None);
    assert_eq!(
        rc.args,
        vec![
            String::from("/IC:\\project"),
            String::from("/foC:\\out\\resource.lib"),
            String::from("C:\\out\\resource.rc"),
        ]
    );
    assert_eq!(plan.link_lib_line, "cargo:rustc-link-lib=dylib=resource");
}

#[test]
fn msvc_plan_falls_back_to_bin_layout() {
    let res = planned_resource();
    let fs = FsSnapshot::new();
    let plan64 = res.compile_plan("msvc", "C:\\project", true, &fs).expect("plan expected");
    assert_eq!(plan64.commands[0].program, "C:\\toolkit\\bin\\x64\\rc.exe");
    let plan32 = res.compile_plan("msvc", "C:\\project", false, &fs).expect("plan expected");
    assert_eq!(plan32.commands[0].program, "C:\\toolkit\\bin\\x86\\rc.exe");
}

#[test]
fn msvc_plan_adds_toolkit_includes() {
    let mut res = planned_resource();
    res.set_toolkit_path("C:\\Kits\\10\\bin\\10.0.17763.0\\x64");
    res.add_toolkit_include(true);
    let mut fs = FsSnapshot::new();
    fs.add_file("C:\\Kits\\10\\bin\\10.0.17763.0\\x64\\rc.exe");
    let plan = res.compile_plan("msvc", "C:\\project", true, &fs).expect("plan expected");
    let rc = &plan.commands[0];
    assert_eq!(
        rc.args,
        vec![
            String::from("/IC:\\project"),
            String::from("/IC:\\Kits\\10\\Include\\10.0.17763.0\\um"),
            String::from("/IC:\\Kits\\10\\Include\\10.0.17763.0\\shared"),
            String::from("/foC:\\out\\resource.lib"),
            String::from("C:\\out\\resource.rc"),
        ]
    );
}

#[test]
fn caller_supplied_resource_file_bypasses_rendering() {
    let mut res = planned_resource();
    res.set_resource_file("C:\\custom\\my.rc");
    let fs = FsSnapshot::new();
    let plan = res.compile_plan("gnu", "C:\\project", true, &fs).expect("plan expected");
    assert_eq!(plan.resource_path, "C:\\custom\\my.rc");
    assert!(plan.resource_text.is_none());
}

#[test]
fn unknown_target_env_is_refused() {
    let res = planned_resource();
    let fs = FsSnapshot::new();
    let err = res.compile_plan("musl", "C:\\project", true, &fs).unwrap_err();
    assert!(matches!(err, ResourceError::UnknownTargetEnv));
    assert_eq!(
        err.message(),
        "Can only compile resource file when target_env is \"gnu\" or \"msvc\""
    );
}

#[test]
fn command_failures_name_the_failing_tool() {
    let compiler = command_failure_error(0);
    assert!(matches!(compiler, ResourceError::CompilerFailed));
    assert_eq!(compiler.message(), "Could not compile resource file");
    let archiver = command_failure_error(1);
    assert!(matches!(archiver, ResourceError::ArchiverFailed));
    assert_eq!(
        archiver.message(),
        "Could not create static library for resource file"
    );
}

#[test]
fn registry_failure_carries_its_output() {
    let err = ResourceError::RegistryQueryFailed(String::from("access denied"));
    assert_eq!(
        err.message(),
        "Querying the registry failed with error message:\naccess denied"
    );
}
