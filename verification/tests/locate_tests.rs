use winres::{locate_toolkits, registry_roots, FsSnapshot, ResourceError};

fn sample_registry_output() -> String {
    let mut out = String::new();
    out.push_str("\r\n");
    out.push_str("HKEY_LOCAL_MACHINE\\SOFTWARE\\Microsoft\\Windows Kits\\Installed Roots\r\n");
    out.push_str("    KitsRoot10    REG_SZ    C:\\Kits\\10\\\r\n");
    out.push_str("    KitsRoot81    REG_SZ    C:\\Kits\\8.1\\\r\n");
    out.push_str("\r\n");
    out
}

#[test]
fn registry_roots_parse_in_reverse_order() {
    let roots = registry_roots(&sample_registry_output());
    assert_eq!(roots, vec![String::from("C:\\Kits\\8.1\\"), String::from("C:\\Kits\\10\\")]);
}

#[test]
fn registry_roots_skip_marker_less_lines() {
    let roots = registry_roots("KitsRoot10 without marker\n  KitsRoot81  REG_SZ  D:\\SDK\n");
    assert_eq!(roots, vec![String::from("D:\\SDK")]);
}

#[test]
fn locate_keeps_only_existing_binaries_in_reverse_order() {
    let mut fs = FsSnapshot::new();
    fs.add_file("C:\\Kits\\8.1\\bin\\x64\\rc.exe");
    fs.add_file("C:\\Kits\\10\\bin\\x64\\rc.exe");
    fs.add_dir(
        "C:\\Kits\\10\\bin",
        vec![String::from("C:\\Kits\\10\\bin\\10.0.17763.0")],
    );
    fs.add_file("C:\\Kits\\10\\bin\\10.0.17763.0\\x64\\rc.exe");
    let kits = locate_toolkits(&sample_registry_output(), true, &fs).expect("kits expected");
    assert_eq!(
        kits,
        vec![
            String::from("C:\\Kits\\8.1\\bin\\x64"),
            String::from("C:\\Kits\\10\\bin\\x64"),
            String::from("C:\\Kits\\10\\bin\\10.0.17763.0\\x64"),
        ]
    );
}

#[test]
fn locate_respects_architecture() {
    let mut fs = FsSnapshot::new();
    fs.add_file("C:\\Kits\\10\\bin\\x86\\rc.exe");
    let kits = locate_toolkits(&sample_registry_output(), false, &fs).expect("kits expected");
    assert_eq!(kits, vec![String::from("C:\\Kits\\10\\bin\\x86")]);
    let none = locate_toolkits(&sample_registry_output(), true, &fs);
    assert!(matches!(none, Err(ResourceError::ToolkitNotFound)));
}

#[test]
fn locate_fails_without_candidates() {
    let fs = FsSnapshot::new();
    let err = locate_toolkits("no kits here\n", true, &fs).unwrap_err();
    assert!(matches!(err, ResourceError::ToolkitNotFound));
    assert_eq!(err.message(), "Can not find Windows SDK");
}
