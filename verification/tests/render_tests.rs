use winres::{BuildConfig, VersionInfo, WindowsResource};

fn demo_resource(name: &str, version: &str, major: u64, minor: u64, patch: u64) -> WindowsResource {
    WindowsResource::from_config(BuildConfig {
        package_name: String::from(name),
        package_version: String::from(version),
        version_major: major,
        version_minor: minor,
        version_patch: patch,
        output_directory: String::from("."),
        toolkit_path: String::new(),
        windres_path: String::from("windres"),
        ar_path: String::from("ar"),
    })
}

fn count_occurrences(text: &str, needle: &str) -> usize {
    text.match_indices(needle).count()
}

#[test]
fn packed_version_renders_four_words() {
    let mut res = demo_resource("demo", "1.2.3", 1, 2, 3);
    res.set_version_info(VersionInfo::FILEVERSION, 0x0001000200030004);
    let text = res.render();
    assert!(text.contains("FILEVERSION 1, 2, 3, 4\n"));
}

#[test]
fn version_defaults_render() {
    let res = demo_resource("demo", "1.2.3", 1, 2, 3);
    let text = res.render();
    assert!(text.contains("FILEVERSION 1, 2, 3, 0\n"));
    assert!(text.contains("PRODUCTVERSION 1, 2, 3, 0\n"));
    assert!(text.contains("FILEOS 0x40004\n"));
    assert!(text.contains("FILETYPE 0x1\n"));
    assert!(text.contains("FILESUBTYPE 0x0\n"));
    assert!(text.contains("FILEFLAGSMASK 0x3f\n"));
    assert!(text.contains("FILEFLAGS 0x0\n"));
}

#[test]
fn language_renders_block_key_and_translation() {
    let mut res = demo_resource("demo", "0.1.0", 0, 1, 0);
    res.set_language(0x0409);
    let text = res.render();
    assert!(text.contains("BLOCK \"040904b0\"\n"));
    assert!(text.contains("VALUE \"Translation\", 0x409, 0x4b0\n"));
}

#[test]
fn icons_render_in_insertion_order() {
    let mut res = demo_resource("demo", "0.1.0", 0, 1, 0);
    res.set_icon_with_id("first.ico", "1");
    res.set_icon_with_id("second.ico", "2");
    let text = res.render();
    let first = text.find("1 ICON \"first.ico\"\n").expect("first icon line missing");
    let second = text.find("2 ICON \"second.ico\"\n").expect("second icon line missing");
    assert!(first < second);
}

#[test]
fn manifest_sources_are_exclusive() {
    let mut res = demo_resource("demo", "0.1.0", 0, 1, 0);
    res.set_manifest_file("app.manifest");
    res.set_manifest("<assembly/>");
    assert!(res.manifest_file.is_none());
    assert_eq!(res.manifest.as_deref(), Some("<assembly/>"));
    let text = res.render();
    assert!(text.contains("1 24\n"));
    assert!(!text.contains("1 24 \""));

    let mut rev = demo_resource("demo", "0.1.0", 0, 1, 0);
    rev.set_manifest("<assembly/>");
    rev.set_manifest_file("app.manifest");
    assert!(rev.manifest.is_none());
    assert_eq!(rev.manifest_file.as_deref(), Some("app.manifest"));
    let text = rev.render();
    assert!(text.contains("1 24 \"app.manifest\"\n"));
    assert!(!text.contains("1 24\n{\n"));
}

#[test]
fn inline_manifest_lines_are_trimmed_and_quoted() {
    let mut res = demo_resource("demo", "0.1.0", 0, 1, 0);
    res.set_manifest("  <a attr=\"v\">  \r\n\t<b/>\n</a>");
    let text = res.render();
    assert!(text.contains("1 24\n{\n"));
    assert!(text.contains("\" <a attr=\"\"v\"\"> \"\n"));
    assert!(text.contains("\" <b/> \"\n"));
    assert!(text.contains("\" </a> \"\n"));
}

#[test]
fn empty_property_values_are_omitted() {
    let mut res = demo_resource("demo", "0.1.0", 0, 1, 0);
    res.set("Comments", "");
    let text = res.render();
    assert!(!text.contains("VALUE \"Comments\""));
}

#[test]
fn set_overwrites_existing_property() {
    let mut res = demo_resource("demo", "0.1.0", 0, 1, 0);
    res.set("ProductName", "better demo");
    let text = res.render();
    assert!(text.contains("VALUE \"ProductName\", \"better demo\"\n"));
    assert_eq!(count_occurrences(&text, "VALUE \"ProductName\""), 1);
}

#[test]
fn append_rc_content_separates_snippets() {
    let mut res = demo_resource("demo", "0.1.0", 0, 1, 0);
    res.append_rc_content("first SNIPPET");
    res.append_rc_content("second SNIPPET");
    assert_eq!(res.append_rc_content, "first SNIPPET\nsecond SNIPPET");
    res.append_rc_content("");
    let text = res.render();
    assert!(text.ends_with("first SNIPPET\nsecond SNIPPET\n\n"));
}

#[test]
fn end_to_end_demo_descriptor() {
    let mut res = demo_resource("demo", "1.0.0", 1, 0, 0);
    res.set_icon("demo.ico");
    let text = res.render();
    assert_eq!(count_occurrences(&text, "VERSIONINFO"), 1);
    assert!(text.contains("VALUE \"FileVersion\", \"1.0.0\"\n"));
    assert!(text.contains("VALUE \"Translation\", 0x0, 0x4b0\n"));
    assert_eq!(count_occurrences(&text, " ICON "), 1);
    assert!(text.contains("1 ICON \"demo.ico\"\n"));
    assert!(text.starts_with("#pragma code_page(65001)\n1 VERSIONINFO\n"));
}

#[test]
fn escaped_paths_in_icon_lines() {
    let mut res = demo_resource("demo", "0.1.0", 0, 1, 0);
    res.set_icon("C:\\icons\\app.ico");
    let text = res.render();
    assert!(text.contains("1 ICON \"C:\\\\icons\\\\app.ico\"\n"));
}
