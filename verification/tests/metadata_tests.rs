use winres::{BuildConfig, WindowsResource};

fn seeded_resource() -> WindowsResource {
    WindowsResource::from_config(BuildConfig {
        package_name: String::from("demo"),
        package_version: String::from("0.1.0"),
        version_major: 0,
        version_minor: 1,
        version_patch: 0,
        output_directory: String::from("."),
        toolkit_path: String::new(),
        windres_path: String::from("windres"),
        ar_path: String::from("ar"),
    })
}

fn property<'a>(res: &'a WindowsResource, key: &str) -> Option<&'a str> {
    res.properties
        .iter()
        .find(|(k, _)| k == key)
        .map(|(_, v)| v.as_str())
}

#[test]
fn metadata_overrides_and_adds_properties() {
    let mut res = seeded_resource();
    let manifest = "[package.metadata.winres]\n\
                    FileDescription = \"A demo tool\"\n\
                    OriginalFilename = \"demo.exe\"\n";
    let diags = res.apply_cargo_metadata(manifest);
    assert!(diags.is_empty());
    assert_eq!(property(&res, "FileDescription"), Some("A demo tool"));
    assert_eq!(property(&res, "OriginalFilename"), Some("demo.exe"));
    assert_eq!(property(&res, "ProductName"), Some("demo"));
}

#[test]
fn non_string_metadata_values_are_skipped_with_diagnostics() {
    let mut res = seeded_resource();
    let manifest = "[package.metadata.winres]\n\
                    LegalCopyright = \"Copyright 2016\"\n\
                    Weight = 7\n";
    let diags = res.apply_cargo_metadata(manifest);
    assert_eq!(diags, vec![String::from("package.metadata.winres.Weight is not a string")]);
    assert_eq!(property(&res, "LegalCopyright"), Some("Copyright 2016"));
    assert_eq!(property(&res, "Weight"), None);
}

#[test]
fn missing_metadata_section_changes_nothing() {
    let mut res = seeded_resource();
    let before = res.properties.clone();
    let diags = res.apply_cargo_metadata("[package]\nname = \"demo\"\n");
    assert!(diags.is_empty());
    assert_eq!(res.properties, before);
}

#[test]
fn unparsable_manifest_changes_nothing() {
    let mut res = seeded_resource();
    let before = res.properties.clone();
    let diags = res.apply_cargo_metadata("not [ valid toml");
    assert!(diags.is_empty());
    assert_eq!(res.properties, before);
}

#[test]
fn unicode_metadata_values_survive() {
    let mut res = seeded_resource();
    let manifest = "[package.metadata.winres]\n\
                    FileDescription = \"\u{26c4}\u{2764}\u{2615}\"\n";
    res.apply_cargo_metadata(manifest);
    assert_eq!(property(&res, "FileDescription"), Some("\u{26c4}\u{2764}\u{2615}"));
}
