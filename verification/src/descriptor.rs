//! The resource descriptor: the mutable aggregate of string properties,
//! numeric version fields, icons, manifest data and toolchain settings that
//! a caller configures before the resource script is rendered and compiled.

use vstd::prelude::*;

use crate::text::str_eq;

verus! {

/// Version info field names
#[derive(Clone, Copy, PartialEq, Eq, Structural, Debug)]
pub enum VersionInfo {
    /// The version value consists of four 16 bit words, e.g.,
    /// `MAJOR << 48 | MINOR << 32 | PATCH << 16 | RELEASE`
    FILEVERSION,
    /// The version value consists of four 16 bit words, e.g.,
    /// `MAJOR << 48 | MINOR << 32 | PATCH << 16 | RELEASE`
    PRODUCTVERSION,
    /// Should be Windows NT Win32, with value `0x40004`
    FILEOS,
    /// The value (for a rust compiler output) should be
    /// 1 for a EXE and 2 for a DLL
    FILETYPE,
    /// Only for Windows drivers
    FILESUBTYPE,
    /// Bit mask for FILEFLAGS
    FILEFLAGSMASK,
    /// Only the bits set in FILEFLAGSMASK are read
    FILEFLAGS,
}

/// The seven numeric version-info fields.
#[derive(Clone, Copy, PartialEq, Eq, Structural, Debug)]
#[verifier::ext_equal]
pub struct VersionValues {
    pub file_version: u64,
    pub product_version: u64,
    pub file_os: u64,
    pub file_type: u64,
    pub file_subtype: u64,
    pub file_flags_mask: u64,
    pub file_flags: u64,
}

/// One icon entry: a file path and the name id under which the icon is
/// registered.
#[derive(Debug)]
pub struct Icon {
    pub path: String,
    pub name_id: String,
}

/// The mathematical value of an icon entry.
#[verifier::ext_equal]
pub struct IconView {
    pub path: Seq<char>,
    pub name_id: Seq<char>,
}

impl DeepView for Icon {
    type V = IconView;

    open spec fn deep_view(&self) -> IconView {
        IconView { path: self.path@, name_id: self.name_id@ }
    }
}

/// The mathematical value of a whole descriptor.
#[verifier::ext_equal]
pub struct DescriptorView {
    pub toolkit_path: Seq<char>,
    pub properties: Seq<(Seq<char>, Seq<char>)>,
    pub version: VersionValues,
    pub rc_file: Option<Seq<char>>,
    pub icons: Seq<IconView>,
    pub language: u16,
    pub manifest: Option<Seq<char>>,
    pub manifest_file: Option<Seq<char>>,
    pub output_directory: Seq<char>,
    pub windres_path: Seq<char>,
    pub ar_path: Seq<char>,
    pub add_toolkit_include: bool,
    pub append_rc_content: Seq<char>,
}

#[derive(Debug)]
pub struct WindowsResource {
    pub toolkit_path: String,
    pub properties: Vec<(String, String)>,
    pub version: VersionValues,
    pub rc_file: Option<String>,
    pub icons: Vec<Icon>,
    pub language: u16,
    pub manifest: Option<String>,
    pub manifest_file: Option<String>,
    pub output_directory: String,
    pub windres_path: String,
    pub ar_path: String,
    pub add_toolkit_include: bool,
    pub append_rc_content: String,
}

impl View for WindowsResource {
    type V = DescriptorView;

    open spec fn view(&self) -> DescriptorView {
        DescriptorView {
            toolkit_path: self.toolkit_path@,
            properties: self.properties.deep_view(),
            version: self.version,
            rc_file: match self.rc_file {
                Some(ref p) => Some(p@),
                None => None,
            },
            icons: self.icons.deep_view(),
            language: self.language,
            manifest: match self.manifest {
                Some(ref m) => Some(m@),
                None => None,
            },
            manifest_file: match self.manifest_file {
                Some(ref f) => Some(f@),
                None => None,
            },
            output_directory: self.output_directory@,
            windres_path: self.windres_path@,
            ar_path: self.ar_path@,
            add_toolkit_include: self.add_toolkit_include,
            append_rc_content: self.append_rc_content@,
        }
    }
}

/// Property keys are pairwise distinct.
pub open spec fn props_unique(props: Seq<(Seq<char>, Seq<char>)>) -> bool {
    forall|i: int, j: int| 0 <= i < j < props.len() ==> props[i].0 != props[j].0
}

/// The descriptor's invariant: unique property keys, and at most one of the
/// two manifest sources active.
pub open spec fn descriptor_wf(d: DescriptorView) -> bool {
    &&& props_unique(d.properties)
    &&& !(d.manifest is Some && d.manifest_file is Some)
}

/// Replace the value under the first occurrence of a key, or append the
/// pair where the key is absent: last write wins, order of first insertion
/// kept.
pub open spec fn upsert_spec(
    props: Seq<(Seq<char>, Seq<char>)>,
    k: Seq<char>,
    v: Seq<char>,
) -> Seq<(Seq<char>, Seq<char>)>
    decreases props.len(),
{
    if props.len() == 0 {
        seq![(k, v)]
    } else if props[0].0 == k {
        seq![(k, v)] + props.drop_first()
    } else {
        seq![props[0]] + upsert_spec(props.drop_first(), k, v)
    }
}

proof fn lemma_upsert_found(props: Seq<(Seq<char>, Seq<char>)>, k: Seq<char>, v: Seq<char>, i: int)
    requires
        0 <= i < props.len(),
        props[i].0 == k,
        forall|j: int| 0 <= j < i ==> props[j].0 != k,
    ensures
        upsert_spec(props, k, v) == props.update(i, (k, v)),
    decreases props.len(),
{
    if i == 0 {
        assert(seq![(k, v)] + props.drop_first() =~= props.update(0, (k, v)));
    } else {
        lemma_upsert_found(props.drop_first(), k, v, i - 1);
        assert(seq![props[0]] + props.drop_first().update(i - 1, (k, v)) =~= props.update(
            i,
            (k, v),
        ));
    }
}

proof fn lemma_upsert_absent(props: Seq<(Seq<char>, Seq<char>)>, k: Seq<char>, v: Seq<char>)
    requires
        forall|j: int| 0 <= j < props.len() ==> props[j].0 != k,
    ensures
        upsert_spec(props, k, v) == props.push((k, v)),
    decreases props.len(),
{
    if props.len() == 0 {
        assert(seq![(k, v)] =~= props.push((k, v)));
    } else {
        lemma_upsert_absent(props.drop_first(), k, v);
        assert(seq![props[0]] + props.drop_first().push((k, v)) =~= props.push((k, v)));
    }
}

/// An upsert never introduces a duplicate key.
pub proof fn lemma_upsert_unique(props: Seq<(Seq<char>, Seq<char>)>, k: Seq<char>, v: Seq<char>)
    requires
        props_unique(props),
    ensures
        props_unique(upsert_spec(props, k, v)),
{
    if exists|i: int| 0 <= i < props.len() && props[i].0 == k {
        let i = choose|i: int|
            0 <= i < props.len() && props[i].0 == k && forall|j: int|
                0 <= j < i ==> props[j].0 != k;
        lemma_first_key_occurrence(props, k);
        lemma_upsert_found(props, k, v, i);
        let u = props.update(i, (k, v));
        assert forall|p: int, q: int| 0 <= p < q < u.len() implies u[p].0 != u[q].0 by {
            assert(props[p].0 != props[q].0);
        }
    } else {
        lemma_upsert_absent(props, k, v);
        let u = props.push((k, v));
        assert forall|p: int, q: int| 0 <= p < q < u.len() implies u[p].0 != u[q].0 by {
            if q < props.len() {
                assert(props[p].0 != props[q].0);
            }
        }
    }
}

/// Where a key occurs at all, it has a first occurrence.
proof fn lemma_first_key_occurrence(props: Seq<(Seq<char>, Seq<char>)>, k: Seq<char>)
    requires
        exists|i: int| 0 <= i < props.len() && props[i].0 == k,
    ensures
        exists|i: int|
            0 <= i < props.len() && props[i].0 == k && forall|j: int|
                0 <= j < i ==> props[j].0 != k,
    decreases props.len(),
{
    if props[0].0 == k {
        assert(0 <= 0 < props.len() && props[0].0 == k && forall|j: int| 0 <= j < 0 ==> props[j].0 != k);
    } else {
        let w = choose|i: int| 0 <= i < props.len() && props[i].0 == k;
        assert(props.drop_first()[w - 1].0 == k);
        lemma_first_key_occurrence(props.drop_first(), k);
        let i = choose|i: int|
            0 <= i < props.drop_first().len() && props.drop_first()[i].0 == k && forall|j: int|
                0 <= j < i ==> props.drop_first()[j].0 != k;
        assert(props[i + 1].0 == k);
        assert(forall|j: int| 0 <= j < i + 1 ==> props[j].0 != k) by {
            assert(forall|j: int| 1 <= j < i + 1 ==> props[j].0 == props.drop_first()[j - 1].0);
        }
    }
}

/// The packed 64-bit version value: four 16-bit words, major first.
pub open spec fn pack_version_spec(major: u64, minor: u64, patch: u64, release: u64) -> u64 {
    (major << 48) | (minor << 32) | (patch << 16) | release
}

/// The four 16-bit words of a packed version value, highest first.
pub open spec fn version_words_spec(v: u64) -> (u16, u16, u16, u16) {
    ((v >> 48) as u16, (v >> 32) as u16, (v >> 16) as u16, v as u16)
}

/// Packing four words no larger than `0xffff` and reading the words back
/// loses nothing.
pub proof fn lemma_pack_version_words(major: u64, minor: u64, patch: u64, release: u64)
    requires
        major <= 0xffff,
        minor <= 0xffff,
        patch <= 0xffff,
        release <= 0xffff,
    ensures
        version_words_spec(pack_version_spec(major, minor, patch, release)) == (
            major as u16,
            minor as u16,
            patch as u16,
            release as u16,
        ),
{
    let v = pack_version_spec(major, minor, patch, release);
    assert((v >> 48) as u16 == major as u16 && (v >> 32) as u16 == minor as u16 && (v >> 16) as u16
        == patch as u16 && v as u16 == release as u16) by (bit_vector)
        requires
            v == (major << 48) | (minor << 32) | (patch << 16) | release,
            major <= 0xffff,
            minor <= 0xffff,
            patch <= 0xffff,
            release <= 0xffff,
    ;
}

/// The version-field defaults for an executable: OS `Windows NT Win32`,
/// type application, no subtype, the standard flag mask, no flags.
pub open spec fn default_version_values(packed: u64) -> VersionValues {
    VersionValues {
        file_version: packed,
        product_version: packed,
        file_os: 0x00040004,
        file_type: 1,
        file_subtype: 0,
        file_flags_mask: 0x3f,
        file_flags: 0,
    }
}

/// The string table seeded from the build metadata: the package version
/// under `FileVersion` and `ProductVersion`, the package name under
/// `ProductName` and `FileDescription`.
pub open spec fn default_properties_spec(name: Seq<char>, version: Seq<char>) -> Seq<
    (Seq<char>, Seq<char>),
> {
    seq![
        (("FileVersion")@, version),
        (("ProductVersion")@, version),
        (("ProductName")@, name),
        (("FileDescription")@, name),
    ]
}

/// A descriptor after setting the inline manifest: the file reference is
/// cleared.
pub open spec fn with_manifest(d: DescriptorView, m: Seq<char>) -> DescriptorView {
    DescriptorView { manifest: Some(m), manifest_file: None, ..d }
}

/// A descriptor after setting the manifest file: the inline manifest is
/// cleared.
pub open spec fn with_manifest_file(d: DescriptorView, f: Seq<char>) -> DescriptorView {
    DescriptorView { manifest: None, manifest_file: Some(f), ..d }
}

/// At most one manifest source is ever active: setting the inline manifest
/// clears the file reference, whatever was set before, and the reverse also
/// holds.
pub proof fn lemma_manifest_exclusive(d: DescriptorView, m: Seq<char>, f: Seq<char>)
    ensures
        with_manifest(with_manifest_file(d, f), m).manifest == Some(m),
        with_manifest(with_manifest_file(d, f), m).manifest_file is None,
        with_manifest_file(with_manifest(d, m), f).manifest_file == Some(f),
        with_manifest_file(with_manifest(d, m), f).manifest is None,
        !(with_manifest(d, m).manifest is Some && with_manifest(d, m).manifest_file is Some),
        !(with_manifest_file(d, f).manifest is Some && with_manifest_file(d, f).manifest_file
            is Some),
{
}

/// The build metadata a descriptor is seeded from, as plain values.
pub struct BuildConfig {
    pub package_name: String,
    pub package_version: String,
    pub version_major: u64,
    pub version_minor: u64,
    pub version_patch: u64,
    pub output_directory: String,
    pub toolkit_path: String,
    pub windres_path: String,
    pub ar_path: String,
}

impl WindowsResource {
    /// Seed a descriptor from build metadata: the four well-known string
    /// properties, executable version-field defaults with the packed
    /// version number, neutral language, no icons and no manifest.
    pub fn from_config(cfg: BuildConfig) -> (r: Self)
        ensures
            r@ == (DescriptorView {
                toolkit_path: cfg.toolkit_path@,
                properties: default_properties_spec(cfg.package_name@, cfg.package_version@),
                version: default_version_values(
                    pack_version_spec(cfg.version_major, cfg.version_minor, cfg.version_patch, 0),
                ),
                rc_file: None,
                icons: Seq::empty(),
                language: 0,
                manifest: None,
                manifest_file: None,
                output_directory: cfg.output_directory@,
                windres_path: cfg.windres_path@,
                ar_path: cfg.ar_path@,
                add_toolkit_include: false,
                append_rc_content: Seq::empty(),
            }),
            descriptor_wf(r@),
    {
        let packed: u64 = (cfg.version_major << 48) | (cfg.version_minor << 32) | (
        cfg.version_patch << 16);
        let mut properties: Vec<(String, String)> = Vec::new();
        properties.push((String::from_str("FileVersion"), cfg.package_version.clone()));
        properties.push((String::from_str("ProductVersion"), cfg.package_version.clone()));
        properties.push((String::from_str("ProductName"), cfg.package_name.clone()));
        properties.push((String::from_str("FileDescription"), cfg.package_name));
        let r = WindowsResource {
            toolkit_path: cfg.toolkit_path,
            properties,
            version: VersionValues {
                file_version: packed,
                product_version: packed,
                file_os: 0x00040004,
                file_type: 1,
                file_subtype: 0,
                file_flags_mask: 0x3f,
                file_flags: 0,
            },
            rc_file: None,
            icons: Vec::new(),
            language: 0,
            manifest: None,
            manifest_file: None,
            output_directory: cfg.output_directory,
            windres_path: cfg.windres_path,
            ar_path: cfg.ar_path,
            add_toolkit_include: false,
            append_rc_content: String::new(),
        };
        proof {
            let ma = cfg.version_major;
            let mi = cfg.version_minor;
            let pa = cfg.version_patch;
            assert(packed == pack_version_spec(ma, mi, pa, 0)) by (bit_vector)
                requires
                    packed == (ma << 48) | (mi << 32) | (pa << 16),
            ;
            reveal_strlit("FileVersion");
            reveal_strlit("ProductVersion");
            reveal_strlit("ProductName");
            reveal_strlit("FileDescription");
            assert(("FileVersion")@.len() == 11 && ("ProductVersion")@.len() == 14 && (
            "ProductName")@.len() == 11 && ("FileDescription")@.len() == 15);
            assert(("FileVersion")@[0] == 'F' && ("ProductName")@[0] == 'P');
            assert(r@.properties =~= default_properties_spec(
                cfg.package_name@,
                cfg.package_version@,
            ));
            assert(props_unique(r@.properties));
            assert(r@ =~= (DescriptorView {
                toolkit_path: cfg.toolkit_path@,
                properties: default_properties_spec(cfg.package_name@, cfg.package_version@),
                version: default_version_values(
                    pack_version_spec(cfg.version_major, cfg.version_minor, cfg.version_patch, 0),
                ),
                rc_file: None,
                icons: Seq::empty(),
                language: 0,
                manifest: None,
                manifest_file: None,
                output_directory: cfg.output_directory@,
                windres_path: cfg.windres_path@,
                ar_path: cfg.ar_path@,
                add_toolkit_include: false,
                append_rc_content: Seq::empty(),
            }));
        }
        r
    }

    /// Set string properties of the version info struct: the value is
    /// stored under the name, replacing an earlier value under the same
    /// name.
    pub fn set(&mut self, name: &str, value: &str)
        ensures
            final(self)@ == (DescriptorView {
                properties: upsert_spec(old(self)@.properties, name@, value@),
                ..old(self)@
            }),
            descriptor_wf(old(self)@) ==> descriptor_wf(final(self)@),
    {
        let ghost old_props = self@.properties;
        let n: usize = self.properties.len();
        let mut i: usize = 0;
        let mut found = false;
        while i < n && !found
            invariant
                n == self.properties.len(),
                i <= n,
                *self == *old(self),
                old_props == self@.properties,
                !found ==> forall|j: int| 0 <= j < i ==> old_props[j].0 != name@,
                found ==> i < n && old_props[i as int].0 == name@ && forall|j: int|
                    0 <= j < i ==> old_props[j].0 != name@,
            decreases n - i + (if found { 0int } else { 1int }),
        {
            proof {
                assert(old_props[i as int] == self.properties@[i as int].deep_view());
                assert(old_props[i as int].0 == self.properties@[i as int].0@);
            }
            if str_eq(self.properties[i].0.as_str(), name) {
                found = true;
            } else {
                i = i + 1;
            }
        }
        if found {
            self.properties[i] = (String::from_str(name), String::from_str(value));
            proof {
                lemma_upsert_found(old_props, name@, value@, i as int);
                assert(self.properties.deep_view() =~= upsert_spec(old_props, name@, value@));
            }
        } else {
            self.properties.push((String::from_str(name), String::from_str(value)));
            proof {
                lemma_upsert_absent(old_props, name@, value@);
                assert(self.properties.deep_view() =~= upsert_spec(old_props, name@, value@));
            }
        }
        proof {
            lemma_upsert_unique_conditional(old_props, name@, value@);
            assert(final(self)@ =~= (DescriptorView {
                properties: upsert_spec(old(self)@.properties, name@, value@),
                ..old(self)@
            }));
        }
    }

    /// Set the toolkit path: the root of the Windows SDK for the MSVC
    /// toolchain, or the directory holding `windres` and `ar` for the GNU
    /// toolchain.
    pub fn set_toolkit_path(&mut self, path: &str)
        ensures
            final(self)@ == (DescriptorView { toolkit_path: path@, ..old(self)@ }),
            descriptor_wf(old(self)@) ==> descriptor_wf(final(self)@),
    {
        self.toolkit_path = String::from_str(path);
        proof {
            assert(final(self)@ =~= (DescriptorView { toolkit_path: path@, ..old(self)@ }));
        }
    }

    /// Set the user interface language of the file.
    pub fn set_language(&mut self, language: u16)
        ensures
            final(self)@ == (DescriptorView { language: language, ..old(self)@ }),
            descriptor_wf(old(self)@) ==> descriptor_wf(final(self)@),
    {
        self.language = language;
        proof {
            assert(final(self)@ =~= (DescriptorView { language: language, ..old(self)@ }));
        }
    }

    /// Add an icon with name id `1`.
    pub fn set_icon(&mut self, path: &str)
        ensures
            final(self)@ == (DescriptorView {
                icons: old(self)@.icons.push(IconView { path: path@, name_id: ("1")@ }),
                ..old(self)@
            }),
            descriptor_wf(old(self)@) ==> descriptor_wf(final(self)@),
    {
        self.set_icon_with_id(path, "1");
    }

    /// Add an icon with the given name id, after the icons added before.
    pub fn set_icon_with_id(&mut self, path: &str, name_id: &str)
        ensures
            final(self)@ == (DescriptorView {
                icons: old(self)@.icons.push(IconView { path: path@, name_id: name_id@ }),
                ..old(self)@
            }),
            descriptor_wf(old(self)@) ==> descriptor_wf(final(self)@),
    {
        self.icons.push(Icon { path: String::from_str(path), name_id: String::from_str(name_id) });
        proof {
            assert(self.icons.deep_view() =~= old(self).icons.deep_view().push(
                IconView { path: path@, name_id: name_id@ },
            ));
            assert(final(self)@ =~= (DescriptorView {
                icons: old(self)@.icons.push(IconView { path: path@, name_id: name_id@ }),
                ..old(self)@
            }));
        }
    }

    /// Set one numeric version-info field.
    pub fn set_version_info(&mut self, field: VersionInfo, value: u64)
        ensures
            final(self)@ == (DescriptorView {
                version: version_set_spec(old(self)@.version, field, value),
                ..old(self)@
            }),
            descriptor_wf(old(self)@) ==> descriptor_wf(final(self)@),
    {
        match field {
            VersionInfo::FILEVERSION => self.version.file_version = value,
            VersionInfo::PRODUCTVERSION => self.version.product_version = value,
            VersionInfo::FILEOS => self.version.file_os = value,
            VersionInfo::FILETYPE => self.version.file_type = value,
            VersionInfo::FILESUBTYPE => self.version.file_subtype = value,
            VersionInfo::FILEFLAGSMASK => self.version.file_flags_mask = value,
            VersionInfo::FILEFLAGS => self.version.file_flags = value,
        }
        proof {
            assert(final(self)@ =~= (DescriptorView {
                version: version_set_spec(old(self)@.version, field, value),
                ..old(self)@
            }));
        }
    }

    /// Set the embedded manifest from inline text, clearing a manifest file
    /// set before.
    pub fn set_manifest(&mut self, manifest: &str)
        ensures
            final(self)@ == with_manifest(old(self)@, manifest@),
            descriptor_wf(old(self)@) ==> descriptor_wf(final(self)@),
    {
        self.manifest_file = None;
        self.manifest = Some(String::from_str(manifest));
        proof {
            assert(final(self)@ =~= with_manifest(old(self)@, manifest@));
        }
    }

    /// Let the resource compiler include the manifest from a file, clearing
    /// an inline manifest set before.
    pub fn set_manifest_file(&mut self, file: &str)
        ensures
            final(self)@ == with_manifest_file(old(self)@, file@),
            descriptor_wf(old(self)@) ==> descriptor_wf(final(self)@),
    {
        self.manifest_file = Some(String::from_str(file));
        self.manifest = None;
        proof {
            assert(final(self)@ =~= with_manifest_file(old(self)@, file@));
        }
    }

    /// Set the path to the windres executable.
    pub fn set_windres_path(&mut self, path: &str)
        ensures
            final(self)@ == (DescriptorView { windres_path: path@, ..old(self)@ }),
            descriptor_wf(old(self)@) ==> descriptor_wf(final(self)@),
    {
        self.windres_path = String::from_str(path);
        proof {
            assert(final(self)@ =~= (DescriptorView { windres_path: path@, ..old(self)@ }));
        }
    }

    /// Set the path to the ar executable.
    pub fn set_ar_path(&mut self, path: &str)
        ensures
            final(self)@ == (DescriptorView { ar_path: path@, ..old(self)@ }),
            descriptor_wf(old(self)@) ==> descriptor_wf(final(self)@),
    {
        self.ar_path = String::from_str(path);
        proof {
            assert(final(self)@ =~= (DescriptorView { ar_path: path@, ..old(self)@ }));
        }
    }

    /// Choose whether the toolkit's own include directories are passed to
    /// the MSVC resource compiler.
    pub fn add_toolkit_include(&mut self, add: bool)
        ensures
            final(self)@ == (DescriptorView { add_toolkit_include: add, ..old(self)@ }),
            descriptor_wf(old(self)@) ==> descriptor_wf(final(self)@),
    {
        self.add_toolkit_include = add;
        proof {
            assert(final(self)@ =~= (DescriptorView { add_toolkit_include: add, ..old(self)@ }));
        }
    }

    /// Use an already existing resource file in place of the generated one.
    pub fn set_resource_file(&mut self, path: &str)
        ensures
            final(self)@ == (DescriptorView { rc_file: Some(path@), ..old(self)@ }),
            descriptor_wf(old(self)@) ==> descriptor_wf(final(self)@),
    {
        self.rc_file = Some(String::from_str(path));
        proof {
            assert(final(self)@ =~= (DescriptorView { rc_file: Some(path@), ..old(self)@ }));
        }
    }

    /// Append an additional snippet to the generated resource script; a
    /// newline is inserted first where the text gathered so far does not
    /// already end with one.
    pub fn append_rc_content(&mut self, content: &str)
        ensures
            final(self)@ == (DescriptorView {
                append_rc_content: append_content_spec(old(self)@.append_rc_content, content@),
                ..old(self)@
            }),
            descriptor_wf(old(self)@) ==> descriptor_wf(final(self)@),
    {
        let len: usize = self.append_rc_content.as_str().unicode_len();
        let ends_nl = len > 0 && self.append_rc_content.as_str().get_char(len - 1) == '\n';
        if !(ends_nl || len == 0) {
            self.append_rc_content.push('\n');
        }
        self.append_rc_content.append(content);
        proof {
            assert(final(self)@ =~= (DescriptorView {
                append_rc_content: append_content_spec(old(self)@.append_rc_content, content@),
                ..old(self)@
            }));
        }
    }

    /// Override the output directory.
    pub fn set_output_directory(&mut self, path: &str)
        ensures
            final(self)@ == (DescriptorView { output_directory: path@, ..old(self)@ }),
            descriptor_wf(old(self)@) ==> descriptor_wf(final(self)@),
    {
        self.output_directory = String::from_str(path);
        proof {
            assert(final(self)@ =~= (DescriptorView { output_directory: path@, ..old(self)@ }));
        }
    }
}

/// One version field replaced, the others kept.
pub open spec fn version_set_spec(vv: VersionValues, field: VersionInfo, value: u64) -> VersionValues {
    match field {
        VersionInfo::FILEVERSION => VersionValues { file_version: value, ..vv },
        VersionInfo::PRODUCTVERSION => VersionValues { product_version: value, ..vv },
        VersionInfo::FILEOS => VersionValues { file_os: value, ..vv },
        VersionInfo::FILETYPE => VersionValues { file_type: value, ..vv },
        VersionInfo::FILESUBTYPE => VersionValues { file_subtype: value, ..vv },
        VersionInfo::FILEFLAGSMASK => VersionValues { file_flags_mask: value, ..vv },
        VersionInfo::FILEFLAGS => VersionValues { file_flags: value, ..vv },
    }
}

/// Appended snippet text: a separating newline first where needed.
pub open spec fn append_content_spec(sofar: Seq<char>, content: Seq<char>) -> Seq<char> {
    if sofar.len() == 0 || sofar.last() == '\n' {
        sofar + content
    } else {
        sofar + seq!['\n'] + content
    }
}

proof fn lemma_upsert_unique_conditional(
    props: Seq<(Seq<char>, Seq<char>)>,
    k: Seq<char>,
    v: Seq<char>,
)
    ensures
        props_unique(props) ==> props_unique(upsert_spec(props, k, v)),
{
    if props_unique(props) {
        lemma_upsert_unique(props, k, v);
    }
}

} // verus!
