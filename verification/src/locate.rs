//! Toolkit discovery: parsing the registry query's output into candidate
//! SDK roots and probing a filesystem snapshot for installed resource
//! compilers.
//!
//! The probing runs against an explicit snapshot of the relevant part of
//! the filesystem — which files exist, and what the `bin` directories
//! list — so the selection logic is a function of plain values.

use vstd::prelude::*;

use crate::errors::ResourceError;
use crate::text::{
    find_sub_spec, find_substring, join_path, join_path_spec, lines_spec, split_lines,
    starts_with, starts_with_spec, str_eq, trim_spec, trim_start_spec, trim_start_string,
    trim_string,
};

verus! {

/// The part of a filesystem the locator looks at: the files that exist,
/// and the entries (as full paths) of the listed directories.
pub struct FsSnapshot {
    pub files: Vec<String>,
    pub dirs: Vec<(String, Vec<String>)>,
}

/// The mathematical value of a filesystem snapshot.
#[verifier::ext_equal]
pub struct FsView {
    pub files: Seq<Seq<char>>,
    pub dirs: Seq<(Seq<char>, Seq<Seq<char>>)>,
}

impl View for FsSnapshot {
    type V = FsView;

    open spec fn view(&self) -> FsView {
        FsView { files: self.files.deep_view(), dirs: self.dirs.deep_view() }
    }
}

/// Whether the snapshot holds the file.
pub open spec fn fs_has_file(fs: FsView, p: Seq<char>) -> bool {
    fs.files.contains(p)
}

/// The listed entries of a directory: the first listing under the path,
/// if the path is listed at all.
pub open spec fn fs_dir_entries_at(
    dirs: Seq<(Seq<char>, Seq<Seq<char>>)>,
    p: Seq<char>,
) -> Option<Seq<Seq<char>>>
    decreases dirs.len(),
{
    if dirs.len() == 0 {
        None
    } else if dirs[0].0 == p {
        Some(dirs[0].1)
    } else {
        fs_dir_entries_at(dirs.drop_first(), p)
    }
}

/// The listed entries of a directory in the snapshot.
pub open spec fn fs_dir_entries(fs: FsView, p: Seq<char>) -> Option<Seq<Seq<char>>> {
    fs_dir_entries_at(fs.dirs, p)
}

proof fn lemma_dir_entries_found(dirs: Seq<(Seq<char>, Seq<Seq<char>>)>, p: Seq<char>, i: int)
    requires
        0 <= i < dirs.len(),
        dirs[i].0 == p,
        forall|j: int| 0 <= j < i ==> dirs[j].0 != p,
    ensures
        fs_dir_entries_at(dirs, p) == Some(dirs[i].1),
    decreases i,
{
    if i > 0 {
        let t = dirs.drop_first();
        assert(forall|j: int| 0 <= j < i - 1 ==> #[trigger] t[j].0 != p);
        lemma_dir_entries_found(t, p, i - 1);
    }
}

proof fn lemma_dir_entries_absent(dirs: Seq<(Seq<char>, Seq<Seq<char>>)>, p: Seq<char>)
    requires
        forall|j: int| 0 <= j < dirs.len() ==> dirs[j].0 != p,
    ensures
        fs_dir_entries_at(dirs, p) is None,
    decreases dirs.len(),
{
    if dirs.len() > 0 {
        let t = dirs.drop_first();
        assert(forall|j: int| 0 <= j < t.len() ==> #[trigger] t[j].0 != p);
        lemma_dir_entries_absent(t, p);
    }
}

impl FsSnapshot {
    /// An empty snapshot: no files, no listings.
    pub fn new() -> (r: Self)
        ensures
            r@.files == Seq::<Seq<char>>::empty(),
            r@.dirs == Seq::<(Seq<char>, Seq<Seq<char>>)>::empty(),
    {
        let r = FsSnapshot { files: Vec::new(), dirs: Vec::new() };
        proof {
            assert(r@.files =~= Seq::<Seq<char>>::empty());
            assert(r@.dirs =~= Seq::<(Seq<char>, Seq<Seq<char>>)>::empty());
        }
        r
    }

    /// Record that a file exists.
    pub fn add_file(&mut self, path: &str)
        ensures
            final(self)@.files == old(self)@.files.push(path@),
            final(self)@.dirs == old(self)@.dirs,
    {
        self.files.push(String::from_str(path));
        proof {
            assert(final(self)@.files =~= old(self)@.files.push(path@));
            assert(final(self)@.dirs =~= old(self)@.dirs);
        }
    }

    /// Record a directory listing: the entries are the full paths of the
    /// directory's children.
    pub fn add_dir(&mut self, path: &str, entries: Vec<String>)
        ensures
            final(self)@.files == old(self)@.files,
            final(self)@.dirs == old(self)@.dirs.push((path@, entries.deep_view())),
    {
        let ghost es = entries.deep_view();
        self.dirs.push((String::from_str(path), entries));
        proof {
            assert(final(self)@.files =~= old(self)@.files);
            assert(final(self)@.dirs =~= old(self)@.dirs.push((path@, es)));
        }
    }

    /// Whether the snapshot holds the file.
    pub fn has_file(&self, path: &str) -> (r: bool)
        ensures
            r == fs_has_file(self@, path@),
    {
        let n: usize = self.files.len();
        let mut i: usize = 0;
        while i < n
            invariant
                n == self.files.len(),
                i <= n,
                forall|j: int| 0 <= j < i ==> self@.files[j] != path@,
            decreases n - i,
        {
            proof {
                assert(self@.files[i as int] == self.files@[i as int].deep_view());
            }
            if str_eq(self.files[i].as_str(), path) {
                return true;
            }
            i = i + 1;
        }
        proof {
            if self@.files.contains(path@) {
                let w = choose|w: int| 0 <= w < self@.files.len() && self@.files[w] == path@;
                assert(self@.files[w] != path@);
            }
        }
        false
    }

    /// The position of a directory's listing, if the path is listed.
    fn dir_index(&self, path: &str) -> (r: Option<usize>)
        ensures
            match r {
                Some(i) => i < self.dirs@.len() && fs_dir_entries(self@, path@) == Some(
                    self@.dirs[i as int].1,
                ) && self@.dirs[i as int].0 == path@,
                None => fs_dir_entries(self@, path@) is None,
            },
    {
        let n: usize = self.dirs.len();
        let mut i: usize = 0;
        while i < n
            invariant
                n == self.dirs.len(),
                i <= n,
                forall|j: int| 0 <= j < i ==> self@.dirs[j].0 != path@,
            decreases n - i,
        {
            proof {
                assert(self@.dirs[i as int] == self.dirs@[i as int].deep_view());
            }
            if str_eq(self.dirs[i].0.as_str(), path) {
                proof {
                    lemma_dir_entries_found(self@.dirs, path@, i as int);
                }
                return Some(i);
            }
            i = i + 1;
        }
        proof {
            lemma_dir_entries_absent(self@.dirs, path@);
        }
        None
    }
}

/// A value with the carriage return of a CRLF line ending removed.
pub open spec fn drop_cr_spec(s: Seq<char>) -> Seq<char> {
    if s.len() > 0 && s.last() == '\r' {
        s.drop_last()
    } else {
        s
    }
}

/// The candidate root named by one line of the registry query's output: a
/// line whose trimmed text starts with `KitsRoot` yields the text after
/// its `REG_SZ` marker and the following whitespace, without the carriage
/// return of a CRLF line ending; any other line, and a marker-less line,
/// yields nothing.
pub open spec fn line_root_spec(line: Seq<char>) -> Option<Seq<char>> {
    if starts_with_spec(trim_spec(line), ("KitsRoot")@) {
        match find_sub_spec(line, ("REG_SZ")@) {
            Some(i) => Some(drop_cr_spec(trim_start_spec(line.skip(i + 6)))),
            None => None,
        }
    } else {
        None
    }
}

/// The candidate roots of a list of lines, read in reverse order: the
/// last line's root first.
pub open spec fn kits_roots_rev_spec(ls: Seq<Seq<char>>) -> Seq<Seq<char>>
    decreases ls.len(),
{
    if ls.len() == 0 {
        Seq::empty()
    } else {
        (match line_root_spec(ls.last()) {
            Some(root) => seq![root],
            None => Seq::<Seq<char>>::empty(),
        }) + kits_roots_rev_spec(ls.drop_last())
    }
}

/// The candidate roots named by the registry query's output, most recently
/// listed entries first.
pub open spec fn registry_roots_spec(output: Seq<char>) -> Seq<Seq<char>> {
    kits_roots_rev_spec(lines_spec(output))
}

/// Parse the registry query's output into candidate SDK roots, in reverse
/// line order.
pub fn registry_roots(output: &str) -> (roots: Vec<String>)
    ensures
        roots.deep_view() == registry_roots_spec(output@),
{
    let lines = split_lines(output);
    let ghost ls = lines_spec(output@);
    let n: usize = lines.len();
    let mut roots: Vec<String> = Vec::new();
    let mut k: usize = 0;
    proof {
        assert(ls.take(n as int) =~= ls);
        assert(roots.deep_view() + kits_roots_rev_spec(ls.take(n as int)) =~= kits_roots_rev_spec(
            ls,
        ));
    }
    while k < n
        invariant
            n == lines.len(),
            lines.deep_view() == ls,
            k <= n,
            kits_roots_rev_spec(ls) == roots.deep_view() + kits_roots_rev_spec(
                ls.take(n - k),
            ),
        decreases n - k,
    {
        let j = n - 1 - k;
        proof {
            assert(ls[j as int] == lines@[j as int].deep_view());
            assert(ls.take(n - k).last() == ls[j as int]);
            assert(ls.take(n - k).drop_last() =~= ls.take(n - k - 1));
        }
        let ghost roots_before = roots.deep_view();
        let line = &lines[j];
        let trimmed = trim_string(line.as_str());
        if starts_with(trimmed.as_str(), "KitsRoot") {
            match find_substring(line.as_str(), "REG_SZ") {
                Some(idx) => {
                    let ln: usize = line.as_str().unicode_len();
                    proof {
                        reveal_strlit("REG_SZ");
                        assert(("REG_SZ")@.len() == 6);
                    }
                    let after = line.as_str().substring_char(idx + 6, ln);
                    let payload = trim_start_string(after);
                    let pn: usize = payload.as_str().unicode_len();
                    let value = if pn > 0 && payload.as_str().get_char(pn - 1) == '\r' {
                        String::from_str(payload.as_str().substring_char(0, pn - 1))
                    } else {
                        payload
                    };
                    roots.push(value);
                    proof {
                        assert(after@ =~= ls[j as int].skip(idx + 6));
                        let ts = trim_start_spec(ls[j as int].skip(idx + 6));
                        if ts.len() > 0 && ts.last() == '\r' {
                            assert(ts.subrange(0, ts.len() - 1) =~= ts.drop_last());
                        }
                        assert(roots.deep_view() =~= roots_before + seq![drop_cr_spec(ts)]);
                    }
                },
                None => {
                },
            }
        }
        k = k + 1;
    }
    proof {
        assert(ls.take(0) =~= Seq::<Seq<char>>::empty());
        assert(roots.deep_view() + Seq::<Seq<char>>::empty() =~= roots.deep_view());
    }
    roots
}

/// The architecture directory the probe looks under.
pub open spec fn arch_dir_spec(arch64: bool) -> Seq<char> {
    if arch64 {
        ("x64")@
    } else {
        ("x86")@
    }
}

/// The directories found under one candidate entry: the entry's
/// architecture directory, where it holds the compiler binary.
pub open spec fn entry_probe_spec(fs: FsView, e: Seq<char>, arch64: bool) -> Seq<Seq<char>> {
    let d = join_path_spec(e, arch_dir_spec(arch64));
    if fs_has_file(fs, join_path_spec(d, ("rc.exe")@)) {
        seq![d]
    } else {
        Seq::empty()
    }
}

/// The directories found under the listed entries, in listing order.
pub open spec fn probe_entries_spec(fs: FsView, es: Seq<Seq<char>>, arch64: bool) -> Seq<Seq<char>>
    decreases es.len(),
{
    if es.len() == 0 {
        Seq::empty()
    } else {
        probe_entries_spec(fs, es.drop_last(), arch64) + entry_probe_spec(fs, es.last(), arch64)
    }
}

/// The compiler directories found under one candidate root: the direct
/// architecture directory under `bin`, then one per versioned
/// subdirectory of `bin`, each kept only where the compiler binary exists.
pub open spec fn probe_root_spec(fs: FsView, root: Seq<char>, arch64: bool) -> Seq<Seq<char>> {
    let bin = join_path_spec(root, ("bin")@);
    let direct = join_path_spec(bin, arch_dir_spec(arch64));
    (if fs_has_file(fs, join_path_spec(direct, ("rc.exe")@)) {
        seq![direct]
    } else {
        Seq::<Seq<char>>::empty()
    }) + (match fs_dir_entries(fs, bin) {
        Some(es) => probe_entries_spec(fs, es, arch64),
        None => Seq::<Seq<char>>::empty(),
    })
}

/// The compiler directories found under all candidate roots, in root
/// order.
pub open spec fn probe_roots_spec(fs: FsView, roots: Seq<Seq<char>>, arch64: bool) -> Seq<
    Seq<char>,
>
    decreases roots.len(),
{
    if roots.len() == 0 {
        Seq::empty()
    } else {
        probe_roots_spec(fs, roots.drop_last(), arch64) + probe_root_spec(
            fs,
            roots.last(),
            arch64,
        )
    }
}

/// Probe the snapshot for installed compiler directories under each
/// candidate root, in order.
pub fn probe_roots(roots: &Vec<String>, arch64: bool, fs: &FsSnapshot) -> (kits: Vec<String>)
    ensures
        kits.deep_view() == probe_roots_spec(fs@, roots.deep_view(), arch64),
{
    let arch: &str = if arch64 {
        "x64"
    } else {
        "x86"
    };
    proof {
        assert(arch@ == arch_dir_spec(arch64));
    }
    let ghost rs = roots.deep_view();
    let n: usize = roots.len();
    let mut kits: Vec<String> = Vec::new();
    let mut i: usize = 0;
    proof {
        assert(rs.take(0) =~= Seq::<Seq<char>>::empty());
        assert(kits.deep_view() =~= probe_roots_spec(fs@, rs.take(0), arch64));
    }
    while i < n
        invariant
            n == roots.len(),
            roots.deep_view() == rs,
            arch@ == arch_dir_spec(arch64),
            i <= n,
            kits.deep_view() == probe_roots_spec(fs@, rs.take(i as int), arch64),
        decreases n - i,
    {
        proof {
            assert(rs[i as int] == roots@[i as int].deep_view());
        }
        let ghost kits_at_root_start = kits.deep_view();
        let bin = join_path(roots[i].as_str(), "bin");
        let direct = join_path(bin.as_str(), arch);
        let direct_rc = join_path(direct.as_str(), "rc.exe");
        if fs.has_file(direct_rc.as_str()) {
            kits.push(direct);
            proof {
                assert(kits.deep_view() =~= kits_at_root_start + seq![join_path_spec(
                    join_path_spec(rs[i as int], ("bin")@),
                    arch_dir_spec(arch64),
                )]);
            }
        }
        let ghost kits_after_direct = kits.deep_view();
        match fs.dir_index(bin.as_str()) {
            Some(di) => {
                let ghost es = fs@.dirs[di as int].1;
                let m: usize = fs.dirs[di].1.len();
                let mut e: usize = 0;
                proof {
                    assert(es.take(0) =~= Seq::<Seq<char>>::empty());
                    assert(kits.deep_view() =~= kits_after_direct + probe_entries_spec(
                        fs@,
                        es.take(0),
                        arch64,
                    ));
                }
                while e < m
                    invariant
                        di < fs.dirs@.len(),
                        m == fs.dirs@[di as int].1.len(),
                        es == fs@.dirs[di as int].1,
                        arch@ == arch_dir_spec(arch64),
                        e <= m,
                        kits.deep_view() == kits_after_direct + probe_entries_spec(
                            fs@,
                            es.take(e as int),
                            arch64,
                        ),
                    decreases m - e,
                {
                    proof {
                        assert(fs@.dirs[di as int] == fs.dirs@[di as int].deep_view());
                        assert(es[e as int] == fs.dirs@[di as int].1@[e as int].deep_view());
                    }
                    let ghost kits_before = kits.deep_view();
                    let d = join_path(fs.dirs[di].1[e].as_str(), arch);
                    let d_rc = join_path(d.as_str(), "rc.exe");
                    if fs.has_file(d_rc.as_str()) {
                        kits.push(d);
                        proof {
                            assert(kits.deep_view() =~= kits_before + entry_probe_spec(
                                fs@,
                                es[e as int],
                                arch64,
                            ));
                        }
                    } else {
                        proof {
                            assert(kits.deep_view() =~= kits_before + entry_probe_spec(
                                fs@,
                                es[e as int],
                                arch64,
                            ));
                        }
                    }
                    proof {
                        assert(es.take(e + 1).drop_last() =~= es.take(e as int));
                        assert(es.take(e + 1).last() == es[e as int]);
                    }
                    e = e + 1;
                }
                proof {
                    assert(es.take(m as int) =~= es);
                }
            },
            None => {
            },
        }
        proof {
            assert(rs.take(i + 1).drop_last() =~= rs.take(i as int));
            assert(rs.take(i + 1).last() == rs[i as int]);
            assert(kits.deep_view() =~= probe_roots_spec(fs@, rs.take(i + 1), arch64));
        }
        i = i + 1;
    }
    proof {
        assert(rs.take(n as int) =~= rs);
    }
    kits
}

/// Every compiler directory the snapshot shows under the roots that the
/// registry query's output names.
pub open spec fn locate_spec(output: Seq<char>, arch64: bool, fs: FsView) -> Seq<Seq<char>> {
    probe_roots_spec(fs, registry_roots_spec(output), arch64)
}

/// Discover installed toolkits: parse the registry query's output and keep
/// each candidate directory whose compiler binary the snapshot shows;
/// where none is found, the discovery fails.
pub fn locate_toolkits(registry_output: &str, arch64: bool, fs: &FsSnapshot) -> (r: Result<
    Vec<String>,
    ResourceError,
>)
    ensures
        match r {
            Ok(kits) => kits.deep_view() == locate_spec(registry_output@, arch64, fs@)
                && kits.deep_view().len() > 0,
            Err(e) => e is ToolkitNotFound && locate_spec(registry_output@, arch64, fs@).len()
                == 0,
        },
{
    let roots = registry_roots(registry_output);
    let kits = probe_roots(&roots, arch64, fs);
    if kits.len() == 0 {
        proof {
            assert(kits.deep_view().len() == 0);
        }
        Err(ResourceError::ToolkitNotFound)
    } else {
        proof {
            assert(kits.deep_view().len() > 0);
        }
        Ok(kits)
    }
}

} // verus!
