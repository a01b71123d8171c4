//! The serializer: renders a descriptor into resource-definition text.
//!
//! The output is deterministic: a code-page pragma, the `VERSIONINFO`
//! block, the string table keyed by language and codepage, the translation
//! block, one `ICON` line per icon, the manifest entry and the raw appended
//! text, in that order.

use vstd::prelude::*;

use crate::descriptor::{DescriptorView, IconView, VersionValues, WindowsResource};
use crate::escape::{escape_seq, escape_string};
use crate::numfmt::{
    dec_rep, decimal_string, hex4_rep, hex4_string, hex_lit_rep, hex_lit_string,
};
use crate::descriptor::version_words_spec;
use crate::text::{lines_spec, split_lines, trim_spec, trim_string};

verus! {

/// A version line whose value is written as four decimal words, highest
/// 16 bits first.
pub open spec fn version_words_line_spec(label: Seq<char>, v: u64) -> Seq<char> {
    let w = version_words_spec(v);
    label + (" ")@ + dec_rep(w.0 as nat) + (", ")@ + dec_rep(w.1 as nat) + (", ")@ + dec_rep(
        w.2 as nat,
    ) + (", ")@ + dec_rep(w.3 as nat) + ("\n")@
}

/// A version line whose value is written as one hexadecimal literal.
pub open spec fn version_hex_line_spec(label: Seq<char>, v: u64) -> Seq<char> {
    label + (" ")@ + hex_lit_rep(v as nat) + ("\n")@
}

/// The `VERSIONINFO` block: packed versions as four words each, the other
/// five fields in hexadecimal, in a fixed field order.
pub open spec fn version_block_spec(vv: VersionValues) -> Seq<char> {
    ("1 VERSIONINFO\n")@ + version_words_line_spec(("FILEVERSION")@, vv.file_version)
        + version_words_line_spec(("PRODUCTVERSION")@, vv.product_version)
        + version_hex_line_spec(("FILEOS")@, vv.file_os) + version_hex_line_spec(
        ("FILETYPE")@,
        vv.file_type,
    ) + version_hex_line_spec(("FILESUBTYPE")@, vv.file_subtype) + version_hex_line_spec(
        ("FILEFLAGSMASK")@,
        vv.file_flags_mask,
    ) + version_hex_line_spec(("FILEFLAGS")@, vv.file_flags)
}

/// One string-table line, key and value escaped.
pub open spec fn value_line_spec(k: Seq<char>, v: Seq<char>) -> Seq<char> {
    ("VALUE \"")@ + escape_seq(k) + ("\", \"")@ + escape_seq(v) + ("\"\n")@
}

/// The string-table lines of all properties in order; a property with an
/// empty value is omitted.
pub open spec fn property_lines_spec(props: Seq<(Seq<char>, Seq<char>)>) -> Seq<char>
    decreases props.len(),
{
    if props.len() == 0 {
        Seq::empty()
    } else {
        property_lines_spec(props.drop_last()) + (if props.last().1.len() == 0 {
            Seq::<char>::empty()
        } else {
            value_line_spec(props.last().0, props.last().1)
        })
    }
}

/// The string table: nested blocks keyed by the four-digit language code
/// and the fixed codepage suffix.
pub open spec fn string_table_spec(d: DescriptorView) -> Seq<char> {
    ("{\nBLOCK \"StringFileInfo\"\n")@ + ("{\nBLOCK \"")@ + hex4_rep(d.language as nat) + (
    "04b0\"\n{\n")@ + property_lines_spec(d.properties) + ("}\n}\n")@
}

/// The translation block restating the language and the fixed codepage.
pub open spec fn var_block_spec(d: DescriptorView) -> Seq<char> {
    ("BLOCK \"VarFileInfo\" {\n")@ + ("VALUE \"Translation\", ")@ + hex_lit_rep(d.language as nat)
        + (", 0x4b0\n")@ + ("}\n}\n")@
}

/// One icon line: the name id, the `ICON` keyword, the quoted path.
pub open spec fn icon_line_spec(ic: IconView) -> Seq<char> {
    escape_seq(ic.name_id) + (" ICON \"")@ + escape_seq(ic.path) + ("\"\n")@
}

/// All icon lines, in insertion order.
pub open spec fn icon_lines_spec(icons: Seq<IconView>) -> Seq<char>
    decreases icons.len(),
{
    if icons.len() == 0 {
        Seq::empty()
    } else {
        icon_lines_spec(icons.drop_last()) + icon_line_spec(icons.last())
    }
}

/// Icon lines come in insertion order: adding an icon appends its own
/// line, naming its own path, after the lines of the icons added before.
pub proof fn lemma_icon_lines_in_order(icons: Seq<IconView>, ic: IconView)
    ensures
        icon_lines_spec(icons.push(ic)) == icon_lines_spec(icons) + icon_line_spec(ic),
{
    assert(icons.push(ic).drop_last() =~= icons);
    assert(icons.push(ic).last() == ic);
}

/// One quoted line of an inline manifest, trimmed and escaped.
pub open spec fn manifest_line_spec(line: Seq<char>) -> Seq<char> {
    ("\" ")@ + escape_seq(trim_spec(line)) + (" \"\n")@
}

/// The quoted lines of an inline manifest, in order.
pub open spec fn manifest_lines_spec(ls: Seq<Seq<char>>) -> Seq<char>
    decreases ls.len(),
{
    if ls.len() == 0 {
        Seq::empty()
    } else {
        manifest_lines_spec(ls.drop_last()) + manifest_line_spec(ls.last())
    }
}

/// The manifest entry, typed by the FILETYPE value: the inline text quoted
/// line by line, or a reference to the manifest file, or nothing.
pub open spec fn manifest_part_spec(d: DescriptorView) -> Seq<char> {
    match d.manifest {
        Some(m) => dec_rep(d.version.file_type as nat) + (" 24\n")@ + ("{\n")@
            + manifest_lines_spec(lines_spec(m)) + ("}\n")@,
        None => match d.manifest_file {
            Some(f) => dec_rep(d.version.file_type as nat) + (" 24 \"")@ + escape_seq(f) + (
            "\"\n")@,
            None => Seq::empty(),
        },
    }
}

/// The whole resource-definition text of a descriptor.
pub open spec fn render_spec(d: DescriptorView) -> Seq<char> {
    ("#pragma code_page(65001)\n")@ + version_block_spec(d.version) + string_table_spec(d)
        + var_block_spec(d) + icon_lines_spec(d.icons) + manifest_part_spec(d)
        + d.append_rc_content + ("\n")@
}

fn push_version_words_line(out: &mut String, label: &str, v: u64)
    ensures
        final(out)@ == old(out)@ + version_words_line_spec(label@, v),
{
    let w0: u16 = #[verifier::truncate] ((v >> 48) as u16);
    let w1: u16 = #[verifier::truncate] ((v >> 32) as u16);
    let w2: u16 = #[verifier::truncate] ((v >> 16) as u16);
    let w3: u16 = #[verifier::truncate] (v as u16);
    out.append(label);
    out.append(" ");
    let d0 = decimal_string(w0 as u64);
    out.append(d0.as_str());
    out.append(", ");
    let d1 = decimal_string(w1 as u64);
    out.append(d1.as_str());
    out.append(", ");
    let d2 = decimal_string(w2 as u64);
    out.append(d2.as_str());
    out.append(", ");
    let d3 = decimal_string(w3 as u64);
    out.append(d3.as_str());
    out.append("\n");
    proof {
        assert(final(out)@ =~= old(out)@ + version_words_line_spec(label@, v));
    }
}

fn push_version_hex_line(out: &mut String, label: &str, v: u64)
    ensures
        final(out)@ == old(out)@ + version_hex_line_spec(label@, v),
{
    out.append(label);
    out.append(" ");
    let h = hex_lit_string(v);
    out.append(h.as_str());
    out.append("\n");
    proof {
        assert(final(out)@ =~= old(out)@ + version_hex_line_spec(label@, v));
    }
}

fn push_version_block(out: &mut String, vv: &VersionValues)
    ensures
        final(out)@ == old(out)@ + version_block_spec(*vv),
{
    out.append("1 VERSIONINFO\n");
    push_version_words_line(out, "FILEVERSION", vv.file_version);
    push_version_words_line(out, "PRODUCTVERSION", vv.product_version);
    push_version_hex_line(out, "FILEOS", vv.file_os);
    push_version_hex_line(out, "FILETYPE", vv.file_type);
    push_version_hex_line(out, "FILESUBTYPE", vv.file_subtype);
    push_version_hex_line(out, "FILEFLAGSMASK", vv.file_flags_mask);
    push_version_hex_line(out, "FILEFLAGS", vv.file_flags);
    proof {
        assert(final(out)@ =~= old(out)@ + version_block_spec(*vv));
    }
}

impl WindowsResource {
    /// Render the descriptor into the text of a resource-definition file.
    pub fn render(&self) -> (r: String)
        ensures
            r@ == render_spec(self@),
    {
        let mut out = String::new();
        out.append("#pragma code_page(65001)\n");
        push_version_block(&mut out, &self.version);
        self.push_string_table(&mut out);
        self.push_var_block(&mut out);
        self.push_icon_lines(&mut out);
        self.push_manifest_part(&mut out);
        out.append(self.append_rc_content.as_str());
        out.append("\n");
        proof {
            assert(out@ =~= render_spec(self@));
        }
        out
    }

    fn push_string_table(&self, out: &mut String)
        ensures
            final(out)@ == old(out)@ + string_table_spec(self@),
    {
        out.append("{\nBLOCK \"StringFileInfo\"\n");
        out.append("{\nBLOCK \"");
        let lang = hex4_string(self.language);
        out.append(lang.as_str());
        out.append("04b0\"\n{\n");
        let ghost header_done = out@;
        let ghost props = self@.properties;
        let n: usize = self.properties.len();
        let mut i: usize = 0;
        proof {
            assert(props.take(0) =~= Seq::<(Seq<char>, Seq<char>)>::empty());
            assert(out@ =~= header_done + property_lines_spec(props.take(0)));
        }
        while i < n
            invariant
                n == self.properties.len(),
                i <= n,
                props == self@.properties,
                out@ == header_done + property_lines_spec(props.take(i as int)),
            decreases n - i,
        {
            proof {
                assert(props[i as int] == self.properties@[i as int].deep_view());
            }
            let ghost before = out@;
            let value_len: usize = self.properties[i].1.as_str().unicode_len();
            if value_len > 0 {
                out.append("VALUE \"");
                let ek = escape_string(self.properties[i].0.as_str());
                out.append(ek.as_str());
                out.append("\", \"");
                let ev = escape_string(self.properties[i].1.as_str());
                out.append(ev.as_str());
                out.append("\"\n");
                proof {
                    assert(out@ =~= before + value_line_spec(
                        props[i as int].0,
                        props[i as int].1,
                    ));
                }
            }
            proof {
                assert(props.take(i + 1).drop_last() =~= props.take(i as int));
                assert(props.take(i + 1).last() == props[i as int]);
                assert(out@ =~= header_done + property_lines_spec(props.take(i + 1)));
            }
            i = i + 1;
        }
        out.append("}\n}\n");
        proof {
            assert(props.take(n as int) =~= props);
            assert(final(out)@ =~= old(out)@ + string_table_spec(self@));
        }
    }

    fn push_var_block(&self, out: &mut String)
        ensures
            final(out)@ == old(out)@ + var_block_spec(self@),
    {
        out.append("BLOCK \"VarFileInfo\" {\n");
        out.append("VALUE \"Translation\", ");
        let lang = hex_lit_string(self.language as u64);
        out.append(lang.as_str());
        out.append(", 0x4b0\n");
        out.append("}\n}\n");
        proof {
            assert(final(out)@ =~= old(out)@ + var_block_spec(self@));
        }
    }

    fn push_icon_lines(&self, out: &mut String)
        ensures
            final(out)@ == old(out)@ + icon_lines_spec(self@.icons),
    {
        let ghost icons = self@.icons;
        let ghost start = out@;
        let n: usize = self.icons.len();
        let mut i: usize = 0;
        proof {
            assert(icons.take(0) =~= Seq::<IconView>::empty());
            assert(out@ =~= start + icon_lines_spec(icons.take(0)));
        }
        while i < n
            invariant
                n == self.icons.len(),
                i <= n,
                icons == self@.icons,
                out@ == start + icon_lines_spec(icons.take(i as int)),
            decreases n - i,
        {
            proof {
                assert(icons[i as int] == self.icons@[i as int].deep_view());
            }
            let ghost before = out@;
            let eid = escape_string(self.icons[i].name_id.as_str());
            out.append(eid.as_str());
            out.append(" ICON \"");
            let ep = escape_string(self.icons[i].path.as_str());
            out.append(ep.as_str());
            out.append("\"\n");
            proof {
                assert(out@ =~= before + icon_line_spec(icons[i as int]));
                assert(icons.take(i + 1).drop_last() =~= icons.take(i as int));
                assert(icons.take(i + 1).last() == icons[i as int]);
                assert(out@ =~= start + icon_lines_spec(icons.take(i + 1)));
            }
            i = i + 1;
        }
        proof {
            assert(icons.take(n as int) =~= icons);
        }
    }

    fn push_manifest_part(&self, out: &mut String)
        ensures
            final(out)@ == old(out)@ + manifest_part_spec(self@),
    {
        if let Some(m) = &self.manifest {
            let ft = decimal_string(self.version.file_type);
            out.append(ft.as_str());
            out.append(" 24\n");
            out.append("{\n");
            let ghost header_done = out@;
            let lines = split_lines(m.as_str());
            let ghost ls = lines_spec(m@);
            let n: usize = lines.len();
            let mut i: usize = 0;
            proof {
                assert(ls.take(0) =~= Seq::<Seq<char>>::empty());
                assert(out@ =~= header_done + manifest_lines_spec(ls.take(0)));
            }
            while i < n
                invariant
                    n == lines.len(),
                    i <= n,
                    lines.deep_view() == ls,
                    out@ == header_done + manifest_lines_spec(ls.take(i as int)),
                decreases n - i,
            {
                proof {
                    assert(ls[i as int] == lines@[i as int].deep_view());
                }
                let ghost before = out@;
                out.append("\" ");
                let trimmed = trim_string(lines[i].as_str());
                let et = escape_string(trimmed.as_str());
                out.append(et.as_str());
                out.append(" \"\n");
                proof {
                    assert(out@ =~= before + manifest_line_spec(ls[i as int]));
                    assert(ls.take(i + 1).drop_last() =~= ls.take(i as int));
                    assert(ls.take(i + 1).last() == ls[i as int]);
                    assert(out@ =~= header_done + manifest_lines_spec(ls.take(i + 1)));
                }
                i = i + 1;
            }
            out.append("}\n");
            proof {
                assert(ls.take(n as int) =~= ls);
                assert(final(out)@ =~= old(out)@ + manifest_part_spec(self@));
            }
        } else if let Some(f) = &self.manifest_file {
            let ft = decimal_string(self.version.file_type);
            out.append(ft.as_str());
            out.append(" 24 \"");
            let ef = escape_string(f.as_str());
            out.append(ef.as_str());
            out.append("\"\n");
            proof {
                assert(final(out)@ =~= old(out)@ + manifest_part_spec(self@));
            }
        } else {
            proof {
                assert(final(out)@ =~= old(out)@ + manifest_part_spec(self@));
            }
        }
    }
}

} // verus!
