//! The optional key-value section of the build manifest that overrides
//! string properties: reading it goes through the toml parser; applying
//! it to the descriptor is verified here.

use vstd::prelude::*;

use crate::descriptor::{descriptor_wf, upsert_spec, DescriptorView, WindowsResource};

verus! {

/// The entries of the `package.metadata.winres` table of a manifest text:
/// each key with its string value, or with `None` for a value of any
/// other type; `None` overall where the text does not parse as a manifest
/// or holds no such table.
pub uninterp spec fn winres_section_of(text: Seq<char>) -> Option<
    Seq<(Seq<char>, Option<Seq<char>>)>,
>;

/// Relies on toml's parser (`str::parse::<toml::Value>`) and table
/// accessors: yields the `package.metadata.winres` entries of the given
/// manifest text, string values as `Some`, others as `None`.  The result
/// depends on the text alone.
#[verifier::external_body]
fn winres_section(text: &str) -> (r: Option<Vec<(String, Option<String>)>>)
    ensures
        r.deep_view() == winres_section_of(text@),
{
    let ml: toml::Value = match text.parse() {
        Ok(v) => v,
        Err(_) => return None,
    };
    let tbl = ml.get("package")?.get("metadata")?.get("winres")?.as_table()?;
    Some(tbl.iter().map(|(k, v)| (k.clone(), v.as_str().map(|s| s.to_string()))).collect())
}

/// Properties after applying override entries in order: each string value
/// stored under its key, entries without a string value skipped.
pub open spec fn overlay_spec(
    props: Seq<(Seq<char>, Seq<char>)>,
    entries: Seq<(Seq<char>, Option<Seq<char>>)>,
) -> Seq<(Seq<char>, Seq<char>)>
    decreases entries.len(),
{
    if entries.len() == 0 {
        props
    } else {
        let prev = overlay_spec(props, entries.drop_last());
        match entries.last().1 {
            Some(v) => upsert_spec(prev, entries.last().0, v),
            None => prev,
        }
    }
}

/// One diagnostic line per entry whose value is not a string.
pub open spec fn overlay_diags_spec(entries: Seq<(Seq<char>, Option<Seq<char>>)>) -> Seq<
    Seq<char>,
>
    decreases entries.len(),
{
    if entries.len() == 0 {
        Seq::empty()
    } else {
        overlay_diags_spec(entries.drop_last()) + (match entries.last().1 {
            Some(_) => Seq::<Seq<char>>::empty(),
            None => seq![
                ("package.metadata.winres.")@ + entries.last().0 + (" is not a string")@,
            ],
        })
    }
}

impl WindowsResource {
    /// Apply override entries to the string properties, in order: a
    /// string value replaces or adds its key, any other value is skipped
    /// with a diagnostic line.
    pub fn apply_metadata_entries(&mut self, entries: &Vec<(String, Option<String>)>) -> (diags:
        Vec<String>)
        ensures
            final(self)@ == (DescriptorView {
                properties: overlay_spec(old(self)@.properties, entries.deep_view()),
                ..old(self)@
            }),
            diags.deep_view() == overlay_diags_spec(entries.deep_view()),
            descriptor_wf(old(self)@) ==> descriptor_wf(final(self)@),
    {
        let ghost es = entries.deep_view();
        let ghost old_view = old(self)@;
        let n: usize = entries.len();
        let mut diags: Vec<String> = Vec::new();
        let mut i: usize = 0;
        proof {
            assert(es.take(0) =~= Seq::<(Seq<char>, Option<Seq<char>>)>::empty());
            assert(self@ =~= (DescriptorView {
                properties: overlay_spec(old_view.properties, es.take(0)),
                ..old_view
            }));
            assert(diags.deep_view() =~= overlay_diags_spec(es.take(0)));
        }
        while i < n
            invariant
                n == entries.len(),
                entries.deep_view() == es,
                i <= n,
                self@ == (DescriptorView {
                    properties: overlay_spec(old_view.properties, es.take(i as int)),
                    ..old_view
                }),
                diags.deep_view() == overlay_diags_spec(es.take(i as int)),
                descriptor_wf(old_view) ==> descriptor_wf(self@),
            decreases n - i,
        {
            proof {
                assert(es[i as int] == entries@[i as int].deep_view());
                assert(es.take(i + 1).drop_last() =~= es.take(i as int));
                assert(es.take(i + 1).last() == es[i as int]);
            }
            let ghost diags_before = diags.deep_view();
            match &entries[i].1 {
                Some(v) => {
                    let key = String::from_str(entries[i].0.as_str());
                    let value = String::from_str(v.as_str());
                    self.set(key.as_str(), value.as_str());
                    proof {
                        assert(self@ =~= (DescriptorView {
                            properties: overlay_spec(old_view.properties, es.take(i + 1)),
                            ..old_view
                        }));
                        assert(diags.deep_view() =~= overlay_diags_spec(es.take(i + 1)));
                    }
                },
                None => {
                    let mut d = String::from_str("package.metadata.winres.");
                    d.append(entries[i].0.as_str());
                    d.append(" is not a string");
                    diags.push(d);
                    proof {
                        assert(diags.deep_view() =~= diags_before + seq![(
                        "package.metadata.winres.")@ + es[i as int].0 + (" is not a string")@]);
                        assert(diags.deep_view() =~= overlay_diags_spec(es.take(i + 1)));
                        assert(self@ =~= (DescriptorView {
                            properties: overlay_spec(old_view.properties, es.take(i + 1)),
                            ..old_view
                        }));
                    }
                },
            }
            i = i + 1;
        }
        proof {
            assert(es.take(n as int) =~= es);
        }
        diags
    }

    /// Overlay the string properties from the `package.metadata.winres`
    /// section of a build-manifest text; where the text holds no such
    /// section, nothing changes and no diagnostic is produced.
    pub fn apply_cargo_metadata(&mut self, cargo_toml_text: &str) -> (diags: Vec<String>)
        ensures
            match winres_section_of(cargo_toml_text@) {
                Some(es) => final(self)@ == (DescriptorView {
                    properties: overlay_spec(old(self)@.properties, es),
                    ..old(self)@
                }) && diags.deep_view() == overlay_diags_spec(es),
                None => final(self)@ == old(self)@ && diags.deep_view() == Seq::<
                    Seq<char>,
                >::empty(),
            },
            descriptor_wf(old(self)@) ==> descriptor_wf(final(self)@),
    {
        match winres_section(cargo_toml_text) {
            Some(entries) => self.apply_metadata_entries(&entries),
            None => {
                let diags: Vec<String> = Vec::new();
                proof {
                    assert(diags.deep_view() =~= Seq::<Seq<char>>::empty());
                }
                diags
            },
        }
    }
}

} // verus!
