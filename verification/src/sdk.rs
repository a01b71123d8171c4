//! The include root of a Windows SDK, derived from the path of its
//! resource-compiler binary.
//!
//! Walking the path's components up to the `bin` segment, the SDK's
//! include directory lies under `Include`; an SDK of the `10.` line keeps
//! its version segment below that.

use vstd::prelude::*;

use crate::text::{split_char_spec, split_string, starts_with, starts_with_spec};

verus! {

/// The components of a Windows-style path: the pieces between backslashes.
pub open spec fn path_components_spec(p: Seq<char>) -> Seq<Seq<char>> {
    split_char_spec(p, '\\')
}

/// Components joined with single backslashes.
pub open spec fn join_components_spec(cs: Seq<Seq<char>>) -> Seq<char>
    decreases cs.len(),
{
    if cs.len() == 0 {
        Seq::empty()
    } else if cs.len() == 1 {
        cs[0]
    } else {
        join_components_spec(cs.drop_last()) + seq!['\\'] + cs.last()
    }
}

/// The components of the include root: everything before the first `bin`
/// component, then `Include`, then the component after `bin` where it
/// names a `10.` version; where no `bin` component occurs, the whole path
/// stands unchanged.
pub open spec fn include_components_spec(cs: Seq<Seq<char>>) -> Seq<Seq<char>>
    decreases cs.len(),
{
    if cs.len() == 0 {
        Seq::empty()
    } else if cs[0] == ("bin")@ {
        seq![("Include")@] + (if cs.len() >= 2 && starts_with_spec(cs[1], ("10.")@) {
            seq![cs[1]]
        } else {
            Seq::<Seq<char>>::empty()
        })
    } else {
        seq![cs[0]] + include_components_spec(cs.drop_first())
    }
}

/// The include root of the SDK whose resource compiler lies at the given
/// path.
pub open spec fn sdk_include_root_spec(p: Seq<char>) -> Seq<char> {
    join_components_spec(include_components_spec(path_components_spec(p)))
}

proof fn lemma_join_push(cs: Seq<Seq<char>>, c: Seq<char>)
    ensures
        join_components_spec(cs.push(c)) == if cs.len() == 0 {
            c
        } else {
            join_components_spec(cs) + seq!['\\'] + c
        },
{
    assert(cs.push(c).drop_last() =~= cs);
    assert(cs.push(c).last() == c);
    if cs.len() == 0 {
        assert(cs.push(c)[0] == c);
    }
}

proof fn lemma_include_components_no_bin(cs: Seq<Seq<char>>)
    requires
        forall|j: int| 0 <= j < cs.len() ==> cs[j] != ("bin")@,
    ensures
        include_components_spec(cs) == cs,
    decreases cs.len(),
{
    if cs.len() > 0 {
        let t = cs.drop_first();
        assert(forall|j: int| 0 <= j < t.len() ==> #[trigger] t[j] != ("bin")@);
        lemma_include_components_no_bin(t);
        assert(seq![cs[0]] + t =~= cs);
    }
}

proof fn lemma_include_components_at(cs: Seq<Seq<char>>, i: int)
    requires
        0 <= i < cs.len(),
        cs[i] == ("bin")@,
        forall|j: int| 0 <= j < i ==> cs[j] != ("bin")@,
    ensures
        include_components_spec(cs) == cs.take(i) + seq![("Include")@] + (if i + 1 < cs.len()
            && starts_with_spec(cs[i + 1], ("10.")@) {
            seq![cs[i + 1]]
        } else {
            Seq::<Seq<char>>::empty()
        }),
    decreases i,
{
    if i == 0 {
        assert(cs.take(0) =~= Seq::<Seq<char>>::empty());
        if cs.len() >= 2 && starts_with_spec(cs[1], ("10.")@) {
            assert(cs.take(0) + seq![("Include")@] + seq![cs[1]] =~= seq![("Include")@] + seq![
                cs[1],
            ]);
        } else {
            assert(cs.take(0) + seq![("Include")@] + Seq::<Seq<char>>::empty() =~= seq![
                ("Include")@,
            ] + Seq::<Seq<char>>::empty());
        }
    } else {
        let t = cs.drop_first();
        assert(t[i - 1] == ("bin")@);
        assert(forall|j: int| 0 <= j < i - 1 ==> #[trigger] t[j] != ("bin")@);
        lemma_include_components_at(t, i - 1);
        assert(seq![cs[0]] + t.take(i - 1) =~= cs.take(i));
        if i + 1 < cs.len() && starts_with_spec(cs[i + 1], ("10.")@) {
            assert(t[i] == cs[i + 1]);
            assert(seq![cs[0]] + (t.take(i - 1) + seq![("Include")@] + seq![t[i]]) =~= cs.take(i)
                + seq![("Include")@] + seq![cs[i + 1]]);
        } else {
            assert(seq![cs[0]] + (t.take(i - 1) + seq![("Include")@]
                + Seq::<Seq<char>>::empty()) =~= cs.take(i) + seq![("Include")@]
                + Seq::<Seq<char>>::empty());
        }
    }
}

/// The include root of the SDK whose resource compiler lies at the given
/// Windows-style path.
pub fn win_sdk_inlcude_root(path: &str) -> (r: String)
    ensures
        r@ == sdk_include_root_spec(path@),
{
    let comps = split_string(path, '\\');
    let ghost cs = path_components_spec(path@);
    let n: usize = comps.len();
    let mut out = String::new();
    let mut i: usize = 0;
    proof {
        assert(cs.take(0) =~= Seq::<Seq<char>>::empty());
        assert(out@ =~= join_components_spec(cs.take(0)));
    }
    while i < n
        invariant
            n == comps.len(),
            comps.deep_view() == cs,
            cs == path_components_spec(path@),
            i <= n,
            out@ == join_components_spec(cs.take(i as int)),
            forall|j: int| 0 <= j < i ==> cs[j] != ("bin")@,
        decreases n - i,
    {
        proof {
            assert(cs[i as int] == comps@[i as int].deep_view());
        }
        if crate::text::str_eq(comps[i].as_str(), "bin") {
            if i > 0 {
                out.push('\\');
            }
            out.append("Include");
            proof {
                lemma_join_push(cs.take(i as int), ("Include")@);
                assert(cs.take(i as int).push(("Include")@) =~= cs.take(i as int) + seq![
                    ("Include")@,
                ]);
            }
            if i + 1 < n && starts_with(comps[i + 1].as_str(), "10.") {
                proof {
                    assert(cs[i + 1] == comps@[i + 1].deep_view());
                }
                out.push('\\');
                out.append(comps[i + 1].as_str());
                proof {
                    let base = cs.take(i as int) + seq![("Include")@];
                    lemma_join_push(base, cs[i + 1]);
                    assert(base.push(cs[i + 1]) =~= base + seq![cs[i + 1]]);
                    assert(base.len() > 0);
                    lemma_include_components_at(cs, i as int);
                    assert(out@ =~= join_components_spec(include_components_spec(cs)));
                }
            } else {
                proof {
                    lemma_include_components_at(cs, i as int);
                    assert(cs.take(i as int) + seq![("Include")@] + Seq::<Seq<char>>::empty()
                        =~= cs.take(i as int) + seq![("Include")@]);
                    assert(out@ =~= join_components_spec(include_components_spec(cs)));
                }
            }
            return out;
        }
        if i > 0 {
            out.push('\\');
        }
        out.append(comps[i].as_str());
        proof {
            lemma_join_push(cs.take(i as int), cs[i as int]);
            assert(cs.take(i as int).push(cs[i as int]) =~= cs.take(i + 1));
            assert(out@ =~= join_components_spec(cs.take(i + 1)));
        }
        i = i + 1;
    }
    proof {
        assert(cs.take(n as int) =~= cs);
        lemma_include_components_no_bin(cs);
    }
    out
}

} // verus!
