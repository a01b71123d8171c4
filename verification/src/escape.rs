//! String escaping for quoted literals in resource-definition text.
//!
//! Inside a quoted string of the target format a double quote is written as
//! two consecutive double quotes, while backslash, single quote, newline,
//! tab and carriage return take their two-character backslash forms; every
//! other character stands for itself.

use vstd::prelude::*;

verus! {

broadcast use vstd::string::group_string_axioms;

/// The escaped form of a single character.
pub open spec fn escape_char_spec(c: char) -> Seq<char> {
    if c == '"' {
        seq!['"', '"']
    } else if c == '\'' {
        seq!['\\', '\'']
    } else if c == '\\' {
        seq!['\\', '\\']
    } else if c == '\n' {
        seq!['\\', 'n']
    } else if c == '\t' {
        seq!['\\', 't']
    } else if c == '\r' {
        seq!['\\', 'r']
    } else {
        seq![c]
    }
}

/// The escaped form of a whole string: each character replaced by its
/// escaped form, in order.
pub open spec fn escape_seq(s: Seq<char>) -> Seq<char>
    decreases s.len(),
{
    if s.len() == 0 {
        Seq::empty()
    } else {
        escape_char_spec(s[0]) + escape_seq(s.drop_first())
    }
}

/// Escaping distributes over concatenation.
pub proof fn lemma_escape_append(a: Seq<char>, b: Seq<char>)
    ensures
        escape_seq(a + b) == escape_seq(a) + escape_seq(b),
    decreases a.len(),
{
    if a.len() == 0 {
        assert(a + b =~= b);
        assert(escape_seq(a) + escape_seq(b) =~= escape_seq(b));
    } else {
        assert((a + b).drop_first() =~= a.drop_first() + b);
        assert((a + b)[0] == a[0]);
        lemma_escape_append(a.drop_first(), b);
        assert(escape_seq(a + b) =~= escape_seq(a) + escape_seq(b));
    }
}

/// Reading a string back under the format's unescape rules: two double
/// quotes yield one, a backslash escape yields the escaped character, any
/// other character passes through.  A lone double quote or a backslash
/// before an unknown character does not form valid escaped text.
pub open spec fn unescape_seq(s: Seq<char>) -> Option<Seq<char>>
    decreases s.len(),
{
    if s.len() == 0 {
        Some(Seq::empty())
    } else if s[0] == '"' {
        if s.len() >= 2 && s[1] == '"' {
            match unescape_seq(s.skip(2)) {
                Some(rest) => Some(seq!['"'] + rest),
                None => None,
            }
        } else {
            None
        }
    } else if s[0] == '\\' {
        if s.len() >= 2 {
            match unescape_char_spec(s[1]) {
                Some(d) => match unescape_seq(s.skip(2)) {
                    Some(rest) => Some(seq![d] + rest),
                    None => None,
                },
                None => None,
            }
        } else {
            None
        }
    } else {
        match unescape_seq(s.skip(1)) {
            Some(rest) => Some(seq![s[0]] + rest),
            None => None,
        }
    }
}

/// The character denoted by a backslash escape, if the escape is known.
pub open spec fn unescape_char_spec(c: char) -> Option<char> {
    if c == '\\' {
        Some('\\')
    } else if c == '\'' {
        Some('\'')
    } else if c == 'n' {
        Some('\n')
    } else if c == 't' {
        Some('\t')
    } else if c == 'r' {
        Some('\r')
    } else {
        None
    }
}

/// Escaping is idempotent under re-parsing: reading an escaped string back
/// under the unescape rules reproduces the original string exactly.
pub proof fn lemma_escape_round_trip(s: Seq<char>)
    ensures
        unescape_seq(escape_seq(s)) == Some(s),
    decreases s.len(),
{
    if s.len() == 0 {
        assert(escape_seq(s) =~= Seq::<char>::empty());
    } else {
        let c = s[0];
        let e = escape_char_spec(c);
        let t = escape_seq(s.drop_first());
        lemma_escape_round_trip(s.drop_first());
        assert(escape_seq(s) == e + t);
        if c == '"' {
            assert((e + t)[0] == '"');
            assert((e + t)[1] == '"');
            assert((e + t).skip(2) =~= t);
            assert(seq!['"'] + s.drop_first() =~= s);
        } else if c == '\\' || c == '\'' || c == '\n' || c == '\t' || c == '\r' {
            assert((e + t)[0] == '\\');
            assert((e + t)[1] == e[1]);
            assert(unescape_char_spec(e[1]) == Some(c));
            assert((e + t).skip(2) =~= t);
            assert(seq![c] + s.drop_first() =~= s);
        } else {
            assert((e + t)[0] == c);
            assert((e + t).skip(1) =~= t);
            assert(seq![c] + s.drop_first() =~= s);
        }
    }
}

/// Escape a string for inclusion in a quoted literal of the generated text.
pub fn escape_string(string: &str) -> (escaped: String)
    ensures
        escaped@ == escape_seq(string@),
{
    let n: usize = string.unicode_len();
    let mut escaped = String::new();
    let mut i: usize = 0;
    while i < n
        invariant
            n == string@.len(),
            i <= n,
            escaped@ == escape_seq(string@.take(i as int)),
        decreases n - i,
    {
        let ghost prefix = escaped@;
        let ghost sc = string@[i as int];
        let c = string.get_char(i);
        if c == '"' {
            escaped.append("\"\"");
        } else if c == '\'' {
            escaped.append("\\'");
        } else if c == '\\' {
            escaped.append("\\\\");
        } else if c == '\n' {
            escaped.append("\\n");
        } else if c == '\t' {
            escaped.append("\\t");
        } else if c == '\r' {
            escaped.append("\\r");
        } else {
            escaped.push(c);
            proof {
                assert(escaped@ =~= prefix + seq![sc]);
            }
        }
        proof {
            reveal_strlit("\"\"");
            reveal_strlit("\\'");
            reveal_strlit("\\\\");
            reveal_strlit("\\n");
            reveal_strlit("\\t");
            reveal_strlit("\\r");
            assert(("\"\"")@ =~= seq!['"', '"']);
            assert(("\\'")@ =~= seq!['\\', '\'']);
            assert(("\\\\")@ =~= seq!['\\', '\\']);
            assert(("\\n")@ =~= seq!['\\', 'n']);
            assert(("\\t")@ =~= seq!['\\', 't']);
            assert(("\\r")@ =~= seq!['\\', 'r']);
            assert(escaped@ == prefix + escape_char_spec(sc));
            assert(string@.take(i + 1) =~= string@.take(i as int) + seq![sc]);
            lemma_escape_append(string@.take(i as int), seq![sc]);
            assert(seq![sc].drop_first() =~= Seq::<char>::empty());
            assert(escape_seq(Seq::<char>::empty()) == Seq::<char>::empty());
            assert(escape_seq(seq![sc]) =~= escape_char_spec(sc));
            assert(escaped@ =~= escape_seq(string@.take(i + 1)));
        }
        i = i + 1;
    }
    proof {
        assert(string@.take(n as int) =~= string@);
    }
    escaped
}

/// Read a string back under the unescape rules; `None` where the text is
/// not the escaped form of any string.
pub fn unescape_string(s: &str) -> (r: Option<String>)
    ensures
        match r {
            Some(u) => unescape_seq(s@) == Some(u@),
            None => unescape_seq(s@) is None,
        },
{
    let n: usize = s.unicode_len();
    let mut out = String::new();
    let mut i: usize = 0;
    proof {
        assert(s@.skip(0) =~= s@);
        match unescape_seq(s@) {
            Some(rest) => {
                assert(Seq::<char>::empty() + rest =~= rest);
            },
            None => {},
        }
    }
    while i < n
        invariant
            n == s@.len(),
            i <= n,
            unescape_seq(s@) == match unescape_seq(s@.skip(i as int)) {
                Some(rest) => Some(out@ + rest),
                None => None::<Seq<char>>,
            },
        decreases n - i,
    {
        let ghost pre = s@.skip(i as int);
        let ghost prefix = out@;
        let c = s.get_char(i);
        proof {
            assert(pre[0] == s@[i as int]);
        }
        if c == '"' {
            if i + 1 < n && s.get_char(i + 1) == '"' {
                out.push('"');
                proof {
                    assert(pre.len() >= 2 && pre[1] == '"');
                    assert(pre.skip(2) =~= s@.skip(i + 2));
                    match unescape_seq(s@.skip(i + 2)) {
                        Some(rest) => {
                            assert(prefix + (seq!['"'] + rest) =~= out@ + rest);
                        },
                        None => {},
                    }
                }
                i = i + 2;
            } else {
                proof {
                    assert(!(pre.len() >= 2 && pre[1] == '"'));
                }
                return None;
            }
        } else if c == '\\' {
            if i + 1 < n {
                let d = s.get_char(i + 1);
                proof {
                    assert(pre[1] == s@[i + 1]);
                }
                let dec: Option<char> = if d == '\\' {
                    Some('\\')
                } else if d == '\'' {
                    Some('\'')
                } else if d == 'n' {
                    Some('\n')
                } else if d == 't' {
                    Some('\t')
                } else if d == 'r' {
                    Some('\r')
                } else {
                    None
                };
                match dec {
                    Some(dc) => {
                        out.push(dc);
                        proof {
                            assert(unescape_char_spec(pre[1]) == Some(dc));
                            assert(pre.skip(2) =~= s@.skip(i + 2));
                            match unescape_seq(s@.skip(i + 2)) {
                                Some(rest) => {
                                    assert(prefix + (seq![dc] + rest) =~= out@ + rest);
                                },
                                None => {},
                            }
                        }
                        i = i + 2;
                    },
                    None => {
                        proof {
                            assert(unescape_char_spec(pre[1]) is None);
                        }
                        return None;
                    },
                }
            } else {
                return None;
            }
        } else {
            out.push(c);
            proof {
                assert(pre.skip(1) =~= s@.skip(i + 1));
                match unescape_seq(s@.skip(i + 1)) {
                    Some(rest) => {
                        assert(prefix + (seq![pre[0]] + rest) =~= out@ + rest);
                    },
                    None => {},
                }
            }
            i = i + 1;
        }
    }
    proof {
        assert(s@.skip(n as int) =~= Seq::<char>::empty());
        assert(out@ + Seq::<char>::empty() =~= out@);
    }
    Some(out)
}

} // verus!
