//! Small verified helpers on strings that the rest of the library shares.

use vstd::prelude::*;

verus! {

broadcast use vstd::string::group_string_axioms;

/// Relies on std's `String::push`: appending one character appends exactly
/// that character to the string's sequence of characters.
pub assume_specification[ String::push ](s: &mut String, ch: char)
    ensures
        final(s)@ == old(s)@.push(ch),
;

/// Character-for-character equality of two string slices.
pub fn str_eq(a: &str, b: &str) -> (r: bool)
    ensures
        r == (a@ == b@),
{
    let na: usize = a.unicode_len();
    let nb: usize = b.unicode_len();
    if na != nb {
        return false;
    }
    let mut i: usize = 0;
    while i < na
        invariant
            na == a@.len(),
            na == b@.len(),
            i <= na,
            forall|j: int| 0 <= j < i ==> a@[j] == b@[j],
        decreases na - i,
    {
        if a.get_char(i) != b.get_char(i) {
            return false;
        }
        i = i + 1;
    }
    proof {
        assert(a@ =~= b@);
    }
    true
}

/// The whitespace characters that trimming removes: space, tab, carriage
/// return and newline.
pub open spec fn is_space_spec(c: char) -> bool {
    c == ' ' || c == '\t' || c == '\r' || c == '\n'
}

/// A string without its leading whitespace.
pub open spec fn trim_start_spec(s: Seq<char>) -> Seq<char>
    decreases s.len(),
{
    if s.len() > 0 && is_space_spec(s[0]) {
        trim_start_spec(s.drop_first())
    } else {
        s
    }
}

/// A string without its trailing whitespace.
pub open spec fn trim_end_spec(s: Seq<char>) -> Seq<char>
    decreases s.len(),
{
    if s.len() > 0 && is_space_spec(s.last()) {
        trim_end_spec(s.drop_last())
    } else {
        s
    }
}

/// A string without leading and trailing whitespace.
pub open spec fn trim_spec(s: Seq<char>) -> Seq<char> {
    trim_end_spec(trim_start_spec(s))
}

proof fn lemma_trim_start_skip(s: Seq<char>, a: int)
    requires
        0 <= a <= s.len(),
        forall|j: int| 0 <= j < a ==> is_space_spec(s[j]),
        a < s.len() ==> !is_space_spec(s[a]),
    ensures
        trim_start_spec(s) == s.skip(a),
    decreases a,
{
    if a == 0 {
        if s.len() > 0 {
            assert(!is_space_spec(s[0]));
        }
        assert(s.skip(0) =~= s);
    } else {
        assert(is_space_spec(s[0]));
        assert(forall|j: int| 0 <= j < a - 1 ==> is_space_spec(#[trigger] s.drop_first()[j]));
        lemma_trim_start_skip(s.drop_first(), a - 1);
        assert(s.drop_first().skip(a - 1) =~= s.skip(a));
    }
}

proof fn lemma_trim_end_take(s: Seq<char>, b: int)
    requires
        0 <= b <= s.len(),
        forall|j: int| b <= j < s.len() ==> is_space_spec(s[j]),
        b > 0 ==> !is_space_spec(s[b - 1]),
    ensures
        trim_end_spec(s) == s.take(b),
    decreases s.len() - b,
{
    if b == s.len() {
        if s.len() > 0 {
            assert(!is_space_spec(s.last()));
        }
        assert(s.take(b) =~= s);
    } else {
        assert(is_space_spec(s.last()));
        assert(forall|j: int| b <= j < s.drop_last().len() ==> is_space_spec(
            #[trigger] s.drop_last()[j],
        ));
        lemma_trim_end_take(s.drop_last(), b);
        assert(s.drop_last().take(b) =~= s.take(b));
    }
}

/// The string without the common ASCII whitespace at either end.
pub fn trim_string(s: &str) -> (r: String)
    ensures
        r@ == trim_spec(s@),
{
    let n: usize = s.unicode_len();
    let mut a: usize = 0;
    while a < n && is_space(s.get_char(a))
        invariant
            n == s@.len(),
            a <= n,
            forall|j: int| 0 <= j < a ==> is_space_spec(s@[j]),
        decreases n - a,
    {
        a = a + 1;
    }
    let mut b: usize = n;
    while b > a && is_space(s.get_char(b - 1))
        invariant
            n == s@.len(),
            a <= b <= n,
            forall|j: int| b <= j < n ==> is_space_spec(s@[j]),
            a < n ==> !is_space_spec(s@[a as int]),
        decreases b,
    {
        b = b - 1;
    }
    let piece = s.substring_char(a, b);
    proof {
        lemma_trim_start_skip(s@, a as int);
        if b == a {
            lemma_trim_end_take(s@.skip(a as int), 0);
        } else {
            lemma_trim_end_take(s@.skip(a as int), b - a);
        }
        assert(s@.skip(a as int).take(b - a) =~= s@.subrange(a as int, b as int));
    }
    String::from_str(piece)
}

/// The string without its leading ASCII whitespace.
pub fn trim_start_string(s: &str) -> (r: String)
    ensures
        r@ == trim_start_spec(s@),
{
    let n: usize = s.unicode_len();
    let mut a: usize = 0;
    while a < n && is_space(s.get_char(a))
        invariant
            n == s@.len(),
            a <= n,
            forall|j: int| 0 <= j < a ==> is_space_spec(s@[j]),
        decreases n - a,
    {
        a = a + 1;
    }
    let piece = s.substring_char(a, n);
    proof {
        lemma_trim_start_skip(s@, a as int);
        assert(s@.subrange(a as int, n as int) =~= s@.skip(a as int));
    }
    String::from_str(piece)
}

fn is_space(c: char) -> (r: bool)
    ensures
        r == is_space_spec(c),
{
    c == ' ' || c == '\t' || c == '\r' || c == '\n'
}

/// A string split at every occurrence of a separator: one piece more than
/// there are separators, pieces free of the separator, in order.
pub open spec fn split_char_spec(s: Seq<char>, sep: char) -> Seq<Seq<char>>
    decreases s.len(),
{
    if s.len() == 0 {
        seq![Seq::<char>::empty()]
    } else if s[0] == sep {
        seq![Seq::<char>::empty()] + split_char_spec(s.drop_first(), sep)
    } else {
        let rest = split_char_spec(s.drop_first(), sep);
        seq![seq![s[0]] + rest[0]] + rest.drop_first()
    }
}

/// A split never yields an empty list of pieces.
pub proof fn lemma_split_char_len(s: Seq<char>, sep: char)
    ensures
        split_char_spec(s, sep).len() >= 1,
    decreases s.len(),
{
    if s.len() > 0 {
        lemma_split_char_len(s.drop_first(), sep);
    }
}

/// A string free of the separator splits into itself alone.
pub proof fn lemma_split_char_none(s: Seq<char>, sep: char)
    requires
        forall|j: int| 0 <= j < s.len() ==> s[j] != sep,
    ensures
        split_char_spec(s, sep) == seq![s],
    decreases s.len(),
{
    if s.len() == 0 {
        assert(split_char_spec(s, sep) =~~= seq![s]);
    } else {
        let t = s.drop_first();
        assert(forall|j: int| 0 <= j < t.len() ==> #[trigger] t[j] != sep);
        lemma_split_char_none(t, sep);
        let rest = split_char_spec(t, sep);
        assert(rest[0] == t);
        assert(seq![s[0]] + t =~= s);
        assert(rest.drop_first() =~= Seq::<Seq<char>>::empty());
        assert(split_char_spec(s, sep) =~~= seq![s]);
    }
}

/// Splitting at the first separator occurrence: the piece before it, then
/// the split of the text after it.
pub proof fn lemma_split_char_step(s: Seq<char>, sep: char, i: int)
    requires
        0 <= i < s.len(),
        s[i] == sep,
        forall|j: int| 0 <= j < i ==> s[j] != sep,
    ensures
        split_char_spec(s, sep) == seq![s.take(i)] + split_char_spec(s.skip(i + 1), sep),
    decreases i,
{
    if i == 0 {
        assert(s.take(0) =~= Seq::<char>::empty());
        assert(s.skip(1) =~= s.drop_first());
        assert(split_char_spec(s, sep) =~~= seq![s.take(0)] + split_char_spec(
            s.skip(1),
            sep,
        ));
    } else {
        let t = s.drop_first();
        assert(t[i - 1] == sep);
        assert(forall|j: int| 0 <= j < i - 1 ==> #[trigger] t[j] != sep);
        lemma_split_char_step(t, sep, i - 1);
        let rest = split_char_spec(t, sep);
        lemma_split_char_len(t.skip(i), sep);
        assert(rest[0] == t.take(i - 1));
        assert(rest.drop_first() =~= split_char_spec(t.skip(i), sep));
        assert(seq![s[0]] + t.take(i - 1) =~= s.take(i));
        assert(t.skip(i) =~= s.skip(i + 1));
        assert(split_char_spec(s, sep) =~~= seq![s.take(i)] + split_char_spec(
            s.skip(i + 1),
            sep,
        ));
    }
}

/// Split a string at every occurrence of a separator character.
pub fn split_string(s: &str, sep: char) -> (parts: Vec<String>)
    ensures
        parts.deep_view() == split_char_spec(s@, sep),
{
    let n: usize = s.unicode_len();
    let mut parts: Vec<String> = Vec::new();
    let mut start: usize = 0;
    let mut i: usize = 0;
    proof {
        assert(s@.skip(0) =~= s@);
        assert(parts.deep_view() + split_char_spec(s@, sep) =~= split_char_spec(s@, sep));
    }
    while i < n
        invariant
            n == s@.len(),
            start <= i <= n,
            forall|j: int| start <= j < i ==> s@[j] != sep,
            split_char_spec(s@, sep) == parts.deep_view() + split_char_spec(
                s@.skip(start as int),
                sep,
            ),
        decreases n - i,
    {
        let ghost parts_before = parts.deep_view();
        if s.get_char(i) == sep {
            let piece = s.substring_char(start, i);
            parts.push(String::from_str(piece));
            proof {
                let tail = s@.skip(start as int);
                assert(tail[i - start] == sep);
                assert(forall|j: int| 0 <= j < i - start ==> tail[j] != sep);
                lemma_split_char_step(tail, sep, i - start);
                assert(tail.take(i - start) =~= s@.subrange(start as int, i as int));
                assert(tail.skip(i - start + 1) =~= s@.skip(i + 1));
                assert(parts.deep_view() =~= parts_before + seq![s@.subrange(
                    start as int,
                    i as int,
                )]);
                assert(parts_before + (seq![tail.take(i - start)] + split_char_spec(
                    s@.skip(i + 1),
                    sep,
                )) =~= parts.deep_view() + split_char_spec(s@.skip(i + 1), sep));
            }
            start = i + 1;
        }
        i = i + 1;
    }
    let ghost parts_before = parts.deep_view();
    let piece = s.substring_char(start, n);
    parts.push(String::from_str(piece));
    proof {
        let tail = s@.skip(start as int);
        assert(forall|j: int| 0 <= j < tail.len() ==> #[trigger] tail[j] != sep);
        lemma_split_char_none(tail, sep);
        assert(tail =~= s@.subrange(start as int, n as int));
        assert(parts.deep_view() =~= parts_before + seq![tail]);
    }
    parts
}

/// The lines of a text: pieces between newlines, a trailing newline ending
/// the last line rather than opening an empty one.
pub open spec fn lines_spec(s: Seq<char>) -> Seq<Seq<char>> {
    if s.len() == 0 {
        Seq::empty()
    } else if s.last() == '\n' {
        split_char_spec(s.drop_last(), '\n')
    } else {
        split_char_spec(s, '\n')
    }
}

/// Split a text into lines.
pub fn split_lines(s: &str) -> (lines: Vec<String>)
    ensures
        lines.deep_view() == lines_spec(s@),
{
    let n: usize = s.unicode_len();
    if n == 0 {
        let parts: Vec<String> = Vec::new();
        proof {
            assert(parts.deep_view() =~= lines_spec(s@));
        }
        return parts;
    }
    if s.get_char(n - 1) == '\n' {
        let head = s.substring_char(0, n - 1);
        proof {
            assert(head@ =~= s@.drop_last());
        }
        split_string(head, '\n')
    } else {
        split_string(s, '\n')
    }
}

/// Whether a string starts with a given prefix.
pub open spec fn starts_with_spec(s: Seq<char>, p: Seq<char>) -> bool {
    s.len() >= p.len() && s.take(p.len() as int) == p
}

/// Whether the string starts with the given prefix.
pub fn starts_with(s: &str, p: &str) -> (r: bool)
    ensures
        r == starts_with_spec(s@, p@),
{
    let ns: usize = s.unicode_len();
    let np: usize = p.unicode_len();
    if ns < np {
        proof {
            assert(!starts_with_spec(s@, p@));
        }
        return false;
    }
    let mut i: usize = 0;
    while i < np
        invariant
            ns == s@.len(),
            np == p@.len(),
            np <= ns,
            i <= np,
            forall|j: int| 0 <= j < i ==> s@[j] == p@[j],
        decreases np - i,
    {
        if s.get_char(i) != p.get_char(i) {
            proof {
                assert(s@.take(np as int)[i as int] != p@[i as int]);
            }
            return false;
        }
        i = i + 1;
    }
    proof {
        assert(s@.take(np as int) =~= p@);
    }
    true
}

/// The index of the first occurrence of a pattern as a contiguous
/// substring, if it occurs at all.
pub open spec fn find_sub_spec(s: Seq<char>, p: Seq<char>) -> Option<int>
    decreases s.len(),
{
    if p.len() == 0 {
        Some(0)
    } else if s.len() < p.len() {
        None
    } else if s.take(p.len() as int) == p {
        Some(0)
    } else {
        match find_sub_spec(s.drop_first(), p) {
            Some(i) => Some(i + 1),
            None => None,
        }
    }
}

proof fn lemma_find_sub_at(s: Seq<char>, p: Seq<char>, i: int)
    requires
        0 <= i,
        i + p.len() <= s.len(),
        s.subrange(i, i + p.len()) == p,
        forall|j: int| 0 <= j < i ==> #[trigger] s.subrange(j, j + p.len()) != p,
    ensures
        find_sub_spec(s, p) == Some(i),
    decreases i,
{
    if i == 0 {
        if p.len() > 0 {
            assert(s.take(p.len() as int) =~= s.subrange(0, p.len() as int));
        }
    } else {
        if p.len() == 0 {
            assert(s.subrange(0, 0 + p.len() as int) =~= p);
            assert(false);
        }
        assert(s.subrange(0, 0 + p.len() as int) != p);
        assert(s.take(p.len() as int) =~= s.subrange(0, 0 + p.len() as int));
        let t = s.drop_first();
        assert forall|j: int| 0 <= j < i - 1 implies #[trigger] t.subrange(j, j + p.len()) != p by {
            assert(t.subrange(j, j + p.len()) =~= s.subrange(j + 1, j + 1 + p.len()));
        }
        assert(t.subrange(i - 1, i - 1 + p.len()) =~= s.subrange(i, i + p.len()));
        lemma_find_sub_at(t, p, i - 1);
    }
}

proof fn lemma_find_sub_none(s: Seq<char>, p: Seq<char>)
    requires
        p.len() > 0,
        forall|j: int| 0 <= j <= s.len() - p.len() ==> #[trigger] s.subrange(j, j + p.len()) != p,
    ensures
        find_sub_spec(s, p) is None,
    decreases s.len(),
{
    if s.len() >= p.len() {
        assert(s.subrange(0, 0 + p.len() as int) != p);
        assert(s.take(p.len() as int) =~= s.subrange(0, 0 + p.len() as int));
        let t = s.drop_first();
        assert forall|j: int| 0 <= j <= t.len() - p.len() implies #[trigger] t.subrange(j, j + p.len()) != p by {
            assert(t.subrange(j, j + p.len()) =~= s.subrange(j + 1, j + 1 + p.len()));
        }
        lemma_find_sub_none(t, p);
    }
}

/// Find the first occurrence of a pattern substring.
pub fn find_substring(s: &str, p: &str) -> (r: Option<usize>)
    ensures
        match r {
            Some(i) => find_sub_spec(s@, p@) == Some(i as int) && i + p@.len() <= s@.len(),
            None => find_sub_spec(s@, p@) is None,
        },
{
    let ns: usize = s.unicode_len();
    let np: usize = p.unicode_len();
    if np == 0 {
        return Some(0);
    }
    if ns < np {
        return None;
    }
    let mut i: usize = 0;
    while i <= ns - np
        invariant
            ns == s@.len(),
            np == p@.len(),
            0 < np <= ns,
            i <= ns - np + 1,
            forall|j: int| 0 <= j < i ==> #[trigger] s@.subrange(j, j + p@.len()) != p@,
        decreases ns - np + 1 - i,
    {
        let mut k: usize = 0;
        let mut matches = true;
        while k < np && matches
            invariant
                ns == s@.len(),
                np == p@.len(),
                0 < np <= ns,
                i <= ns - np,
                k <= np,
                matches ==> forall|j: int| 0 <= j < k ==> s@[i + j] == p@[j],
                !matches ==> s@.subrange(i as int, i + p@.len()) != p@,
            decreases np - k + (if matches { 1int } else { 0int }),
        {
            if s.get_char(i + k) != p.get_char(k) {
                proof {
                    assert(s@.subrange(i as int, i + p@.len())[k as int] != p@[k as int]);
                }
                matches = false;
            } else {
                k = k + 1;
            }
        }
        if matches {
            proof {
                assert(s@.subrange(i as int, i + p@.len()) =~= p@);
                lemma_find_sub_at(s@, p@, i as int);
            }
            return Some(i);
        }
        i = i + 1;
    }
    proof {
        lemma_find_sub_none(s@, p@);
    }
    None
}

/// A path joined from a base and a relative tail with the Windows
/// separator, no separator doubled where the base already ends with one.
pub open spec fn join_path_spec(a: Seq<char>, b: Seq<char>) -> Seq<char> {
    if a.len() == 0 {
        b
    } else if a.last() == '\\' {
        a + b
    } else {
        a + seq!['\\'] + b
    }
}

/// Join a base path and a relative tail with the Windows separator.
pub fn join_path(a: &str, b: &str) -> (r: String)
    ensures
        r@ == join_path_spec(a@, b@),
{
    let na: usize = a.unicode_len();
    let mut r = String::from_str(a);
    if na > 0 && a.get_char(na - 1) != '\\' {
        r.push('\\');
    }
    r.append(b);
    proof {
        if na == 0 {
            assert(r@ =~= b@);
        } else if a@.last() == '\\' {
            assert(r@ =~= a@ + b@);
        } else {
            assert(r@ =~= a@ + seq!['\\'] + b@);
        }
    }
    r
}

} // verus!
