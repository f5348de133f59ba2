//! Character- and string-level helpers shared by the parsing logic.
//!
//! Everything here is verified against sequence-level specifications:
//! trimming, equality, whitespace search and the search for the
//! two-character `==` separator.

use vstd::prelude::*;
use vstd::string::*;

verus! {

/// The whitespace characters that trimming and validation recognise:
/// space, tab, line feed, vertical tab, form feed and carriage return.
pub open spec fn spec_is_space(c: char) -> bool {
    c == ' ' || c == '\t' || c == '\n' || c == '\u{0b}' || c == '\u{0c}' || c == '\r'
}

/// Decides whether `c` is one of the recognised whitespace characters.
pub fn is_space_char(c: char) -> (r: bool)
    ensures
        r == spec_is_space(c),
{
    c == ' ' || c == '\t' || c == '\n' || c == '\u{0b}' || c == '\u{0c}' || c == '\r'
}

/// The sequence with leading whitespace removed.
pub open spec fn spec_trim_start(s: Seq<char>) -> Seq<char>
    decreases s.len(),
{
    if s.len() > 0 && spec_is_space(s[0]) {
        spec_trim_start(s.subrange(1, s.len() as int))
    } else {
        s
    }
}

/// The sequence with trailing whitespace removed.
pub open spec fn spec_trim_end(s: Seq<char>) -> Seq<char>
    decreases s.len(),
{
    if s.len() > 0 && spec_is_space(s[s.len() - 1]) {
        spec_trim_end(s.subrange(0, s.len() - 1))
    } else {
        s
    }
}

/// The sequence with both leading and trailing whitespace removed.
pub open spec fn spec_trim(s: Seq<char>) -> Seq<char> {
    spec_trim_end(spec_trim_start(s))
}

/// The views of a sequence of strings.
pub open spec fn strs_view(s: Seq<String>) -> Seq<Seq<char>> {
    s.map_values(|x: String| x@)
}

/// Whether the sequence holds any recognised whitespace character.
pub open spec fn spec_has_space(s: Seq<char>) -> bool {
    exists|j: int| 0 <= j < s.len() && spec_is_space(s[j])
}

proof fn lemma_trim_start_at(s: Seq<char>, a: int)
    requires
        0 <= a <= s.len(),
        forall|j: int| 0 <= j < a ==> spec_is_space(s[j]),
        a == s.len() || !spec_is_space(s[a]),
    ensures
        spec_trim_start(s) == s.subrange(a, s.len() as int),
    decreases a,
{
    if a == 0 {
        if s.len() > 0 && spec_is_space(s[0]) {
            assert(false);
        }
        assert(s.subrange(0, s.len() as int) =~= s);
    } else {
        let tail = s.subrange(1, s.len() as int);
        assert(forall|j: int| 0 <= j < a - 1 ==> spec_is_space(tail[j]));
        lemma_trim_start_at(tail, a - 1);
        assert(tail.subrange(a - 1, tail.len() as int) =~= s.subrange(a, s.len() as int));
    }
}

proof fn lemma_trim_end_at(s: Seq<char>, b: int)
    requires
        0 <= b <= s.len(),
        forall|j: int| b <= j < s.len() ==> spec_is_space(s[j]),
        b == 0 || !spec_is_space(s[b - 1]),
    ensures
        spec_trim_end(s) == s.subrange(0, b),
    decreases s.len(),
{
    if b == s.len() {
        if s.len() > 0 && spec_is_space(s[s.len() - 1]) {
            assert(false);
        }
        assert(s.subrange(0, s.len() as int) =~= s);
    } else {
        let head = s.subrange(0, s.len() - 1);
        assert(forall|j: int| b <= j < head.len() ==> spec_is_space(head[j]));
        lemma_trim_end_at(head, b);
        assert(head.subrange(0, b) =~= s.subrange(0, b));
    }
}

/// Returns the slice of `s` with leading and trailing whitespace removed.
pub fn trim_str<'a>(s: &'a str) -> (r: &'a str)
    ensures
        r@ == spec_trim(s@),
{
    let n = s.unicode_len();
    let mut a: usize = 0;
    while a < n && is_space_char(s.get_char(a))
        invariant
            n == s@.len(),
            0 <= a <= n,
            forall|j: int| 0 <= j < a ==> spec_is_space(s@[j]),
        decreases n - a,
    {
        a = a + 1;
    }
    let mut b: usize = n;
    while b > a && is_space_char(s.get_char(b - 1))
        invariant
            n == s@.len(),
            0 <= a <= b <= n,
            forall|j: int| 0 <= j < a ==> spec_is_space(s@[j]),
            forall|j: int| b <= j < n ==> spec_is_space(s@[j]),
        decreases b,
    {
        b = b - 1;
    }
    proof {
        lemma_trim_start_at(s@, a as int);
        let t = s@.subrange(a as int, n as int);
        assert(forall|j: int| b - a <= j < t.len() ==> spec_is_space(t[j]));
        lemma_trim_end_at(t, b - a);
        assert(t.subrange(0, b - a) =~= s@.subrange(a as int, b as int));
    }
    s.substring_char(a, b)
}

/// Decides view equality of two string slices.
pub fn str_eq(a: &str, b: &str) -> (r: bool)
    ensures
        r == (a@ == b@),
{
    let na = a.unicode_len();
    let nb = b.unicode_len();
    if na != nb {
        return false;
    }
    let mut i: usize = 0;
    while i < na
        invariant
            na == a@.len(),
            na == b@.len(),
            0 <= i <= na,
            forall|j: int| 0 <= j < i ==> a@[j] == b@[j],
        decreases na - i,
    {
        if a.get_char(i) != b.get_char(i) {
            return false;
        }
        i = i + 1;
    }
    proof {
        assert(a@ =~= b@);
    }
    true
}

/// Decides whether `s` holds any recognised whitespace character.
pub fn contains_space(s: &str) -> (r: bool)
    ensures
        r == spec_has_space(s@),
{
    let n = s.unicode_len();
    let mut i: usize = 0;
    while i < n
        invariant
            n == s@.len(),
            0 <= i <= n,
            forall|j: int| 0 <= j < i ==> !spec_is_space(s@[j]),
        decreases n - i,
    {
        if is_space_char(s.get_char(i)) {
            return true;
        }
        i = i + 1;
    }
    false
}

/// Whether `p` is a prefix of `s`.
pub open spec fn spec_starts_with(s: Seq<char>, p: Seq<char>) -> bool {
    s.len() >= p.len() && s.subrange(0, p.len() as int) == p
}

/// Decides whether `p` is a prefix of `s`.
pub fn str_starts_with(s: &str, p: &str) -> (r: bool)
    ensures
        r == spec_starts_with(s@, p@),
{
    let n = s.unicode_len();
    let np = p.unicode_len();
    if n < np {
        return false;
    }
    let mut i: usize = 0;
    while i < np
        invariant
            n == s@.len(),
            np == p@.len(),
            np <= n,
            0 <= i <= np,
            forall|j: int| 0 <= j < i ==> s@[j] == p@[j],
        decreases np - i,
    {
        if s.get_char(i) != p.get_char(i) {
            proof {
                assert(s@.subrange(0, np as int)[i as int] != p@[i as int]);
            }
            return false;
        }
        i = i + 1;
    }
    proof {
        assert(s@.subrange(0, np as int) =~= p@);
    }
    true
}

/// The position of the first occurrence of `c` in `s`, if any.
pub open spec fn spec_find_char(s: Seq<char>, c: char) -> Option<int>
    decreases s.len(),
{
    if s.len() == 0 {
        None
    } else if s[0] == c {
        Some(0)
    } else {
        match spec_find_char(s.subrange(1, s.len() as int), c) {
            Some(i) => Some(i + 1),
            None => None,
        }
    }
}

/// What the first-occurrence position means: the character stands
/// there and nowhere earlier; `None` means it stands nowhere.
pub proof fn lemma_find_char_props(s: Seq<char>, c: char)
    ensures
        match spec_find_char(s, c) {
            Some(i) => 0 <= i < s.len() && s[i] == c && forall|j: int| 0 <= j < i ==> s[j] != c,
            None => forall|j: int| 0 <= j < s.len() ==> s[j] != c,
        },
    decreases s.len(),
{
    if s.len() == 0 {
    } else if s[0] == c {
    } else {
        let tail = s.subrange(1, s.len() as int);
        lemma_find_char_props(tail, c);
        match spec_find_char(tail, c) {
            Some(i) => {
                assert forall|j: int| 0 <= j < i + 1 implies s[j] != c by {
                    if j > 0 {
                        assert(tail[j - 1] != c);
                    }
                }
            },
            None => {
                assert forall|j: int| 0 <= j < s.len() implies s[j] != c by {
                    if j > 0 {
                        assert(tail[j - 1] != c);
                    }
                }
            },
        }
    }
}

proof fn lemma_find_char_at(s: Seq<char>, c: char, i: int)
    requires
        0 <= i < s.len(),
        s[i] == c,
        forall|j: int| 0 <= j < i ==> s[j] != c,
    ensures
        spec_find_char(s, c) == Some(i),
    decreases i,
{
    if i == 0 {
    } else {
        let tail = s.subrange(1, s.len() as int);
        assert(tail[i - 1] == c);
        assert forall|j: int| 0 <= j < i - 1 implies tail[j] != c by {
            assert(s[j + 1] != c);
        }
        lemma_find_char_at(tail, c, i - 1);
    }
}

proof fn lemma_find_char_none(s: Seq<char>, c: char)
    requires
        forall|j: int| 0 <= j < s.len() ==> s[j] != c,
    ensures
        spec_find_char(s, c) == None::<int>,
    decreases s.len(),
{
    if s.len() > 0 {
        let tail = s.subrange(1, s.len() as int);
        assert forall|j: int| 0 <= j < tail.len() implies tail[j] != c by {
            assert(s[j + 1] != c);
        }
        lemma_find_char_none(tail, c);
    }
}

/// Returns the position of the first occurrence of `c` at or after
/// `from`, relative to `from`.
pub fn find_char_from(s: &str, c: char, from: usize) -> (r: Option<usize>)
    requires
        from <= s@.len(),
    ensures
        match r {
            Some(i) => from + i <= s@.len() && spec_find_char(
                s@.subrange(from as int, s@.len() as int),
                c,
            ) == Some(i as int),
            None => spec_find_char(s@.subrange(from as int, s@.len() as int), c) == None::<int>,
        },
{
    let ghost suffix = s@.subrange(from as int, s@.len() as int);
    let n = s.unicode_len();
    let mut i: usize = from;
    while i < n
        invariant
            n == s@.len(),
            from <= i <= n,
            suffix == s@.subrange(from as int, s@.len() as int),
            forall|j: int| 0 <= j < i - from ==> suffix[j] != c,
        decreases n - i,
    {
        if s.get_char(i) == c {
            proof {
                assert(suffix[i - from] == c);
                lemma_find_char_at(suffix, c, i - from);
            }
            return Some(i - from);
        }
        i = i + 1;
    }
    proof {
        lemma_find_char_none(suffix, c);
    }
    None
}

/// Lexicographic order on character sequences, by scalar value.
pub open spec fn spec_lex_le(a: Seq<char>, b: Seq<char>) -> bool
    decreases a.len(),
{
    if a.len() == 0 {
        true
    } else if b.len() == 0 {
        false
    } else if a[0] == b[0] {
        spec_lex_le(a.subrange(1, a.len() as int), b.subrange(1, b.len() as int))
    } else {
        (a[0] as u32) < (b[0] as u32)
    }
}

/// The order is total: of any two sequences, one comes no later than
/// the other.
pub proof fn lemma_lex_le_total(a: Seq<char>, b: Seq<char>)
    ensures
        spec_lex_le(a, b) || spec_lex_le(b, a),
    decreases a.len(),
{
    if a.len() > 0 && b.len() > 0 && a[0] == b[0] {
        lemma_lex_le_total(a.subrange(1, a.len() as int), b.subrange(1, b.len() as int));
    } else if a.len() > 0 && b.len() > 0 {
        vstd::utf8::char_u32_cast(a[0], a[0] as u32);
        vstd::utf8::char_u32_cast(b[0], b[0] as u32);
        assert((a[0] as u32) != (b[0] as u32));
    }
}

/// The order is transitive.
pub proof fn lemma_lex_le_trans(a: Seq<char>, b: Seq<char>, c: Seq<char>)
    requires
        spec_lex_le(a, b),
        spec_lex_le(b, c),
    ensures
        spec_lex_le(a, c),
    decreases a.len(),
{
    if a.len() == 0 || b.len() == 0 || c.len() == 0 {
    } else if a[0] == b[0] && b[0] == c[0] {
        lemma_lex_le_trans(
            a.subrange(1, a.len() as int),
            b.subrange(1, b.len() as int),
            c.subrange(1, c.len() as int),
        );
    }
}

/// Decides the lexicographic order of two string slices.
pub fn str_le(a: &str, b: &str) -> (r: bool)
    ensures
        r == spec_lex_le(a@, b@),
{
    let na = a.unicode_len();
    let nb = b.unicode_len();
    proof {
        assert(a@.subrange(0, na as int) =~= a@);
        assert(b@.subrange(0, nb as int) =~= b@);
    }
    let mut i: usize = 0;
    loop
        invariant
            na == a@.len(),
            nb == b@.len(),
            0 <= i <= na,
            0 <= i <= nb,
            forall|j: int| 0 <= j < i ==> a@[j] == b@[j],
            spec_lex_le(a@, b@) == spec_lex_le(
                a@.subrange(i as int, na as int),
                b@.subrange(i as int, nb as int),
            ),
        decreases na - i,
    {
        if i == na {
            return true;
        }
        if i == nb {
            return false;
        }
        let ca = a.get_char(i);
        let cb = b.get_char(i);
        if ca != cb {
            proof {
                let sa = a@.subrange(i as int, na as int);
                let sb = b@.subrange(i as int, nb as int);
                assert(sa[0] == ca && sb[0] == cb);
            }
            return (ca as u32) < (cb as u32);
        }
        proof {
            let sa = a@.subrange(i as int, na as int);
            let sb = b@.subrange(i as int, nb as int);
            assert(sa[0] == sb[0]);
            assert(sa.subrange(1, sa.len() as int) =~= a@.subrange(i + 1, na as int));
            assert(sb.subrange(1, sb.len() as int) =~= b@.subrange(i + 1, nb as int));
        }
        i = i + 1;
    }
}

/// Whether the two-character separator `==` starts at position `j` of `s`.
pub open spec fn spec_sep_at(s: Seq<char>, j: int) -> bool {
    0 <= j && j + 2 <= s.len() && s[j] == '=' && s[j + 1] == '='
}

/// The position of the first occurrence of the separator `==`, if any.
pub open spec fn spec_find_sep(s: Seq<char>) -> Option<int>
    decreases s.len(),
{
    if s.len() < 2 {
        None
    } else if s[0] == '=' && s[1] == '=' {
        Some(0)
    } else {
        match spec_find_sep(s.subrange(1, s.len() as int)) {
            Some(i) => Some(i + 1),
            None => None,
        }
    }
}

/// What the first-separator position means: the separator stands there,
/// and nowhere earlier; `None` means it stands nowhere.
pub proof fn lemma_find_sep_props(s: Seq<char>)
    ensures
        match spec_find_sep(s) {
            Some(i) => spec_sep_at(s, i) && forall|j: int| 0 <= j < i ==> !spec_sep_at(s, j),
            None => forall|j: int| !spec_sep_at(s, j),
        },
    decreases s.len(),
{
    if s.len() < 2 {
    } else if s[0] == '=' && s[1] == '=' {
    } else {
        let tail = s.subrange(1, s.len() as int);
        lemma_find_sep_props(tail);
        match spec_find_sep(tail) {
            Some(i) => {
                assert(spec_sep_at(s, i + 1));
                assert forall|j: int| 0 <= j < i + 1 implies !spec_sep_at(s, j) by {
                    if j == 0 {
                    } else {
                        assert(!spec_sep_at(tail, j - 1));
                    }
                }
            },
            None => {
                assert forall|j: int| !spec_sep_at(s, j) implies true by {}
                assert forall|j: int| 0 <= j implies !spec_sep_at(s, j) by {
                    if j == 0 {
                    } else {
                        assert(!spec_sep_at(tail, j - 1));
                    }
                }
            },
        }
    }
}

proof fn lemma_find_sep_at(s: Seq<char>, i: int)
    requires
        spec_sep_at(s, i),
        forall|j: int| 0 <= j < i ==> !spec_sep_at(s, j),
    ensures
        spec_find_sep(s) == Some(i),
    decreases i,
{
    if i == 0 {
    } else {
        assert(!spec_sep_at(s, 0));
        let tail = s.subrange(1, s.len() as int);
        assert(spec_sep_at(tail, i - 1));
        assert forall|j: int| 0 <= j < i - 1 implies !spec_sep_at(tail, j) by {
            assert(!spec_sep_at(s, j + 1));
        }
        lemma_find_sep_at(tail, i - 1);
    }
}

proof fn lemma_find_sep_none(s: Seq<char>)
    requires
        forall|j: int| !spec_sep_at(s, j),
    ensures
        spec_find_sep(s) == None::<int>,
    decreases s.len(),
{
    if s.len() < 2 {
    } else {
        assert(!spec_sep_at(s, 0));
        let tail = s.subrange(1, s.len() as int);
        assert forall|j: int| !spec_sep_at(tail, j) by {
            if 0 <= j && j + 2 <= tail.len() {
                assert(!spec_sep_at(s, j + 1));
            }
        }
        lemma_find_sep_none(tail);
    }
}

/// Returns the position of the first `==` in `s`, if there is one.
pub fn find_separator(s: &str) -> (r: Option<usize>)
    ensures
        match r {
            Some(i) => spec_find_sep(s@) == Some(i as int),
            None => spec_find_sep(s@) == None::<int>,
        },
{
    let n = s.unicode_len();
    if n < 2 {
        proof {
            lemma_find_sep_none(s@);
        }
        return None;
    }
    let mut i: usize = 0;
    while i + 1 < n
        invariant
            n == s@.len(),
            n >= 2,
            0 <= i <= n - 1,
            forall|j: int| 0 <= j < i ==> !spec_sep_at(s@, j),
        decreases n - i,
    {
        if s.get_char(i) == '=' && s.get_char(i + 1) == '=' {
            proof {
                lemma_find_sep_at(s@, i as int);
            }
            return Some(i);
        }
        proof {
            assert(!spec_sep_at(s@, i as int));
        }
        i = i + 1;
    }
    proof {
        assert forall|j: int| !spec_sep_at(s@, j) by {
            if 0 <= j && j + 2 <= s@.len() {
                assert(j < i);
            }
        }
        lemma_find_sep_none(s@);
    }
    None
}

} // verus!
