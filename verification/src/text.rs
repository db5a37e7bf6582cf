//! Character-level helpers for the lesson-script syntax: trimming,
//! comparison and scanning over `&str` values, each specified against the
//! `Seq<char>` view.

use vstd::prelude::*;

verus! {

/// The white-space characters of `char::is_whitespace` (the Unicode
/// `White_Space` set), written out so that trimming has an exact meaning.
pub open spec fn is_wspace(c: char) -> bool {
    ||| c == ' '
    ||| c == '\t'
    ||| c == '\n'
    ||| c == '\r'
    ||| c == '\u{b}'
    ||| c == '\u{c}'
    ||| c == '\u{85}'
    ||| c == '\u{a0}'
    ||| c == '\u{1680}'
    ||| c == '\u{2000}'
    ||| c == '\u{2001}'
    ||| c == '\u{2002}'
    ||| c == '\u{2003}'
    ||| c == '\u{2004}'
    ||| c == '\u{2005}'
    ||| c == '\u{2006}'
    ||| c == '\u{2007}'
    ||| c == '\u{2008}'
    ||| c == '\u{2009}'
    ||| c == '\u{200a}'
    ||| c == '\u{2028}'
    ||| c == '\u{2029}'
    ||| c == '\u{202f}'
    ||| c == '\u{205f}'
    ||| c == '\u{3000}'
}

/// Runtime test for [`is_wspace`].
pub fn wspace(c: char) -> (b: bool)
    ensures
        b == is_wspace(c),
{
    c == ' ' || c == '\t' || c == '\n' || c == '\r' || c == '\u{b}' || c == '\u{c}'
        || c == '\u{85}' || c == '\u{a0}' || c == '\u{1680}' || c == '\u{2000}'
        || c == '\u{2001}' || c == '\u{2002}' || c == '\u{2003}' || c == '\u{2004}'
        || c == '\u{2005}' || c == '\u{2006}' || c == '\u{2007}' || c == '\u{2008}'
        || c == '\u{2009}' || c == '\u{200a}' || c == '\u{2028}' || c == '\u{2029}'
        || c == '\u{202f}' || c == '\u{205f}' || c == '\u{3000}'
}

/// Index of the first non-white-space character at or after `i`, or the
/// length of `s` if white space runs to the end.
pub open spec fn first_non_ws(s: Seq<char>, i: int) -> int
    decreases s.len() - i,
{
    if i >= s.len() {
        s.len() as int
    } else if !is_wspace(s[i]) {
        i
    } else {
        first_non_ws(s, i + 1)
    }
}

/// End (exclusive) of the last non-white-space character strictly before
/// `j`, or `0` if white space runs back to the start.
pub open spec fn last_non_ws(s: Seq<char>, j: int) -> int
    decreases j,
{
    if j <= 0 {
        0
    } else if !is_wspace(s[j - 1]) {
        j
    } else {
        last_non_ws(s, j - 1)
    }
}

/// What `str::trim` leaves of `s`.
pub open spec fn trim_spec(s: Seq<char>) -> Seq<char> {
    let a = first_non_ws(s, 0);
    let b = last_non_ws(s, s.len() as int);
    if a < b {
        s.subrange(a, b)
    } else {
        Seq::empty()
    }
}

pub proof fn lemma_first_non_ws_at(s: Seq<char>, i: int, a: int)
    requires
        0 <= i <= a <= s.len(),
        forall|k: int| i <= k < a ==> is_wspace(s[k]),
        a == s.len() || !is_wspace(s[a]),
    ensures
        first_non_ws(s, i) == a,
    decreases a - i,
{
    if i < a {
        lemma_first_non_ws_at(s, i + 1, a);
    }
}

pub proof fn lemma_last_non_ws_at(s: Seq<char>, j: int, b: int)
    requires
        0 <= b <= j <= s.len(),
        forall|k: int| b <= k < j ==> is_wspace(s[k]),
        b == 0 || !is_wspace(s[b - 1]),
    ensures
        last_non_ws(s, j) == b,
    decreases j - b,
{
    if b < j {
        lemma_last_non_ws_at(s, j - 1, b);
    }
}

/// `str::trim`, verified against [`trim_spec`].
pub fn trim(s: &str) -> (r: &str)
    ensures
        r@ == trim_spec(s@),
{
    let n = s.unicode_len();
    let mut a: usize = 0;
    while a < n && wspace(s.get_char(a))
        invariant
            n == s@.len(),
            0 <= a <= n,
            forall|k: int| 0 <= k < a ==> is_wspace(s@[k]),
        decreases n - a,
    {
        a = a + 1;
    }
    let mut b: usize = n;
    while b > a && wspace(s.get_char(b - 1))
        invariant
            n == s@.len(),
            a <= b <= n,
            forall|k: int| b <= k < n ==> is_wspace(s@[k]),
        decreases b,
    {
        b = b - 1;
    }
    if a < b {
        proof {
            lemma_first_non_ws_at(s@, 0, a as int);
            lemma_last_non_ws_at(s@, s@.len() as int, b as int);
        }
        s.substring_char(a, b)
    } else {
        proof {
            // Only an all-white-space string ends the scans with a == b.
            assert(a == n);
            lemma_first_non_ws_at(s@, 0, a as int);
            lemma_last_non_ws_at(s@, s@.len() as int, 0);
            reveal_strlit("");
            assert(""@ =~= trim_spec(s@));
        }
        ""
    }
}

/// Character-by-character string equality.
pub fn str_eq(a: &str, b: &str) -> (r: bool)
    ensures
        r == (a@ == b@),
{
    let na = a.unicode_len();
    let nb = b.unicode_len();
    if na != nb {
        return false;
    }
    let mut i: usize = 0;
    while i < na
        invariant
            na == a@.len(),
            na == b@.len(),
            0 <= i <= na,
            forall|k: int| 0 <= k < i ==> a@[k] == b@[k],
        decreases na - i,
    {
        if a.get_char(i) != b.get_char(i) {
            return false;
        }
        i = i + 1;
    }
    proof {
        assert(a@ =~= b@);
    }
    true
}

/// `s` with every trailing `c` removed, as `str::trim_end_matches` does for
/// a single-character pattern.
pub open spec fn strip_trailing_spec(s: Seq<char>, c: char) -> Seq<char>
    decreases s.len(),
{
    if s.len() > 0 && s.last() == c {
        strip_trailing_spec(s.drop_last(), c)
    } else {
        s
    }
}

proof fn lemma_strip_trailing_at(s: Seq<char>, c: char, b: int)
    requires
        0 <= b <= s.len(),
        forall|k: int| b <= k < s.len() ==> s[k] == c,
        b == 0 || s[b - 1] != c,
    ensures
        strip_trailing_spec(s, c) == s.subrange(0, b),
    decreases s.len(),
{
    if s.len() > 0 && s.last() == c {
        assert(s.drop_last() =~= s.subrange(0, s.len() - 1));
        lemma_strip_trailing_at(s.drop_last(), c, b);
        assert(s.drop_last().subrange(0, b) =~= s.subrange(0, b));
    } else {
        assert(s.subrange(0, b) =~= s);
    }
}

/// `str::trim_end_matches` for a single-character pattern.
pub fn strip_trailing(s: &str, c: char) -> (r: &str)
    ensures
        r@ == strip_trailing_spec(s@, c),
{
    let n = s.unicode_len();
    let mut b: usize = n;
    while b > 0 && s.get_char(b - 1) == c
        invariant
            n == s@.len(),
            0 <= b <= n,
            forall|k: int| b <= k < n ==> s@[k] == c,
        decreases b,
    {
        b = b - 1;
    }
    proof {
        lemma_strip_trailing_at(s@, c, b as int);
    }
    s.substring_char(0, b)
}

/// A line holding nothing but white space (an empty one included).
pub open spec fn is_blank(s: Seq<char>) -> bool {
    forall|i: int| 0 <= i < s.len() ==> is_wspace(s[i])
}

/// Runtime test for [`is_blank`].
pub fn blank(s: &str) -> (b: bool)
    ensures
        b == is_blank(s@),
{
    let n = s.unicode_len();
    let mut i: usize = 0;
    while i < n
        invariant
            n == s@.len(),
            0 <= i <= n,
            forall|k: int| 0 <= k < i ==> is_wspace(s@[k]),
        decreases n - i,
    {
        if !wspace(s.get_char(i)) {
            return false;
        }
        i = i + 1;
    }
    true
}

/// The decimal digits.
pub open spec fn is_digit(c: char) -> bool {
    ||| c == '0'
    ||| c == '1'
    ||| c == '2'
    ||| c == '3'
    ||| c == '4'
    ||| c == '5'
    ||| c == '6'
    ||| c == '7'
    ||| c == '8'
    ||| c == '9'
}

/// First occurrence of `c` at or after `i`, or `None`.
pub open spec fn find_char_spec(s: Seq<char>, c: char, i: int) -> Option<int>
    decreases s.len() - i,
{
    if i >= s.len() {
        None
    } else if s[i] == c {
        Some(i)
    } else {
        find_char_spec(s, c, i + 1)
    }
}

pub proof fn lemma_find_char_bounds(s: Seq<char>, c: char, i: int)
    requires
        0 <= i <= s.len(),
    ensures
        find_char_spec(s, c, i) matches Some(j) ==> i <= j < s.len() && s[j] == c,
    decreases s.len() - i,
{
    if i < s.len() && s[i] != c {
        lemma_find_char_bounds(s, c, i + 1);
    }
}

/// A find result names the first occurrence: nothing earlier matches.
pub proof fn lemma_find_char_first(s: Seq<char>, c: char, i: int)
    requires
        0 <= i <= s.len(),
    ensures
        find_char_spec(s, c, i) matches Some(j) ==> forall|k: int| i <= k < j ==> s[k] != c,
        find_char_spec(s, c, i) is None ==> forall|k: int| i <= k < s.len() ==> s[k] != c,
    decreases s.len() - i,
{
    if i < s.len() && s[i] != c {
        lemma_find_char_first(s, c, i + 1);
        lemma_find_char_bounds(s, c, i + 1);
    }
}

/// Linear scan for `c`, verified against [`find_char_spec`].
pub fn find_char(s: &str, c: char, from: usize) -> (r: Option<usize>)
    requires
        from <= s@.len(),
    ensures
        match r {
            Some(j) => find_char_spec(s@, c, from as int) == Some(j as int) && from <= j
                < s@.len() && s@[j as int] == c,
            None => find_char_spec(s@, c, from as int) is None,
        },
{
    let n = s.unicode_len();
    let mut i: usize = from;
    while i < n
        invariant
            n == s@.len(),
            from <= i <= n,
            find_char_spec(s@, c, from as int) == find_char_spec(s@, c, i as int),
        decreases n - i,
    {
        if s.get_char(i) == c {
            return Some(i);
        }
        i = i + 1;
    }
    None
}

} // verus!
