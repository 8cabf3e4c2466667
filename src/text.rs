//! Character-level helpers on names and arguments.
use vstd::prelude::*;
use vstd::string::*;

verus! {

/// Whether `a` comes strictly before `b` in lexicographic order of characters.
pub open spec fn lex_lt(a: Seq<char>, b: Seq<char>) -> bool
    decreases a.len(),
{
    if b.len() == 0 {
        false
    } else if a.len() == 0 {
        true
    } else if a[0] != b[0] {
        (a[0] as int) < (b[0] as int)
    } else {
        lex_lt(a.drop_first(), b.drop_first())
    }
}

/// The position of the first `=` in `s` at or after `from`, or `s.len()`.
pub open spec fn find_eq(s: Seq<char>, from: int) -> int
    decreases s.len() - from,
{
    if from < 0 || from >= s.len() {
        s.len() as int
    } else if s[from] == '=' {
        from
    } else {
        find_eq(s, from + 1)
    }
}

/// The first two `=`-separated pieces of `s`, when `s` holds an `=`.
pub open spec fn split_pair(s: Seq<char>) -> Option<(Seq<char>, Seq<char>)> {
    let i = find_eq(s, 0);
    if i < s.len() {
        Some((s.subrange(0, i), s.subrange(i + 1, find_eq(s, i + 1))))
    } else {
        None
    }
}

/// `s` with every `-` replaced by `_`.
pub open spec fn snake_cased(s: Seq<char>) -> Seq<char> {
    s.map_values(|c: char| if c == '-' { '_' } else { c })
}

/// Whether a string holds exactly the characters of `t`.
pub fn str_eq(s: &str, t: &str) -> (r: bool)
    ensures
        r == (s@ == t@),
{
    let n = s.unicode_len();
    let m = t.unicode_len();
    if n != m {
        return false;
    }
    let mut i: usize = 0;
    while i < n
        invariant
            n == s@.len(),
            m == t@.len(),
            n == m,
            i <= n,
            s@.subrange(0, i as int) == t@.subrange(0, i as int),
        decreases n - i,
    {
        if s.get_char(i) != t.get_char(i) {
            assert(s@[i as int] != t@[i as int]);
            return false;
        }
        assert(s@.subrange(0, i + 1) == s@.subrange(0, i as int).push(s@[i as int]));
        assert(t@.subrange(0, i + 1) == t@.subrange(0, i as int).push(t@[i as int]));
        i = i + 1;
    }
    assert(s@ == s@.subrange(0, n as int));
    assert(t@ == t@.subrange(0, m as int));
    true
}

/// Whether `a` comes strictly before `b` in lexicographic order of characters.
pub fn str_lt(a: &str, b: &str) -> (r: bool)
    ensures
        r == lex_lt(a@, b@),
{
    let n = a.unicode_len();
    let m = b.unicode_len();
    let mut i: usize = 0;
    assert(a@.subrange(0, n as int) == a@);
    assert(b@.subrange(0, m as int) == b@);
    while i < n && i < m
        invariant
            n == a@.len(),
            m == b@.len(),
            i <= n,
            i <= m,
            lex_lt(a@, b@) == lex_lt(a@.subrange(i as int, n as int), b@.subrange(i as int, m as int)),
        decreases n - i,
    {
        let x = a.get_char(i);
        let y = b.get_char(i);
        let ghost sa = a@.subrange(i as int, n as int);
        let ghost sb = b@.subrange(i as int, m as int);
        assert(sa[0] == x && sb[0] == y);
        if x != y {
            return (x as u32) < (y as u32);
        }
        assert(sa.drop_first() == a@.subrange(i + 1, n as int));
        assert(sb.drop_first() == b@.subrange(i + 1, m as int));
        i = i + 1;
    }
    i < m
}

/// Position of the first `=` of `s` at or after `from`, or the length of `s`.
fn find_eq_exec(s: &str, n: usize, from: usize) -> (r: usize)
    requires
        n == s@.len(),
        from <= n,
    ensures
        r as int == find_eq(s@, from as int),
        from <= r <= n,
{
    let mut i = from;
    while i < n
        invariant
            n == s@.len(),
            from <= i <= n,
            find_eq(s@, from as int) == find_eq(s@, i as int),
        decreases n - i,
    {
        if s.get_char(i) == '=' {
            return i;
        }
        i = i + 1;
    }
    i
}

/// Splits `s` at `=` into its first two pieces, as `str::split` would give them.
pub fn split_pair_exec(s: &str) -> (r: Option<(String, String)>)
    ensures
        match r {
            Some(p) => split_pair(s@) == Some((p.0@, p.1@)),
            None => split_pair(s@) is None,
        },
{
    let n = s.unicode_len();
    let i = find_eq_exec(s, n, 0);
    if i < n {
        let j = find_eq_exec(s, n, i + 1);
        let a = s.substring_char(0, i).to_owned();
        let b = s.substring_char(i + 1, j).to_owned();
        Some((a, b))
    } else {
        None
    }
}

/// Relies on `str::replace`: every occurrence of the pattern `-` is replaced by `_`.
#[verifier::external_body]
pub(crate) fn snake_case(s: &str) -> (r: String)
    ensures
        r@ == snake_cased(s@),
{
    s.replace('-', "_")
}

} // verus!
