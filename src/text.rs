//! Character-level helpers over `str`: comparison, trimming, splitting on spaces.
use vstd::prelude::*;
use vstd::string::*;
use vstd::utf8::is_ascii_chars;

verus! {

/// Unicode `White_Space`, the set that `char::is_whitespace` tests.
pub open spec fn is_white(c: char) -> bool {
    ('\u{9}' <= c && c <= '\u{d}') || c == ' ' || c == '\u{85}' || c == '\u{a0}' || c
        == '\u{1680}' || ('\u{2000}' <= c && c <= '\u{200a}') || c == '\u{2028}' || c
        == '\u{2029}' || c == '\u{202f}' || c == '\u{205f}' || c == '\u{3000}'
}

/// `s` without its leading white space.
pub open spec fn trim_start(s: Seq<char>) -> Seq<char>
    decreases s.len(),
{
    if s.len() > 0 && is_white(s[0]) {
        trim_start(s.drop_first())
    } else {
        s
    }
}

/// `s` without its trailing white space.
pub open spec fn trim_end(s: Seq<char>) -> Seq<char>
    decreases s.len(),
{
    if s.len() > 0 && is_white(s.last()) {
        trim_end(s.drop_last())
    } else {
        s
    }
}

/// `s` without white space at either end.
pub open spec fn trimmed(s: Seq<char>) -> Seq<char> {
    trim_end(trim_start(s))
}

/// Index of the first `' '` in `s`, or its length where there is none.
pub open spec fn first_space(s: Seq<char>) -> int
    decreases s.len(),
{
    if s.len() == 0 {
        0
    } else if s[0] == ' ' {
        0
    } else {
        1 + first_space(s.drop_first())
    }
}

/// The pieces of `s` cut at its first two spaces: one, two or three of them, the
/// last holding whatever spaces remain.
pub open spec fn words3(s: Seq<char>) -> Seq<Seq<char>> {
    let i = first_space(s);
    if i >= s.len() {
        seq![s]
    } else {
        let rest = s.subrange(i + 1, s.len() as int);
        let j = first_space(rest);
        if j >= rest.len() {
            seq![s.take(i), rest]
        } else {
            seq![s.take(i), rest.take(j), rest.subrange(j + 1, rest.len() as int)]
        }
    }
}

/// Whether `c` is white space, as `char::is_whitespace` says.
pub fn is_white_char(c: char) -> (r: bool)
    ensures
        r == is_white(c),
{
    ('\u{9}' <= c && c <= '\u{d}') || c == ' ' || c == '\u{85}' || c == '\u{a0}' || c
        == '\u{1680}' || ('\u{2000}' <= c && c <= '\u{200a}') || c == '\u{2028}' || c
        == '\u{2029}' || c == '\u{202f}' || c == '\u{205f}' || c == '\u{3000}'
}

/// Whether two strings hold the same characters.
pub fn same_text(a: &str, b: &str) -> (r: bool)
    ensures
        r == (a@ == b@),
{
    let n = a.unicode_len();
    if n != b.unicode_len() {
        return false;
    }
    let mut i: usize = 0;
    while i < n
        invariant
            n == a@.len(),
            n == b@.len(),
            i <= n,
            forall|k: int| 0 <= k < i ==> a@[k] == b@[k],
        decreases n - i,
    {
        if a.get_char(i) != b.get_char(i) {
            return false;
        }
        i = i + 1;
    }
    assert(a@ =~= b@);
    true
}

/// `s` with the white space at both ends removed.
pub fn trim_text(s: &str) -> (r: &str)
    ensures
        r@ == trimmed(s@),
{
    let n = s.unicode_len();
    let mut i: usize = 0;
    assert(s@.subrange(0, n as int) =~= s@);
    while i < n && is_white_char(s.get_char(i))
        invariant
            n == s@.len(),
            i <= n,
            trim_start(s@) == trim_start(s@.subrange(i as int, n as int)),
        decreases n - i,
    {
        assert(s@.subrange(i as int, n as int).drop_first() =~= s@.subrange(
            i as int + 1,
            n as int,
        ));
        i = i + 1;
    }
    let t = s.substring_char(i, n);
    assert(trim_start(s@) == t@);
    let mut j: usize = n - i;
    assert(t@.take(j as int) =~= t@);
    while j > 0 && is_white_char(t.get_char(j - 1))
        invariant
            t@.len() == n - i,
            j <= t@.len(),
            trim_end(t@) == trim_end(t@.take(j as int)),
        decreases j,
    {
        assert(t@.take(j as int).drop_last() =~= t@.take(j as int - 1));
        j = j - 1;
    }
    assert(trim_end(t@.take(j as int)) == t@.take(j as int));
    t.substring_char(0, j)
}

/// Index of the first `' '` in `s`, or its length where there is none.
pub fn find_space(s: &str) -> (r: usize)
    ensures
        r as int == first_space(s@),
        r <= s@.len(),
{
    let n = s.unicode_len();
    let mut i: usize = 0;
    assert(s@.subrange(0, n as int) =~= s@);
    while i < n && s.get_char(i) != ' '
        invariant
            n == s@.len(),
            i <= n,
            first_space(s@) == i + first_space(s@.subrange(i as int, n as int)),
        decreases n - i,
    {
        assert(s@.subrange(i as int, n as int).drop_first() =~= s@.subrange(
            i as int + 1,
            n as int,
        ));
        i = i + 1;
    }
    i
}

/// `s` cut at its first two spaces, as `splitn(3, ' ')` does.
pub fn split_words(s: &str) -> (r: Vec<&str>)
    ensures
        r@.len() == words3(s@).len(),
        forall|k: int| 0 <= k < r@.len() ==> #[trigger] r@[k]@ == words3(s@)[k],
{
    let n = s.unicode_len();
    let i = find_space(s);
    let mut out: Vec<&str> = Vec::new();
    if i >= n {
        out.push(s);
        return out;
    }
    out.push(s.substring_char(0, i));
    let rest = s.substring_char(i + 1, n);
    let m = rest.unicode_len();
    let j = find_space(rest);
    if j >= m {
        out.push(rest);
    } else {
        out.push(rest.substring_char(0, j));
        out.push(rest.substring_char(j + 1, m));
    }
    out
}

/// All characters of `s` are ASCII.
pub fn all_ascii(s: &str) -> (r: bool)
    ensures
        r == is_ascii_chars(s@),
{
    s.is_ascii()
}

} // verus!
