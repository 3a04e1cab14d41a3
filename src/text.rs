//! Character-level helpers shared by the header grammars: ASCII case folding,
//! whitespace trimming, searching, and conversion between `str` and characters.

use vstd::prelude::*;

verus! {

/// Relies on `str::chars`: the characters of a string, in order.
#[verifier::external_body]
pub(crate) fn chars_of(s: &str) -> (r: Vec<char>)
    ensures
        r@ == s@,
{
    s.chars().collect()
}

/// Relies on `FromIterator<&char> for String`: the string made of these characters.
#[verifier::external_body]
pub(crate) fn string_of(v: &[char]) -> (r: String)
    ensures
        r@ == v@,
{
    v.iter().collect()
}

/// ASCII lower case of a character; other characters are kept.
pub open spec fn lower(c: char) -> char {
    if 'A' <= c && c <= 'Z' {
        (((c as u32) + 32) as u8) as char
    } else {
        c
    }
}

/// Equality of two texts up to ASCII case.
pub open spec fn eq_ignore_case(a: Seq<char>, b: Seq<char>) -> bool {
    a.len() == b.len() && forall|i: int| 0 <= i < a.len() ==> #[trigger] lower(a[i]) == lower(b[i])
}

/// Whitespace removed by trimming.
pub open spec fn is_ws(c: char) -> bool {
    c == ' ' || c == '\t' || c == '\n' || c == '\r' || c == '\x0b' || c == '\x0c'
}

/// The text without leading characters that satisfy `ws`-ness.
pub open spec fn trim_start(s: Seq<char>) -> Seq<char>
    decreases s.len(),
{
    if s.len() > 0 && is_ws(s[0]) {
        trim_start(s.drop_first())
    } else {
        s
    }
}

/// The text without trailing whitespace.
pub open spec fn trim_end(s: Seq<char>) -> Seq<char>
    decreases s.len(),
{
    if s.len() > 0 && is_ws(s.last()) {
        trim_end(s.drop_last())
    } else {
        s
    }
}

/// The text without whitespace at either end.
pub open spec fn trim(s: Seq<char>) -> Seq<char> {
    trim_end(trim_start(s))
}

/// The text without `c` at either end.
pub open spec fn trim_char(s: Seq<char>, c: char) -> Seq<char>
    decreases s.len(),
{
    if s.len() > 0 && s[0] == c {
        trim_char(s.drop_first(), c)
    } else if s.len() > 0 && s.last() == c {
        trim_char(s.drop_last(), c)
    } else {
        s
    }
}

/// Index of the first occurrence of `c` in `s`.
pub open spec fn find(s: Seq<char>, c: char) -> Option<int>
    decreases s.len(),
{
    if s.len() == 0 {
        None
    } else if s[0] == c {
        Some(0)
    } else {
        match find(s.drop_first(), c) {
            Some(i) => Some(i + 1),
            None => None,
        }
    }
}

/// `find` is the first index at which `c` occurs.
pub proof fn lemma_find(s: Seq<char>, c: char, m: int)
    requires
        0 <= m <= s.len(),
        forall|k: int| 0 <= k < m ==> s[k] != c,
        m < s.len() ==> s[m] == c,
    ensures
        find(s, c) == (if m < s.len() { Some(m) } else { None::<int> }),
    decreases m,
{
    if m > 0 {
        lemma_find(s.drop_first(), c, m - 1);
    } else if s.len() > 0 {
    }
}

/// Searching a concatenation whose first part lacks `c` finds the first `c`
/// of the second part, shifted.
pub proof fn lemma_find_first_after(a: Seq<char>, b: Seq<char>, c: char)
    requires
        find(a, c) is None,
    ensures
        find(a + b, c) == match find(b, c) {
            Some(i) => Some(i + a.len()),
            None => None::<int>,
        },
    decreases a.len(),
{
    if a.len() > 0 {
        assert(a[0] != c);
        assert((a + b).drop_first() =~= a.drop_first() + b);
        lemma_find_first_after(a.drop_first(), b, c);
    } else {
        assert(a + b =~= b);
    }
}

/// Index of the first `c` in `s[lo..hi]`, or `hi`.
pub(crate) fn find_in(s: &Vec<char>, lo: usize, hi: usize, c: char) -> (r: usize)
    requires
        lo <= hi <= s@.len(),
    ensures
        lo <= r <= hi,
        find(s@.subrange(lo as int, hi as int), c) == (if r < hi { Some(r - lo) } else { None::<int> }),
{
    let mut j = lo;
    while j < hi && s[j] != c
        invariant
            lo <= j <= hi <= s@.len(),
            forall|k: int| lo <= k < j ==> s@[k] != c,
        decreases hi - j,
    {
        j = j + 1;
    }
    proof {
        let t = s@.subrange(lo as int, hi as int);
        lemma_find(t, c, j - lo);
    }
    j
}

/// Start of `trim_start(s[lo..hi])` inside `s`.
pub(crate) fn trim_start_in(s: &Vec<char>, lo: usize, hi: usize) -> (r: usize)
    requires
        lo <= hi <= s@.len(),
    ensures
        lo <= r <= hi,
        s@.subrange(r as int, hi as int) == trim_start(s@.subrange(lo as int, hi as int)),
{
    let mut a = lo;
    while a < hi && is_ws_exec(s[a])
        invariant
            lo <= a <= hi <= s@.len(),
            trim_start(s@.subrange(lo as int, hi as int)) == trim_start(s@.subrange(a as int, hi as int)),
        decreases hi - a,
    {
        proof {
            assert(s@.subrange(a as int, hi as int).drop_first() =~= s@.subrange(a + 1, hi as int));
        }
        a = a + 1;
    }
    a
}

/// End of `trim_end(s[lo..hi])` inside `s`.
pub(crate) fn trim_end_in(s: &Vec<char>, lo: usize, hi: usize) -> (r: usize)
    requires
        lo <= hi <= s@.len(),
    ensures
        lo <= r <= hi,
        s@.subrange(lo as int, r as int) == trim_end(s@.subrange(lo as int, hi as int)),
{
    let mut b = hi;
    while b > lo && is_ws_exec(s[b - 1])
        invariant
            lo <= b <= hi <= s@.len(),
            trim_end(s@.subrange(lo as int, hi as int)) == trim_end(s@.subrange(lo as int, b as int)),
        decreases b - lo,
    {
        proof {
            assert(s@.subrange(lo as int, b as int).drop_last() =~= s@.subrange(lo as int, b - 1));
        }
        b = b - 1;
    }
    b
}

/// Bounds of `trim(s[lo..hi])` inside `s`.
pub(crate) fn trim_in(s: &Vec<char>, lo: usize, hi: usize) -> (r: (usize, usize))
    requires
        lo <= hi <= s@.len(),
    ensures
        lo <= r.0 <= r.1 <= hi,
        s@.subrange(r.0 as int, r.1 as int) == trim(s@.subrange(lo as int, hi as int)),
{
    let a = trim_start_in(s, lo, hi);
    let b = trim_end_in(s, a, hi);
    (a, b)
}

/// The pieces before and after the first `sep`, trimmed on the side of the
/// separator; without a separator, the whole text and an empty rest.
pub open spec fn split_two(s: Seq<char>, sep: char) -> (Seq<char>, Seq<char>) {
    match find(s, sep) {
        Some(i) => (trim_end(s.subrange(0, i)), trim_start(s.subrange(i + 1, s.len() as int))),
        None => (s, Seq::empty()),
    }
}

/// Bounds of both halves of `split_two(s[lo..hi], sep)` inside `s`.
pub(crate) fn split_two_in(s: &Vec<char>, lo: usize, hi: usize, sep: char) -> (r: (
    usize,
    usize,
    usize,
    usize,
))
    requires
        lo <= hi <= s@.len(),
    ensures
        lo <= r.0 <= r.1 <= hi,
        lo <= r.2 <= r.3 <= hi,
        s@.subrange(r.0 as int, r.1 as int) == split_two(s@.subrange(lo as int, hi as int), sep).0,
        s@.subrange(r.2 as int, r.3 as int) == split_two(s@.subrange(lo as int, hi as int), sep).1,
{
    let j = find_in(s, lo, hi, sep);
    if j < hi {
        let b = trim_end_in(s, lo, j);
        let a = trim_start_in(s, j + 1, hi);
        proof {
            let t = s@.subrange(lo as int, hi as int);
            assert(t.subrange(0, j - lo) =~= s@.subrange(lo as int, j as int));
            assert(t.subrange(j - lo + 1, t.len() as int) =~= s@.subrange(j + 1, hi as int));
        }
        (lo, b, a, hi)
    } else {
        proof {
            assert(s@.subrange(hi as int, hi as int) =~= Seq::<char>::empty());
        }
        (lo, hi, hi, hi)
    }
}

/// Bounds of `trim_char(s[lo..hi], c)` inside `s`.
pub(crate) fn trim_char_in(s: &Vec<char>, lo: usize, hi: usize, c: char) -> (r: (usize, usize))
    requires
        lo <= hi <= s@.len(),
    ensures
        lo <= r.0 <= r.1 <= hi,
        s@.subrange(r.0 as int, r.1 as int) == trim_char(s@.subrange(lo as int, hi as int), c),
{
    let mut a = lo;
    let mut b = hi;
    while a < b && (s[a] == c || s[b - 1] == c)
        invariant
            lo <= a <= b <= hi <= s@.len(),
            trim_char(s@.subrange(lo as int, hi as int), c) == trim_char(s@.subrange(a as int, b as int), c),
        decreases b - a,
    {
        proof {
            assert(s@.subrange(a as int, b as int).drop_first() =~= s@.subrange(a + 1, b as int));
            assert(s@.subrange(a as int, b as int).drop_last() =~= s@.subrange(a as int, b - 1));
        }
        if s[a] == c {
            a = a + 1;
        } else {
            b = b - 1;
        }
    }
    (a, b)
}

/// Whitespace test on a character.
pub(crate) fn is_ws_exec(c: char) -> (r: bool)
    ensures
        r == is_ws(c),
{
    c == ' ' || c == '\t' || c == '\n' || c == '\r' || c == '\x0b' || c == '\x0c'
}

/// ASCII lower case of a character.
pub(crate) fn lower_exec(c: char) -> (r: char)
    ensures
        r == lower(c),
{
    if 'A' <= c && c <= 'Z' {
        (((c as u32) + 32) as u8) as char
    } else {
        c
    }
}

/// Whether `s[lo..hi]` equals `t` up to ASCII case.
pub(crate) fn eq_ignore_case_in(s: &Vec<char>, lo: usize, hi: usize, t: &Vec<char>) -> (r: bool)
    requires
        lo <= hi <= s@.len(),
    ensures
        r == eq_ignore_case(s@.subrange(lo as int, hi as int), t@),
{
    if hi - lo != t.len() {
        return false;
    }
    let mut i: usize = 0;
    while i < t.len()
        invariant
            hi - lo == t@.len(),
            lo <= hi <= s@.len(),
            0 <= i <= t@.len(),
            forall|k: int| 0 <= k < i ==> lower(s@[lo + k]) == lower(t@[k]),
        decreases t@.len() - i,
    {
        if lower_exec(s[lo + i]) != lower_exec(t[i]) {
            assert(lower(s@.subrange(lo as int, hi as int)[i as int]) != lower(t@[i as int]));
            return false;
        }
        i = i + 1;
    }
    assert forall|k: int| 0 <= k < t@.len() implies #[trigger] lower(
        s@.subrange(lo as int, hi as int)[k],
    ) == lower(t@[k]) by {}
    true
}

/// The characters `s[lo..hi]` as a string.
pub(crate) fn string_in(s: &Vec<char>, lo: usize, hi: usize) -> (r: String)
    requires
        lo <= hi <= s@.len(),
    ensures
        r@ == s@.subrange(lo as int, hi as int),
{
    let mut v: Vec<char> = Vec::new();
    let mut i = lo;
    while i < hi
        invariant
            lo <= i <= hi <= s@.len(),
            v@ == s@.subrange(lo as int, i as int),
        decreases hi - i,
    {
        v.push(s[i]);
        proof {
            assert(v@ =~= s@.subrange(lo as int, i + 1));
        }
        i = i + 1;
    }
    string_of(v.as_slice())
}

/// Appends the characters of `t` to `v`.
pub(crate) fn push_all(v: &mut Vec<char>, t: &[char])
    ensures
        final(v)@ == old(v)@ + t@,
{
    let mut i: usize = 0;
    while i < t.len()
        invariant
            0 <= i <= t@.len(),
            v@ == old(v)@ + t@.subrange(0, i as int),
        decreases t@.len() - i,
    {
        v.push(t[i]);
        proof {
            assert(v@ =~= old(v)@ + t@.subrange(0, i + 1));
        }
        i = i + 1;
    }
    proof {
        assert(t@.subrange(0, t@.len() as int) =~= t@);
    }
}

/// Appends the characters of a string to `v`.
pub(crate) fn push_str(v: &mut Vec<char>, t: &str)
    ensures
        final(v)@ == old(v)@ + t@,
{
    let c = chars_of(t);
    push_all(v, c.as_slice());
}

} // verus!
