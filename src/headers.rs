//! An ordered header map with case-insensitive names.

use vstd::prelude::*;
use crate::text::{chars_of, lower, lower_exec, string_of};

verus! {

/// Header names are stored in ASCII lower case.
pub open spec fn lower_seq(s: Seq<char>) -> Seq<char> {
    Seq::new(s.len(), |i: int| lower(s[i]))
}

/// A valid header value: no control character but the horizontal tab.
pub open spec fn valid_header_value(v: Seq<char>) -> bool {
    forall|i: int| 0 <= i < v.len() ==> #[trigger] v[i] == '\t' || (' ' <= v[i] && v[i] != '\x7f')
}

/// A character allowed in a header name (an RFC 9110 token character).
pub open spec fn is_tchar(c: char) -> bool {
    ('0' <= c && c <= '9') || ('a' <= c && c <= 'z') || ('A' <= c && c <= 'Z') || c == '!' || c
        == '#' || c == '$' || c == '%' || c == '&' || c == '\'' || c == '*' || c == '+' || c == '-'
        || c == '.' || c == '^' || c == '_' || c == '`' || c == '|' || c == '~'
}

/// A valid header name: a non-empty token.
pub open spec fn valid_header_name(n: Seq<char>) -> bool {
    n.len() > 0 && forall|i: int| 0 <= i < n.len() ==> #[trigger] is_tchar(n[i])
}

/// Whether `name` is a valid header name.
pub fn is_valid_header_name(name: &str) -> (r: bool)
    ensures
        r == valid_header_name(name@),
{
    let c = chars_of(name);
    if c.len() == 0 {
        return false;
    }
    let mut i: usize = 0;
    while i < c.len()
        invariant
            0 <= i <= c@.len(),
            c@ == name@,
            forall|k: int| 0 <= k < i ==> #[trigger] is_tchar(c@[k]),
        decreases c@.len() - i,
    {
        let x = c[i];
        if !(('0' <= x && x <= '9') || ('a' <= x && x <= 'z') || ('A' <= x && x <= 'Z') || x == '!'
            || x == '#' || x == '$' || x == '%' || x == '&' || x == '\'' || x == '*' || x == '+' || x
            == '-' || x == '.' || x == '^' || x == '_' || x == '`' || x == '|' || x == '~') {
            assert(!is_tchar(c@[i as int]));
            return false;
        }
        i = i + 1;
    }
    true
}

/// Whether `value` is a valid header value.
pub fn is_valid_header_value(value: &str) -> (r: bool)
    ensures
        r == valid_header_value(value@),
{
    let c = chars_of(value);
    let mut i: usize = 0;
    while i < c.len()
        invariant
            0 <= i <= c@.len(),
            c@ == value@,
            forall|k: int| 0 <= k < i ==> #[trigger] c@[k] == '\t' || (' ' <= c@[k] && c@[k] != '\x7f'),
        decreases c@.len() - i,
    {
        let x = c[i];
        if !(x == '\t' || (' ' <= x && x != '\x7f')) {
            assert(!(c@[i as int] == '\t' || (' ' <= c@[i as int] && c@[i as int] != '\x7f')));
            return false;
        }
        i = i + 1;
    }
    true
}

/// The value stored last under `name` among `entries`.
pub open spec fn lookup(entries: Seq<(Seq<char>, Seq<char>)>, name: Seq<char>) -> Option<Seq<char>>
    decreases entries.len(),
{
    if entries.len() == 0 {
        None
    } else if entries.last().0 == name {
        Some(entries.last().1)
    } else {
        lookup(entries.drop_last(), name)
    }
}

/// The entries without those named `name`.
pub open spec fn without(entries: Seq<(Seq<char>, Seq<char>)>, name: Seq<char>) -> Seq<
    (Seq<char>, Seq<char>),
>
    decreases entries.len(),
{
    if entries.len() == 0 {
        entries
    } else if entries.last().0 == name {
        without(entries.drop_last(), name)
    } else {
        without(entries.drop_last(), name).push(entries.last())
    }
}

/// Whether each name occurs at most once.
pub open spec fn unique_names(entries: Seq<(Seq<char>, Seq<char>)>) -> bool {
    forall|i: int, j: int|
        0 <= i < entries.len() && 0 <= j < entries.len() && i != j ==> #[trigger] entries[i].0
            != #[trigger] entries[j].0
}

/// Removing a name leaves every other lookup unchanged and this one empty.
pub proof fn lemma_without(entries: Seq<(Seq<char>, Seq<char>)>, name: Seq<char>, other: Seq<char>)
    ensures
        lookup(without(entries, name), name) is None,
        other != name ==> lookup(without(entries, name), other) == lookup(entries, other),
    decreases entries.len(),
{
    if entries.len() > 0 {
        lemma_without(entries.drop_last(), name, other);
        if entries.last().0 != name {
            let w = without(entries.drop_last(), name);
            assert(w.push(entries.last()).drop_last() =~= w);
        }
    }
}

pub(crate) proof fn lemma_without_unique(entries: Seq<(Seq<char>, Seq<char>)>, name: Seq<char>)
    requires
        unique_names(entries),
    ensures
        unique_names(without(entries, name)),
        forall|k: int| 0 <= k < without(entries, name).len() ==> without(entries, name)[k].0 != name,
        forall|k: int|
            0 <= k < without(entries, name).len() ==> exists|m: int|
                0 <= m < entries.len() && entries[m] == #[trigger] without(entries, name)[k],
    decreases entries.len(),
{
    if entries.len() > 0 {
        let d = entries.drop_last();
        assert(unique_names(d)) by {
            assert forall|i: int, j: int|
                0 <= i < d.len() && 0 <= j < d.len() && i != j implies #[trigger] d[i].0
                != #[trigger] d[j].0 by {
                assert(d[i] == entries[i] && d[j] == entries[j]);
            }
        }
        lemma_without_unique(d, name);
        let w = without(d, name);
        if entries.last().0 != name {
            let e = entries.last();
            let w2 = w.push(e);
            assert forall|k: int|
                0 <= k < w2.len() implies exists|m: int|
                0 <= m < entries.len() && entries[m] == #[trigger] w2[k] by {
                if k < w.len() {
                    let m = choose|m: int| 0 <= m < d.len() && d[m] == w[k];
                    assert(entries[m] == w2[k]);
                } else {
                    assert(entries[entries.len() - 1] == w2[k]);
                }
            }
            assert forall|i: int, j: int|
                0 <= i < w2.len() && 0 <= j < w2.len() && i != j implies #[trigger] w2[i].0
                != #[trigger] w2[j].0 by {
                if i < w.len() && j == w.len() {
                    assert(w2[i] == w[i]);
                    let m = choose|m: int| 0 <= m < d.len() && d[m] == w[i];
                    assert(entries[m] == w[i]);
                    assert(m != entries.len() - 1);
                } else if j < w.len() && i == w.len() {
                    assert(w2[j] == w[j]);
                    let m = choose|m: int| 0 <= m < d.len() && d[m] == w[j];
                    assert(entries[m] == w[j]);
                    assert(m != entries.len() - 1);
                } else if i < w.len() && j < w.len() {
                    assert(w2[i] == w[i] && w2[j] == w[j]);
                }
            }
        } else {
        }
    }
}

/// Header map: each name at most once, in lower case, in insertion order.
#[derive(Debug)]
pub struct HeaderMap {
    entries: Vec<(String, String)>,
}

impl View for HeaderMap {
    type V = Seq<(Seq<char>, Seq<char>)>;

    closed spec fn view(&self) -> Seq<(Seq<char>, Seq<char>)> {
        pairs_view(self.entries@)
    }
}

impl HeaderMap {
    /// Well-formedness: names are unique.
    pub open spec fn wf(&self) -> bool {
        unique_names(self@)
    }

    /// The value of header `name` (any case).
    pub open spec fn get_spec(&self, name: Seq<char>) -> Option<Seq<char>> {
        lookup(self@, lower_seq(name))
    }

    /// An empty map.
    pub fn new() -> (r: Self)
        ensures
            r.wf(),
            r@ == Seq::<(Seq<char>, Seq<char>)>::empty(),
    {
        let r = HeaderMap { entries: Vec::new() };
        assert(r@ =~= Seq::<(Seq<char>, Seq<char>)>::empty());
        r
    }

    /// Whether the names are unique.
    pub fn is_wf(&self) -> (r: bool)
        ensures
            r == self.wf(),
    {
        names_unique(&self.entries)
    }

    /// A copy of the map.
    pub fn duplicate(&self) -> (r: Self)
        ensures
            r@ == self@,
    {
        let mut entries: Vec<(String, String)> = Vec::new();
        let mut i: usize = 0;
        while i < self.entries.len()
            invariant
                0 <= i <= self.entries@.len(),
                entries@.len() == i,
                forall|k: int|
                    0 <= k < i ==> (#[trigger] entries@[k].0@, entries@[k].1@) == (
                        self.entries@[k].0@,
                        self.entries@[k].1@,
                    ),
            decreases self.entries@.len() - i,
        {
            entries.push((clone_string(&self.entries[i].0), clone_string(&self.entries[i].1)));
            i = i + 1;
        }
        let r = HeaderMap { entries };
        assert(r@ =~= self@);
        r
    }

    /// Number of headers.
    pub fn len(&self) -> (r: usize)
        ensures
            r == self@.len(),
    {
        self.entries.len()
    }

    /// Name and value of the header at `i`.
    pub fn entry(&self, i: usize) -> (r: (&str, &str))
        requires
            i < self@.len(),
        ensures
            r.0@ == self@[i as int].0,
            r.1@ == self@[i as int].1,
    {
        (self.entries[i].0.as_str(), self.entries[i].1.as_str())
    }

    fn position(&self, name: &Vec<char>) -> (r: Option<usize>)
        ensures
            match r {
                Some(i) => i < self@.len() && self@[i as int].0 == name@,
                None => forall|k: int| 0 <= k < self@.len() ==> self@[k].0 != name@,
            },
    {
        let mut i: usize = 0;
        while i < self.entries.len()
            invariant
                0 <= i <= self@.len(),
                self@.len() == self.entries@.len(),
                forall|k: int| 0 <= k < i ==> self@[k].0 != name@,
            decreases self@.len() - i,
        {
            let c = chars_of(self.entries[i].0.as_str());
            if eq_chars(&c, name) {
                return Some(i);
            }
            i = i + 1;
        }
        None
    }

    /// The value of header `name` (any case).
    pub fn get(&self, name: &str) -> (r: Option<&str>)
        requires
            self.wf(),
        ensures
            match r {
                Some(v) => self.get_spec(name@) == Some(v@),
                None => self.get_spec(name@) is None,
            },
    {
        let key = lower_chars(name);
        match self.position(&key) {
            Some(i) => {
                proof {
                    lemma_lookup_unique(self@, i as int);
                }
                Some(self.entries[i].1.as_str())
            },
            None => {
                proof {
                    lemma_lookup_absent(self@, key@);
                }
                None
            },
        }
    }

    /// Whether header `name` (any case) is present.
    pub fn contains_key(&self, name: &str) -> (r: bool)
        requires
            self.wf(),
        ensures
            r == (self.get_spec(name@) is Some),
    {
        self.get(name).is_some()
    }

    /// Removes header `name` (any case).
    pub fn remove(&mut self, name: &str)
        requires
            old(self).wf(),
        ensures
            final(self).wf(),
            final(self)@ == without(old(self)@, lower_seq(name@)),
    {
        let key = lower_chars(name);
        let ghost old_view = self@;
        let mut kept: Vec<(String, String)> = Vec::new();
        let mut i: usize = 0;
        let n = self.entries.len();
        let mut entries = Vec::new();
        std::mem::swap(&mut entries, &mut self.entries);
        assert(entries@.len() == old_view.len());
        while i < n
            invariant
                n == entries@.len() == old_view.len(),
                0 <= i <= n,
                forall|k: int| 0 <= k < n ==> (#[trigger] entries@[k].0@, entries@[k].1@) == old_view[k],
                Seq::new(kept@.len(), |k: int| (kept@[k].0@, kept@[k].1@)) == without(
                    old_view.subrange(0, i as int),
                    key@,
                ),
            decreases n - i,
        {
            let c = chars_of(entries[i].0.as_str());
            let ghost before = Seq::new(kept@.len(), |k: int| (kept@[k].0@, kept@[k].1@));
            proof {
                assert(old_view.subrange(0, i + 1).drop_last() =~= old_view.subrange(0, i as int));
                assert(old_view.subrange(0, i + 1).last() == old_view[i as int]);
            }
            if !eq_chars(&c, &key) {
                let e = (clone_string(&entries[i].0), clone_string(&entries[i].1));
                kept.push(e);
                proof {
                    assert(Seq::new(kept@.len(), |k: int| (kept@[k].0@, kept@[k].1@)) =~= before.push(
                        old_view[i as int],
                    ));
                }
            }
            i = i + 1;
        }
        self.entries = kept;
        proof {
            assert(old_view.subrange(0, n as int) =~= old_view);
            lemma_without_unique(old_view, key@);
            assert(self@ =~= without(old_view, key@));
        }
    }

    /// Sets header `name` to `value`, replacing any earlier value; both must
    /// be valid.
    pub fn set(&mut self, name: &str, value: &str)
        requires
            old(self).wf(),
            valid_header_name(name@),
            valid_header_value(value@),
        ensures
            final(self).wf(),
            final(self)@ == without(old(self)@, lower_seq(name@)).push((lower_seq(name@), value@)),
    {
        self.insert(name, value.to_owned());
    }

    /// Sets header `name` to `value`, replacing any earlier value.
    pub(crate) fn insert(&mut self, name: &str, value: String)
        requires
            old(self).wf(),
        ensures
            final(self).wf(),
            final(self)@ == without(old(self)@, lower_seq(name@)).push((lower_seq(name@), value@)),
    {
        let ghost old_view = self@;
        self.remove(name);
        let key = lower_chars(name);
        let k = string_of(key.as_slice());
        let ghost before = self@;
        proof {
            lemma_without_unique(old_view, key@);
        }
        self.entries.push((k, value));
        proof {
            assert(self@ =~= before.push((key@, value@)));
            lemma_without(before, key@, key@);
            assert forall|i: int, j: int|
                0 <= i < self@.len() && 0 <= j < self@.len() && i != j implies #[trigger] self@[i].0
                != #[trigger] self@[j].0 by {
                if i < before.len() && j < before.len() {
                    assert(self@[i] == before[i] && self@[j] == before[j]);
                } else if i < before.len() {
                    assert(self@[i] == before[i]);
                } else if j < before.len() {
                    assert(self@[j] == before[j]);
                }
            }
        }
    }
}

/// Whether the names of `entries` are unique.
pub fn names_unique(entries: &Vec<(String, String)>) -> (r: bool)
ensures
    r == unique_names(pairs_view(entries@)),
{
    let n = entries.len();
    let mut i: usize = 0;
    while i < n
        invariant
            n == pairs_view(entries@).len(),
            0 <= i <= n,
            forall|a: int, b: int|
                0 <= a < i && 0 <= b < n && a != b ==> #[trigger] pairs_view(entries@)[a].0 != #[trigger] pairs_view(entries@)[b].0,
        decreases n - i,
    {
        let ci = chars_of(entries[i].0.as_str());
        let mut j: usize = 0;
        while j < n
            invariant
                n == pairs_view(entries@).len(),
                0 <= i < n,
                0 <= j <= n,
                ci@ == pairs_view(entries@)[i as int].0,
                forall|a: int, b: int|
                    0 <= a < i && 0 <= b < n && a != b ==> #[trigger] pairs_view(entries@)[a].0
                        != #[trigger] pairs_view(entries@)[b].0,
                forall|b: int| 0 <= b < j && b != i ==> pairs_view(entries@)[i as int].0 != #[trigger] pairs_view(entries@)[b].0,
            decreases n - j,
        {
            if j != i {
                let cj = chars_of(entries[j].0.as_str());
                if eq_chars(&ci, &cj) {
                    assert(pairs_view(entries@)[i as int].0 == pairs_view(entries@)[j as int].0);
                    return false;
                }
            }
            j = j + 1;
        }
        i = i + 1;
    }
    true
}

/// Views of name and value pairs.
pub open spec fn pairs_view(entries: Seq<(String, String)>) -> Seq<(Seq<char>, Seq<char>)> {
    Seq::new(entries.len(), |i: int| (entries[i].0@, entries[i].1@))
}

/// Setting a header gives it the new value and leaves all other headers alone.
pub proof fn lemma_insert_lookup(
    entries: Seq<(Seq<char>, Seq<char>)>,
    name: Seq<char>,
    value: Seq<char>,
    other: Seq<char>,
)
    ensures
        lookup(without(entries, name).push((name, value)), name) == Some(value),
        other != name ==> lookup(without(entries, name).push((name, value)), other) == lookup(
            entries,
            other,
        ),
{
    let w = without(entries, name);
    assert(w.push((name, value)).drop_last() =~= w);
    lemma_without(entries, name, other);
}

proof fn lemma_lookup_unique(entries: Seq<(Seq<char>, Seq<char>)>, i: int)
    requires
        unique_names(entries),
        0 <= i < entries.len(),
    ensures
        lookup(entries, entries[i].0) == Some(entries[i].1),
    decreases entries.len(),
{
    if i != entries.len() - 1 {
        let d = entries.drop_last();
        assert(entries[entries.len() - 1].0 != entries[i].0);
        assert(unique_names(d)) by {
            assert forall|a: int, b: int|
                0 <= a < d.len() && 0 <= b < d.len() && a != b implies #[trigger] d[a].0
                != #[trigger] d[b].0 by {
                assert(d[a] == entries[a] && d[b] == entries[b]);
            }
        }
        assert(d[i] == entries[i]);
        lemma_lookup_unique(d, i);
    }
}

proof fn lemma_lookup_absent(entries: Seq<(Seq<char>, Seq<char>)>, name: Seq<char>)
    requires
        forall|k: int| 0 <= k < entries.len() ==> entries[k].0 != name,
    ensures
        lookup(entries, name) is None,
    decreases entries.len(),
{
    if entries.len() > 0 {
        let d = entries.drop_last();
        assert forall|k: int| 0 <= k < d.len() implies d[k].0 != name by {
            assert(d[k] == entries[k]);
        }
        lemma_lookup_absent(d, name);
    }
}

/// A copy of a string.
pub(crate) fn clone_string(s: &String) -> (r: String)
    ensures
        r@ == s@,
{
    s.clone()
}

/// Whether two character sequences are equal.
pub(crate) fn eq_chars(a: &Vec<char>, b: &Vec<char>) -> (r: bool)
    ensures
        r == (a@ == b@),
{
    if a.len() != b.len() {
        return false;
    }
    let mut i: usize = 0;
    while i < a.len()
        invariant
            a@.len() == b@.len(),
            0 <= i <= a@.len(),
            forall|k: int| 0 <= k < i ==> a@[k] == b@[k],
        decreases a@.len() - i,
    {
        if a[i] != b[i] {
            return false;
        }
        i = i + 1;
    }
    assert(a@ =~= b@);
    true
}

/// The characters of `s` in ASCII lower case.
pub(crate) fn lower_chars(s: &str) -> (r: Vec<char>)
    ensures
        r@ == lower_seq(s@),
{
    let c = chars_of(s);
    let mut out: Vec<char> = Vec::new();
    let mut i: usize = 0;
    while i < c.len()
        invariant
            0 <= i <= c@.len(),
            c@ == s@,
            out@ == lower_seq(c@.subrange(0, i as int)),
        decreases c@.len() - i,
    {
        out.push(lower_exec(c[i]));
        i = i + 1;
        proof {
            assert(out@ =~= lower_seq(c@.subrange(0, i as int)));
        }
    }
    proof {
        assert(c@.subrange(0, c@.len() as int) =~= c@);
    }
    out
}

} // verus!
