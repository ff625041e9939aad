//! Character-level text operations on lines: whitespace, prefixes, trimming
//! and splitting into words, each stated over the line's characters.

use vstd::prelude::*;

verus! {

/// The characters with the Unicode `White_Space` property, which is what
/// `char::is_whitespace` tests.
pub open spec fn is_white_space(c: char) -> bool {
    let u = c as u32;
    (0x09 <= u && u <= 0x0d) || u == 0x20 || u == 0x85 || u == 0xa0 || u == 0x1680
        || (0x2000 <= u && u <= 0x200a) || u == 0x2028 || u == 0x2029 || u == 0x202f
        || u == 0x205f || u == 0x3000
}

/// Whether `c` is a whitespace character.
pub fn is_space(c: char) -> (r: bool)
    ensures
        r == is_white_space(c),
{
    let u = c as u32;
    (0x09 <= u && u <= 0x0d) || u == 0x20 || u == 0x85 || u == 0xa0 || u == 0x1680 || (0x2000
        <= u && u <= 0x200a) || u == 0x2028 || u == 0x2029 || u == 0x202f || u == 0x205f || u
        == 0x3000
}

/// The characters of `s`, one element each.
pub fn chars_of(s: &str) -> (r: Vec<char>)
    ensures
        r@ == s@,
{
    let n = s.unicode_len();
    let mut r: Vec<char> = Vec::new();
    let mut i: usize = 0;
    while i < n
        invariant
            n == s@.len(),
            i <= n,
            r@ == s@.take(i as int),
        decreases n - i,
    {
        r.push(s.get_char(i));
        i += 1;
        assert(r@ =~= s@.take(i as int));
    }
    assert(s@.take(n as int) =~= s@);
    r
}

/// `s` begins with `p`.
pub open spec fn starts_with(s: Seq<char>, p: Seq<char>) -> bool {
    p.len() <= s.len() && s.take(p.len() as int) == p
}

/// Whether the characters `s` begin with the string `p`.
pub fn has_prefix(s: &Vec<char>, p: &str) -> (r: bool)
    ensures
        r == starts_with(s@, p@),
{
    let n = p.unicode_len();
    if n > s.len() {
        return false;
    }
    let mut i: usize = 0;
    while i < n
        invariant
            n == p@.len(),
            n <= s@.len(),
            i <= n,
            s@.take(i as int) == p@.take(i as int),
        decreases n - i,
    {
        if s[i] != p.get_char(i) {
            assert(s@.take(n as int)[i as int] != p@[i as int]);
            return false;
        }
        i += 1;
        assert(s@.take(i as int) =~= p@.take(i as int));
    }
    assert(p@.take(n as int) =~= p@);
    true
}

/// A set of characters that trimming removes.
#[derive(Debug, Clone, Copy, PartialEq, Eq, Structural)]
pub enum TrimSet {
    /// Whitespace.
    Space,
    /// The double quote `"`.
    Quote,
    /// The hash mark `#`.
    Hash,
}

/// `c` belongs to `set`.
pub open spec fn in_set(c: char, set: TrimSet) -> bool {
    match set {
        TrimSet::Space => is_white_space(c),
        TrimSet::Quote => c == '"',
        TrimSet::Hash => c == '#',
    }
}

fn is_in_set(c: char, set: TrimSet) -> (r: bool)
    ensures
        r == in_set(c, set),
{
    match set {
        TrimSet::Space => is_space(c),
        TrimSet::Quote => c == '"',
        TrimSet::Hash => c == '#',
    }
}

/// `s` without the characters of `set` at its start.
pub open spec fn trim_start(s: Seq<char>, set: TrimSet) -> Seq<char>
    decreases s.len(),
{
    if s.len() > 0 && in_set(s[0], set) {
        trim_start(s.drop_first(), set)
    } else {
        s
    }
}

/// `s` without the characters of `set` at its end.
pub open spec fn trim_end(s: Seq<char>, set: TrimSet) -> Seq<char>
    decreases s.len(),
{
    if s.len() > 0 && in_set(s.last(), set) {
        trim_end(s.drop_last(), set)
    } else {
        s
    }
}

/// `s` without the characters of `set` at either end.
pub open spec fn trim(s: Seq<char>, set: TrimSet) -> Seq<char> {
    trim_end(trim_start(s, set), set)
}

/// `s` without whitespace at either end.
pub open spec fn trimmed(s: Seq<char>) -> Seq<char> {
    trim(s, TrimSet::Space)
}

/// The index from which `s[from..to]` keeps its characters once those of
/// `set` at its start are removed.
pub fn skip_set(s: &Vec<char>, from: usize, to: usize, set: TrimSet) -> (r: usize)
    requires
        from <= to <= s@.len(),
    ensures
        from <= r <= to,
        s@.subrange(r as int, to as int) == trim_start(s@.subrange(from as int, to as int), set),
{
    let mut a = from;
    while a < to && is_in_set(s[a], set)
        invariant
            from <= a <= to <= s@.len(),
            trim_start(s@.subrange(from as int, to as int), set) == trim_start(
                s@.subrange(a as int, to as int),
                set,
            ),
        decreases to - a,
    {
        assert(s@.subrange(a as int, to as int).drop_first() =~= s@.subrange(
            a + 1,
            to as int,
        ));
        a += 1;
    }
    a
}

/// The bounds of the part of `s[from..to]` that trimming by `set` keeps.
pub fn trim_bounds(s: &Vec<char>, from: usize, to: usize, set: TrimSet) -> (r: (usize, usize))
    requires
        from <= to <= s@.len(),
    ensures
        from <= r.0 <= r.1 <= to,
        s@.subrange(r.0 as int, r.1 as int) == trim(s@.subrange(from as int, to as int), set),
{
    let a = skip_set(s, from, to, set);
    let mut b = to;
    while b > a && is_in_set(s[b - 1], set)
        invariant
            from <= a <= b <= to <= s@.len(),
            trim_start(s@.subrange(from as int, to as int), set) == s@.subrange(
                a as int,
                to as int,
            ),
            trim_end(s@.subrange(a as int, to as int), set) == trim_end(
                s@.subrange(a as int, b as int),
                set,
            ),
        decreases b,
    {
        assert(s@.subrange(a as int, b as int).drop_last() =~= s@.subrange(
            a as int,
            b - 1,
        ));
        b -= 1;
    }
    (a, b)
}

/// The whitespace-separated words of `s`, in order, built one character at a
/// time: whitespace ends a word, and a character that follows another
/// non-whitespace character extends the last word.
pub open spec fn words(s: Seq<char>) -> Seq<Seq<char>>
    decreases s.len(),
{
    if s.len() == 0 {
        Seq::empty()
    } else {
        let w = words(s.drop_last());
        let c = s.last();
        if is_white_space(c) {
            w
        } else if s.len() >= 2 && !is_white_space(s[s.len() - 2]) {
            w.update(w.len() - 1, w.last().push(c))
        } else {
            w.push(seq![c])
        }
    }
}

/// The parts of `s` that the spans `r` cover.
pub open spec fn spans_view(s: Seq<char>, r: Seq<(usize, usize)>) -> Seq<Seq<char>> {
    r.map_values(|p: (usize, usize)| s.subrange(p.0 as int, p.1 as int))
}

/// Every span of `r` lies within the first `n` characters, start before end.
pub open spec fn spans_within(r: Seq<(usize, usize)>, n: int) -> bool {
    forall|k: int| 0 <= k < r.len() ==> #[trigger] r[k].0 <= r[k].1 <= n
}

/// The start and end of each whitespace-separated word of `s`.
pub fn word_spans(s: &Vec<char>) -> (r: Vec<(usize, usize)>)
    ensures
        spans_within(r@, s@.len() as int),
        spans_view(s@, r@) == words(s@),
{
    let mut r: Vec<(usize, usize)> = Vec::new();
    let mut i: usize = 0;
    while i < s.len()
        invariant
            i <= s@.len(),
            spans_within(r@, i as int),
            spans_view(s@, r@) == words(s@.take(i as int)),
            i > 0 && !is_white_space(s@[i - 1]) ==> r@.len() > 0 && r@.last().1 == i,
        decreases s@.len() - i,
    {
        let c = s[i];
        let ghost t = s@.take(i as int + 1);
        assert(t.drop_last() =~= s@.take(i as int));
        assert(t.last() == c);
        if is_space(c) {
        } else if i > 0 && !is_space(s[i - 1]) {
            proof {
                assert(t[t.len() - 2] == s@[i - 1]);
            }
            let k = r.len() - 1;
            let st = r[k].0;
            let ghost before = spans_view(s@, r@);
            r.set(k, (st, i + 1));
            assert(s@.subrange(st as int, i + 1) =~= s@.subrange(st as int, i as int).push(c));
            assert(spans_view(s@, r@) =~= before.update(k as int, before.last().push(c)));
        } else {
            proof {
                if i > 0 {
                    assert(t[t.len() - 2] == s@[i - 1]);
                }
            }
            let ghost before = spans_view(s@, r@);
            r.push((i, i + 1));
            assert(s@.subrange(i as int, i + 1) =~= seq![c]);
            assert(spans_view(s@, r@) =~= before.push(seq![c]));
        }
        i += 1;
    }
    assert(s@.take(s@.len() as int) =~= s@);
    r
}

} // verus!
