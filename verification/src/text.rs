//! Character-level helpers shared by the parsers: conversion between `String`
//! and character sequences, the Unicode `White_Space` property, trimming and
//! line splitting.
use vstd::prelude::*;

verus! {

broadcast use vstd::string::group_string_axioms;

/// The characters of `s`, in order.
pub fn chars_of(s: &str) -> (v: Vec<char>)
    ensures
        v@ == s@,
{
    let mut v: Vec<char> = Vec::new();
    for c in it: s.chars()
        invariant
            v@ == it.seq().take(it.index()),
    {
        v.push(c);
    }
    v
}

/// `String::push`: appends one character at the end of `s`.
#[verifier::external_body]
pub fn push_char(s: &mut String, c: char)
    ensures
        final(s)@ == old(s)@.push(c),
{
    s.push(c);
}

/// Whether two string slices hold the same characters.
pub fn str_eq(a: &str, b: &str) -> (r: bool)
    ensures
        r == (a@ == b@),
{
    let va = chars_of(a);
    let vb = chars_of(b);
    if va.len() != vb.len() {
        return false;
    }
    let mut i: usize = 0;
    while i < va.len()
        invariant
            i <= va@.len(),
            va@.len() == vb@.len(),
            va@ == a@,
            vb@ == b@,
            forall|j: int| 0 <= j < i ==> va@[j] == vb@[j],
        decreases va@.len() - i,
    {
        if va[i] != vb[i] {
            return false;
        }
        i = i + 1;
    }
    assert(va@ =~= vb@);
    true
}

/// Appends `v[from..to]` to `out`.
pub fn push_range(out: &mut String, v: &Vec<char>, from: usize, to: usize)
    requires
        from <= to <= v@.len(),
    ensures
        final(out)@ == old(out)@ + v@.subrange(from as int, to as int),
{
    let mut i = from;
    while i < to
        invariant
            from <= i <= to <= v@.len(),
            out@ == old(out)@ + v@.subrange(from as int, i as int),
        decreases to - i,
    {
        push_char(out, v[i]);
        assert(v@.subrange(from as int, i + 1) =~= v@.subrange(from as int, i as int).push(v@[i as int]));
        i = i + 1;
    }
}

/// A new string holding `v[from..to]`.
pub fn string_of_range(v: &Vec<char>, from: usize, to: usize) -> (s: String)
    requires
        from <= to <= v@.len(),
    ensures
        s@ == v@.subrange(from as int, to as int),
{
    let mut s = String::new();
    push_range(&mut s, v, from, to);
    s
}

/// Whether `c` has the Unicode `White_Space` property (what `char::is_whitespace` tests).
pub open spec fn is_white_space(c: char) -> bool {
    ||| c == '\t' || c == '\n' || c == '\u{0B}' || c == '\u{0C}' || c == '\r' || c == ' '
    ||| c == '\u{85}' || c == '\u{A0}' || c == '\u{1680}'
    ||| ('\u{2000}' <= c && c <= '\u{200A}')
    ||| c == '\u{2028}' || c == '\u{2029}' || c == '\u{202F}' || c == '\u{205F}' || c == '\u{3000}'
}

/// `char::is_whitespace`, written out over the `White_Space` code points.
pub fn char_is_white_space(c: char) -> (r: bool)
    ensures
        r == is_white_space(c),
{
    c == '\t' || c == '\n' || c == '\u{0B}' || c == '\u{0C}' || c == '\r' || c == ' ' || c
        == '\u{85}' || c == '\u{A0}' || c == '\u{1680}' || ('\u{2000}' <= c && c <= '\u{200A}')
        || c == '\u{2028}' || c == '\u{2029}' || c == '\u{202F}' || c == '\u{205F}' || c
        == '\u{3000}'
}

/// Number of leading white-space characters of `s`.
pub open spec fn leading_ws(s: Seq<char>) -> nat
    decreases s.len(),
{
    if s.len() > 0 && is_white_space(s[0]) {
        1 + leading_ws(s.drop_first())
    } else {
        0
    }
}

/// Number of trailing white-space characters of `s`.
pub open spec fn trailing_ws(s: Seq<char>) -> nat
    decreases s.len(),
{
    if s.len() > 0 && is_white_space(s.last()) {
        1 + trailing_ws(s.drop_last())
    } else {
        0
    }
}

/// `s` without leading and trailing white space (what `str::trim` gives).
pub open spec fn trim(s: Seq<char>) -> Seq<char> {
    let t = s.subrange(leading_ws(s) as int, s.len() as int);
    t.subrange(0, t.len() - trailing_ws(t))
}

proof fn lemma_leading_ws_bound(s: Seq<char>)
    ensures
        leading_ws(s) <= s.len(),
    decreases s.len(),
{
    if s.len() > 0 && is_white_space(s[0]) {
        lemma_leading_ws_bound(s.drop_first());
    }
}

proof fn lemma_trailing_ws_bound(s: Seq<char>)
    ensures
        trailing_ws(s) <= s.len(),
    decreases s.len(),
{
    if s.len() > 0 && is_white_space(s.last()) {
        lemma_trailing_ws_bound(s.drop_last());
    }
}

/// Bounds `[start, end)` of `trim(v[from..to])` inside `v`.
pub fn trim_bounds(v: &Vec<char>, from: usize, to: usize) -> (r: (usize, usize))
    requires
        from <= to <= v@.len(),
    ensures
        from <= r.0 <= r.1 <= to,
        v@.subrange(r.0 as int, r.1 as int) == trim(v@.subrange(from as int, to as int)),
{
    let ghost s = v@.subrange(from as int, to as int);
    let mut start = from;
    while start < to && char_is_white_space(v[start])
        invariant
            from <= start <= to <= v@.len(),
            s == v@.subrange(from as int, to as int),
            leading_ws(s) == (start - from) + leading_ws(v@.subrange(start as int, to as int)),
        decreases to - start,
    {
        assert(v@.subrange(start as int, to as int).drop_first() =~= v@.subrange(start + 1, to as int));
        start = start + 1;
    }
    assert(leading_ws(v@.subrange(start as int, to as int)) == 0);
    let ghost t = s.subrange(leading_ws(s) as int, s.len() as int);
    assert(t =~= v@.subrange(start as int, to as int));
    let mut end = to;
    while end > start && char_is_white_space(v[end - 1])
        invariant
            from <= start <= end <= to <= v@.len(),
            t == v@.subrange(start as int, to as int),
            trailing_ws(t) == (to - end) + trailing_ws(v@.subrange(start as int, end as int)),
        decreases end - start,
    {
        assert(v@.subrange(start as int, end as int).drop_last() =~= v@.subrange(start as int, end - 1));
        end = end - 1;
    }
    assert(trailing_ws(v@.subrange(start as int, end as int)) == 0);
    assert(v@.subrange(start as int, end as int) =~= t.subrange(0, t.len() - trailing_ws(t)));
    (start, end)
}

/// `s` with one trailing carriage return removed, if it has one.
pub open spec fn strip_cr(s: Seq<char>) -> Seq<char> {
    if s.len() > 0 && s.last() == '\r' {
        s.drop_last()
    } else {
        s
    }
}

/// Index of the first `c` in `s` at or after `from`, if any.
pub open spec fn find_char(s: Seq<char>, c: char, from: int) -> Option<int>
    decreases s.len() - from,
{
    if from < 0 || from >= s.len() {
        None
    } else if s[from] == c {
        Some(from)
    } else {
        find_char(s, c, from + 1)
    }
}

/// The lines of `s` as `str::lines` yields them: split at `\n`, a `\r` just
/// before a `\n` dropped, and no empty line after a final `\n`.
pub open spec fn lines_from(s: Seq<char>, from: int) -> Seq<Seq<char>>
    decreases s.len() - from,
{
    if from < 0 || from >= s.len() {
        seq![]
    } else {
        match find_char(s, '\n', from) {
            None => seq![s.subrange(from, s.len() as int)],
            Some(i) => {
                proof {
                    lemma_find_char_bounds(s, '\n', from);
                }
                seq![strip_cr(s.subrange(from, i))] + lines_from(s, i + 1)
            },
        }
    }
}

/// The lines of `s` (`str::lines`).
pub open spec fn lines(s: Seq<char>) -> Seq<Seq<char>> {
    lines_from(s, 0)
}

pub proof fn lemma_find_char_bounds(s: Seq<char>, c: char, from: int)
    ensures
        find_char(s, c, from) matches Some(i) ==> from <= i < s.len() && s[i] == c,
        find_char(s, c, from) matches Some(i) ==> forall|j: int| from <= j < i ==> s[j] != c,
        find_char(s, c, from) is None && 0 <= from ==> forall|j: int| from <= j < s.len() ==> s[j] != c,
    decreases s.len() - from,
{
    if from >= 0 && from < s.len() && s[from] != c {
        lemma_find_char_bounds(s, c, from + 1);
    }
}

/// Index of the first `c` in `v` at or after `from`, if any.
pub fn find_char_exec(v: &Vec<char>, c: char, from: usize) -> (r: Option<usize>)
    requires
        from <= v@.len(),
    ensures
        r matches Some(i) ==> find_char(v@, c, from as int) == Some(i as int),
        r is None ==> find_char(v@, c, from as int) is None,
{
    let mut i = from;
    while i < v.len()
        invariant
            from <= i <= v@.len(),
            find_char(v@, c, from as int) == find_char(v@, c, i as int),
        decreases v@.len() - i,
    {
        if v[i] == c {
            return Some(i);
        }
        i = i + 1;
    }
    None
}

/// The lines of `text`, each as `str::lines` yields it.
pub fn split_lines(text: &Vec<char>) -> (out: Vec<Vec<char>>)
    ensures
        out@.len() == lines(text@).len(),
        forall|k: int| 0 <= k < out@.len() ==> #[trigger] out@[k]@ == lines(text@)[k],
{
    let mut out: Vec<Vec<char>> = Vec::new();
    let mut from: usize = 0;
    while from < text.len()
        invariant
            from <= text@.len(),
            lines(text@) == out@.map_values(|l: Vec<char>| l@) + lines_from(text@, from as int),
        decreases text@.len() - from,
    {
        let ghost before = out@.map_values(|l: Vec<char>| l@);
        match find_char_exec(text, '\n', from) {
            None => {
                let mut line: Vec<char> = Vec::new();
                let mut j = from;
                while j < text.len()
                    invariant
                        from <= j <= text@.len(),
                        line@ == text@.subrange(from as int, j as int),
                    decreases text@.len() - j,
                {
                    line.push(text[j]);
                    j = j + 1;
                }
                out.push(line);
                assert(out@.map_values(|l: Vec<char>| l@) =~= before.push(text@.subrange(from as int, text@.len() as int)));
                assert(lines_from(text@, text@.len() as int) =~= Seq::<Seq<char>>::empty());
                from = text.len();
            },
            Some(i) => {
                proof {
                    lemma_find_char_bounds(text@, '\n', from as int);
                }
                let mut end = i;
                if end > from && text[end - 1] == '\r' {
                    end = end - 1;
                }
                let mut line: Vec<char> = Vec::new();
                let mut j = from;
                while j < end
                    invariant
                        from <= j <= end <= text@.len(),
                        line@ == text@.subrange(from as int, j as int),
                    decreases end - j,
                {
                    line.push(text[j]);
                    j = j + 1;
                }
                assert(line@ =~= strip_cr(text@.subrange(from as int, i as int)));
                out.push(line);
                assert(out@.map_values(|l: Vec<char>| l@) =~= before.push(line@));
                assert(seq![strip_cr(text@.subrange(from as int, i as int))] + lines_from(text@, i + 1)
                    == lines_from(text@, from as int));
                assert(before + lines_from(text@, from as int) =~= before.push(line@) + lines_from(text@, i + 1));
                from = i + 1;
            },
        }
    }
    assert(lines_from(text@, from as int) =~= Seq::<Seq<char>>::empty());
    assert(out@.map_values(|l: Vec<char>| l@) =~= lines(text@));
    out
}


/// The decimal digit character of `d` (`0 <= d < 10`).
pub open spec fn digit_char(d: nat) -> char {
    (48 + d) as char
}

/// The decimal numeral of `n`, without leading zeros.
pub open spec fn decimal(n: nat) -> Seq<char>
    decreases n,
{
    if n < 10 {
        seq![digit_char(n)]
    } else {
        decimal(n / 10).push(digit_char(n % 10))
    }
}

/// The decimal numeral of `i`, with a leading `-` when it is negative.
pub open spec fn signed_decimal(i: int) -> Seq<char> {
    if i < 0 {
        seq!['-'] + decimal((-i) as nat)
    } else {
        decimal(i as nat)
    }
}

/// Appends the decimal numeral of `n` to `out`.
pub fn push_decimal(out: &mut String, n: u64)
    ensures
        final(out)@ == old(out)@ + decimal(n as nat),
    decreases n,
{
    if n >= 10 {
        push_decimal(out, n / 10);
    }
    let d: u8 = (n % 10) as u8;
    let c: char = (48u8 + d) as char;
    assert(c == digit_char((n % 10) as nat));
    push_char(out, c);
    if n >= 10 {
        assert(decimal(n as nat) == decimal((n / 10) as nat).push(digit_char((n % 10) as nat)));
        assert(old(out)@ + decimal((n / 10) as nat) + seq![c] =~= old(out)@ + decimal(n as nat));
    } else {
        assert(old(out)@.push(c) =~= old(out)@ + decimal(n as nat));
    }
}

/// Appends the decimal numeral of `i` to `out`, with `-` when it is negative.
pub fn push_signed_decimal(out: &mut String, i: i64)
    ensures
        final(out)@ == old(out)@ + signed_decimal(i as int),
{
    if i < 0 {
        push_char(out, '-');
        let m: u64 = ((-(i + 1)) as u64) + 1;
        assert(m == -i);
        push_decimal(out, m);
        assert(old(out)@.push('-') + decimal(m as nat) =~= old(out)@ + signed_decimal(i as int));
    } else {
        push_decimal(out, i as u64);
    }
}

/// The parts joined with `sep` between each two (what `[String]::join` gives).
pub open spec fn join_with(parts: Seq<Seq<char>>, sep: Seq<char>) -> Seq<char>
    decreases parts.len(),
{
    if parts.len() == 0 {
        Seq::empty()
    } else if parts.len() == 1 {
        parts[0]
    } else {
        join_with(parts.drop_last(), sep) + sep + parts.last()
    }
}

/// The strings of `parts` joined with `sep` between each two.
pub fn join_strings(parts: &Vec<String>, sep: &str) -> (r: String)
    ensures
        r@ == join_with(parts@.map_values(|p: String| p@), sep@),
{
    let ghost all = parts@.map_values(|p: String| p@);
    let mut r = String::new();
    let mut i: usize = 0;
    while i < parts.len()
        invariant
            i <= parts@.len(),
            all == parts@.map_values(|p: String| p@),
            r@ == join_with(all.take(i as int), sep@),
        decreases parts@.len() - i,
    {
        if i > 0 {
            r.append(sep);
        }
        r.append(parts[i].as_str());
        proof {
            let t = all.take(i + 1);
            assert(t.drop_last() =~= all.take(i as int));
            assert(t.last() == parts@[i as int]@);
            if i == 0 {
                assert(t.len() == 1);
            }
        }
        i = i + 1;
    }
    assert(all.take(i as int) =~= all);
    r
}

} // verus!
