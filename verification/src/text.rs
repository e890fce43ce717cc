//! Character-level helpers shared by the request grammar and the formatter.

use vstd::prelude::*;
use crate::bindings::push_char;

verus! {

/// The texts of the strings.
pub open spec fn strings_view(strings: Seq<String>) -> Seq<Seq<char>> {
    Seq::new(strings.len(), |i: int| strings[i]@)
}

/// The two texts of each pair, as plain values.
pub open spec fn pairs_view(pairs: Seq<(String, String)>) -> Seq<(Seq<char>, Seq<char>)> {
    Seq::new(pairs.len(), |i: int| (pairs[i].0@, pairs[i].1@))
}

/// The lower-case form of an ASCII letter; any other character is unchanged.
pub open spec fn lower_char(c: char) -> char {
    if 'A' <= c <= 'Z' {
        ((c as u8) + 0x20) as char
    } else {
        c
    }
}

/// `s` with its ASCII letters in lower case.
pub open spec fn lowered(s: Seq<char>) -> Seq<char> {
    Seq::new(s.len(), |i: int| lower_char(s[i]))
}

/// The lower-case form of an ASCII letter; any other character is unchanged.
pub fn to_lower(c: char) -> (r: char)
    ensures
        r == lower_char(c),
{
    if 'A' <= c && c <= 'Z' {
        ((c as u8) + 0x20) as char
    } else {
        c
    }
}

/// Whether `s[from..to]`, with its ASCII letters lowered, reads `word`.
pub fn reads_lowered(s: &[char], from: usize, to: usize, word: &[char]) -> (r: bool)
    requires
        from <= to <= s@.len(),
    ensures
        r == (lowered(s@.subrange(from as int, to as int)) == word@),
{
    if to - from != word.len() {
        return false;
    }
    let mut i: usize = 0;
    while i < word.len()
        invariant
            from <= to <= s.len(),
            to - from == word.len(),
            i <= word.len(),
            forall|j: int| 0 <= j < i ==> lower_char(s@[from + j]) == word@[j],
        decreases word.len() - i,
    {
        if to_lower(s[from + i]) != word[i] {
            assert(lowered(s@.subrange(from as int, to as int))[i as int] != word@[i as int]);
            return false;
        }
        i += 1;
    }
    assert(lowered(s@.subrange(from as int, to as int)) =~= word@);
    true
}

/// The decimal digit of a number below ten.
pub open spec fn digit(d: nat) -> char {
    (0x30 + d) as char
}

/// A number in decimal, without leading zeros.
pub open spec fn decimal(n: nat) -> Seq<char>
    decreases n,
{
    if n < 10 {
        seq![digit(n)]
    } else {
        decimal(n / 10).push(digit(n % 10))
    }
}

/// Appends a number in decimal.
pub fn push_decimal(s: &mut String, n: u16)
    ensures
        final(s)@ == old(s)@ + decimal(n as nat),
    decreases n,
{
    if n >= 10 {
        push_decimal(s, n / 10);
    }
    let d: u8 = (n % 10) as u8;
    push_char(s, (0x30 + d) as char);
    assert(s@ =~= old(s)@ + decimal(n as nat));
}

/// The characters of `s`, in order.
pub fn chars_of(s: &str) -> (v: Vec<char>)
    ensures
        v@ == s@,
{
    let mut v: Vec<char> = Vec::new();
    for c in it: s.chars()
        invariant
            v@ == it.seq().take(it.index()),
            it.seq() == s@,
    {
        v.push(c);
    }
    v
}

/// Appends `chars[from..to]` to `s`.
pub fn push_chars(s: &mut String, chars: &[char], from: usize, to: usize)
    requires
        from <= to <= chars@.len(),
    ensures
        final(s)@ == old(s)@ + chars@.subrange(from as int, to as int),
{
    let mut i: usize = from;
    while i < to
        invariant
            from <= i <= to <= chars@.len(),
            s@ == old(s)@ + chars@.subrange(from as int, i as int),
        decreases to - i,
    {
        push_char(s, chars[i]);
        i += 1;
        assert(chars@.subrange(from as int, i as int) == chars@.subrange(
            from as int,
            i - 1,
        ).push(chars@[i - 1]));
    }
}

/// The string made of `chars[from..to]`.
pub fn string_of(chars: &[char], from: usize, to: usize) -> (s: String)
    requires
        from <= to <= chars@.len(),
    ensures
        s@ == chars@.subrange(from as int, to as int),
{
    let mut s = String::new();
    push_chars(&mut s, chars, from, to);
    s
}

/// The same pairs, copied.
pub fn clone_pairs(pairs: &Vec<(String, String)>) -> (copy: Vec<(String, String)>)
    ensures
        pairs_view(copy@) == pairs_view(pairs@),
{
    let mut copy: Vec<(String, String)> = Vec::new();
    let mut i: usize = 0;
    while i < pairs.len()
        invariant
            i <= pairs@.len(),
            copy@.len() == i,
            forall|j: int| 0 <= j < i ==> (#[trigger] copy@[j]).0@ == pairs@[j].0@ && copy@[j].1@ == pairs@[j].1@,
        decreases pairs@.len() - i,
    {
        copy.push((pairs[i].0.clone(), pairs[i].1.clone()));
        i += 1;
    }
    assert(pairs_view(copy@) =~= pairs_view(pairs@));
    copy
}

/// Index of the first item of `s` at or after `from` that meets `p`, or
/// `s.len()` where there is none.
pub open spec fn first_at<T>(s: Seq<T>, from: int, p: spec_fn(T) -> bool) -> int
    decreases s.len() - from,
{
    if from < 0 || from >= s.len() {
        s.len() as int
    } else if p(s[from]) {
        from
    } else {
        first_at(s, from + 1, p)
    }
}

/// `first_at` stays within the sequence, stops at an item that meets `p`,
/// and passes over none.
pub proof fn lemma_first_at<T>(s: Seq<T>, from: int, p: spec_fn(T) -> bool)
    requires
        0 <= from <= s.len(),
    ensures
        from <= first_at(s, from, p) <= s.len(),
        first_at(s, from, p) < s.len() ==> p(s[first_at(s, from, p)]),
        forall|i: int| from <= i < first_at(s, from, p) ==> !p(#[trigger] s[i]),
    decreases s.len() - from,
{
    if from < s.len() && !p(s[from]) {
        lemma_first_at(s, from + 1, p);
    }
}

/// An index that `first_at` can be shown to return: nothing from `from` up
/// to it meets `p`, and it is the end or meets `p` itself.
pub proof fn lemma_first_at_is<T>(s: Seq<T>, from: int, p: spec_fn(T) -> bool, at: int)
    requires
        0 <= from <= at <= s.len(),
        forall|i: int| from <= i < at ==> !p(#[trigger] s[i]),
        at < s.len() ==> p(s[at]),
    ensures
        first_at(s, from, p) == at,
    decreases at - from,
{
    if from < at {
        lemma_first_at_is(s, from + 1, p, at);
    }
}

/// Index of the first line feed of `s` at or after `from`, or `s.len()`
/// where there is none.
pub open spec fn line_end(s: Seq<char>, from: int) -> int {
    first_at(s, from, |c: char| c == '\n')
}

/// What the line `s[from..end]` holds: a line that a line feed ends loses
/// one carriage return that stands right before the line feed.
pub open spec fn line_content(s: Seq<char>, from: int, end: int) -> Seq<char> {
    if end < s.len() && from < end && s[end - 1] == '\r' {
        s.subrange(from, end - 1)
    } else {
        s.subrange(from, end)
    }
}

/// The lines of `s` that start at or after `from`.
pub open spec fn lines_from(s: Seq<char>, from: int) -> Seq<Seq<char>>
    decreases s.len() - from,
    via lines_from_decreases
{
    if from < 0 || from >= s.len() {
        Seq::empty()
    } else {
        let end = line_end(s, from);
        if end < s.len() {
            seq![line_content(s, from, end)] + lines_from(s, end + 1)
        } else {
            seq![line_content(s, from, end)]
        }
    }
}

#[via_fn]
proof fn lines_from_decreases(s: Seq<char>, from: int) {
    if 0 <= from < s.len() {
        lemma_first_at(s, from, |c: char| c == '\n');
    }
}

/// The lines of a text. A line ends at a line feed, or at a carriage return
/// directly followed by one; neither belongs to the line. The last line
/// needs no line ending, and a text that ends with one has no empty line
/// after it.
pub open spec fn lines(s: Seq<char>) -> Seq<Seq<char>> {
    lines_from(s, 0)
}

/// The pieces of `s` that the index pairs of `ranges` cut out.
pub open spec fn pieces(s: Seq<char>, ranges: Seq<(usize, usize)>) -> Seq<Seq<char>> {
    Seq::new(ranges.len(), |i: int| s.subrange(ranges[i].0 as int, ranges[i].1 as int))
}

/// Every pair of `ranges` is an index range of a sequence of length `len`.
pub open spec fn ranges_within(ranges: Seq<(usize, usize)>, len: nat) -> bool {
    forall|i: int| 0 <= i < ranges.len() ==> (#[trigger] ranges[i]).0 <= ranges[i].1 <= len
}

/// Splits a text into its lines, each given as an index range of `chars`.
pub fn split_lines(chars: &[char]) -> (ranges: Vec<(usize, usize)>)
    ensures
        ranges_within(ranges@, chars@.len()),
        pieces(chars@, ranges@) == lines(chars@),
{
    let n = chars.len();
    let mut ranges: Vec<(usize, usize)> = Vec::new();
    let mut pos: usize = 0;
    while pos < n
        invariant
            n == chars@.len(),
            pos <= n,
            ranges_within(ranges@, chars@.len()),
            lines(chars@) == pieces(chars@, ranges@) + lines_from(chars@, pos as int),
        decreases n - pos,
    {
        let mut end: usize = pos;
        while end < n && chars[end] != '\n'
            invariant
                n == chars@.len(),
                pos <= end <= n,
                forall|i: int| pos <= i < end ==> chars@[i] != '\n',
            decreases n - end,
        {
            end += 1;
        }
        proof {
            lemma_first_at_is(chars@, pos as int, |c: char| c == '\n', end as int);
        }
        let stop: usize = if end < n && pos < end && chars[end - 1] == '\r' {
            end - 1
        } else {
            end
        };
        proof {
            let ghost before = pieces(chars@, ranges@);
            let ghost line = chars@.subrange(pos as int, stop as int);
            assert(line == line_content(chars@, pos as int, end as int));
            assert(pieces(chars@, ranges@.push((pos, stop))) == before.push(line));
            if end < n {
                assert(before + (seq![line] + lines_from(chars@, end + 1)) == before.push(line)
                    + lines_from(chars@, end + 1));
            } else {
                assert(before + seq![line] == before.push(line) + lines_from(chars@, n as int));
            }
        }
        ranges.push((pos, stop));
        pos = if end < n {
            end + 1
        } else {
            n
        };
    }
    assert(lines_from(chars@, pos as int) == Seq::<Seq<char>>::empty());
    assert(pieces(chars@, ranges@) + Seq::<Seq<char>>::empty() == pieces(chars@, ranges@));
    ranges
}

/// The lines joined again, with one line feed between each two.
pub open spec fn join_lines(ls: Seq<Seq<char>>) -> Seq<char>
    decreases ls.len(),
{
    if ls.len() == 0 {
        Seq::empty()
    } else if ls.len() == 1 {
        ls[0]
    } else {
        join_lines(ls.drop_last()) + seq!['\n'] + ls.last()
    }
}

/// Joins the pieces of `chars` that `ranges[from..]` cut out, with one line
/// feed between each two.
pub fn join_pieces(chars: &[char], ranges: &Vec<(usize, usize)>, from: usize) -> (s: String)
    requires
        ranges_within(ranges@, chars@.len()),
        from <= ranges@.len(),
    ensures
        s@ == join_lines(pieces(chars@, ranges@).skip(from as int)),
{
    let ghost ls = pieces(chars@, ranges@);
    let mut s = String::new();
    let mut i: usize = from;
    assert(ls.subrange(from as int, from as int) =~= Seq::<Seq<char>>::empty());
    while i < ranges.len()
        invariant
            ranges_within(ranges@, chars@.len()),
            ls == pieces(chars@, ranges@),
            from <= i <= ranges@.len(),
            s@ == join_lines(ls.subrange(from as int, i as int)),
        decreases ranges@.len() - i,
    {
        let ghost done = ls.subrange(from as int, i as int);
        let ghost next = ls.subrange(from as int, i + 1);
        assert(next.drop_last() =~= done);
        assert(next.last() == chars@.subrange(ranges@[i as int].0 as int, ranges@[i as int].1 as int));
        if i > from {
            push_char(&mut s, '\n');
            assert(s@ == join_lines(done) + seq!['\n']);
        } else {
            assert(s@ + next.last() =~= next.last());
        }
        let (a, b) = ranges[i];
        push_chars(&mut s, chars, a, b);
        i += 1;
    }
    assert(ls.subrange(from as int, ranges@.len() as int) =~= ls.skip(from as int));
    s
}

/// Whether `s` begins with `p`.
pub open spec fn starts_with(s: Seq<char>, p: Seq<char>) -> bool {
    p.len() <= s.len() && s.subrange(0, p.len() as int) == p
}

/// Whether `s` ends with `p`.
pub open spec fn ends_with(s: Seq<char>, p: Seq<char>) -> bool {
    p.len() <= s.len() && s.subrange(s.len() - p.len(), s.len() as int) == p
}

/// `s` without `p` at its start, as often as `p` stands there. An empty
/// `p` takes nothing away.
pub open spec fn trim_start_matches(s: Seq<char>, p: Seq<char>) -> Seq<char>
    decreases s.len(),
{
    if p.len() > 0 && starts_with(s, p) {
        trim_start_matches(s.skip(p.len() as int), p)
    } else {
        s
    }
}

/// `s` without `p` at its end, as often as `p` stands there. An empty `p`
/// takes nothing away.
pub open spec fn trim_end_matches(s: Seq<char>, p: Seq<char>) -> Seq<char>
    decreases s.len(),
{
    if p.len() > 0 && ends_with(s, p) {
        trim_end_matches(s.take(s.len() - p.len()), p)
    } else {
        s
    }
}

/// Whether `p` stands in `s` at index `at`.
pub fn match_at(s: &[char], at: usize, p: &[char]) -> (r: bool)
    requires
        at <= s@.len(),
    ensures
        r == (at + p@.len() <= s@.len() && s@.subrange(at as int, at + p@.len()) == p@),
{
    if s.len() - at < p.len() {
        return false;
    }
    let mut i: usize = 0;
    while i < p.len()
        invariant
            at + p.len() <= s.len(),
            i <= p.len(),
            forall|j: int| 0 <= j < i ==> s@[at + j] == p@[j],
        decreases p@.len() - i,
    {
        if s[at + i] != p[i] {
            assert(s@.subrange(at as int, at + p@.len())[i as int] != p@[i as int]);
            return false;
        }
        i += 1;
    }
    assert(s@.subrange(at as int, at + p@.len()) =~= p@);
    true
}

/// Trims `p` from the start of `s[from..to]`, and returns where what is
/// left begins.
pub fn trim_start(s: &[char], from: usize, to: usize, p: &[char]) -> (r: usize)
    requires
        from <= to <= s@.len(),
    ensures
        from <= r <= to,
        s@.subrange(r as int, to as int) == trim_start_matches(
            s@.subrange(from as int, to as int),
            p@,
        ),
{
    let mut r: usize = from;
    if p.len() == 0 {
        return r;
    }
    while to - r >= p.len() && match_at(s, r, p)
        invariant
            from <= r <= to <= s@.len(),
            p@.len() > 0,
            trim_start_matches(s@.subrange(from as int, to as int), p@) == trim_start_matches(
                s@.subrange(r as int, to as int),
                p@,
            ),
        decreases to - r,
    {
        proof {
            let rest = s@.subrange(r as int, to as int);
            assert(rest.subrange(0, p@.len() as int) =~= s@.subrange(r as int, r + p@.len()));
            assert(rest.skip(p@.len() as int) =~= s@.subrange(r + p@.len(), to as int));
        }
        r += p.len();
    }
    proof {
        let rest = s@.subrange(r as int, to as int);
        if p@.len() <= rest.len() {
            assert(rest.subrange(0, p@.len() as int) =~= s@.subrange(r as int, r + p@.len()));
        }
    }
    r
}

/// Trims `p` from the end of `s[from..to]`, and returns where what is left
/// ends.
pub fn trim_end(s: &[char], from: usize, to: usize, p: &[char]) -> (r: usize)
    requires
        from <= to <= s@.len(),
    ensures
        from <= r <= to,
        s@.subrange(from as int, r as int) == trim_end_matches(
            s@.subrange(from as int, to as int),
            p@,
        ),
{
    let mut r: usize = to;
    if p.len() == 0 {
        return r;
    }
    while r - from >= p.len() && match_at(s, r - p.len(), p)
        invariant
            from <= r <= to <= s@.len(),
            p@.len() > 0,
            trim_end_matches(s@.subrange(from as int, to as int), p@) == trim_end_matches(
                s@.subrange(from as int, r as int),
                p@,
            ),
        decreases r - from,
    {
        proof {
            let rest = s@.subrange(from as int, r as int);
            assert(rest.subrange(rest.len() - p@.len(), rest.len() as int) =~= s@.subrange(
                r - p@.len(),
                r as int,
            ));
            assert(rest.take(rest.len() - p@.len()) =~= s@.subrange(from as int, r - p@.len()));
        }
        r -= p.len();
    }
    proof {
        let rest = s@.subrange(from as int, r as int);
        if p@.len() <= rest.len() {
            assert(rest.subrange(rest.len() - p@.len(), rest.len() as int) =~= s@.subrange(
                r - p@.len(),
                r as int,
            ));
        }
    }
    r
}

/// Scanning the second part of a concatenation is scanning that part alone.
pub proof fn lemma_first_at_shift<T>(a: Seq<T>, b: Seq<T>, from: int, p: spec_fn(T) -> bool)
    requires
        0 <= from <= b.len(),
    ensures
        first_at(a + b, a.len() + from, p) == a.len() + first_at(b, from, p),
{
    lemma_first_at(b, from, p);
    let at = first_at(b, from, p);
    assert forall|i: int| a.len() + from <= i < a.len() + at implies !p(#[trigger] (a + b)[i]) by {
        assert((a + b)[i] == b[i - a.len()]);
    }
    if at < b.len() {
        assert((a + b)[a.len() + at] == b[at]);
    }
    lemma_first_at_is(a + b, a.len() + from, p, a.len() + at);
}

/// The lines that start in the second part of a concatenation are the lines
/// of that part alone.
pub proof fn lemma_lines_from_shift(a: Seq<char>, b: Seq<char>, from: int)
    requires
        0 <= from <= b.len(),
    ensures
        lines_from(a + b, a.len() + from) == lines_from(b, from),
    decreases b.len() - from,
{
    let s = a + b;
    if from < b.len() {
        let p = |c: char| c == '\n';
        lemma_first_at_shift(a, b, from, p);
        lemma_first_at(b, from, p);
        let end = line_end(b, from);
        assert(line_end(s, a.len() + from) == a.len() + end);
        if from < end {
            assert(s[a.len() + end - 1] == b[end - 1]);
        }
        assert(s.subrange(a.len() + from, a.len() + end) =~= b.subrange(from, end));
        if from < end {
            assert(s.subrange(a.len() + from, a.len() + end - 1) =~= b.subrange(from, end - 1));
        }
        assert(line_content(s, a.len() + from, a.len() + end) == line_content(b, from, end));
        if end < b.len() {
            lemma_lines_from_shift(a, b, end + 1);
        }
    }
}

/// The lines of a text that starts with a line: that line, and the lines of
/// what follows its line feed.
pub proof fn lemma_lines_cons(first: Seq<char>, rest: Seq<char>)
    requires
        forall|i: int| 0 <= i < first.len() ==> first[i] != '\n',
        first.len() > 0 ==> first.last() != '\r',
    ensures
        lines(first + seq!['\n'] + rest) == seq![first] + lines(rest),
{
    let head = first + seq!['\n'];
    let s = head + rest;
    let p = |c: char| c == '\n';
    assert forall|i: int| 0 <= i < first.len() implies !p(#[trigger] s[i]) by {
        assert(s[i] == first[i]);
    }
    assert(s[first.len() as int] == '\n');
    lemma_first_at_is(s, 0, p, first.len() as int);
    assert(s.subrange(0, first.len() as int) =~= first);
    if first.len() > 0 {
        assert(s[first.len() - 1] == first.last());
    }
    assert(line_content(s, 0, first.len() as int) == first);
    lemma_lines_from_shift(head, rest, 0);
    if rest.len() == 0 {
        assert(lines_from(s, head.len() as int) =~= Seq::<Seq<char>>::empty());
    }
    assert(lines(s) =~= seq![first] + lines(rest));
}

/// A text that holds anything has a line.
pub proof fn lemma_lines_nonempty(s: Seq<char>)
    requires
        s.len() > 0,
    ensures
        lines(s).len() > 0,
{
}

/// Joining a first line with more lines puts one line feed behind the first.
pub proof fn lemma_join_lines_cons(first: Seq<char>, more: Seq<Seq<char>>)
    requires
        more.len() > 0,
    ensures
        join_lines(seq![first] + more) == first + seq!['\n'] + join_lines(more),
    decreases more.len(),
{
    let all = seq![first] + more;
    assert(all.last() == more.last());
    assert(all.drop_last() =~= seq![first] + more.drop_last());
    if more.len() == 1 {
        assert(all.drop_last() =~= seq![first]);
        assert(join_lines(all.drop_last()) == first);
        assert(join_lines(more) == more.last());
    } else {
        lemma_join_lines_cons(first, more.drop_last());
        assert(join_lines(all) =~= first + seq!['\n'] + join_lines(more));
    }
}

} // verus!
