//! Character-level text helpers shared by the rest of the library: trimming,
//! line framing, prefixes, substrings and shortening, each stated over
//! sequences of characters.

use vstd::prelude::*;
use vstd::string::StringExecFns;

verus! {

/// `String::push` appends the given character to the end of the string.
pub assume_specification[ String::push ](s: &mut String, ch: char)
    ensures
        final(s)@ == old(s)@.push(ch),
;

/// Whether a character carries the Unicode `White_Space` property.
pub uninterp spec fn is_whitespace_char(c: char) -> bool;

/// `char::is_whitespace` reports whether the character has the Unicode
/// `White_Space` property; the answer depends on the character alone.
pub assume_specification[ char::is_whitespace ](c: char) -> (b: bool)
    ensures
        b == is_whitespace_char(c),
;

/// For each character of `s`, whether it is whitespace.
pub open spec fn blanks(s: Seq<char>) -> Seq<bool> {
    Seq::new(s.len(), |i: int| is_whitespace_char(s[i]))
}

/// Number of set flags at the front of `flags`.
pub open spec fn leading_set(flags: Seq<bool>) -> nat
    decreases flags.len(),
{
    if flags.len() > 0 && flags[0] {
        1 + leading_set(flags.drop_first())
    } else {
        0
    }
}

/// Number of set flags at the back of `flags`.
pub open spec fn trailing_set(flags: Seq<bool>) -> nat
    decreases flags.len(),
{
    if flags.len() > 0 && flags.last() {
        1 + trailing_set(flags.drop_last())
    } else {
        0
    }
}

/// The range left after the set flags at both ends are cut off: start and
/// end, the end exclusive. Where every flag is set the range is empty.
pub open spec fn kept_range(flags: Seq<bool>) -> (int, int) {
    let start = leading_set(flags) as int;
    if start == flags.len() {
        (start, start)
    } else {
        (start, flags.len() - trailing_set(flags))
    }
}

/// `s` without its leading and trailing whitespace.
pub open spec fn trimmed(s: Seq<char>) -> Seq<char> {
    let range = kept_range(blanks(s));
    s.subrange(range.0, range.1)
}

/// Position of the first line feed in `s`, or its length if it has none.
pub open spec fn newline_at(s: Seq<char>) -> nat
    decreases s.len(),
{
    if s.len() == 0 || s[0] == '\n' {
        0
    } else {
        1 + newline_at(s.drop_first())
    }
}

/// `line` without a carriage return at its end.
pub open spec fn without_return(line: Seq<char>) -> Seq<char> {
    if line.len() > 0 && line.last() == '\r' {
        line.drop_last()
    } else {
        line
    }
}

/// The lines of `s`. A line ends at a line feed, or at a carriage return
/// followed directly by a line feed; the ending is not part of the line. The
/// last line needs no ending, and a text that ends with one has no empty line
/// after it.
pub open spec fn lines_of(s: Seq<char>) -> Seq<Seq<char>>
    decreases s.len(),
{
    if s.len() == 0 {
        Seq::empty()
    } else {
        let n = newline_at(s) as int;
        if n < s.len() {
            seq![without_return(s.take(n))] + lines_of(s.skip(n + 1))
        } else {
            seq![s]
        }
    }
}

/// The first line of `s`, empty where `s` is.
pub open spec fn first_line(s: Seq<char>) -> Seq<char> {
    if s.len() == 0 {
        s
    } else {
        lines_of(s)[0]
    }
}

/// `s` with every `from` turned into `to`.
pub open spec fn replaced(s: Seq<char>, from: char, to: char) -> Seq<char> {
    s.map_values(
        |c: char|
            if c == from {
                to
            } else {
                c
            },
    )
}

/// `text` cut to `limit` characters, with three dots after the cut; texts
/// within the limit stay as they are.
pub open spec fn shortened(text: Seq<char>, limit: int) -> Seq<char> {
    if text.len() > limit {
        text.take(limit) + "..."@
    } else {
        text
    }
}

/// Whether `needle` stands in `hay` at position `at`.
pub open spec fn occurs_at(hay: Seq<char>, needle: Seq<char>, at: int) -> bool {
    &&& 0 <= at
    &&& at + needle.len() <= hay.len()
    &&& hay.subrange(at, at + needle.len()) == needle
}

/// Whether `needle` stands somewhere in `hay`.
pub open spec fn contains_text(hay: Seq<char>, needle: Seq<char>) -> bool {
    exists|at: int| occurs_at(hay, needle, at)
}

/// Where the part of `s` after its last `sep` starts: 0 if it has none.
pub open spec fn tail_start(s: Seq<char>, sep: char) -> nat
    decreases s.len(),
{
    if s.len() == 0 {
        0
    } else if s.last() == sep {
        s.len()
    } else {
        tail_start(s.drop_last(), sep)
    }
}

/// The part of `s` after its last `sep`; all of `s` if it has none.
pub open spec fn last_segment(s: Seq<char>, sep: char) -> Seq<char> {
    s.skip(tail_start(s, sep) as int)
}

/// The views of a list of strings.
pub open spec fn texts(list: Seq<String>) -> Seq<Seq<char>> {
    list.map_values(|line: String| line@)
}

/// The characters of a string slice, in order.
pub fn chars_of(s: &str) -> (v: Vec<char>)
    ensures
        v@ == s@,
{
    let mut v: Vec<char> = Vec::new();
    for c in it: s.chars()
        invariant
            it.seq() == s@,
            v@ =~= s@.take(it.index()),
    {
        v.push(c);
    }
    assert(s@.take(s@.len() as int) =~= s@);
    v
}

/// The string made of the characters of `v` from `from` up to `to`.
pub fn string_between(v: &Vec<char>, from: usize, to: usize) -> (s: String)
    requires
        from <= to <= v.len(),
    ensures
        s@ == v@.subrange(from as int, to as int),
{
    let mut s = String::new();
    let mut i: usize = from;
    while i < to
        invariant
            from <= i <= to <= v.len(),
            s@ =~= v@.subrange(from as int, i as int),
        decreases to - i,
    {
        s.push(v[i]);
        i += 1;
    }
    s
}

/// The string made of the given characters, in order.
pub fn string_of(v: &Vec<char>) -> (s: String)
    ensures
        s@ == v@,
{
    let s = string_between(v, 0, v.len());
    assert(v@.subrange(0, v@.len() as int) =~= v@);
    s
}

/// Whether two texts hold the same characters.
pub fn same_text(a: &Vec<char>, b: &Vec<char>) -> (same: bool)
    ensures
        same == (a@ == b@),
{
    if a.len() != b.len() {
        return false;
    }
    let mut i: usize = 0;
    while i < a.len()
        invariant
            i <= a.len(),
            a.len() == b.len(),
            forall|j: int| 0 <= j < i ==> a@[j] == b@[j],
        decreases a.len() - i,
    {
        if a[i] != b[i] {
            return false;
        }
        i += 1;
    }
    assert(a@ =~= b@);
    true
}

/// Whether `text` begins with `prefix`.
pub fn begins_with(text: &Vec<char>, prefix: &Vec<char>) -> (found: bool)
    ensures
        found == prefix@.is_prefix_of(text@),
{
    if prefix.len() > text.len() {
        return false;
    }
    let mut i: usize = 0;
    while i < prefix.len()
        invariant
            i <= prefix.len() <= text.len(),
            forall|j: int| 0 <= j < i ==> text@[j] == prefix@[j],
        decreases prefix.len() - i,
    {
        if text[i] != prefix[i] {
            assert(text@.subrange(0, prefix@.len() as int)[i as int] != prefix@[i as int]);
            return false;
        }
        i += 1;
    }
    assert(text@.subrange(0, prefix@.len() as int) =~= prefix@);
    true
}

/// Whether `needle` stands in `hay` at position `at`.
fn matches_at(hay: &Vec<char>, needle: &Vec<char>, at: usize) -> (found: bool)
    requires
        at + needle.len() <= hay.len(),
    ensures
        found == occurs_at(hay@, needle@, at as int),
{
    let mut i: usize = 0;
    while i < needle.len()
        invariant
            i <= needle.len(),
            at + needle.len() <= hay.len(),
            forall|j: int| 0 <= j < i ==> hay@[at + j] == needle@[j],
        decreases needle.len() - i,
    {
        if hay[at + i] != needle[i] {
            assert(hay@.subrange(at as int, at + needle@.len())[i as int] != needle@[i as int]);
            return false;
        }
        i += 1;
    }
    assert(hay@.subrange(at as int, at + needle@.len()) =~= needle@);
    true
}

/// Whether `needle` stands somewhere in `hay`. The empty text stands in
/// every text.
pub fn contains(hay: &Vec<char>, needle: &Vec<char>) -> (found: bool)
    ensures
        found == contains_text(hay@, needle@),
{
    if needle.len() > hay.len() {
        return false;
    }
    let last: usize = hay.len() - needle.len();
    let mut at: usize = 0;
    while at < last
        invariant
            at <= last,
            last == hay.len() - needle.len(),
            needle.len() <= hay.len(),
            forall|k: int| 0 <= k < at ==> !occurs_at(hay@, needle@, k),
        decreases last - at,
    {
        if matches_at(hay, needle, at) {
            return true;
        }
        at += 1;
    }
    matches_at(hay, needle, last)
}

/// `text` with every `from` turned into `to`.
pub fn replace_char(text: &Vec<char>, from: char, to: char) -> (out: Vec<char>)
    ensures
        out@ == replaced(text@, from, to),
{
    let mut out: Vec<char> = Vec::new();
    let mut i: usize = 0;
    while i < text.len()
        invariant
            i <= text.len(),
            out@ =~= replaced(text@.take(i as int), from, to),
        decreases text.len() - i,
    {
        let c = text[i];
        out.push(
            if c == from {
                to
            } else {
                c
            },
        );
        i += 1;
    }
    assert(text@.take(text@.len() as int) =~= text@);
    out
}

/// The range of a text that trimming keeps, from one flag per character
/// that says whether the character is whitespace.
pub fn trim_bounds(flags: &Vec<bool>) -> (range: (usize, usize))
    ensures
        (range.0 as int, range.1 as int) == kept_range(flags@),
        range.0 <= range.1 <= flags.len(),
{
    let len: usize = flags.len();
    let mut start: usize = 0;
    assert(flags@.skip(0) =~= flags@);
    while start < len && flags[start]
        invariant
            start <= len == flags.len(),
            leading_set(flags@) == start + leading_set(flags@.skip(start as int)),
        decreases len - start,
    {
        assert(flags@.skip(start as int).drop_first() =~= flags@.skip(start + 1));
        start += 1;
    }
    if start == len {
        return (start, start);
    }
    let mut end: usize = len;
    assert(flags@.take(len as int) =~= flags@);
    while flags[end - 1]
        invariant
            start < end <= len == flags.len(),
            !flags@[start as int],
            trailing_set(flags@) == (len - end) + trailing_set(flags@.take(end as int)),
        decreases end,
    {
        assert(flags@.take(end as int).drop_last() =~= flags@.take(end - 1));
        end -= 1;
    }
    (start, end)
}

/// `text` without its leading and trailing whitespace.
pub fn trim(text: &Vec<char>) -> (out: Vec<char>)
    ensures
        out@ == trimmed(text@),
{
    let mut flags: Vec<bool> = Vec::new();
    let mut i: usize = 0;
    while i < text.len()
        invariant
            i <= text.len(),
            flags@ =~= blanks(text@.take(i as int)),
        decreases text.len() - i,
    {
        flags.push(text[i].is_whitespace());
        i += 1;
    }
    assert(text@.take(text@.len() as int) =~= text@);
    let (start, end) = trim_bounds(&flags);
    let mut out: Vec<char> = Vec::new();
    let mut k: usize = start;
    while k < end
        invariant
            start <= k <= end <= text.len(),
            out@ =~= text@.subrange(start as int, k as int),
        decreases end - k,
    {
        out.push(text[k]);
        k += 1;
    }
    out
}

/// Counting up to the first line feed finds where [`newline_at`] points.
pub proof fn lemma_newline_at(s: Seq<char>, n: int)
    requires
        0 <= n <= s.len(),
        forall|j: int| 0 <= j < n ==> s[j] != '\n',
        n == s.len() || s[n] == '\n',
    ensures
        newline_at(s) == n,
    decreases n,
{
    if n > 0 {
        lemma_newline_at(s.drop_first(), n - 1);
    }
}

/// The lines of a text, as [`lines_of`] frames them.
pub fn split_lines(content: &str) -> (lines: Vec<String>)
    ensures
        texts(lines@) == lines_of(content@),
{
    let chars = chars_of(content);
    let len: usize = chars.len();
    let mut lines: Vec<String> = Vec::new();
    let mut start: usize = 0;
    assert(chars@.skip(0) =~= chars@);
    while start < len
        invariant
            start <= len == chars.len(),
            lines_of(chars@) =~= texts(lines@) + lines_of(chars@.skip(start as int)),
        decreases len - start,
    {
        let mut end: usize = start;
        while end < len && chars[end] != '\n'
            invariant
                start <= end <= len == chars.len(),
                forall|j: int| start <= j < end ==> chars@[j] != '\n',
            decreases len - end,
        {
            end += 1;
        }
        let ghost rest = chars@.skip(start as int);
        let ghost before = texts(lines@);
        proof {
            lemma_newline_at(rest, end - start);
            assert(rest.take(end - start) =~= chars@.subrange(start as int, end as int));
        }
        if end < len {
            let stop: usize = if end > start && chars[end - 1] == '\r' {
                end - 1
            } else {
                end
            };
            let line = string_between(&chars, start, stop);
            proof {
                assert(line@ =~= without_return(rest.take(end - start)));
                assert(rest.skip(end - start + 1) =~= chars@.skip(end + 1));
                assert(texts(lines@.push(line)) =~= before.push(line@));
            }
            lines.push(line);
            start = end + 1;
        } else {
            let line = string_between(&chars, start, len);
            proof {
                assert(line@ =~= rest);
                assert(texts(lines@.push(line)) =~= before.push(line@));
                assert(lines_of(chars@.skip(len as int)) =~= Seq::<Seq<char>>::empty());
            }
            lines.push(line);
            start = len;
        }
    }
    assert(lines_of(chars@.skip(len as int)) =~= Seq::<Seq<char>>::empty());
    lines
}

/// The first line of a text, empty where the text is.
pub fn first_line_of(text: &Vec<char>) -> (line: Vec<char>)
    ensures
        line@ == first_line(text@),
{
    let len: usize = text.len();
    let mut end: usize = 0;
    while end < len && text[end] != '\n'
        invariant
            end <= len == text.len(),
            forall|j: int| 0 <= j < end ==> text@[j] != '\n',
        decreases len - end,
    {
        end += 1;
    }
    proof {
        lemma_newline_at(text@, end as int);
    }
    let stop: usize = if end < len && end > 0 && text[end - 1] == '\r' {
        end - 1
    } else {
        end
    };
    let mut line: Vec<char> = Vec::new();
    let mut k: usize = 0;
    while k < stop
        invariant
            k <= stop <= text.len(),
            line@ =~= text@.take(k as int),
        decreases stop - k,
    {
        line.push(text[k]);
        k += 1;
    }
    proof {
        if end < len {
            assert(line@ =~= without_return(text@.take(end as int)));
        } else {
            assert(line@ =~= text@);
        }
    }
    line
}

/// `text` cut to `limit` characters with three dots after the cut, or as it
/// is where it is no longer than that.
pub fn shorten(text: &Vec<char>, limit: usize) -> (out: String)
    ensures
        out@ == shortened(text@, limit as int),
{
    if text.len() > limit {
        let mut out = string_between(text, 0, limit);
        out.append("...");
        out
    } else {
        string_of(text)
    }
}

/// Where the part of `text` after its last `sep` starts.
pub fn tail_start_of(text: &Vec<char>, sep: char) -> (at: usize)
    ensures
        at == tail_start(text@, sep),
        at <= text.len(),
{
    let mut at: usize = text.len();
    assert(text@.take(text@.len() as int) =~= text@);
    while at > 0 && text[at - 1] != sep
        invariant
            at <= text.len(),
            tail_start(text@, sep) == tail_start(text@.take(at as int), sep),
        decreases at,
    {
        assert(text@.take(at as int).drop_last() =~= text@.take(at - 1));
        at -= 1;
    }
    at
}

/// Whether two string slices hold the same characters.
pub fn str_equals(a: &str, b: &str) -> (same: bool)
    ensures
        same == (a@ == b@),
{
    let left = chars_of(a);
    let right = chars_of(b);
    same_text(&left, &right)
}

/// Whether `text` begins with `prefix`.
pub fn str_begins_with(text: &str, prefix: &str) -> (found: bool)
    ensures
        found == prefix@.is_prefix_of(text@),
{
    let whole = chars_of(text);
    let start = chars_of(prefix);
    begins_with(&whole, &start)
}

} // verus!
