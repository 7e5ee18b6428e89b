//! Lines, characters and searches in text.

use vstd::prelude::*;
use vstd::string::StrSliceExecFns;

verus! {

/// The first position at or behind `from` at which `c` stands in `s`, or
/// the length of `s` if it stands at none.
pub open spec fn first_at(s: Seq<char>, c: char, from: int) -> int
    decreases s.len() - from,
{
    if from < 0 || from >= s.len() {
        s.len() as int
    } else if s[from] == c {
        from
    } else {
        first_at(s, c, from + 1)
    }
}

/// A line without the carriage return that stood before its line feed.
pub open spec fn without_return(line: Seq<char>, ended: bool) -> Seq<char> {
    if ended && line.len() > 0 && line.last() == '\r' {
        line.drop_last()
    } else {
        line
    }
}

/// The lines of `s` from position `from` on. A line ends at a line feed or
/// at the end of the text; the line feed, and a carriage return right
/// before it, belong to no line. Nothing follows the last line feed.
pub open spec fn lines_from(s: Seq<char>, from: int) -> Seq<Seq<char>>
    decreases s.len() + 1 - from,
{
    if from < 0 || from >= s.len() {
        seq![]
    } else {
        let end = first_at(s, '\n', from);
        if end < from || end > s.len() {
            seq![]
        } else {
            seq![without_return(s.subrange(from, end), end < s.len())] + lines_from(s, end + 1)
        }
    }
}

/// The lines of `s`.
pub open spec fn lines_of(s: Seq<char>) -> Seq<Seq<char>> {
    lines_from(s, 0)
}

/// Whether `c` is white space: a character with the Unicode property
/// `White_Space`.
pub open spec fn is_space(c: char) -> bool {
    let n = c as u32;
    (0x09 <= n <= 0x0d) || n == 0x20 || n == 0x85 || n == 0xa0 || n == 0x1680 || (0x2000 <= n
        <= 0x200a) || n == 0x2028 || n == 0x2029 || n == 0x202f || n == 0x205f || n == 0x3000
}

/// Whether a text holds nothing but white space.
pub open spec fn is_blank(s: Seq<char>) -> bool {
    forall|i: int| 0 <= i < s.len() ==> is_space(#[trigger] s[i])
}

/// Whether `pattern` stands in `s` at position `at`.
pub open spec fn stands_at(s: Seq<char>, pattern: Seq<char>, at: int) -> bool {
    0 <= at && at + pattern.len() <= s.len() && s.subrange(at, at + pattern.len()) == pattern
}

/// Whether `pattern` stands somewhere in `s`.
pub open spec fn has_part(s: Seq<char>, pattern: Seq<char>) -> bool {
    exists|at: int| stands_at(s, pattern, at)
}

/// The characters of a text.
pub fn chars_of(s: &str) -> (r: Vec<char>)
    ensures
        r@ == s@,
{
    if s.is_ascii() {
        return ascii_chars_of(s);
    }
    let n = s.unicode_len();
    let mut out: Vec<char> = Vec::new();
    let mut i: usize = 0;
    while i < n
        invariant
            i <= n,
            n == s@.len(),
            out@ == s@.take(i as int),
        decreases n - i,
    {
        out.push(s.get_char(i));
        assert(s@.take(i + 1) =~= s@.take(i as int).push(s@[i as int]));
        i += 1;
    }
    assert(s@.take(n as int) =~= s@);
    out
}

/// The characters of a text of ASCII characters: one for each byte.
pub fn ascii_chars_of(s: &str) -> (r: Vec<char>)
    requires
        s.is_ascii(),
    ensures
        r@ == s@,
{
    broadcast use vstd::string::is_ascii_spec_bytes;

    let bytes = s.as_bytes();
    let n = bytes.len();
    let mut out: Vec<char> = Vec::new();
    let mut i: usize = 0;
    while i < n
        invariant
            i <= n,
            n == s@.len(),
            s.is_ascii(),
            bytes@ =~= Seq::new(s@.len(), |k: int| s@[k] as u8),
            out@ == s@.take(i as int),
        decreases n - i,
    {
        let c = bytes[i] as char;
        assert(c == s@[i as int]) by {
            assert(bytes@[i as int] == s@[i as int] as u8);
            assert('\0' <= s@[i as int] <= '\u{7f}');
        }
        out.push(c);
        assert(s@.take(i + 1) =~= s@.take(i as int).push(s@[i as int]));
        i += 1;
    }
    assert(s@.take(n as int) =~= s@);
    out
}

/// Whether a character is white space.
pub fn check_space(c: char) -> (r: bool)
    ensures
        r == is_space(c),
{
    let n = c as u32;
    (0x09 <= n && n <= 0x0d) || n == 0x20 || n == 0x85 || n == 0xa0 || n == 0x1680 || (0x2000 <= n
        && n <= 0x200a) || n == 0x2028 || n == 0x2029 || n == 0x202f || n == 0x205f || n
        == 0x3000
}

/// Whether the characters are all white space.
pub fn check_blank(chars: &Vec<char>) -> (r: bool)
    ensures
        r == is_blank(chars@),
{
    let mut i: usize = 0;
    while i < chars.len()
        invariant
            i <= chars.len(),
            forall|k: int| 0 <= k < i ==> is_space(#[trigger] chars@[k]),
        decreases chars.len() - i,
    {
        if !check_space(chars[i]) {
            return false;
        }
        i += 1;
    }
    true
}

/// The first position from `from` on at which `c` stands, or the length.
pub fn find_char(chars: &Vec<char>, c: char, from: usize) -> (r: usize)
    requires
        from <= chars.len(),
    ensures
        r == first_at(chars@, c, from as int),
        from <= r <= chars.len(),
{
    let mut i: usize = from;
    while i < chars.len()
        invariant
            from <= i <= chars.len(),
            first_at(chars@, c, from as int) == first_at(chars@, c, i as int),
        decreases chars.len() - i,
    {
        if chars[i] == c {
            return i;
        }
        i += 1;
    }
    i
}

/// Whether `pattern` stands in `chars` at `at`.
pub fn check_stands_at(chars: &Vec<char>, pattern: &Vec<char>, at: usize) -> (r: bool)
    ensures
        r == stands_at(chars@, pattern@, at as int),
{
    if pattern.len() > chars.len() || at > chars.len() - pattern.len() {
        return false;
    }
    let mut k: usize = 0;
    while k < pattern.len()
        invariant
            k <= pattern.len(),
            at + pattern.len() <= chars.len(),
            forall|j: int| 0 <= j < k ==> chars@[at + j] == pattern@[j],
        decreases pattern.len() - k,
    {
        if chars[at + k] != pattern[k] {
            assert(chars@.subrange(at as int, at + pattern.len())[k as int] != pattern@[k as int]);
            return false;
        }
        k += 1;
    }
    assert(chars@.subrange(at as int, at + pattern.len()) =~= pattern@);
    true
}

/// Whether `pattern` stands somewhere in `chars`.
pub fn contains_part(chars: &Vec<char>, pattern: &Vec<char>) -> (r: bool)
    ensures
        r == has_part(chars@, pattern@),
{
    if pattern.len() > chars.len() {
        assert forall|at: int| !stands_at(chars@, pattern@, at) by {}
        return false;
    }
    if pattern.len() == 0 {
        assert(chars@.subrange(0, 0) =~= pattern@);
        assert(stands_at(chars@, pattern@, 0));
        return true;
    }
    let last = chars.len() - pattern.len();
    let mut at: usize = 0;
    while at <= last
        invariant
            at <= last + 1,
            pattern.len() > 0,
            last == chars.len() - pattern.len(),
            forall|k: int| 0 <= k < at ==> !stands_at(chars@, pattern@, k),
        decreases last + 1 - at,
    {
        if check_stands_at(chars, pattern, at) {
            return true;
        }
        at += 1;
    }
    assert forall|k: int| !stands_at(chars@, pattern@, k) by {}
    false
}

/// The lines of a text.
pub fn split_lines(s: &str) -> (r: Vec<String>)
    ensures
        r.deep_view() == lines_of(s@),
{
    let chars = chars_of(s);
    let n = chars.len();
    let mut out: Vec<String> = Vec::new();
    let mut from: usize = 0;
    assert(out.deep_view() =~= seq![]);
    while from < n
        invariant
            from <= n,
            n == chars.len(),
            chars@ == s@,
            out.deep_view() + lines_from(s@, from as int) == lines_of(s@),
        decreases n - from,
    {
        let end = find_char(&chars, '\n', from);
        let ended = end < n;
        let stop = if ended && end > from && chars[end - 1] == '\r' {
            end - 1
        } else {
            end
        };
        let line = s.substring_char(from, stop);
        let ghost before = out.deep_view();
        let ghost whole = s@.subrange(from as int, end as int);
        proof {
            if ended && end > from {
                assert(whole.last() == s@[end - 1]);
            }
            assert(s@.subrange(from as int, stop as int) =~= without_return(whole, ended));
            assert(before + (seq![without_return(whole, ended)] + lines_from(s@, end + 1)) =~= (
            before + seq![without_return(whole, ended)]) + lines_from(s@, end + 1));
        }
        out.push(line.to_owned());
        assert(out.deep_view() =~= before + seq![without_return(whole, ended)]);
        if ended {
            from = end + 1;
        } else {
            assert(lines_from(s@, end + 1) =~= lines_from(s@, n as int));
            from = n;
        }
    }
    assert(lines_from(s@, from as int) =~= seq![]);
    assert(out.deep_view() + Seq::<Seq<char>>::empty() =~= out.deep_view());
    out
}

/// The first position from `from` on at which no white space stands, or
/// the length.
pub open spec fn first_solid(s: Seq<char>, from: int) -> int
    decreases s.len() - from,
{
    if from < 0 || from >= s.len() {
        s.len() as int
    } else if !is_space(s[from]) {
        from
    } else {
        first_solid(s, from + 1)
    }
}

/// The end of the last run that is no white space before `to`: the least
/// position from which on only white space stands up to `to`.
pub open spec fn last_solid_end(s: Seq<char>, to: int) -> int
    decreases to,
{
    if to <= 0 || to > s.len() {
        0
    } else if !is_space(s[to - 1]) {
        to
    } else {
        last_solid_end(s, to - 1)
    }
}

/// A text without the white space at its start and at its end.
pub open spec fn trimmed(s: Seq<char>) -> Seq<char> {
    let start = first_solid(s, 0);
    let end = last_solid_end(s, s.len() as int);
    if start < end {
        s.subrange(start, end)
    } else {
        seq![]
    }
}

/// A text without the white space at its start and at its end.
pub fn trim_text(s: &str) -> (r: String)
    ensures
        r@ == trimmed(s@),
{
    let chars = chars_of(s);
    let n = chars.len();
    let mut start: usize = 0;
    while start < n && check_space(chars[start])
        invariant
            start <= n,
            n == chars.len(),
            first_solid(chars@, 0) == first_solid(chars@, start as int),
        decreases n - start,
    {
        start += 1;
    }
    let mut end: usize = n;
    while end > 0 && check_space(chars[end - 1])
        invariant
            end <= n,
            n == chars.len(),
            last_solid_end(chars@, n as int) == last_solid_end(chars@, end as int),
        decreases end,
    {
        end -= 1;
    }
    if start < end {
        s.substring_char(start, end).to_owned()
    } else {
        String::new()
    }
}

} // verus!
