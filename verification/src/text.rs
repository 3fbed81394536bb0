//! Character-level text helpers shared by the parsers: the character views of
//! trimming, line splitting, searching and ASCII case mapping, with the
//! executable functions that compute them.
use vstd::prelude::*;

use crate::external::push_char;

verus! {

/// Unicode `White_Space`, the set that `char::is_whitespace` and `str::trim` use.
pub open spec fn is_white_space(c: char) -> bool {
    let u = c as u32;
    ||| 0x09 <= u <= 0x0d
    ||| u == 0x20
    ||| u == 0x85
    ||| u == 0xa0
    ||| u == 0x1680
    ||| 0x2000 <= u <= 0x200a
    ||| u == 0x2028
    ||| u == 0x2029
    ||| u == 0x202f
    ||| u == 0x205f
    ||| u == 0x3000
}

/// Unicode general category `Cc`, the set that `char::is_control` tests.
pub open spec fn is_control_char(c: char) -> bool {
    let u = c as u32;
    u <= 0x1f || (0x7f <= u && u <= 0x9f)
}

pub open spec fn is_ascii_digit_char(c: char) -> bool {
    '0' <= c && c <= '9'
}

pub open spec fn is_ascii_upper_char(c: char) -> bool {
    'A' <= c && c <= 'Z'
}

pub open spec fn is_ascii_lower_char(c: char) -> bool {
    'a' <= c && c <= 'z'
}

pub open spec fn is_ascii_alphanumeric_char(c: char) -> bool {
    is_ascii_digit_char(c) || is_ascii_upper_char(c) || is_ascii_lower_char(c)
}

/// `char::to_ascii_lowercase`.
pub open spec fn ascii_lower(c: char) -> char {
    if is_ascii_upper_char(c) {
        ((c as u32) + 32) as char
    } else {
        c
    }
}

/// `char::to_ascii_uppercase`.
pub open spec fn ascii_upper(c: char) -> char {
    if is_ascii_lower_char(c) {
        ((c as u32) - 32) as char
    } else {
        c
    }
}

/// `str::to_ascii_lowercase` on a character sequence.
pub open spec fn ascii_lowercase(s: Seq<char>) -> Seq<char> {
    s.map_values(|c: char| ascii_lower(c))
}

/// Which characters a trim removes.
#[derive(Clone, Copy, PartialEq, Eq, Debug)]
pub enum TrimSet {
    WhiteSpace,
    DoubleQuote,
}

pub open spec fn in_trim_set(set: TrimSet, c: char) -> bool {
    match set {
        TrimSet::WhiteSpace => is_white_space(c),
        TrimSet::DoubleQuote => c == '"',
    }
}

/// `s` without its leading characters of `set`.
pub open spec fn trim_start_of(s: Seq<char>, set: TrimSet) -> Seq<char>
    decreases s.len(),
{
    if s.len() > 0 && in_trim_set(set, s[0]) {
        trim_start_of(s.drop_first(), set)
    } else {
        s
    }
}

/// `s` without its trailing characters of `set`.
pub open spec fn trim_end_of(s: Seq<char>, set: TrimSet) -> Seq<char>
    decreases s.len(),
{
    if s.len() > 0 && in_trim_set(set, s.last()) {
        trim_end_of(s.drop_last(), set)
    } else {
        s
    }
}

/// `str::trim` (for `WhiteSpace`) and `str::trim_matches('"')` (for `DoubleQuote`).
pub open spec fn trim_of(s: Seq<char>, set: TrimSet) -> Seq<char> {
    trim_end_of(trim_start_of(s, set), set)
}

pub open spec fn trim(s: Seq<char>) -> Seq<char> {
    trim_of(s, TrimSet::WhiteSpace)
}

/// Whether `s` is empty after `str::trim`.
pub open spec fn is_blank(s: Seq<char>) -> bool {
    forall|i: int| 0 <= i < s.len() ==> is_white_space(#[trigger] s[i])
}

/// Position of the first `c` in `s`, or -1.
pub open spec fn index_of(s: Seq<char>, c: char) -> int
    decreases s.len(),
{
    if s.len() == 0 {
        -1
    } else if s[0] == c {
        0
    } else {
        let r = index_of(s.drop_first(), c);
        if r < 0 {
            -1
        } else {
            r + 1
        }
    }
}

/// A line of `str::lines`: without its `'\n'` terminator and, if there was
/// one, without a `'\r'` just before it.
pub open spec fn strip_cr(line: Seq<char>) -> Seq<char> {
    if line.len() > 0 && line.last() == '\r' {
        line.drop_last()
    } else {
        line
    }
}

/// `str::lines`: the pieces between `'\n'` characters; a final `'\n'` starts no
/// new line, and a line that ended with `"\r\n"` loses the `'\r'`.
pub open spec fn split_lines(s: Seq<char>) -> Seq<Seq<char>>
    decreases s.len(),
{
    if s.len() == 0 {
        Seq::empty()
    } else {
        let i = index_of(s, '\n');
        proof {
            lemma_index_of_spec(s, '\n');
        }
        if i < 0 {
            seq![s]
        } else {
            seq![strip_cr(s.subrange(0, i))] + split_lines(s.subrange(i + 1, s.len() as int))
        }
    }
}

/// `str::split_once(c)`: the parts before and after the first `c`.
pub open spec fn split_once(s: Seq<char>, c: char) -> Option<(Seq<char>, Seq<char>)> {
    let i = index_of(s, c);
    if i < 0 {
        None
    } else {
        Some((s.subrange(0, i), s.subrange(i + 1, s.len() as int)))
    }
}

/// `needle` occurs in `hay` at position `i`.
pub open spec fn occurs_at(hay: Seq<char>, needle: Seq<char>, i: int) -> bool {
    0 <= i && i + needle.len() <= hay.len() && hay.subrange(i, i + needle.len()) == needle
}

/// `str::contains` for a string pattern.
pub open spec fn contains_seq(hay: Seq<char>, needle: Seq<char>) -> bool {
    exists|i: int| occurs_at(hay, needle, i)
}

proof fn lemma_index_of_found(s: Seq<char>, c: char, j: int)
    requires
        0 <= j < s.len(),
        s[j] == c,
        forall|k: int| 0 <= k < j ==> s[k] != c,
    ensures
        index_of(s, c) == j,
    decreases s.len(),
{
    if j > 0 {
        lemma_index_of_found(s.drop_first(), c, j - 1);
    }
}

proof fn lemma_index_of_absent(s: Seq<char>, c: char)
    requires
        forall|k: int| 0 <= k < s.len() ==> s[k] != c,
    ensures
        index_of(s, c) == -1,
    decreases s.len(),
{
    if s.len() > 0 {
        lemma_index_of_absent(s.drop_first(), c);
    }
}

/// `index_of` gives a position of `c` with no earlier `c`, or -1 when there is none.
pub proof fn lemma_index_of_spec(s: Seq<char>, c: char)
    ensures
        -1 <= index_of(s, c) < s.len(),
        index_of(s, c) >= 0 ==> s[index_of(s, c)] == c,
        forall|k: int| 0 <= k < s.len() && (index_of(s, c) < 0 || k < index_of(s, c)) ==> s[k] != c,
    decreases s.len(),
{
    if s.len() > 0 {
        lemma_index_of_spec(s.drop_first(), c);
        assert forall|k: int| 0 <= k < s.len() && (index_of(s, c) < 0 || k < index_of(s, c)) implies s[k] != c by {
            if k > 0 {
                assert(s[k] == s.drop_first()[k - 1]);
            }
        }
    }
}

proof fn lemma_trim_start_skip(s: Seq<char>, set: TrimSet, i: int)
    requires
        0 <= i <= s.len(),
        forall|k: int| 0 <= k < i ==> in_trim_set(set, #[trigger] s[k]),
    ensures
        trim_start_of(s, set) == trim_start_of(s.subrange(i, s.len() as int), set),
    decreases i,
{
    if i > 0 {
        assert(s.drop_first().subrange(i - 1, s.drop_first().len() as int) =~= s.subrange(i, s.len() as int));
        lemma_trim_start_skip(s.drop_first(), set, i - 1);
    } else {
        assert(s.subrange(0, s.len() as int) =~= s);
    }
}

proof fn lemma_trim_end_skip(s: Seq<char>, set: TrimSet, e: int)
    requires
        0 <= e <= s.len(),
        forall|k: int| e <= k < s.len() ==> in_trim_set(set, #[trigger] s[k]),
    ensures
        trim_end_of(s, set) == trim_end_of(s.subrange(0, e), set),
    decreases s.len() - e,
{
    if e < s.len() {
        assert(s.drop_last().subrange(0, e) =~= s.subrange(0, e));
        lemma_trim_end_skip(s.drop_last(), set, e);
    } else {
        assert(s.subrange(0, e) =~= s);
    }
}

/// The bounds of the trimmed part of `v`: `v[start..end]` is `trim_of(v, set)`.
pub fn trim_bounds(v: &[char], set: TrimSet) -> (r: (usize, usize))
    ensures
        r.0 <= r.1 <= v@.len(),
        v@.subrange(r.0 as int, r.1 as int) == trim_of(v@, set),
{
    let n = v.len();
    let mut start: usize = 0;
    while start < n && in_set(set, v[start])
        invariant
            start <= n,
            n == v@.len(),
            forall|k: int| 0 <= k < start ==> in_trim_set(set, #[trigger] v@[k]),
        decreases n - start,
    {
        start += 1;
    }
    proof {
        lemma_trim_start_skip(v@, set, start as int);
    }
    let ghost rest = v@.subrange(start as int, n as int);
    assert(trim_start_of(rest, set) == rest);
    let mut end: usize = n;
    while end > start && in_set(set, v[end - 1])
        invariant
            start <= end <= n,
            n == v@.len(),
            rest == v@.subrange(start as int, n as int),
            forall|k: int| end <= k < n ==> in_trim_set(set, #[trigger] v@[k]),
        decreases end - start,
    {
        end -= 1;
    }
    proof {
        assert forall|k: int| end - start <= k < rest.len() implies in_trim_set(set, #[trigger] rest[k]) by {
            assert(rest[k] == v@[k + start]);
        }
        lemma_trim_end_skip(rest, set, end - start);
        assert(rest.subrange(0, end - start) =~= v@.subrange(start as int, end as int));
        let t = v@.subrange(start as int, end as int);
        if t.len() > 0 {
            assert(t.last() == v@[end - 1]);
        }
    }
    (start, end)
}

fn in_set(set: TrimSet, c: char) -> (r: bool)
    ensures
        r == in_trim_set(set, c),
{
    match set {
        TrimSet::WhiteSpace => is_white_space_exec(c),
        TrimSet::DoubleQuote => c == '"',
    }
}

/// `char::is_whitespace`.
pub fn is_white_space_exec(c: char) -> (r: bool)
    ensures
        r == is_white_space(c),
{
    let u = c as u32;
    (0x09 <= u && u <= 0x0d) || u == 0x20 || u == 0x85 || u == 0xa0 || u == 0x1680 || (0x2000
        <= u && u <= 0x200a) || u == 0x2028 || u == 0x2029 || u == 0x202f || u == 0x205f || u
        == 0x3000
}

/// `char::is_control`.
pub fn is_control_exec(c: char) -> (r: bool)
    ensures
        r == is_control_char(c),
{
    let u = c as u32;
    u <= 0x1f || (0x7f <= u && u <= 0x9f)
}

/// `char::is_ascii_alphanumeric`.
pub fn is_ascii_alphanumeric_exec(c: char) -> (r: bool)
    ensures
        r == is_ascii_alphanumeric_char(c),
{
    ('0' <= c && c <= '9') || ('A' <= c && c <= 'Z') || ('a' <= c && c <= 'z')
}

/// `char::to_ascii_lowercase`.
pub fn ascii_lower_exec(c: char) -> (r: char)
    ensures
        r == ascii_lower(c),
{
    if 'A' <= c && c <= 'Z' {
        let u = c as u32 + 32;
        proof {
            assert(0x41 + 32 <= u <= 0x5a + 32);
        }
        char_from_ascii_code(u)
    } else {
        c
    }
}

/// `char::to_ascii_uppercase`.
pub fn ascii_upper_exec(c: char) -> (r: char)
    ensures
        r == ascii_upper(c),
{
    if 'a' <= c && c <= 'z' {
        let u = c as u32 - 32;
        char_from_ascii_code(u)
    } else {
        c
    }
}

fn char_from_ascii_code(u: u32) -> (c: char)
    requires
        u < 128,
    ensures
        c == u as char,
        c as u32 == u,
{
    let b = u as u8;
    b as char
}

/// The characters of a string slice, in order.
pub fn chars_of(s: &str) -> (v: Vec<char>)
    ensures
        v@ == s@,
{
    let mut v: Vec<char> = Vec::new();
    for c in it: s.chars()
        invariant
            v@ == it.seq().take(it.index() as int),
    {
        v.push(c);
    }
    v
}

/// A string holding the given characters.
pub fn string_from_chars(v: &[char]) -> (s: String)
    ensures
        s@ == v@,
{
    let mut s = String::new();
    let n = v.len();
    let mut i: usize = 0;
    while i < n
        invariant
            i <= n,
            n == v@.len(),
            s@ == v@.subrange(0, i as int),
        decreases n - i,
    {
        push_char(&mut s, v[i]);
        assert(v@.subrange(0, i + 1) =~= v@.subrange(0, i as int).push(v@[i as int]));
        i += 1;
    }
    assert(v@.subrange(0, n as int) =~= v@);
    s
}

/// The characters `v[from..to]`, as a new vector.
pub fn sub_chars(v: &[char], from: usize, to: usize) -> (r: Vec<char>)
    requires
        from <= to <= v@.len(),
    ensures
        r@ == v@.subrange(from as int, to as int),
{
    let mut r: Vec<char> = Vec::new();
    let mut i = from;
    while i < to
        invariant
            from <= i <= to,
            to <= v@.len(),
            r@ == v@.subrange(from as int, i as int),
        decreases to - i,
    {
        r.push(v[i]);
        assert(v@.subrange(from as int, i + 1) =~= v@.subrange(from as int, i as int).push(v@[i as int]));
        i += 1;
    }
    r
}

/// `trim_of(v, set)` as a new vector.
pub fn trimmed(v: &[char], set: TrimSet) -> (r: Vec<char>)
    ensures
        r@ == trim_of(v@, set),
{
    let (s, e) = trim_bounds(v, set);
    sub_chars(v, s, e)
}

/// Whether the two character sequences are equal.
pub fn chars_eq(a: &[char], b: &[char]) -> (r: bool)
    ensures
        r == (a@ == b@),
{
    if a.len() != b.len() {
        return false;
    }
    let n = a.len();
    let mut i: usize = 0;
    while i < n
        invariant
            i <= n,
            n == a@.len(),
            n == b@.len(),
            forall|k: int| 0 <= k < i ==> a@[k] == b@[k],
        decreases n - i,
    {
        if a[i] != b[i] {
            return false;
        }
        i += 1;
    }
    assert(a@ =~= b@);
    true
}

/// Whether the two string slices hold the same characters.
pub fn str_eq(a: &str, b: &str) -> (r: bool)
    ensures
        r == (a@ == b@),
{
    let va = chars_of(a);
    let vb = chars_of(b);
    chars_eq(va.as_slice(), vb.as_slice())
}

/// Whether every character of `v` is white space (`str::trim(..).is_empty()`).
pub fn is_blank_exec(v: &[char]) -> (r: bool)
    ensures
        r == is_blank(v@),
{
    let n = v.len();
    let mut i: usize = 0;
    while i < n
        invariant
            i <= n,
            n == v@.len(),
            forall|k: int| 0 <= k < i ==> is_white_space(#[trigger] v@[k]),
        decreases n - i,
    {
        if !is_white_space_exec(v[i]) {
            return false;
        }
        i += 1;
    }
    true
}

/// The position of the first `c` in `v[from..]`, relative to `from`, or `None`.
pub fn find_char(v: &[char], from: usize, c: char) -> (r: Option<usize>)
    requires
        from <= v@.len(),
    ensures
        match r {
            Some(j) => from + j < v@.len() && index_of(v@.subrange(from as int, v@.len() as int), c) == j as int,
            None => index_of(v@.subrange(from as int, v@.len() as int), c) == -1,
        },
{
    let n = v.len();
    let ghost s = v@.subrange(from as int, n as int);
    let mut i = from;
    while i < n
        invariant
            from <= i <= n,
            n == v@.len(),
            s == v@.subrange(from as int, n as int),
            forall|k: int| 0 <= k < i - from ==> s[k] != c,
        decreases n - i,
    {
        if v[i] == c {
            proof {
                lemma_index_of_found(s, c, i - from);
            }
            return Some(i - from);
        }
        i += 1;
    }
    proof {
        lemma_index_of_absent(s, c);
    }
    None
}

/// `str::to_ascii_lowercase` on characters.
pub fn to_ascii_lowercase_chars(v: &[char]) -> (r: Vec<char>)
    ensures
        r@ == ascii_lowercase(v@),
{
    let mut r: Vec<char> = Vec::new();
    let n = v.len();
    let mut i: usize = 0;
    while i < n
        invariant
            i <= n,
            n == v@.len(),
            r@.len() == i,
            forall|k: int| 0 <= k < i ==> r@[k] == ascii_lower(#[trigger] v@[k]),
        decreases n - i,
    {
        r.push(ascii_lower_exec(v[i]));
        i += 1;
    }
    assert(r@ =~= ascii_lowercase(v@));
    r
}

/// Whether `needle` occurs in `hay` (`str::contains`).
pub fn contains_chars(hay: &[char], needle: &[char]) -> (r: bool)
    ensures
        r == contains_seq(hay@, needle@),
{
    let n = hay.len();
    let m = needle.len();
    if m > n {
        assert forall|i: int| !occurs_at(hay@, needle@, i) by {}
        return false;
    }
    let mut i: usize = 0;
    loop
        invariant
            m <= n,
            i <= n - m,
            n == hay@.len(),
            m == needle@.len(),
            forall|k: int| 0 <= k < i ==> !occurs_at(hay@, needle@, k),
        decreases n - m - i,
    {
        if occurs_at_exec(hay, needle, i) {
            return true;
        }
        if i == n - m {
            assert forall|k: int| !occurs_at(hay@, needle@, k) by {
                if 0 <= k && k < i {
                }
            }
            return false;
        }
        i += 1;
    }
}

fn occurs_at_exec(hay: &[char], needle: &[char], i: usize) -> (r: bool)
    requires
        i + needle@.len() <= hay@.len(),
    ensures
        r == occurs_at(hay@, needle@, i as int),
{
    let m = needle.len();
    let n = hay.len();
    let mut k: usize = 0;
    while k < m
        invariant
            k <= m,
            m == needle@.len(),
            n == hay@.len(),
            i + m <= n,
            forall|j: int| 0 <= j < k ==> hay@[i + j] == needle@[j],
        decreases m - k,
    {
        if hay[i + k] != needle[k] {
            assert(hay@.subrange(i as int, i + m)[k as int] != needle@[k as int]);
            return false;
        }
        k += 1;
    }
    assert(hay@.subrange(i as int, i + m) =~= needle@);
    true
}

/// `str::lines` on characters.
pub fn split_lines_exec(v: &[char]) -> (r: Vec<Vec<char>>)
    ensures
        r@.len() == split_lines(v@).len(),
        forall|i: int| 0 <= i < r@.len() ==> (#[trigger] r@[i])@ == split_lines(v@)[i],
{
    let n = v.len();
    let mut r: Vec<Vec<char>> = Vec::new();
    let mut start: usize = 0;
    let ghost mut done: Seq<Seq<char>> = Seq::empty();
    assert(v@.subrange(0, n as int) =~= v@);
    while start < n
        invariant
            start <= n,
            n == v@.len(),
            r@.len() == done.len(),
            forall|i: int| 0 <= i < r@.len() ==> (#[trigger] r@[i])@ == done[i],
            split_lines(v@) == done + split_lines(v@.subrange(start as int, n as int)),
        decreases n - start,
    {
        let ghost rest = v@.subrange(start as int, n as int);
        match find_char(v, start, '\n') {
            Some(j) => {
                let end = start + j;
                let mut line = sub_chars(v, start, end);
                if line.len() > 0 && line[line.len() - 1] == '\r' {
                    line.pop();
                }
                proof {
                    assert(rest.subrange(0, j as int) =~= v@.subrange(start as int, end as int));
                    assert(rest.subrange(j + 1, rest.len() as int) =~= v@.subrange(end + 1, n as int));
                    assert(line@ == strip_cr(rest.subrange(0, j as int)));
                    done = done.push(line@);
                }
                r.push(line);
                start = end + 1;
                proof {
                    assert(split_lines(v@) =~= done + split_lines(v@.subrange(start as int, n as int)));
                }
            },
            None => {
                let line = sub_chars(v, start, n);
                proof {
                    done = done.push(line@);
                    assert(split_lines(rest) == seq![rest]);
                    assert(v@.subrange(n as int, n as int) =~= Seq::<char>::empty());
                    assert(split_lines(v@) =~= done + split_lines(v@.subrange(n as int, n as int)));
                }
                r.push(line);
                start = n;
            },
        }
    }
    assert(split_lines(v@.subrange(n as int, n as int)) =~= Seq::<Seq<char>>::empty());
    assert(done + Seq::<Seq<char>>::empty() =~= done);
    r
}

/// `split_once(v, c)`, as two new vectors.
pub fn split_once_exec(v: &[char], c: char) -> (r: Option<(Vec<char>, Vec<char>)>)
    ensures
        match split_once(v@, c) {
            Some(p) => match r {
                Some(q) => q.0@ == p.0 && q.1@ == p.1,
                None => false,
            },
            None => r is None,
        },
{
    assert(v@.subrange(0, v@.len() as int) =~= v@);
    match find_char(v, 0, c) {
        Some(j) => {
            assert(j < v.len());
            Some((sub_chars(v, 0, j), sub_chars(v, j + 1, v.len())))
        },
        None => None,
    }
}

/// Decimal digits of `n`, as `format!("{n}")` writes them.
pub open spec fn decimal(n: nat) -> Seq<char>
    decreases n,
{
    if n < 10 {
        seq![digit_char(n)]
    } else {
        decimal(n / 10).push(digit_char(n % 10))
    }
}

pub open spec fn digit_char(d: nat) -> char {
    ((d + 48) as u32) as char
}

/// Different numbers have different decimal forms.
pub proof fn lemma_decimal_injective(a: nat, b: nat)
    requires
        decimal(a) == decimal(b),
    ensures
        a == b,
    decreases a,
{
    lemma_decimal_len(a);
    lemma_decimal_len(b);
    if a < 10 && b < 10 {
        assert(decimal(a) == seq![digit_char(a)]);
        assert(decimal(b) == seq![digit_char(b)]);
        assert(decimal(a)[0] == digit_char(a));
        assert(decimal(b)[0] == digit_char(b));
        assert(digit_char(a) as u32 == a + 48);
        assert(digit_char(b) as u32 == b + 48);
        assert(digit_char(a) == digit_char(b));
        assert(a == b);
    } else if a >= 10 && b >= 10 {
        assert(decimal(a) == decimal(a / 10).push(digit_char(a % 10)));
        assert(decimal(b) == decimal(b / 10).push(digit_char(b % 10)));
        assert(decimal(a).last() == digit_char(a % 10));
        assert(decimal(b).last() == digit_char(b % 10));
        assert(digit_char(a % 10) as u32 == a % 10 + 48);
        assert(digit_char(b % 10) as u32 == b % 10 + 48);
        assert(decimal(a).drop_last() =~= decimal(a / 10));
        assert(decimal(b).drop_last() =~= decimal(b / 10));
        lemma_decimal_injective(a / 10, b / 10);
        assert(a == 10 * (a / 10) + a % 10) by (nonlinear_arith);
        assert(b == 10 * (b / 10) + b % 10) by (nonlinear_arith);
        assert(a % 10 == b % 10);
        assert(a == b);
    } else {
        if a < 10 {
            lemma_decimal_len(b / 10);
        } else {
            lemma_decimal_len(a / 10);
        }
    }
}

/// A decimal form is never empty, and has more than one digit exactly for `n >= 10`.
pub proof fn lemma_decimal_len(n: nat)
    ensures
        decimal(n).len() >= 1,
        n >= 10 ==> decimal(n).len() >= 2,
        n < 10 ==> decimal(n).len() == 1,
        forall|i: int| 0 <= i < decimal(n).len() ==> is_ascii_digit_char(#[trigger] decimal(n)[i]),
    decreases n,
{
    if n >= 10 {
        lemma_decimal_len(n / 10);
    }
}

/// The decimal digits of `n`.
pub fn decimal_chars(n: usize) -> (r: Vec<char>)
    ensures
        r@ == decimal(n as nat),
    decreases n,
{
    if n < 10 {
        let c = char_from_ascii_code((n as u32) + 48);
        let mut r = Vec::new();
        r.push(c);
        assert(r@ =~= decimal(n as nat));
        r
    } else {
        let mut r = decimal_chars(n / 10);
        let d = n % 10;
        let c = char_from_ascii_code((d as u32) + 48);
        r.push(c);
        r
    }
}

} // verus!
