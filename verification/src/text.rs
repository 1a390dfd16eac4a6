//! Character-level string helpers with contracts over `Seq<char>` views.

use vstd::prelude::*;

verus! {

/// Appends one character to a `String` (std `String::push`).
#[verifier::external_body]
pub(crate) fn push_char(s: &mut String, c: char)
    ensures
        final(s)@ == old(s)@.push(c),
{
    s.push(c);
}

/// The characters of `s`, in order.
pub fn chars_of(s: &str) -> (v: Vec<char>)
    ensures
        v@ == s@,
{
    let mut v: Vec<char> = Vec::new();
    for c in iter: s.chars()
        invariant
            v@ == iter.seq().take(iter.index() as int),
    {
        v.push(c);
    }
    v
}

/// A `String` holding exactly the characters of `cs[from..to]`.
pub fn string_from_range(cs: &Vec<char>, from: usize, to: usize) -> (s: String)
    requires
        from <= to <= cs.len(),
    ensures
        s@ == cs@.subrange(from as int, to as int),
{
    let mut s = String::new();
    let mut i = from;
    while i < to
        invariant
            from <= i <= to <= cs.len(),
            s@ == cs@.subrange(from as int, i as int),
        decreases to - i,
    {
        push_char(&mut s, cs[i]);
        i = i + 1;
    }
    s
}

/// The characters of an optional string.
pub open spec fn opt_string_view(o: Option<String>) -> Option<Seq<char>> {
    match o {
        Some(s) => Some(s@),
        None => None,
    }
}

/// A copy of `s` with the same characters.
pub fn copy_string(s: &String) -> (r: String)
    ensures
        r@ == s@,
{
    s.clone()
}

/// Concatenation of two strings.
pub fn concat_str(a: &str, b: &str) -> (r: String)
    ensures
        r@ == a@ + b@,
{
    let mut r = String::new();
    r.append(a);
    r.append(b);
    assert(r@ =~= a@ + b@);
    r
}

/// Whether `prefix` is a prefix of `s`.
pub open spec fn has_prefix(s: Seq<char>, prefix: Seq<char>) -> bool {
    prefix.len() <= s.len() && s.subrange(0, prefix.len() as int) == prefix
}

/// Whether `needle` occurs in `hay` as a contiguous block starting at `i`.
pub open spec fn occurs_at(hay: Seq<char>, needle: Seq<char>, i: int) -> bool {
    0 <= i && i + needle.len() <= hay.len() && hay.subrange(i, i + needle.len()) == needle
}

/// Whether `needle` occurs anywhere in `hay` (`str::contains` with a string pattern).
pub open spec fn contains_seq(hay: Seq<char>, needle: Seq<char>) -> bool {
    exists|i: int| #[trigger] occurs_at(hay, needle, i)
}

/// Whether `cs[at..at+needle.len()]` equals `needle`.
pub fn matches_at(cs: &Vec<char>, needle: &Vec<char>, at: usize) -> (b: bool)
    requires
        at <= cs.len(),
    ensures
        b == occurs_at(cs@, needle@, at as int),
{
    if needle.len() > cs.len() - at {
        return false;
    }
    let mut k: usize = 0;
    while k < needle.len()
        invariant
            at + needle.len() <= cs.len(),
            k <= needle.len(),
            forall|j: int| 0 <= j < k ==> cs@[at + j] == needle@[j],
        decreases needle.len() - k,
    {
        if cs[at + k] != needle[k] {
            assert(cs@.subrange(at as int, at + needle.len())[k as int] != needle@[k as int]);
            return false;
        }
        k = k + 1;
    }
    assert(cs@.subrange(at as int, at + needle.len()) =~= needle@);
    true
}

/// Whether `s` starts with `prefix`.
pub fn starts_with_chars(s: &Vec<char>, prefix: &Vec<char>) -> (b: bool)
    ensures
        b == has_prefix(s@, prefix@),
{
    matches_at(s, prefix, 0)
}

/// Whether `needle` occurs in `hay`.
pub fn contains_chars(hay: &Vec<char>, needle: &Vec<char>) -> (b: bool)
    ensures
        b == contains_seq(hay@, needle@),
{
    if needle.len() > hay.len() {
        assert forall|i: int| !#[trigger] occurs_at(hay@, needle@, i) by {}
        return false;
    }
    let last = hay.len() - needle.len();
    let mut i: usize = 0;
    loop
        invariant
            last == hay.len() - needle.len(),
            i <= last,
            forall|j: int| 0 <= j < i ==> !#[trigger] occurs_at(hay@, needle@, j),
        ensures
            forall|j: int| 0 <= j <= last ==> !#[trigger] occurs_at(hay@, needle@, j),
        decreases last - i,
    {
        if matches_at(hay, needle, i) {
            return true;
        }
        if i == last {
            break;
        }
        i = i + 1;
    }
    assert forall|j: int| !#[trigger] occurs_at(hay@, needle@, j) by {
        if 0 <= j <= last {
        }
    }
    false
}

/// Whether `needle` occurs in `hay` (string form).
pub fn str_contains(hay: &str, needle: &str) -> (b: bool)
    ensures
        b == contains_seq(hay@, needle@),
{
    let h = chars_of(hay);
    let n = chars_of(needle);
    contains_chars(&h, &n)
}

/// Whether two strings hold the same characters.
pub fn str_eq(a: &str, b: &str) -> (r: bool)
    ensures
        r == (a@ == b@),
{
    let x = chars_of(a);
    let y = chars_of(b);
    if x.len() != y.len() {
        return false;
    }
    let r = matches_at(&x, &y, 0);
    proof {
        if r {
            assert(x@.subrange(0, y@.len() as int) =~= x@);
        } else {
            if x@ == y@ {
                assert(x@.subrange(0, y@.len() as int) =~= x@);
            }
        }
    }
    r
}

/// `s` with every trailing occurrence of `c` removed (`str::trim_end_matches` with a char).
pub open spec fn trim_end_char(s: Seq<char>, c: char) -> Seq<char>
    decreases s.len(),
{
    if s.len() > 0 && s.last() == c {
        trim_end_char(s.drop_last(), c)
    } else {
        s
    }
}

/// Length of `trim_end_char(s.take(n), c)`.
proof fn lemma_trim_end_take(s: Seq<char>, c: char, n: int)
    requires
        0 <= n <= s.len(),
        forall|j: int| n <= j < s.len() ==> s[j] == c,
    ensures
        trim_end_char(s, c) == trim_end_char(s.take(n), c),
    decreases s.len() - n,
{
    if n < s.len() {
        lemma_trim_end_take(s, c, n + 1);
        assert(s.take(n + 1).drop_last() =~= s.take(n));
    } else {
        assert(s.take(n) =~= s);
    }
}

/// `s` without its trailing `c` characters.
pub fn trim_end_matches_char(s: &str, c: char) -> (r: String)
    ensures
        r@ == trim_end_char(s@, c),
{
    let cs = chars_of(s);
    let mut n = cs.len();
    while n > 0 && cs[n - 1] == c
        invariant
            n <= cs.len(),
            forall|j: int| n <= j < cs.len() ==> cs@[j] == c,
        decreases n,
    {
        n = n - 1;
    }
    proof {
        lemma_trim_end_take(cs@, c, n as int);
        let t = cs@.take(n as int);
        if t.len() > 0 {
            assert(t.last() != c);
        }
    }
    let r = string_from_range(&cs, 0, n);
    assert(cs@.subrange(0, n as int) =~= cs@.take(n as int));
    r
}

/// Lower-cased ASCII letter, other characters unchanged.
pub open spec fn ascii_lower_char(c: char) -> char {
    if 'A' <= c <= 'Z' {
        ((c as u32) + 32) as char
    } else {
        c
    }
}

/// `s` with ASCII letters lower-cased.
pub open spec fn ascii_lower(s: Seq<char>) -> Seq<char> {
    Seq::new(s.len(), |i: int| ascii_lower_char(s[i]))
}

/// Lower-cases one character.
pub fn lower_char(c: char) -> (r: char)
    ensures
        r == ascii_lower_char(c),
{
    if 'A' <= c && c <= 'Z' {
        let code: u32 = (c as u32) + 32;
        assert(code <= 0x7f);
        proof {
            assert(0 <= code <= 0xD7FF);
        }
        char_from_ascii(code)
    } else {
        c
    }
}

/// The character whose code point is `code` (an ASCII code point).
pub fn char_from_ascii(code: u32) -> (c: char)
    requires
        code < 128,
    ensures
        c == code as char,
{
    let b: u8 = code as u8;
    b as char
}

/// Whether `a` and `b` are equal when ASCII letters are lower-cased.
pub fn eq_ignore_ascii_case(a: &str, b: &str) -> (r: bool)
    ensures
        r == (ascii_lower(a@) == ascii_lower(b@)),
{
    let x = chars_of(a);
    let y = chars_of(b);
    if x.len() != y.len() {
        proof {
            assert(ascii_lower(a@).len() != ascii_lower(b@).len());
        }
        return false;
    }
    let mut i: usize = 0;
    while i < x.len()
        invariant
            x@ == a@,
            y@ == b@,
            x.len() == y.len(),
            i <= x.len(),
            forall|j: int| 0 <= j < i ==> ascii_lower_char(x@[j]) == ascii_lower_char(y@[j]),
        decreases x.len() - i,
    {
        if lower_char(x[i]) != lower_char(y[i]) {
            proof {
                assert(ascii_lower(a@)[i as int] != ascii_lower(b@)[i as int]);
            }
            return false;
        }
        i = i + 1;
    }
    assert(ascii_lower(a@) =~= ascii_lower(b@));
    true
}

/// `s` with ASCII letters lower-cased.
pub fn to_ascii_lower(s: &str) -> (r: String)
    ensures
        r@ == ascii_lower(s@),
{
    let cs = chars_of(s);
    let mut r = String::new();
    let mut i: usize = 0;
    while i < cs.len()
        invariant
            cs@ == s@,
            i <= cs.len(),
            r@ == ascii_lower(s@).take(i as int),
        decreases cs.len() - i,
    {
        push_char(&mut r, lower_char(cs[i]));
        i = i + 1;
        assert(r@ =~= ascii_lower(s@).take(i as int));
    }
    assert(ascii_lower(s@).take(cs.len() as int) =~= ascii_lower(s@));
    r
}

/// The characters that `char::is_whitespace` accepts (Unicode `White_Space`).
pub open spec fn is_white(c: char) -> bool {
    ||| c == '\t' || c == '\n' || c == '\u{0B}' || c == '\u{0C}' || c == '\r' || c == ' '
    ||| c == '\u{85}' || c == '\u{A0}' || c == '\u{1680}'
    ||| ('\u{2000}' <= c && c <= '\u{200A}')
    ||| c == '\u{2028}' || c == '\u{2029}' || c == '\u{202F}' || c == '\u{205F}' || c == '\u{3000}'
}

/// Whether `c` is white space.
pub fn white_char(c: char) -> (b: bool)
    ensures
        b == is_white(c),
{
    c == '\t' || c == '\n' || c == '\u{0B}' || c == '\u{0C}' || c == '\r' || c == ' '
        || c == '\u{85}' || c == '\u{A0}' || c == '\u{1680}' || ('\u{2000}' <= c && c
        <= '\u{200A}') || c == '\u{2028}' || c == '\u{2029}' || c == '\u{202F}' || c
        == '\u{205F}' || c == '\u{3000}'
}

/// Whether every character of `s` is white space (so `str::trim` gives the empty string).
pub open spec fn all_white(s: Seq<char>) -> bool {
    forall|i: int| 0 <= i < s.len() ==> is_white(#[trigger] s[i])
}

/// Whether `s` is empty once white space is trimmed from both ends.
pub fn is_blank(s: &str) -> (b: bool)
    ensures
        b == all_white(s@),
{
    let cs = chars_of(s);
    let mut i: usize = 0;
    while i < cs.len()
        invariant
            cs@ == s@,
            i <= cs.len(),
            forall|j: int| 0 <= j < i ==> is_white(#[trigger] cs@[j]),
        decreases cs.len() - i,
    {
        if !white_char(cs[i]) {
            return false;
        }
        i = i + 1;
    }
    true
}

/// First index at or after `from` whose character is not white space, or `to`.
pub open spec fn first_non_white(s: Seq<char>, from: int, to: int) -> int
    decreases to - from,
{
    if from < to && is_white(s[from]) {
        first_non_white(s, from + 1, to)
    } else {
        from
    }
}

/// Index just past the last character before `to` (and at or after `from`) that is not white space.
pub open spec fn last_non_white_end(s: Seq<char>, from: int, to: int) -> int
    decreases to - from,
{
    if from < to && is_white(s[to - 1]) {
        last_non_white_end(s, from, to - 1)
    } else {
        to
    }
}

/// `s[from..to]` with white space trimmed from both ends (`str::trim`).
pub open spec fn trim_range(s: Seq<char>, from: int, to: int) -> Seq<char> {
    let a = first_non_white(s, from, to);
    s.subrange(a, last_non_white_end(s, a, to))
}

/// Bounds of `trim_range`.
pub fn trim_bounds(cs: &Vec<char>, from: usize, to: usize) -> (r: (usize, usize))
    requires
        from <= to <= cs.len(),
    ensures
        r.0 == first_non_white(cs@, from as int, to as int),
        r.1 == last_non_white_end(cs@, r.0 as int, to as int),
        from <= r.0 <= r.1 <= to,
{
    let mut a = from;
    while a < to && white_char(cs[a])
        invariant
            from <= a <= to <= cs.len(),
            first_non_white(cs@, from as int, to as int) == first_non_white(
                cs@,
                a as int,
                to as int,
            ),
        decreases to - a,
    {
        a = a + 1;
    }
    let mut b = to;
    while b > a && white_char(cs[b - 1])
        invariant
            a <= b <= to,
            to <= cs.len(),
            last_non_white_end(cs@, a as int, to as int) == last_non_white_end(
                cs@,
                a as int,
                b as int,
            ),
        decreases b,
    {
        b = b - 1;
    }
    (a, b)
}

/// The lower-case hexadecimal digit for `d` (`0..16`).
pub open spec fn hex_digit(d: nat) -> char {
    if d < 10 {
        (('0' as nat) + d) as char
    } else {
        (('a' as nat) + d - 10) as char
    }
}

/// Lower-case hexadecimal text of a byte string, two digits per byte.
pub open spec fn hex_text(b: Seq<u8>) -> Seq<char>
    decreases b.len(),
{
    if b.len() == 0 {
        seq![]
    } else {
        hex_text(b.drop_last()).push(hex_digit((b.last() / 16) as nat)).push(
            hex_digit((b.last() % 16) as nat),
        )
    }
}

/// The lower-case hexadecimal digit for `d`.
pub fn hex_char(d: u8) -> (c: char)
    requires
        d < 16,
    ensures
        c == hex_digit(d as nat),
{
    if d < 10 {
        let code: u8 = 48 + d;
        code as char
    } else {
        let code: u8 = 87 + d;
        code as char
    }
}

/// Lower-case hexadecimal text of `b[..n]`.
pub fn hex_prefix(b: &[u8], n: usize) -> (s: String)
    requires
        n <= b@.len(),
    ensures
        s@ == hex_text(b@.take(n as int)),
{
    let mut s = String::new();
    let mut i: usize = 0;
    while i < n
        invariant
            i <= n <= b@.len(),
            s@ == hex_text(b@.take(i as int)),
        decreases n - i,
    {
        let x = b[i];
        push_char(&mut s, hex_char(x / 16));
        push_char(&mut s, hex_char(x % 16));
        proof {
            assert(b@.take(i + 1).drop_last() =~= b@.take(i as int));
            assert(b@.take(i + 1).last() == x);
        }
        i = i + 1;
    }
    s
}

/// Splits `s` at every `sep`, like `str::split` with a char pattern.
pub open spec fn split_on(s: Seq<char>, sep: char) -> Seq<Seq<char>>
    decreases s.len(),
{
    if s.len() == 0 {
        seq![seq![]]
    } else {
        let parts = split_on(s.drop_last(), sep);
        if s.last() == sep {
            parts.push(seq![])
        } else {
            parts.update(parts.len() - 1, parts.last().push(s.last()))
        }
    }
}

/// `split_on` always yields at least one part.
pub proof fn lemma_split_nonempty(s: Seq<char>, sep: char)
    ensures
        split_on(s, sep).len() >= 1,
    decreases s.len(),
{
    if s.len() > 0 {
        lemma_split_nonempty(s.drop_last(), sep);
    }
}

/// `s` with white space trimmed from both ends (`str::trim`).
pub open spec fn trim_seq(s: Seq<char>) -> Seq<char> {
    trim_range(s, 0, s.len() as int)
}

/// Trimming a sub-range inside `s` is trimming the extracted sub-sequence.
pub proof fn lemma_trim_subrange(s: Seq<char>, f: int, t: int)
    requires
        0 <= f <= t <= s.len(),
    ensures
        trim_seq(s.subrange(f, t)) == trim_range(s, f, t),
        f <= first_non_white(s, f, t) <= last_non_white_end(s, first_non_white(s, f, t), t) <= t,
{
    let sub = s.subrange(f, t);
    lemma_first_shift(s, f, t, f);
    let a = first_non_white(s, f, t);
    lemma_last_shift(s, f, a, t);
    let b = last_non_white_end(s, a, t);
    assert(sub.subrange(a - f, b - f) =~= s.subrange(a, b));
}

proof fn lemma_first_shift(s: Seq<char>, f: int, t: int, k: int)
    requires
        0 <= f <= k <= t <= s.len(),
    ensures
        first_non_white(s.subrange(f, t), k - f, t - f) == first_non_white(s, k, t) - f,
        k <= first_non_white(s, k, t) <= t,
    decreases t - k,
{
    if k < t {
        assert(s.subrange(f, t)[k - f] == s[k]);
        if is_white(s[k]) {
            lemma_first_shift(s, f, t, k + 1);
        }
    }
}

proof fn lemma_last_shift(s: Seq<char>, f: int, a: int, b: int)
    requires
        0 <= f <= a <= b <= s.len(),
    ensures
        forall|t: int|
            b <= t <= s.len() ==> last_non_white_end(s.subrange(f, t), a - f, b - f)
                == last_non_white_end(s, a, b) - f,
        a <= last_non_white_end(s, a, b) <= b,
    decreases b - a,
{
    if a < b && is_white(s[b - 1]) {
        lemma_last_shift(s, f, a, b - 1);
    }
    assert forall|t: int| b <= t <= s.len() implies last_non_white_end(
        s.subrange(f, t),
        a - f,
        b - f,
    ) == last_non_white_end(s, a, b) - f by {
        if a < b {
            assert(s.subrange(f, t)[b - f - 1] == s[b - 1]);
        }
    }
}

/// Splitting across a separator splits each side.
pub proof fn lemma_split_concat(a: Seq<char>, sep: char, b: Seq<char>)
    ensures
        split_on(a + seq![sep] + b, sep) == split_on(a, sep) + split_on(b, sep),
    decreases b.len(),
{
    if b.len() == 0 {
        assert((a + seq![sep] + b).drop_last() =~= a);
        assert(split_on(a, sep).push(seq![]) =~= split_on(a, sep) + seq![seq![]]);
    } else {
        let b2 = b.drop_last();
        lemma_split_concat(a, sep, b2);
        assert((a + seq![sep] + b).drop_last() =~= a + seq![sep] + b2);
        lemma_split_nonempty(b2, sep);
        let x = split_on(a, sep);
        let y = split_on(b2, sep);
        if b.last() == sep {
            assert((x + y).push(seq![]) =~= x + y.push(seq![]));
        } else {
            assert((x + y).update((x + y).len() - 1, (x + y).last().push(b.last())) =~= x
                + y.update(y.len() - 1, y.last().push(b.last())));
        }
    }
}

} // verus!
