//! Text as sequences of characters.
//!
//! The contracts of this crate speak of text as `Seq<char>`. This module holds
//! the string operations that the other modules share, each with its meaning as
//! a spec function.

use vstd::prelude::*;
use vstd::string::*;

verus! {

/// `String::push` appends one character to the end of the string.
pub assume_specification[ String::push ](s: &mut String, c: char)
    ensures
        final(s)@ == old(s)@.push(c),
;

/// The texts of a list of strings.
pub open spec fn texts(v: Seq<String>) -> Seq<Seq<char>> {
    v.map_values(|s: String| s@)
}

/// The characters of a string.
pub fn chars(s: &str) -> (r: Vec<char>)
    ensures
        r@ == s@,
{
    let mut out: Vec<char> = Vec::new();
    for c in it: s.chars()
        invariant
            it.seq() == s@,
            out@ == s@.take(it.index()),
    {
        out.push(c);
    }
    out
}

/// The string made of these characters.
pub fn text(c: &[char]) -> (r: String)
    ensures
        r@ == c@,
{
    let mut out = String::new();
    let mut i: usize = 0;
    while i < c.len()
        invariant
            i <= c@.len(),
            out@ == c@.take(i as int),
        decreases c@.len() - i,
    {
        out.push(c[i]);
        i += 1;
    }
    out
}

/// Whether two strings hold the same characters.
pub fn same(a: &str, b: &str) -> (r: bool)
    ensures
        r == (a@ == b@),
{
    let x = a.as_bytes();
    let y = b.as_bytes();
    proof {
        vstd::utf8::encode_utf8_decode_utf8(a@);
        vstd::utf8::encode_utf8_decode_utf8(b@);
    }
    if x.len() != y.len() {
        return false;
    }
    let mut i: usize = 0;
    while i < x.len()
        invariant
            i <= x@.len(),
            x@.len() == y@.len(),
            x@ == a.spec_bytes(),
            y@ == b.spec_bytes(),
            x@.take(i as int) == y@.take(i as int),
        decreases x@.len() - i,
    {
        if x[i] != y[i] {
            assert(a@ != b@);
            return false;
        }
        assert(x@.take(i + 1) == x@.take(i as int).push(x@[i as int]));
        assert(y@.take(i + 1) == y@.take(i as int).push(y@[i as int]));
        i += 1;
    }
    assert(x@.take(i as int) == x@ && y@.take(i as int) == y@);
    true
}

/// Whether `c` has the Unicode `White_Space` property.
pub open spec fn is_space(c: char) -> bool {
    let n = c as u32;
    ||| 0x09 <= n <= 0x0d
    ||| n == 0x20
    ||| n == 0x85
    ||| n == 0xa0
    ||| n == 0x1680
    ||| 0x2000 <= n <= 0x200a
    ||| n == 0x2028
    ||| n == 0x2029
    ||| n == 0x202f
    ||| n == 0x205f
    ||| n == 0x3000
}

/// Whether `c` is white space.
pub fn is_whitespace(c: char) -> (r: bool)
    ensures
        r == is_space(c),
{
    let n: u32 = c as u32;
    (0x09 <= n && n <= 0x0d) || n == 0x20 || n == 0x85 || n == 0xa0 || n == 0x1680 || (0x2000 <= n
        && n <= 0x200a) || n == 0x2028 || n == 0x2029 || n == 0x202f || n == 0x205f || n == 0x3000
}

/// The text without its leading white space.
pub open spec fn trim_start(s: Seq<char>) -> Seq<char>
    decreases s.len(),
{
    if s.len() > 0 && is_space(s[0]) {
        trim_start(s.drop_first())
    } else {
        s
    }
}

/// The text without its trailing white space.
pub open spec fn trim_end(s: Seq<char>) -> Seq<char>
    decreases s.len(),
{
    if s.len() > 0 && is_space(s.last()) {
        trim_end(s.drop_last())
    } else {
        s
    }
}

/// The text without the white space at both its ends.
pub open spec fn trimmed(s: Seq<char>) -> Seq<char> {
    trim_end(trim_start(s))
}

/// `str::trim` on characters.
pub fn trim(s: &[char]) -> (r: &[char])
    ensures
        r@ == trimmed(s@),
{
    let mut i: usize = 0;
    assert(s@.skip(0) == s@);
    while i < s.len() && is_whitespace(s[i])
        invariant
            i <= s@.len(),
            trim_start(s@) == trim_start(s@.skip(i as int)),
        decreases s@.len() - i,
    {
        assert(s@.skip(i as int).drop_first() == s@.skip(i + 1));
        i += 1;
    }
    assert(trim_start(s@) == s@.skip(i as int));
    let mut j: usize = s.len();
    while i < j && is_whitespace(s[j - 1])
        invariant
            i <= j <= s@.len(),
            trimmed(s@) == trim_end(s@.subrange(i as int, j as int)),
        decreases j,
    {
        assert(s@.subrange(i as int, j as int).drop_last() == s@.subrange(i as int, j - 1));
        j -= 1;
    }
    vstd::slice::slice_subrange(s, i, j)
}

/// Whether `s` begins with `p`.
pub open spec fn begins(s: Seq<char>, p: Seq<char>) -> bool {
    p.len() <= s.len() && s.take(p.len() as int) == p
}

/// `str::starts_with` on characters.
pub fn starts_with(s: &[char], p: &[char]) -> (r: bool)
    ensures
        r == begins(s@, p@),
{
    if p.len() > s.len() {
        return false;
    }
    let mut i: usize = 0;
    while i < p.len()
        invariant
            i <= p@.len() <= s@.len(),
            s@.take(i as int) == p@.take(i as int),
        decreases p@.len() - i,
    {
        if s[i] != p[i] {
            assert(s@.take(p@.len() as int)[i as int] != p@[i as int]);
            return false;
        }
        assert(s@.take(i + 1) == s@.take(i as int).push(s@[i as int]));
        assert(p@.take(i + 1) == p@.take(i as int).push(p@[i as int]));
        i += 1;
    }
    assert(p@.take(i as int) == p@);
    true
}

/// `s` without every copy of `p` it begins with, one after the other.
pub open spec fn without_prefixes(s: Seq<char>, p: Seq<char>) -> Seq<char>
    decreases s.len(),
{
    if p.len() > 0 && begins(s, p) {
        without_prefixes(s.skip(p.len() as int), p)
    } else {
        s
    }
}

/// `str::trim_start_matches` on characters, for a text.
pub fn trim_start_matches<'a>(s: &'a [char], p: &[char]) -> (r: &'a [char])
    ensures
        r@ == without_prefixes(s@, p@),
{
    let mut rest: &'a [char] = s;
    while p.len() > 0 && starts_with(rest, p)
        invariant
            without_prefixes(s@, p@) == without_prefixes(rest@, p@),
        decreases rest@.len(),
    {
        let ghost before = rest@;
        rest = vstd::slice::slice_subrange(rest, p.len(), rest.len());
        assert(rest@ == before.skip(p@.len() as int));
    }
    rest
}

/// `s` without the copies of `c` that it ends with.
pub open spec fn without_trailing(s: Seq<char>, c: char) -> Seq<char>
    decreases s.len(),
{
    if s.len() > 0 && s.last() == c {
        without_trailing(s.drop_last(), c)
    } else {
        s
    }
}

/// `str::trim_end_matches` on characters, for a character.
pub fn trim_end_matches(s: &[char], c: char) -> (r: &[char])
    ensures
        r@ == without_trailing(s@, c),
{
    let mut j: usize = s.len();
    assert(s@.take(j as int) == s@);
    while 0 < j && s[j - 1] == c
        invariant
            j <= s@.len(),
            without_trailing(s@, c) == without_trailing(s@.take(j as int), c),
        decreases j,
    {
        assert(s@.take(j as int).drop_last() == s@.take(j - 1));
        j -= 1;
    }
    let r = vstd::slice::slice_subrange(s, 0, j);
    assert(r@ == s@.take(j as int));
    r
}

/// Where `c` first occurs in `s`, or the length of `s` where it does not.
pub open spec fn first_index(s: Seq<char>, c: char) -> nat
    decreases s.len(),
{
    if s.len() == 0 || s[0] == c {
        0
    } else {
        1 + first_index(s.drop_first(), c)
    }
}

/// `first_index` is the least position that holds `c`.
pub proof fn lemma_first_index(s: Seq<char>, c: char)
    ensures
        first_index(s, c) <= s.len(),
        first_index(s, c) < s.len() ==> s[first_index(s, c) as int] == c,
        forall|i: int| 0 <= i < first_index(s, c) ==> s[i] != c,
    decreases s.len(),
{
    if s.len() > 0 && s[0] != c {
        let t = s.drop_first();
        lemma_first_index(t, c);
        assert forall|i: int| 0 <= i < first_index(s, c) implies s[i] != c by {
            if i > 0 {
                assert(t[i - 1] == s[i]);
            }
        }
    }
}

/// A position with nothing but other characters before it is `first_index`.
pub proof fn lemma_first_index_is(s: Seq<char>, c: char, n: int)
    requires
        0 <= n <= s.len(),
        forall|i: int| 0 <= i < n ==> s[i] != c,
        n < s.len() ==> s[n] == c,
    ensures
        first_index(s, c) == n,
{
    lemma_first_index(s, c);
    let m = first_index(s, c) as int;
    if m < n {
        assert(s[m] == c);
    }
    if n < m {
        assert(s[n] != c);
    }
}

/// The first position at or after `from` that holds `c`, or the length of `s`.
pub fn find_from(s: &[char], c: char, from: usize) -> (r: usize)
    requires
        from <= s@.len(),
    ensures
        from <= r <= s@.len(),
        r == from + first_index(s@.skip(from as int), c),
{
    let mut i: usize = from;
    while i < s.len() && s[i] != c
        invariant
            from <= i <= s@.len(),
            forall|k: int| from <= k < i ==> s@[k] != c,
        decreases s@.len() - i,
    {
        i += 1;
    }
    proof {
        lemma_first_index_is(s@.skip(from as int), c, i - from);
    }
    i
}

/// A line without the carriage return that ends it, if one does.
pub open spec fn without_cr(s: Seq<char>) -> Seq<char> {
    if s.len() > 0 && s.last() == '\r' {
        s.drop_last()
    } else {
        s
    }
}

/// The lines of a text. A line ends at a line feed or at a carriage return
/// followed by one; the ending of the last line is optional.
pub open spec fn lines_of(s: Seq<char>) -> Seq<Seq<char>>
    decreases s.len(),
{
    let n = first_index(s, '\n') as int;
    if s.len() == 0 {
        seq![]
    } else if n >= s.len() {
        seq![s]
    } else {
        seq![without_cr(s.take(n))] + lines_of(s.skip(n + 1))
    }
}

/// `str::lines`.
pub fn lines(s: &str) -> (r: Vec<String>)
    ensures
        texts(r@) == lines_of(s@),
{
    let c = chars(s);
    let mut out: Vec<String> = Vec::new();
    let mut i: usize = 0;
    assert(c@.skip(0) == c@);
    assert(texts(out@) + lines_of(c@) == lines_of(c@));
    while i < c.len()
        invariant
            i <= c@.len(),
            c@ == s@,
            texts(out@) + lines_of(c@.skip(i as int)) == lines_of(s@),
        decreases c@.len() - i,
    {
        let ghost rest = c@.skip(i as int);
        let ghost before = out@;
        let n = find_from(c.as_slice(), '\n', i);
        proof {
            lemma_first_index(rest, '\n');
        }
        if n == c.len() {
            let line = text(vstd::slice::slice_subrange(c.as_slice(), i, n));
            assert(line@ == rest);
            out.push(line);
            assert(texts(out@) == texts(before).push(rest));
            assert(lines_of(c@.skip(n as int)) == Seq::<Seq<char>>::empty());
            i = n;
        } else {
            let end: usize = if i < n && c[n - 1] == '\r' {
                n - 1
            } else {
                n
            };
            let line = text(vstd::slice::slice_subrange(c.as_slice(), i, end));
            assert(c@.subrange(i as int, n as int) == rest.take(n - i));
            assert(line@ == without_cr(rest.take(n - i)));
            out.push(line);
            assert(texts(out@) == texts(before).push(line@));
            assert(rest.skip(n - i + 1) == c@.skip(n + 1));
            i = n + 1;
        }
    }
    out
}

/// How many characters `s` has before its first white space.
pub open spec fn word_len(s: Seq<char>) -> nat
    decreases s.len(),
{
    if s.len() == 0 || is_space(s[0]) {
        0
    } else {
        1 + word_len(s.drop_first())
    }
}

/// `word_len` counts characters that are not white space, up to one that is.
pub proof fn lemma_word_len(s: Seq<char>)
    ensures
        word_len(s) <= s.len(),
        word_len(s) < s.len() ==> is_space(s[word_len(s) as int]),
        forall|i: int| 0 <= i < word_len(s) ==> !is_space(s[i]),
    decreases s.len(),
{
    if s.len() > 0 && !is_space(s[0]) {
        let t = s.drop_first();
        lemma_word_len(t);
        assert forall|i: int| 0 <= i < word_len(s) implies !is_space(s[i]) by {
            if i > 0 {
                assert(t[i - 1] == s[i]);
            }
        }
    }
}

/// What `trim_start` leaves is an end of the text.
pub proof fn lemma_trim_start(s: Seq<char>)
    ensures
        trim_start(s).len() <= s.len(),
        trim_start(s) == s.skip(s.len() - trim_start(s).len()),
        trim_start(s).len() > 0 ==> !is_space(trim_start(s)[0]),
        forall|i: int| 0 <= i < s.len() - trim_start(s).len() ==> is_space(s[i]),
    decreases s.len(),
{
    if s.len() > 0 && is_space(s[0]) {
        let t = s.drop_first();
        lemma_trim_start(t);
        assert(t.skip(t.len() - trim_start(t).len()) == s.skip(s.len() - trim_start(s).len()));
        assert forall|i: int| 0 <= i < s.len() - trim_start(s).len() implies is_space(s[i]) by {
            if i > 0 {
                assert(t[i - 1] == s[i]);
            }
        }
    } else {
        assert(s.skip(0) == s);
    }
}

/// The words of a text: its longest runs of characters that are not white space.
pub open spec fn words_of(s: Seq<char>) -> Seq<Seq<char>>
    decreases s.len(),
    via words_of_decreases
{
    let t = trim_start(s);
    let n = word_len(t) as int;
    if t.len() == 0 {
        seq![]
    } else {
        seq![t.take(n)] + words_of(t.skip(n))
    }
}

#[via_fn]
proof fn words_of_decreases(s: Seq<char>) {
    let t = trim_start(s);
    lemma_trim_start(s);
    lemma_word_len(t);
    if t.len() > 0 {
        assert(word_len(t) > 0);
    }
}

/// `str::split_whitespace`.
pub fn words(s: &[char]) -> (r: Vec<String>)
    ensures
        texts(r@) == words_of(s@),
{
    let mut out: Vec<String> = Vec::new();
    let mut i: usize = 0;
    assert(s@.skip(0) == s@);
    assert(texts(out@) + words_of(s@) == words_of(s@));
    while i < s.len()
        invariant
            i <= s@.len(),
            texts(out@) + words_of(s@.skip(i as int)) == words_of(s@),
        decreases s@.len() - i,
    {
        let ghost rest = s@.skip(i as int);
        let ghost before = out@;
        if is_whitespace(s[i]) {
            assert(rest.drop_first() == s@.skip(i + 1));
            assert(trim_start(rest) == trim_start(s@.skip(i + 1)));
            i += 1;
        } else {
            let mut j: usize = i;
            while j < s.len() && !is_whitespace(s[j])
                invariant
                    i <= j <= s@.len(),
                    rest == s@.skip(i as int),
                    word_len(rest) == j - i + word_len(s@.skip(j as int)),
                decreases s@.len() - j,
            {
                assert(s@.skip(j as int).drop_first() == s@.skip(j + 1));
                j += 1;
            }
            let w = text(vstd::slice::slice_subrange(s, i, j));
            assert(w@ == rest.take(j - i));
            assert(rest.skip(j - i) == s@.skip(j as int));
            out.push(w);
            assert(texts(out@) == texts(before).push(w@));
            assert(words_of(rest) == seq![w@] + words_of(s@.skip(j as int)));
            i = j;
        }
    }
    proof {
        lemma_trim_start(s@.skip(i as int));
    }
    out
}

/// The parts one after the other, with `sep` between each two.
pub open spec fn joined(parts: Seq<Seq<char>>, sep: Seq<char>) -> Seq<char>
    decreases parts.len(),
{
    if parts.len() == 0 {
        seq![]
    } else if parts.len() == 1 {
        parts[0]
    } else {
        joined(parts.drop_last(), sep) + sep + parts.last()
    }
}

/// `[String]::join`.
pub fn join(parts: &[String], sep: &str) -> (r: String)
    ensures
        r@ == joined(texts(parts@), sep@),
{
    let mut out = String::new();
    let mut i: usize = 0;
    while i < parts.len()
        invariant
            i <= parts@.len(),
            out@ == joined(texts(parts@).take(i as int), sep@),
        decreases parts@.len() - i,
    {
        let ghost t = texts(parts@);
        if i > 0 {
            out.append(sep);
        }
        out.append(parts[i].as_str());
        assert(t.take(i + 1).drop_last() == t.take(i as int));
        assert(out@ == joined(t.take(i + 1), sep@));
        i += 1;
    }
    assert(texts(parts@).take(i as int) == texts(parts@));
    out
}

/// `s` where it has at most `max` characters; otherwise its beginning, cut so
/// that an ellipsis still fits.
pub open spec fn cut_to(s: Seq<char>, max: nat) -> Seq<char> {
    if s.len() <= max {
        s
    } else {
        s.take(if max == 0 { 0 } else { max - 1 }).push('\u{2026}')
    }
}

/// Cuts `s` to `max` characters, marking that it was cut.
pub fn cut(s: &[char], max: usize) -> (r: String)
    ensures
        r@ == cut_to(s@, max as nat),
{
    if s.len() <= max {
        return text(s);
    }
    let kept: usize = if max == 0 {
        0
    } else {
        max - 1
    };
    let mut out = text(vstd::slice::slice_subrange(s, 0, kept));
    out.push('\u{2026}');
    assert(s@.subrange(0, kept as int) == s@.take(kept as int));
    out
}

/// The first `max` characters of `s`, or all of it.
pub open spec fn head_of(s: Seq<char>, max: nat) -> Seq<char> {
    if s.len() <= max {
        s
    } else {
        s.take(max as int)
    }
}

/// The first `max` characters of `s`, or all of it.
pub fn head(s: &[char], max: usize) -> (r: String)
    ensures
        r@ == head_of(s@, max as nat),
{
    let n: usize = if s.len() <= max {
        s.len()
    } else {
        max
    };
    assert(s@.subrange(0, n as int) == head_of(s@, max as nat));
    text(vstd::slice::slice_subrange(s, 0, n))
}

/// The decimal digit for a number below ten.
pub open spec fn digit(d: nat) -> char {
    (48 + d) as char
}

/// A number in decimal notation.
pub open spec fn decimal(n: nat) -> Seq<char>
    decreases n,
{
    if n < 10 {
        seq![digit(n)]
    } else {
        decimal(n / 10).push(digit(n % 10))
    }
}

/// Appends a number in decimal notation.
pub fn push_decimal(out: &mut String, n: u128)
    ensures
        final(out)@ == old(out)@ + decimal(n as nat),
    decreases n,
{
    if n >= 10 {
        push_decimal(out, n / 10);
    }
    let d: u8 = (n % 10) as u8;
    out.push((48 + d) as char);
}

/// Whether every character is a decimal digit.
pub open spec fn all_digits(s: Seq<char>) -> bool {
    forall|i: int| 0 <= i < s.len() ==> '0' <= #[trigger] s[i] <= '9'
}

/// The number that a sequence of decimal digits stands for.
pub open spec fn value_of(s: Seq<char>) -> nat
    decreases s.len(),
{
    if s.len() == 0 {
        0
    } else {
        (value_of(s.drop_last()) * 10 + (s.last() as nat - 48)) as nat
    }
}

/// The `u16` that a text stands for: decimal digits, at least one, with a plus
/// sign before them or without, and no value above the largest `u16`.
pub open spec fn u16_of(s: Seq<char>) -> Option<u16> {
    let d = if s.len() > 0 && s[0] == '+' {
        s.drop_first()
    } else {
        s
    };
    if d.len() > 0 && all_digits(d) && value_of(d) <= u16::MAX {
        Some(value_of(d) as u16)
    } else {
        None
    }
}

/// `str::parse` for `u16`.
pub fn parse_u16(s: &[char]) -> (r: Option<u16>)
    ensures
        r == u16_of(s@),
{
    let from: usize = if s.len() > 0 && s[0] == '+' {
        1
    } else {
        0
    };
    let ghost d = if s@.len() > 0 && s@[0] == '+' {
        s@.drop_first()
    } else {
        s@
    };
    assert(d == s@.skip(from as int));
    if from == s.len() {
        return None;
    }
    let mut n: u32 = 0;
    let mut i: usize = from;
    while i < s.len()
        invariant
            from <= i <= s@.len(),
            d == s@.skip(from as int),
            d == (if s@.len() > 0 && s@[0] == '+' { s@.drop_first() } else { s@ }),
            all_digits(d.take(i - from)),
            n <= 65536,
            n < 65536 ==> n == value_of(d.take(i - from)),
            n == 65536 ==> value_of(d.take(i - from)) >= 65536,
        decreases s@.len() - i,
    {
        let c = s[i];
        if !('0' <= c && c <= '9') {
            assert(d[i - from] == c);
            assert(!all_digits(d));
            return None;
        }
        let next: u32 = n * 10 + (c as u32 - 48);
        assert(d.take(i + 1 - from).drop_last() == d.take(i - from));
        assert(d.take(i + 1 - from).last() == c);
        n = if next > 65536 {
            65536
        } else {
            next
        };
        i += 1;
    }
    assert(d.take(i - from) == d);
    if n <= 65535 {
        Some(n as u16)
    } else {
        None
    }
}

/// Decimal notation is made of digits and stands for the number it was made from.
pub proof fn lemma_decimal(n: nat)
    ensures
        decimal(n).len() > 0,
        all_digits(decimal(n)),
        value_of(decimal(n)) == n,
    decreases n,
{
    let d = decimal(n);
    if n < 10 {
        assert(d.drop_last() =~= Seq::<char>::empty());
        assert(value_of(d.drop_last()) == 0);
        assert(d.last() == digit(n));
    } else {
        lemma_decimal(n / 10);
        assert(d.drop_last() == decimal(n / 10));
        assert(d.last() == digit(n % 10));
        assert forall|i: int| 0 <= i < d.len() implies '0' <= #[trigger] d[i] <= '9' by {
            if i < d.len() - 1 {
                assert(decimal(n / 10)[i] == d[i]);
            }
        }
    }
}

/// A `u16` in decimal notation reads back.
pub proof fn lemma_u16_decimal(n: u16)
    ensures
        u16_of(decimal(n as nat)) == Some(n),
{
    lemma_decimal(n as nat);
    let d = decimal(n as nat);
    assert('0' <= d[0] <= '9');
}

/// The position after the last `c` in `s`, or zero where there is none.
pub open spec fn tail_start(s: Seq<char>, c: char) -> nat
    decreases s.len(),
{
    if s.len() == 0 {
        0
    } else if s.last() == c {
        s.len()
    } else {
        tail_start(s.drop_last(), c)
    }
}

/// `tail_start` stands after a `c`, with none at or after it.
pub proof fn lemma_tail_start(s: Seq<char>, c: char)
    ensures
        tail_start(s, c) <= s.len(),
        tail_start(s, c) > 0 ==> s[tail_start(s, c) - 1] == c,
        forall|i: int| tail_start(s, c) <= i < s.len() ==> s[i] != c,
    decreases s.len(),
{
    if s.len() > 0 && s.last() != c {
        let d = s.drop_last();
        lemma_tail_start(d, c);
        assert forall|i: int| tail_start(s, c) <= i < s.len() implies s[i] != c by {
            if i < s.len() - 1 {
                assert(d[i] == s[i]);
            }
        }
    }
}

/// A position after a `c`, or at the beginning, with no `c` from there on, is
/// `tail_start`.
pub proof fn lemma_tail_start_is(s: Seq<char>, c: char, n: int)
    requires
        0 <= n <= s.len(),
        n > 0 ==> s[n - 1] == c,
        forall|i: int| n <= i < s.len() ==> s[i] != c,
    ensures
        tail_start(s, c) == n,
{
    lemma_tail_start(s, c);
    let m = tail_start(s, c) as int;
    if m < n {
        assert(s[n - 1] != c);
    }
    if n < m {
        assert(s[m - 1] == c);
    }
}

/// The position after the last `c` in `s`, or zero where there is none.
pub fn find_tail(s: &[char], c: char) -> (r: usize)
    ensures
        r == tail_start(s@, c),
        r <= s@.len(),
{
    let mut i: usize = s.len();
    while 0 < i && s[i - 1] != c
        invariant
            i <= s@.len(),
            forall|k: int| i <= k < s@.len() ==> s@[k] != c,
        decreases i,
    {
        i -= 1;
    }
    proof {
        lemma_tail_start_is(s@, c, i as int);
    }
    i
}

/// What `String::from_utf8_lossy` makes of bytes.
pub uninterp spec fn lossy(b: Seq<u8>) -> Seq<char>;

/// `String::from_utf8_lossy`; the result is named. Of valid UTF-8 it is the text
/// that the bytes encode.
#[verifier::external_body]
pub(crate) fn utf8_lossy(b: &[u8]) -> (r: String)
    ensures
        r@ == lossy(b@),
        vstd::utf8::valid_utf8(b@) ==> r@ == vstd::utf8::decode_utf8(b@),
{
    String::from_utf8_lossy(b).into_owned()
}

/// Whether a text is a whole number of lines: it is empty or ends with a line
/// feed.
pub open spec fn ends_a_line(s: Seq<char>) -> bool {
    s.len() > 0 ==> s.last() == '\n'
}

/// The lines of a whole number of lines and what follows are the lines of both.
pub proof fn lemma_lines_append(a: Seq<char>, b: Seq<char>)
    requires
        ends_a_line(a),
    ensures
        lines_of(a + b) == lines_of(a) + lines_of(b),
    decreases a.len(),
{
    if a.len() == 0 {
        assert(a + b == b);
        assert(lines_of(a) + lines_of(b) =~= lines_of(b));
    } else {
        let n = first_index(a, '\n') as int;
        lemma_first_index(a, '\n');
        assert(a[a.len() - 1] == '\n');
        assert(n < a.len());
        let ab = a + b;
        assert forall|i: int| 0 <= i < n implies ab[i] != '\n' by {
            assert(ab[i] == a[i]);
        }
        lemma_first_index_is(ab, '\n', n);
        assert(ab.take(n) =~= a.take(n));
        assert(ab.skip(n + 1) =~= a.skip(n + 1) + b);
        lemma_lines_append(a.skip(n + 1), b);
        assert(lines_of(ab) =~= seq![without_cr(a.take(n))] + (lines_of(a.skip(n + 1)) + lines_of(
            b,
        )));
        assert(lines_of(a) + lines_of(b) =~= seq![without_cr(a.take(n))] + (lines_of(a.skip(n + 1))
            + lines_of(b)));
    }
}

/// A text without a line feed, and one after it, is one line.
pub proof fn lemma_one_line(s: Seq<char>)
    requires
        !s.contains('\n'),
    ensures
        lines_of(s.push('\n')) == seq![without_cr(s)],
{
    let t = s.push('\n');
    let n = s.len() as int;
    assert forall|i: int| 0 <= i < n implies t[i] != '\n' by {
        assert(t[i] == s[i]);
    }
    lemma_first_index_is(t, '\n', n);
    assert(t.take(n) =~= s);
    assert(lines_of(t.skip(n + 1)) =~= Seq::<Seq<char>>::empty());
    assert(lines_of(t) =~= seq![without_cr(s)]);
}

/// No line holds a line feed, and only an empty text has no lines.
pub proof fn lemma_lines(s: Seq<char>)
    ensures
        forall|i: int| 0 <= i < lines_of(s).len() ==> !(#[trigger] lines_of(s)[i]).contains('\n'),
        s.len() > 0 ==> lines_of(s).len() > 0,
    decreases s.len(),
{
    if s.len() > 0 {
        let n = first_index(s, '\n') as int;
        lemma_first_index(s, '\n');
        if n < s.len() {
            let rest = s.skip(n + 1);
            lemma_lines(rest);
            assert forall|i: int| 0 <= i < lines_of(s).len() implies !(#[trigger] lines_of(
                s,
            )[i]).contains('\n') by {
                if i == 0 {
                    let l = lines_of(s)[0];
                    assert forall|k: int| 0 <= k < l.len() implies l[k] != '\n' by {
                        assert(l[k] == s[k]);
                    }
                } else {
                    assert(lines_of(s)[i] == lines_of(rest)[i - 1]);
                }
            }
        }
    }
}

/// Lines joined by line feeds, with one after the last, are those lines, without
/// the carriage returns that end them.
pub proof fn lemma_joined_lines(l: Seq<Seq<char>>)
    requires
        l.len() > 0,
        forall|i: int| 0 <= i < l.len() ==> !(#[trigger] l[i]).contains('\n'),
    ensures
        lines_of(joined(l, seq!['\n']).push('\n')) == l.map_values(|s: Seq<char>| without_cr(s)),
    decreases l.len(),
{
    let nl = seq!['\n'];
    let f = |s: Seq<char>| without_cr(s);
    assert(!l[l.len() - 1].contains('\n'));
    lemma_one_line(l.last());
    if l.len() == 1 {
        assert(l.map_values(f) =~= seq![without_cr(l[0])]);
    } else {
        let d = l.drop_last();
        assert forall|i: int| 0 <= i < d.len() implies !(#[trigger] d[i]).contains('\n') by {
            assert(d[i] == l[i]);
        }
        lemma_joined_lines(d);
        let a = joined(d, nl).push('\n');
        let b = l.last().push('\n');
        lemma_lines_append(a, b);
        assert(joined(l, nl).push('\n') =~= a + b);
        assert(d.map_values(f) + seq![without_cr(l.last())] =~= l.map_values(f));
    }
}

/// What is cut to `max` characters has no more of them, and at least one where it
/// was cut; it begins as the text did.
pub proof fn law_cut_fits(s: Seq<char>, max: nat)
    ensures
        cut_to(s, max).len() <= max || cut_to(s, max) == seq!['\u{2026}'],
        s.len() <= max ==> cut_to(s, max) == s,
        s.len() > max ==> cut_to(s, max).last() == '\u{2026}' && begins(
            s,
            cut_to(s, max).drop_last(),
        ),
{
    if s.len() > max {
        let k: int = if max == 0 {
            0
        } else {
            max - 1
        };
        assert(cut_to(s, max).drop_last() =~= s.take(k));
        if max == 0 {
            assert(cut_to(s, max) =~= seq!['\u{2026}']);
        }
    }
}

/// What follows the first character in the range that ends an escape sequence.
pub open spec fn after_final(s: Seq<char>) -> Seq<char>
    decreases s.len(),
{
    if s.len() == 0 {
        s
    } else if '@' <= s[0] <= '~' {
        s.drop_first()
    } else {
        after_final(s.drop_first())
    }
}

/// What follows an escape sequence, whose escape character has been read: a
/// bracket, if there is one, and everything up to the character that ends it.
pub open spec fn after_escape(s: Seq<char>) -> Seq<char> {
    if s.len() > 0 && s[0] == '[' {
        after_final(s.drop_first())
    } else {
        after_final(s)
    }
}

/// `after_final` leaves an end of the text.
pub proof fn lemma_after_final(s: Seq<char>)
    ensures
        after_final(s).len() <= s.len(),
        after_final(s) == s.skip(s.len() - after_final(s).len()),
    decreases s.len(),
{
    if s.len() > 0 {
        let t = s.drop_first();
        lemma_after_final(t);
        assert(t.skip(t.len() - after_final(t).len()) =~= s.skip(s.len() - after_final(t).len()));
        assert(t =~= s.skip(1));
    } else {
        assert(s =~= s.skip(0));
    }
}

/// A text as a terminal shows it: without its escape sequences.
pub open spec fn stripped(s: Seq<char>) -> Seq<char>
    decreases s.len(),
    via stripped_decreases
{
    if s.len() == 0 {
        s
    } else if s[0] == '\u{1b}' {
        stripped(after_escape(s.drop_first()))
    } else {
        seq![s[0]] + stripped(s.drop_first())
    }
}

#[via_fn]
proof fn stripped_decreases(s: Seq<char>) {
    if s.len() > 0 {
        let t = s.drop_first();
        lemma_after_final(t);
        lemma_after_final(t.drop_first());
    }
}

/// Removes the escape sequences of a text.
pub fn strip(s: &[char]) -> (r: Vec<char>)
    ensures
        r@ == stripped(s@),
{
    let mut out: Vec<char> = Vec::new();
    let mut i: usize = 0;
    assert(s@.skip(0) == s@);
    assert(out@ + stripped(s@) =~= stripped(s@));
    while i < s.len()
        invariant
            i <= s@.len(),
            out@ + stripped(s@.skip(i as int)) == stripped(s@),
        decreases s@.len() - i,
    {
        let ghost rest = s@.skip(i as int);
        assert(rest.drop_first() == s@.skip(i + 1));
        if s[i] == '\u{1b}' {
            let mut j: usize = i + 1;
            if j < s.len() && s[j] == '[' {
                assert(s@.skip(j as int).drop_first() == s@.skip(j + 1));
                j += 1;
            }
            assert(after_escape(s@.skip(i + 1)) == after_final(s@.skip(j as int)));
            while j < s.len() && !('@' <= s[j] && s[j] <= '~')
                invariant
                    i < j <= s@.len(),
                    after_escape(s@.skip(i + 1)) == after_final(s@.skip(j as int)),
                decreases s@.len() - j,
            {
                assert(s@.skip(j as int).drop_first() == s@.skip(j + 1));
                j += 1;
            }
            if j < s.len() {
                assert(s@.skip(j as int).drop_first() == s@.skip(j + 1));
                j += 1;
            }
            assert(after_escape(s@.skip(i + 1)) == s@.skip(j as int));
            i = j;
        } else {
            let ghost before = out@;
            out.push(s[i]);
            assert(before + (seq![rest[0]] + stripped(s@.skip(i + 1))) =~= out@ + stripped(
                s@.skip(i + 1),
            ));
            i += 1;
        }
    }
    out
}

/// The parts one after the other.
pub open spec fn concat_of(parts: Seq<Seq<char>>) -> Seq<char>
    decreases parts.len(),
{
    if parts.len() == 0 {
        seq![]
    } else {
        concat_of(parts.drop_last()) + parts.last()
    }
}

/// The texts of a list of string slices.
pub open spec fn slices(v: Seq<&str>) -> Seq<Seq<char>> {
    v.map_values(|s: &str| s@)
}

/// Puts the parts one after the other.
pub fn concat(parts: &[&str]) -> (r: String)
    ensures
        r@ == concat_of(slices(parts@)),
{
    let mut out = String::new();
    let mut i: usize = 0;
    while i < parts.len()
        invariant
            i <= parts@.len(),
            out@ == concat_of(slices(parts@).take(i as int)),
        decreases parts@.len() - i,
    {
        out.append(parts[i]);
        assert(slices(parts@).take(i + 1).drop_last() == slices(parts@).take(i as int));
        i += 1;
    }
    assert(slices(parts@).take(i as int) == slices(parts@));
    out
}

} // verus!
