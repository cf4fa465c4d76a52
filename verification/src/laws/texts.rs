//! What the operations on texts do, said of all texts.

use vstd::prelude::*;

use crate::text::{
    after_final, begins, concat_of, cut_to, decimal, digit, head_of, is_space, joined,
    lemma_decimal, lemma_first_index_is, lines_of, stripped, trim_end, trim_start, trimmed, u16_of,
    value_of, without_prefixes, without_trailing, word_len, words_of,
};

verus! {

/// Whether every character of a text is white space.
pub open spec fn blank(s: Seq<char>) -> bool {
    forall|i: int| 0 <= i < s.len() ==> is_space(#[trigger] s[i])
}

/// Whether no character of a text is white space.
pub open spec fn solid(s: Seq<char>) -> bool {
    forall|i: int| 0 <= i < s.len() ==> !is_space(#[trigger] s[i])
}

/// White space is the tab, the line feed and their neighbours, the space, and the
/// spaces and separators of Unicode.
pub proof fn law_white_space(c: char)
    ensures
        is_space(c) <==> {
            ||| c == ' ' || '\t' <= c <= '\r' || c == '\u{85}' || c == '\u{a0}' || c == '\u{1680}'
            ||| '\u{2000}' <= c <= '\u{200a}' || c == '\u{2028}' || c == '\u{2029}' || c
                == '\u{202f}' || c == '\u{205f}' || c == '\u{3000}'
        },
{
}

/// Leading white space goes.
pub proof fn lemma_trim_start_of(a: Seq<char>, x: Seq<char>)
    requires
        blank(a),
        x.len() > 0 ==> !is_space(x[0]),
    ensures
        trim_start(a + x) == x,
    decreases a.len(),
{
    if a.len() == 0 {
        assert(a + x =~= x);
    } else {
        assert((a + x)[0] == a[0]);
        assert((a + x).drop_first() =~= a.drop_first() + x);
        assert forall|i: int| 0 <= i < a.drop_first().len() implies is_space(
            #[trigger] a.drop_first()[i],
        ) by {
            assert(a.drop_first()[i] == a[i + 1]);
        }
        lemma_trim_start_of(a.drop_first(), x);
    }
}

/// Trailing white space goes.
proof fn lemma_trim_end_of(x: Seq<char>, b: Seq<char>)
    requires
        blank(b),
        x.len() > 0 ==> !is_space(x.last()),
    ensures
        trim_end(x + b) == x,
    decreases b.len(),
{
    if b.len() == 0 {
        assert(x + b =~= x);
    } else {
        assert((x + b).last() == b.last());
        assert(is_space(b[b.len() - 1]));
        assert((x + b).drop_last() =~= x + b.drop_last());
        assert forall|i: int| 0 <= i < b.drop_last().len() implies is_space(
            #[trigger] b.drop_last()[i],
        ) by {
            assert(b.drop_last()[i] == b[i]);
        }
        lemma_trim_end_of(x, b.drop_last());
    }
}

/// Trimming takes the white space at both ends, and nothing else.
pub proof fn law_trimming(a: Seq<char>, x: Seq<char>, b: Seq<char>)
    requires
        blank(a),
        blank(b),
        x.len() > 0 ==> !is_space(x[0]) && !is_space(x.last()),
    ensures
        trimmed(a + x + b) == x,
{
    if x.len() == 0 {
        let ab = a + x + b;
        assert forall|i: int| 0 <= i < ab.len() implies is_space(#[trigger] ab[i]) by {
            if i < a.len() {
                assert(ab[i] == a[i]);
            } else {
                assert(ab[i] == b[i - a.len()]);
            }
        }
        assert(ab + x =~= ab);
        lemma_trim_start_of(ab, x);
    } else {
        assert(a + x + b =~= a + (x + b));
        assert((x + b)[0] == x[0]);
        lemma_trim_start_of(a, x + b);
        lemma_trim_end_of(x, b);
    }
}

/// Every text is what trimming leaves of it, between white space.
pub proof fn law_trimming_of_any(s: Seq<char>)
    ensures
        exists|i: int, j: int|
            0 <= i <= j <= s.len() && blank(s.take(i)) && blank(s.skip(j)) && #[trigger] s.subrange(
                i,
                j,
            ) == trimmed(s),
        trimmed(s).len() > 0 ==> !is_space(trimmed(s)[0]) && !is_space(trimmed(s).last()),
{
    crate::text::lemma_trim_start(s);
    let t = trim_start(s);
    let i = s.len() - t.len();
    lemma_trim_end_part(t);
    let j = i + trim_end(t).len();
    assert(s.subrange(i, j) =~= trimmed(s));
    assert forall|k: int| 0 <= k < s.take(i).len() implies is_space(#[trigger] s.take(i)[k]) by {
        assert(is_space(s[k]));
    }
    assert forall|k: int| 0 <= k < s.skip(j).len() implies is_space(#[trigger] s.skip(j)[k]) by {
        assert(s.skip(j)[k] == t[k + trim_end(t).len()]);
    }
    if trimmed(s).len() > 0 {
        assert(trimmed(s)[0] == t[0]);
    }
}

/// What is left without trailing white space is a beginning of the text.
proof fn lemma_trim_end_part(s: Seq<char>)
    ensures
        trim_end(s).len() <= s.len(),
        trim_end(s) == s.take(trim_end(s).len() as int),
        forall|i: int| trim_end(s).len() <= i < s.len() ==> is_space(#[trigger] s[i]),
        trim_end(s).len() > 0 ==> !is_space(trim_end(s).last()),
    decreases s.len(),
{
    if s.len() > 0 && is_space(s.last()) {
        let d = s.drop_last();
        lemma_trim_end_part(d);
        assert(d.take(trim_end(d).len() as int) =~= s.take(trim_end(d).len() as int));
        assert forall|i: int| trim_end(s).len() <= i < s.len() implies is_space(#[trigger] s[i]) by {
            if i < d.len() {
                assert(d[i] == s[i]);
            }
        }
    } else {
        assert(s.take(s.len() as int) =~= s);
    }
}

/// A text begins with another where something follows that makes it up.
pub proof fn law_beginning(s: Seq<char>, p: Seq<char>, rest: Seq<char>)
    ensures
        begins(s, p) <==> p.is_prefix_of(s),
        begins(p + rest, p),
{
    assert((p + rest).take(p.len() as int) =~= p);
    assert(p.len() <= s.len() ==> s.subrange(0, p.len() as int) =~= s.take(p.len() as int));
}

/// Copies of a text at the beginning go, one after the other, until there is none.
pub proof fn law_prefixes_go(p: Seq<char>, x: Seq<char>)
    requires
        p.len() > 0,
    ensures
        without_prefixes(p + x, p) == without_prefixes(x, p),
        !p.is_prefix_of(x) ==> without_prefixes(x, p) == x,
{
    law_beginning(x, p, x);
    assert((p + x).skip(p.len() as int) =~= x);
}

/// Copies of a character at the end go, and nothing else.
pub proof fn law_trailing_goes(x: Seq<char>, c: char, n: nat)
    requires
        x.len() > 0 ==> x.last() != c,
    ensures
        without_trailing(x + Seq::new(n, |i: int| c), c) == x,
    decreases n,
{
    let s = x + Seq::new(n, |i: int| c);
    if n == 0 {
        assert(s =~= x);
    } else {
        let m = (n - 1) as nat;
        assert(s.drop_last() =~= x + Seq::new(m, |i: int| c));
        law_trailing_goes(x, c, m);
    }
}

/// A line ends at the first line feed, without a carriage return before that; the
/// other lines are those of the rest. What no line feed ends is a line too, unless
/// it is empty.
pub proof fn law_lines(line: Seq<char>, rest: Seq<char>)
    requires
        !line.contains('\n'),
    ensures
        lines_of(line + seq!['\n'] + rest) == seq![
            if line.len() > 0 && line.last() == '\r' {
                line.drop_last()
            } else {
                line
            },
        ] + lines_of(rest),
        line.len() > 0 ==> lines_of(line) == seq![line],
        lines_of(seq![]) == Seq::<Seq<char>>::empty(),
{
    let s = line + seq!['\n'] + rest;
    let n = line.len() as int;
    assert forall|i: int| 0 <= i < n implies s[i] != '\n' by {
        assert(s[i] == line[i]);
    }
    lemma_first_index_is(s, '\n', n);
    assert(s.take(n) =~= line);
    assert(s.skip(n + 1) =~= rest);
    assert forall|i: int| 0 <= i < n implies line[i] != '\n' by {}
    lemma_first_index_is(line, '\n', n);
}

/// Words are what stands between white space.
pub proof fn law_words(gap: Seq<char>, word: Seq<char>, rest: Seq<char>)
    requires
        blank(gap),
        solid(word),
        word.len() > 0,
        rest.len() > 0 ==> is_space(rest[0]),
    ensures
        words_of(gap + word + rest) == seq![word] + words_of(rest),
        words_of(gap) == Seq::<Seq<char>>::empty(),
{
    let s = gap + word + rest;
    assert(s =~= gap + (word + rest));
    assert((word + rest)[0] == word[0]);
    lemma_trim_start_of(gap, word + rest);
    let t = word + rest;
    lemma_word_len_of(word, rest);
    assert(t.take(word.len() as int) =~= word);
    assert(t.skip(word.len() as int) =~= rest);
    assert(gap + Seq::<char>::empty() =~= gap);
    lemma_trim_start_of(gap, seq![]);
}

/// A word goes as far as the first white space.
proof fn lemma_word_len_of(word: Seq<char>, rest: Seq<char>)
    requires
        solid(word),
        rest.len() > 0 ==> is_space(rest[0]),
    ensures
        word_len(word + rest) == word.len(),
    decreases word.len(),
{
    if word.len() == 0 {
        assert(word + rest =~= rest);
    } else {
        assert((word + rest)[0] == word[0]);
        assert((word + rest).drop_first() =~= word.drop_first() + rest);
        assert forall|i: int| 0 <= i < word.drop_first().len() implies !is_space(
            #[trigger] word.drop_first()[i],
        ) by {
            assert(word.drop_first()[i] == word[i + 1]);
        }
        lemma_word_len_of(word.drop_first(), rest);
    }
}

/// A separator stands between each two parts that are joined, and nowhere else.
pub proof fn law_joining(parts: Seq<Seq<char>>, last: Seq<char>, sep: Seq<char>)
    ensures
        joined(seq![], sep) == Seq::<char>::empty(),
        joined(seq![last], sep) == last,
        parts.len() > 0 ==> joined(parts.push(last), sep) == joined(parts, sep) + sep + last,
{
    assert(parts.push(last).drop_last() =~= parts);
}

/// Parts that are put together stand one after the other.
pub proof fn law_putting_together(parts: Seq<Seq<char>>, last: Seq<char>)
    ensures
        concat_of(seq![]) == Seq::<char>::empty(),
        concat_of(parts.push(last)) == concat_of(parts) + last,
{
    assert(parts.push(last).drop_last() =~= parts);
}

/// A text that is too long is cut after one character less than it may have, and
/// an ellipsis says so. One that is not too long is left alone.
pub proof fn law_cutting(s: Seq<char>, max: nat)
    ensures
        s.len() <= max ==> cut_to(s, max) == s,
        s.len() > max && max > 0 ==> cut_to(s, max) == s.subrange(0, max - 1) + seq!['…'],
        s.len() > 0 && max == 0 ==> cut_to(s, max) == seq!['…'],
        s.len() <= max ==> head_of(s, max) == s,
        s.len() > max ==> head_of(s, max) == s.subrange(0, max as int),
{
    if s.len() > max {
        assert(s.take(0) =~= Seq::<char>::empty());
        assert(cut_to(s, max) =~= s.take(if max == 0 { 0 } else { max - 1 }) + seq!['…']);
        assert(head_of(s, max) =~= s.subrange(0, max as int));
        if max > 0 {
            assert(s.take(max - 1) =~= s.subrange(0, max - 1));
        } else {
            assert(cut_to(s, max) =~= seq!['…']);
        }
    }
}

/// The number that decimal digits stand for, from left to right.
pub open spec fn reads_as(s: Seq<char>) -> int {
    s.fold_left(0int, |n: int, c: char| n * 10 + (c as int - '0' as int))
}

/// Decimal notation is made of digits, stands for its number, and has no digit too
/// many.
pub proof fn law_decimal(n: nat)
    ensures
        decimal(n).len() > 0,
        forall|i: int| 0 <= i < decimal(n).len() ==> '0' <= #[trigger] decimal(n)[i] <= '9',
        reads_as(decimal(n)) == n,
        n > 0 ==> decimal(n)[0] != '0',
        n == 0 ==> decimal(n) == seq!['0'],
    decreases n,
{
    lemma_decimal(n);
    let d = decimal(n);
    assert forall|i: int| 0 <= i < d.len() implies '0' <= #[trigger] d[i] <= '9' by {}
    if n < 10 {
        assert(d.drop_last() =~= Seq::<char>::empty());
        assert(d.last() == digit(n));
        reveal_with_fuel(Seq::fold_left, 2);
    } else {
        law_decimal(n / 10);
        assert(d.drop_last() =~= decimal(n / 10));
        assert(d.last() == digit(n % 10));
        reveal_with_fuel(Seq::fold_left, 2);
        assert(d[0] == decimal(n / 10)[0]);
    }
}

/// A text of digits, with a plus sign before them or without, reads as the number
/// that they stand for, where that is small enough; any other text reads as none.
pub proof fn law_small_numbers(s: Seq<char>)
    ensures
        (s.len() > 0 && forall|i: int| 0 <= i < s.len() ==> '0' <= #[trigger] s[i] <= '9') ==> {
            &&& u16_of(s) == if reads_as(s) <= 65535 {
                Some(reads_as(s) as u16)
            } else {
                None
            }
            &&& u16_of(seq!['+'] + s) == u16_of(s)
        },
        s.len() == 0 ==> u16_of(s) is None,
        s == seq!['+'] ==> u16_of(s) is None,
        (exists|i: int| 0 < i < s.len() && !('0' <= #[trigger] s[i] <= '9')) ==> u16_of(s) is None,
        s.len() > 0 && s[0] != '+' && !('0' <= s[0] <= '9') ==> u16_of(s) is None,
{
    let plus = seq!['+'] + s;
    assert(plus.drop_first() =~= s);
    if s.len() > 0 && forall|i: int| 0 <= i < s.len() ==> '0' <= #[trigger] s[i] <= '9' {
        lemma_reads_as(s);
        assert('0' <= s[0] <= '9');
    }
    if exists|i: int| 0 < i < s.len() && !('0' <= #[trigger] s[i] <= '9') {
        let i = choose|i: int| 0 < i < s.len() && !('0' <= #[trigger] s[i] <= '9');
        let d = if s[0] == '+' {
            s.drop_first()
        } else {
            s
        };
        let k = if s[0] == '+' {
            i - 1
        } else {
            i
        };
        assert(d[k] == s[i]);
    }
}

/// Both ways of reading digits agree.
proof fn lemma_reads_as(s: Seq<char>)
    requires
        forall|i: int| 0 <= i < s.len() ==> '0' <= #[trigger] s[i] <= '9',
    ensures
        reads_as(s) == value_of(s),
    decreases s.len(),
{
    reveal_with_fuel(Seq::fold_left, 2);
    if s.len() > 0 {
        let d = s.drop_last();
        assert forall|i: int| 0 <= i < d.len() implies '0' <= #[trigger] d[i] <= '9' by {
            assert(d[i] == s[i]);
        }
        lemma_reads_as(d);
        assert('0' <= s[s.len() - 1] <= '9');
    }
}

/// Whether a text holds no escape character.
pub open spec fn unescaped(s: Seq<char>) -> bool {
    !s.contains('\u{1b}')
}

/// Text without escape characters stays; an escape sequence goes whole, from the
/// escape character to the first character that can end it, with a bracket right
/// after the escape character or without; one that does not end goes to the end.
pub proof fn law_escape_sequences_go(
    a: Seq<char>,
    bracket: bool,
    inner: Seq<char>,
    end: char,
    b: Seq<char>,
)
    requires
        unescaped(a),
        forall|i: int| 0 <= i < inner.len() ==> !('@' <= #[trigger] inner[i] <= '~'),
        '@' <= end <= '~',
        !bracket ==> (inner.len() > 0 || end != '['),
    ensures
        stripped(a) == a,
        stripped(a + b) == a + stripped(b),
        stripped(
            a + seq!['\u{1b}'] + (if bracket {
                seq!['[']
            } else {
                seq![]
            }) + inner + seq![end] + b,
        ) == a + stripped(b),
        stripped(
            a + seq!['\u{1b}'] + (if bracket {
                seq!['[']
            } else {
                seq![]
            }) + inner,
        ) == a,
{
    let open = if bracket {
        seq!['[']
    } else {
        seq![]
    };
    let nothing = Seq::<char>::empty();
    lemma_stripped_after(a, nothing);
    assert(a + nothing =~= a);
    assert(stripped(nothing) =~= nothing);
    lemma_stripped_after(a, b);
    let code = seq!['\u{1b}'] + open + inner;
    let whole = code + seq![end] + b;
    lemma_stripped_after(a, whole);
    assert(a + seq!['\u{1b}'] + open + inner + seq![end] + b =~= a + whole);
    lemma_after_final_of(inner, seq![end] + b);
    assert((seq![end] + b).drop_first() =~= b);
    assert(whole.drop_first() =~= open + (inner + (seq![end] + b)));
    assert((open + (inner + (seq![end] + b))).drop_first() =~= if bracket {
        inner + (seq![end] + b)
    } else {
        (inner + (seq![end] + b)).drop_first()
    });
    if !bracket {
        assert(open + (inner + (seq![end] + b)) =~= inner + (seq![end] + b));
        if inner.len() > 0 {
            assert((inner + (seq![end] + b))[0] == inner[0]);
        }
    }
    assert(stripped(whole) == stripped(b));
    lemma_stripped_after(a, code);
    assert(a + seq!['\u{1b}'] + open + inner =~= a + code);
    lemma_after_final_of(inner, nothing);
    assert(inner + nothing =~= inner);
    assert(code.drop_first() =~= open + inner);
    if bracket {
        assert((open + inner).drop_first() =~= inner);
    } else {
        assert(open + inner =~= inner);
        if inner.len() > 0 {
            assert(inner[0] != '[');
        }
    }
    assert(after_final(nothing) == nothing);
    assert(stripped(code) =~= nothing);
    assert(a + nothing =~= a);
}

/// What has no escape characters is left before the rest.
proof fn lemma_stripped_after(a: Seq<char>, b: Seq<char>)
    requires
        unescaped(a),
    ensures
        stripped(a + b) == a + stripped(b),
    decreases a.len(),
{
    if a.len() == 0 {
        assert(a + b =~= b);
        assert(a + stripped(b) =~= stripped(b));
    } else {
        let d = a.drop_first();
        assert(a.contains(a[0]));
        assert(unescaped(d)) by {
            if d.contains('\u{1b}') {
                let i = choose|i: int| 0 <= i < d.len() && d[i] == '\u{1b}';
                assert(a[i + 1] == '\u{1b}');
            }
        }
        lemma_stripped_after(d, b);
        assert((a + b)[0] == a[0]);
        assert((a + b).drop_first() =~= d + b);
        assert(seq![a[0]] + (d + stripped(b)) =~= a + stripped(b));
    }
}

/// The rest of an escape sequence goes up to the character that ends it.
proof fn lemma_after_final_of(inner: Seq<char>, rest: Seq<char>)
    requires
        forall|i: int| 0 <= i < inner.len() ==> !('@' <= #[trigger] inner[i] <= '~'),
    ensures
        after_final(inner + rest) == after_final(rest),
    decreases inner.len(),
{
    if inner.len() == 0 {
        assert(inner + rest =~= rest);
    } else {
        let d = inner.drop_first();
        assert((inner + rest)[0] == inner[0]);
        assert((inner + rest).drop_first() =~= d + rest);
        assert forall|i: int| 0 <= i < d.len() implies !('@' <= #[trigger] d[i] <= '~') by {
            assert(d[i] == inner[i + 1]);
        }
        lemma_after_final_of(d, rest);
    }
}

} // verus!
