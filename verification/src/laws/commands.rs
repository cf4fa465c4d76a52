//! How a command becomes an argument vector.

use vstd::prelude::*;

use crate::text::is_space;
use crate::translate::{lemma_over_split, lemma_white_space, tokens, Mode, Scan};

verus! {

/// A piece of a command.
pub ghost enum Piece {
    /// White space between words.
    Gap(char),
    /// A character that stands for itself.
    Plain(char),
    /// A backslash and the character that it makes stand for itself.
    Escaped(char),
    /// Text in single quotes.
    Single(Seq<char>),
    /// Text in double quotes: characters, and whether a backslash is before each.
    Double(Seq<(bool, char)>),
}

/// The characters that only a shell could honour.
pub open spec fn shell_only(c: char) -> bool {
    seq!['|', '&', ';', '<', '>', '(', ')', '$', '`', '*', '?', '['].contains(c)
}

/// Text between double quotes, as it is written.
pub open spec fn written(d: Seq<(bool, char)>) -> Seq<char>
    decreases d.len(),
{
    if d.len() == 0 {
        seq![]
    } else {
        written(d.drop_last()) + if d.last().0 {
            seq!['\\', d.last().1]
        } else {
            seq![d.last().1]
        }
    }
}

/// Text between double quotes, as it is meant.
pub open spec fn meant(d: Seq<(bool, char)>) -> Seq<char> {
    d.map_values(|p: (bool, char)| p.1)
}

/// Whether no character between double quotes ends them or asks for an expansion.
pub open spec fn closed_text(d: Seq<(bool, char)>) -> bool {
    forall|i: int|
        0 <= i < d.len() && !(#[trigger] d[i]).0 ==> d[i].1 != '"' && d[i].1 != '\\' && d[i].1
            != '$' && d[i].1 != '`'
}

impl Piece {
    /// The piece as it is written.
    pub open spec fn spelt(self) -> Seq<char> {
        match self {
            Piece::Gap(c) => seq![c],
            Piece::Plain(c) => seq![c],
            Piece::Escaped(c) => seq!['\\', c],
            Piece::Single(s) => seq!['\''] + s + seq!['\''],
            Piece::Double(d) => seq!['"'] + written(d) + seq!['"'],
        }
    }

    /// What the piece adds to a word, unless it is a gap.
    pub open spec fn text(self) -> Seq<char> {
        match self {
            Piece::Gap(_) => seq![],
            Piece::Plain(c) => seq![c],
            Piece::Escaped(c) => seq![c],
            Piece::Single(s) => s,
            Piece::Double(d) => meant(d),
        }
    }

    /// Whether the piece may stand where a word has begun, or where none has.
    pub open spec fn allowed(self, inside: bool) -> bool {
        match self {
            Piece::Gap(c) => is_space(c) && c != '\n',
            Piece::Plain(c) => {
                &&& !is_space(c) && !shell_only(c) && c != '\\' && c != '\'' && c != '"'
                &&& c == '~' ==> inside
            },
            Piece::Escaped(_) => true,
            Piece::Single(s) => !s.contains('\''),
            Piece::Double(d) => closed_text(d),
        }
    }
}

/// The words of a command that have ended, and the one that has begun.
pub ghost struct Reading {
    /// The words that have ended.
    pub done: Seq<Seq<char>>,
    /// The word that has begun, if one has.
    pub now: Option<Seq<char>>,
}

/// What the pieces of a command mean: gaps part words, and everything else between
/// two gaps is one word.
pub open spec fn reading(p: Seq<Piece>) -> Reading
    decreases p.len(),
{
    if p.len() == 0 {
        Reading { done: seq![], now: None }
    } else {
        let r = reading(p.drop_last());
        match p.last() {
            Piece::Gap(_) => Reading { done: words_in(r), now: None },
            piece => Reading {
                done: r.done,
                now: Some(
                    match r.now {
                        Some(w) => w + piece.text(),
                        None => piece.text(),
                    },
                ),
            },
        }
    }
}

/// All the words of a reading.
pub open spec fn words_in(r: Reading) -> Seq<Seq<char>> {
    match r.now {
        Some(w) => r.done.push(w),
        None => r.done,
    }
}

/// The pieces, written one after the other.
pub open spec fn written_out(p: Seq<Piece>) -> Seq<char>
    decreases p.len(),
{
    if p.len() == 0 {
        seq![]
    } else {
        written_out(p.drop_last()) + p.last().spelt()
    }
}

/// Whether every piece may stand where it stands.
pub open spec fn well_spelt(p: Seq<Piece>) -> bool
    decreases p.len(),
{
    p.len() == 0 || (well_spelt(p.drop_last()) && p.last().allowed(
        reading(p.drop_last()).now is Some,
    ))
}

/// Why something is refused, and what to do instead.
pub open spec fn no_shell(what: Seq<char>, instead: Seq<char>) -> Seq<char> {
    "there is no shell inside the pod, so "@ + what
        + " cannot be honoured — `run` executes one program with arguments. Instead: "@ + instead
        + "."@
}

/// The scan of the pieces.
pub open spec fn after_pieces(p: Seq<Piece>) -> Scan {
    let r = reading(p);
    Scan {
        mode: Mode::Bare,
        words: r.done,
        word: match r.now {
            Some(w) => w,
            None => seq![],
        },
        open: r.now is Some,
        ended: false,
    }
}

/// A command is read piece by piece: plain characters, what a backslash protects
/// and what quotes hold make words, and gaps part them.
pub proof fn law_pieces_are_read(p: Seq<Piece>)
    requires
        well_spelt(p),
    ensures
        words_in(reading(p)).len() > 0 ==> tokens(written_out(p)) == Ok::<
            Seq<Seq<char>>,
            Seq<char>,
        >(words_in(reading(p))),
        words_in(reading(p)).len() == 0 ==> tokens(written_out(p)) == Err::<
            Seq<Seq<char>>,
            Seq<char>,
        >("`run` was given an empty command"@),
{
    lemma_pieces(p);
}

/// An unquoted character that only a shell could honour is refused wherever it
/// stands, with the reason and what to do instead.
pub proof fn law_shell_characters_are_refused(p: Seq<Piece>, c: char, rest: Seq<char>)
    requires
        well_spelt(p),
    ensures
        ({
            let got = tokens(written_out(p) + seq![c] + rest);
            &&& c == '|' || c == '&' || c == ';' ==> got == Err::<Seq<Seq<char>>, Seq<char>>(
                no_shell(
                    if rest.len() > 0 && rest[0] == c {
                        "`"@ + seq![c, c] + "`"@
                    } else {
                        "`"@ + seq![c] + "`"@
                    },
                    "run each command in its own call and combine the results yourself"@,
                ),
            )
            &&& c == '<' || c == '>' ==> got == Err::<Seq<Seq<char>>, Seq<char>>(
                no_shell(
                    "redirection (`"@ + seq![c] + "`)"@,
                    "use `write` to create a file, or `read` to consume one"@,
                ),
            )
            &&& c == '(' || c == ')' ==> got == Err::<Seq<Seq<char>>, Seq<char>>(
                no_shell("a subshell"@, "run the inner command in its own call"@),
            )
            &&& c == '$' || c == '`' ==> got == Err::<Seq<Seq<char>>, Seq<char>>(
                no_shell(
                    "shell expansion (`"@ + seq![c] + "`)"@,
                    "substitute the value yourself, or quote the character with a backslash to pass it through literally"@,
                ),
            )
            &&& c == '*' || c == '?' || c == '[' ==> got == Err::<Seq<Seq<char>>, Seq<char>>(
                no_shell(
                    "an unquoted glob (`"@ + seq![c] + "`)"@,
                    "call `glob` to expand the pattern, then pass the paths it returns"@,
                ),
            )
            &&& c == '~' && reading(p).now is None ==> got == Err::<Seq<Seq<char>>, Seq<char>>(
                no_shell(
                    "a leading `~`"@,
                    "write the path out — the pod's filesystem is not your home directory"@,
                ),
            )
        }),
{
    lemma_pieces(p);
    let s = after_pieces(p);
    let tail = seq![c] + rest;
    assert(written_out(p) + seq![c] + rest =~= written_out(p) + tail);
    lemma_over_split(Scan::start(), written_out(p), tail);
    assert(tail[0] == c);
    assert(rest.len() > 0 ==> tail[1] == rest[0]);
    assert("redirection (`"@.push(c) =~= "redirection (`"@ + seq![c]);
    assert("shell expansion (`"@.push(c) =~= "shell expansion (`"@ + seq![c]);
    assert("an unquoted glob (`"@.push(c) =~= "an unquoted glob (`"@ + seq![c]);
}

/// An expansion is refused inside double quotes too.
pub proof fn law_expansions_in_quotes_are_refused(
    p: Seq<Piece>,
    d: Seq<(bool, char)>,
    c: char,
    rest: Seq<char>,
)
    requires
        well_spelt(p),
        closed_text(d),
        c == '$' || c == '`',
    ensures
        tokens(written_out(p) + (seq!['"'] + written(d)) + seq![c] + rest) == Err::<
            Seq<Seq<char>>,
            Seq<char>,
        >(
            no_shell(
                "shell expansion (`"@ + seq![c] + "`)"@,
                "substitute the value yourself, or quote the character with a backslash to pass it through literally"@,
            ),
        ),
{
    lemma_open_double(p, d);
    let a = written_out(p) + (seq!['"'] + written(d));
    let tail = seq![c] + rest;
    assert(a + seq![c] + rest =~= a + tail);
    lemma_over_split(Scan::start(), a, tail);
    assert(tail[0] == c);
    assert("shell expansion (`"@.push(c) =~= "shell expansion (`"@ + seq![c]);
}

/// Quotes that do not end and a backslash at the end are errors, and named.
pub proof fn law_open_ends_are_errors(p: Seq<Piece>, s: Seq<char>, d: Seq<(bool, char)>)
    requires
        well_spelt(p),
        !s.contains('\''),
        closed_text(d),
    ensures
        tokens(written_out(p) + (seq!['\''] + s)) == Err::<Seq<Seq<char>>, Seq<char>>(
            "the command has an unbalanced "@ + seq!['\''] + " quote"@,
        ),
        tokens(written_out(p) + (seq!['"'] + written(d))) == Err::<Seq<Seq<char>>, Seq<char>>(
            "the command has an unbalanced "@ + seq!['"'] + " quote"@,
        ),
        tokens(written_out(p) + (seq!['"'] + written(d)) + seq!['\\']) == Err::<
            Seq<Seq<char>>,
            Seq<char>,
        >("the command has an unbalanced "@ + seq!['"'] + " quote"@),
        tokens(written_out(p) + seq!['\\']) == Err::<Seq<Seq<char>>, Seq<char>>(
            no_shell("a trailing backslash"@, "nothing to escape"@),
        ),
{
    let start = Scan::start();
    lemma_pieces(p);
    let t = after_pieces(p);
    let q = seq!['\''];
    let u = Scan { mode: Mode::Single, open: true, ..t };
    lemma_one(t, '\'', u);
    lemma_single(u, s);
    lemma_over_split(t, q, s);
    lemma_over_split(start, written_out(p), q + s);
    lemma_open_double(p, d);
    let v = start.over(written_out(p) + (seq!['"'] + written(d)))->Ok_0;
    let b = seq!['\\'];
    lemma_one(v, '\\', Scan { mode: Mode::DoubleEscaped, ..v });
    lemma_over_split(start, written_out(p) + (seq!['"'] + written(d)), b);
    lemma_one(t, '\\', Scan { mode: Mode::Escaped, ..t });
    lemma_over_split(start, written_out(p), b);
    assert("the command has an unbalanced "@.push('\'') =~= "the command has an unbalanced "@
        + seq!['\'']);
    assert("the command has an unbalanced "@.push('"') =~= "the command has an unbalanced "@
        + seq!['"']);
}

/// A line feed ends a command. What follows it, other than white space, would be a
/// second command, and is refused with the reason.
pub proof fn law_line_feed_ends_the_command(
    p: Seq<Piece>,
    gap: Seq<char>,
    c: char,
    rest: Seq<char>,
)
    requires
        well_spelt(p),
        words_in(reading(p)).len() > 0,
        forall|i: int| 0 <= i < gap.len() ==> is_space(#[trigger] gap[i]),
        !is_space(c),
    ensures
        tokens(written_out(p) + (seq!['\n'] + gap)) == Ok::<Seq<Seq<char>>, Seq<char>>(
            words_in(reading(p)),
        ),
        tokens(written_out(p) + (seq!['\n'] + gap) + seq![c] + rest) == Err::<
            Seq<Seq<char>>,
            Seq<char>,
        >(
            no_shell(
                "a second command after a line feed"@,
                "run each command in its own call and combine the results yourself"@,
            ),
        ),
{
    let start = Scan::start();
    lemma_pieces(p);
    let s = after_pieces(p);
    let feed = seq!['\n'];
    let t = Scan { ended: true, ..s.closed() };
    lemma_one(s, '\n', t);
    lemma_over_split(s, feed, gap);
    lemma_white_space(t, gap);
    lemma_over_split(start, written_out(p), feed + gap);
    let a = written_out(p) + (feed + gap);
    let tail = seq![c] + rest;
    assert(a + seq![c] + rest =~= a + tail);
    lemma_over_split(start, a, tail);
    assert(tail[0] == c);
}

/// One character.
proof fn lemma_one(s: Scan, c: char, t: Scan)
    requires
        s.step(c, None) == Ok::<Scan, Seq<char>>(t),
    ensures
        s.over(seq![c]) == Ok::<Scan, Seq<char>>(t),
{
    assert(seq![c].drop_first() =~= Seq::<char>::empty());
    assert(t.over(Seq::<char>::empty()) == Ok::<Scan, Seq<char>>(t));
}

/// Text in single quotes.
proof fn lemma_single(s: Scan, w: Seq<char>)
    requires
        s.mode is Single,
        s.open,
        !w.contains('\''),
    ensures
        s.over(w) == Ok::<Scan, Seq<char>>(Scan { word: s.word + w, ..s }),
    decreases w.len(),
{
    if w.len() == 0 {
        assert(s.word + w =~= s.word);
    } else {
        let r = w.drop_first();
        let t = Scan { word: s.word.push(w[0]), ..s };
        assert(w.contains(w[0]));
        assert forall|c: char| r.contains(c) implies w.contains(c) by {
            let i = choose|i: int| 0 <= i < r.len() && r[i] == c;
            assert(w[i + 1] == c);
        }
        lemma_single(t, r);
        assert(t.word + r =~= s.word + w);
    }
}

/// Text in double quotes.
proof fn lemma_double(s: Scan, d: Seq<(bool, char)>)
    requires
        s.mode is Double,
        s.open,
        closed_text(d),
    ensures
        s.over(written(d)) == Ok::<Scan, Seq<char>>(Scan { word: s.word + meant(d), ..s }),
    decreases d.len(),
{
    if d.len() == 0 {
        assert(s.word + meant(d) =~= s.word);
    } else {
        let b = d.drop_last();
        let c = d.last().1;
        assert forall|i: int| 0 <= i < b.len() && !(#[trigger] b[i]).0 implies b[i].1 != '"'
            && b[i].1 != '\\' && b[i].1 != '$' && b[i].1 != '`' by {
            assert(b[i] == d[i]);
        }
        lemma_double(s, b);
        let t = Scan { word: s.word + meant(b), ..s };
        let u = Scan { word: t.word.push(c), ..t };
        assert(d[d.len() - 1] == d.last());
        if d.last().0 {
            let v = Scan { mode: Mode::DoubleEscaped, ..t };
            lemma_one(t, '\\', v);
            lemma_one(v, c, u);
            lemma_over_split(t, seq!['\\'], seq![c]);
            assert(seq!['\\'] + seq![c] =~= seq!['\\', c]);
            lemma_over_split(s, written(b), seq!['\\', c]);
        } else {
            lemma_one(t, c, u);
            lemma_over_split(s, written(b), seq![c]);
        }
        assert(u.word =~= s.word + meant(d));
    }
}

/// Text after the quotes that begin it.
proof fn lemma_open_double(p: Seq<Piece>, d: Seq<(bool, char)>)
    requires
        well_spelt(p),
        closed_text(d),
    ensures
        Scan::start().over(written_out(p) + (seq!['"'] + written(d))) matches Ok(s)
            && s.mode is Double,
{
    lemma_pieces(p);
    let t = after_pieces(p);
    let u = Scan { mode: Mode::Double, open: true, ..t };
    lemma_one(t, '"', u);
    lemma_double(u, d);
    lemma_over_split(t, seq!['"'], written(d));
    lemma_over_split(Scan::start(), written_out(p), seq!['"'] + written(d));
}

/// What a scan finds in one piece.
proof fn lemma_piece(s: Scan, piece: Piece)
    requires
        s.mode is Bare,
        !s.ended,
        !s.open ==> s.word.len() == 0,
        piece.allowed(s.open),
    ensures
        s.over(piece.spelt()) == Ok::<Scan, Seq<char>>(
            match piece {
                Piece::Gap(_) => s.closed(),
                _ => Scan { word: s.word + piece.text(), open: true, ..s },
            },
        ),
{
    match piece {
        Piece::Gap(c) => {
            lemma_one(s, c, s.closed());
        },
        Piece::Plain(c) => {
            let l = seq!['|', '&', ';', '<', '>', '(', ')', '$', '`', '*', '?', '['];
            assert(l[0] == '|' && l[1] == '&' && l[2] == ';' && l[3] == '<' && l[4] == '>' && l[5]
                == '(' && l[6] == ')' && l[7] == '$' && l[8] == '`' && l[9] == '*' && l[10] == '?'
                && l[11] == '[');
            assert(s.word + piece.text() =~= s.word.push(c));
            assert(is_space('\n'));
            lemma_one(s, c, Scan { word: s.word + piece.text(), open: true, ..s });
        },
        Piece::Escaped(c) => {
            let t = Scan { mode: Mode::Escaped, ..s };
            assert(s.word + piece.text() =~= s.word.push(c));
            lemma_one(s, '\\', t);
            lemma_one(t, c, Scan { word: s.word + piece.text(), open: true, ..s });
            lemma_over_split(s, seq!['\\'], seq![c]);
            assert(seq!['\\'] + seq![c] =~= seq!['\\', c]);
        },
        Piece::Single(w) => {
            let q = seq!['\''];
            let t = Scan { mode: Mode::Single, open: true, ..s };
            let u = Scan { word: t.word + w, ..t };
            lemma_one(s, '\'', t);
            lemma_single(t, w);
            lemma_one(u, '\'', Scan { mode: Mode::Bare, ..u });
            lemma_over_split(s, q, w);
            lemma_over_split(s, q + w, q);
        },
        Piece::Double(d) => {
            let q = seq!['"'];
            let t = Scan { mode: Mode::Double, open: true, ..s };
            let u = Scan { word: t.word + meant(d), ..t };
            lemma_one(s, '"', t);
            lemma_double(t, d);
            lemma_one(u, '"', Scan { mode: Mode::Bare, ..u });
            lemma_over_split(s, q, written(d));
            lemma_over_split(s, q + written(d), q);
        },
    }
}

/// What a scan finds in the pieces.
proof fn lemma_pieces(p: Seq<Piece>)
    requires
        well_spelt(p),
    ensures
        Scan::start().over(written_out(p)) == Ok::<Scan, Seq<char>>(after_pieces(p)),
    decreases p.len(),
{
    if p.len() == 0 {
        assert(after_pieces(p) == Scan::start());
    } else {
        let d = p.drop_last();
        lemma_pieces(d);
        let s = after_pieces(d);
        lemma_piece(s, p.last());
        lemma_over_split(Scan::start(), written_out(d), p.last().spelt());
        if !(p.last() is Gap) {
            assert(Seq::<char>::empty() + p.last().text() =~= p.last().text());
        }
    }
}

} // verus!
