//! The two alphabets are the same; the two vocabularies are not.
//!
//! The built-ins and the proxy's routes line up, and their bodies do not: `Read`
//! sends `file_path` where `/v1/read` takes `path`, and `Bash` sends a command
//! *string* where `/v1/run` takes an argument *vector*. This module is the
//! translation between them. The names are mapped, so that a redirect can be
//! acted on with the arguments already in hand. The missing shell is not hidden:
//! what needs one is refused, with the reason.

use vstd::prelude::*;
use vstd::string::*;

use crate::json::{append, fields, items, nested, put, Json, JsonV};
use crate::mediation::{law_served_tools, route_in, served, served_route};
use crate::text::{
    begins, chars, is_space, is_whitespace, joined, lemma_word_len, same, texts, trim_start,
    word_len, words_of,
};

verus! {

/// Where in a command the scan stands.
#[derive(Clone, Copy)]
pub enum Mode {
    /// Outside quotes.
    Bare,
    /// After a backslash outside quotes.
    Escaped,
    /// Inside single quotes.
    Single,
    /// Inside double quotes.
    Double,
    /// After a backslash inside double quotes.
    DoubleEscaped,
}

/// What a scan has found so far.
pub ghost struct Scan {
    /// Where it stands.
    pub mode: Mode,
    /// The words that have ended.
    pub words: Seq<Seq<char>>,
    /// The characters of the current word.
    pub word: Seq<char>,
    /// Whether there is a current word. A pair of quotes makes an empty one.
    pub open: bool,
    /// Whether a line feed has ended the command.
    pub ended: bool,
}

/// Why a construct is refused, and what to do instead.
pub open spec fn unsupported_text(what: Seq<char>, instead: Seq<char>) -> Seq<char> {
    "there is no shell inside the pod, so "@ + what
        + " cannot be honoured — `run` executes one program with arguments. Instead: "@ + instead
        + "."@
}

/// Why an expansion is refused.
pub open spec fn expansion_text(c: char) -> Seq<char> {
    unsupported_text(
        "shell expansion (`"@.push(c) + "`)"@,
        "substitute the value yourself, or quote the character with a backslash to pass it through literally"@,
    )
}

/// What is said of a quote that does not end.
pub open spec fn unbalanced_text(q: char) -> Seq<char> {
    "the command has an unbalanced "@.push(q) + " quote"@
}

/// Why a second command is refused.
pub open spec fn second_command_text() -> Seq<char> {
    unsupported_text(
        "a second command after a line feed"@,
        "run each command in its own call and combine the results yourself"@,
    )
}

/// The characters that mean something to a shell wherever they stand unquoted.
pub open spec fn is_meta(c: char) -> bool {
    ||| c == '|' || c == '&' || c == ';'
    ||| c == '<' || c == '>'
    ||| c == '(' || c == ')'
    ||| c == '$' || c == '`'
    ||| c == '*' || c == '?' || c == '['
}

/// Why an unquoted character is refused, if it is. `next` is the character after
/// it, and `open` says whether it stands inside a word.
pub open spec fn refusal(c: char, next: Option<char>, open: bool) -> Option<Seq<char>> {
    if c == '|' || c == '&' || c == ';' {
        let op = if next == Some(c) {
            seq![c, c]
        } else {
            seq![c]
        };
        Some(
            unsupported_text(
                "`"@ + op + "`"@,
                "run each command in its own call and combine the results yourself"@,
            ),
        )
    } else if c == '<' || c == '>' {
        Some(
            unsupported_text(
                "redirection (`"@.push(c) + "`)"@,
                "use `write` to create a file, or `read` to consume one"@,
            ),
        )
    } else if c == '(' || c == ')' {
        Some(unsupported_text("a subshell"@, "run the inner command in its own call"@))
    } else if c == '$' || c == '`' {
        Some(expansion_text(c))
    } else if c == '*' || c == '?' || c == '[' {
        Some(
            unsupported_text(
                "an unquoted glob (`"@.push(c) + "`)"@,
                "call `glob` to expand the pattern, then pass the paths it returns"@,
            ),
        )
    } else if c == '~' && !open {
        Some(
            unsupported_text(
                "a leading `~`"@,
                "write the path out — the pod's filesystem is not your home directory"@,
            ),
        )
    } else {
        None
    }
}

impl Scan {
    /// Nothing found yet.
    pub open spec fn start() -> Scan {
        Scan { mode: Mode::Bare, words: seq![], word: seq![], open: false, ended: false }
    }

    /// The current word has one more character.
    pub open spec fn with(self, c: char, mode: Mode) -> Scan {
        Scan { mode, word: self.word.push(c), open: true, ..self }
    }

    /// The current word, if there is one, has ended.
    pub open spec fn closed(self) -> Scan {
        if self.open {
            Scan { words: self.words.push(self.word), word: seq![], open: false, ..self }
        } else {
            self
        }
    }

    /// One more character: what the scan has found then, or why it is refused.
    pub open spec fn step(self, c: char, next: Option<char>) -> Result<Scan, Seq<char>> {
        match self.mode {
            Mode::Bare => if c == '\n' {
                Ok(Scan { ended: self.closed().words.len() > 0, ..self.closed() })
            } else if is_space(c) {
                Ok(self.closed())
            } else if self.ended {
                Err(second_command_text())
            } else if c == '\\' {
                Ok(Scan { mode: Mode::Escaped, ..self })
            } else if c == '\'' {
                Ok(Scan { mode: Mode::Single, open: true, ..self })
            } else if c == '"' {
                Ok(Scan { mode: Mode::Double, open: true, ..self })
            } else {
                match refusal(c, next, self.open) {
                    Some(why) => Err(why),
                    None => Ok(self.with(c, Mode::Bare)),
                }
            },
            Mode::Escaped => Ok(self.with(c, Mode::Bare)),
            Mode::Single => if c == '\'' {
                Ok(Scan { mode: Mode::Bare, ..self })
            } else {
                Ok(self.with(c, Mode::Single))
            },
            Mode::Double => if c == '"' {
                Ok(Scan { mode: Mode::Bare, ..self })
            } else if c == '\\' {
                Ok(Scan { mode: Mode::DoubleEscaped, ..self })
            } else if c == '$' || c == '`' {
                Err(expansion_text(c))
            } else {
                Ok(self.with(c, Mode::Double))
            },
            Mode::DoubleEscaped => Ok(self.with(c, Mode::Double)),
        }
    }

    /// The rest of the command: what the scan has found at its end, or why the
    /// command is refused.
    pub open spec fn over(self, rest: Seq<char>) -> Result<Scan, Seq<char>>
        decreases rest.len(),
    {
        if rest.len() == 0 {
            Ok(self)
        } else {
            let next = if rest.len() > 1 {
                Some(rest[1])
            } else {
                None
            };
            match self.step(rest[0], next) {
                Ok(s) => s.over(rest.drop_first()),
                Err(why) => Err(why),
            }
        }
    }

    /// The end of the command: the words, or what is missing.
    pub open spec fn finish(self) -> Result<Seq<Seq<char>>, Seq<char>> {
        match self.mode {
            Mode::Escaped => Err(unsupported_text("a trailing backslash"@, "nothing to escape"@)),
            Mode::Single => Err(unbalanced_text('\'')),
            Mode::Double | Mode::DoubleEscaped => Err(unbalanced_text('"')),
            Mode::Bare => if self.closed().words.len() == 0 {
                Err("`run` was given an empty command"@)
            } else {
                Ok(self.closed().words)
            },
        }
    }
}

/// The argument vector that a command stands for, or why it stands for none.
pub open spec fn tokens(command: Seq<char>) -> Result<Seq<Seq<char>>, Seq<char>> {
    match Scan::start().over(command) {
        Ok(s) => s.finish(),
        Err(why) => Err(why),
    }
}

/// Says why a construct is refused, and what to do instead.
pub fn unsupported(what: &str, instead: &str) -> (r: String)
    ensures
        r@ == unsupported_text(what@, instead@),
{
    let mut out = "there is no shell inside the pod, so ".to_owned();
    out.append(what);
    out.append(" cannot be honoured — `run` executes one program with arguments. Instead: ");
    out.append(instead);
    out.append(".");
    out
}

/// `before`, the character, and `after`.
fn around(before: &str, c: char, after: &str) -> (r: String)
    ensures
        r@ == before@.push(c) + after@,
{
    let mut out = before.to_owned();
    out.push(c);
    out.append(after);
    out
}

/// Says why an expansion is refused.
pub fn expansion(c: char) -> (r: String)
    ensures
        r@ == expansion_text(c),
{
    unsupported(
        around("shell expansion (`", c, "`)").as_str(),
        "substitute the value yourself, or quote the character with a backslash to pass it through literally",
    )
}

/// Says that a quote does not end.
pub fn unbalanced(q: char) -> (r: String)
    ensures
        r@ == unbalanced_text(q),
{
    around("the command has an unbalanced ", q, " quote")
}

/// Says why an unquoted character is refused, if it is.
fn refuse(c: char, next: Option<char>, open: bool) -> (r: Option<String>)
    ensures
        match r {
            Some(why) => refusal(c, next, open) == Some(why@),
            None => refusal(c, next, open) is None,
        },
{
    if c == '|' || c == '&' || c == ';' {
        let doubled = match next {
            Some(n) => n == c,
            None => false,
        };
        let mut op = String::new();
        op.push(c);
        if doubled {
            op.push(c);
        }
        assert(op@ =~= (if next == Some(c) { seq![c, c] } else { seq![c] }));
        let mut what = "`".to_owned();
        what.append(op.as_str());
        what.append("`");
        Some(
            unsupported(
                what.as_str(),
                "run each command in its own call and combine the results yourself",
            ),
        )
    } else if c == '<' || c == '>' {
        Some(
            unsupported(
                around("redirection (`", c, "`)").as_str(),
                "use `write` to create a file, or `read` to consume one",
            ),
        )
    } else if c == '(' || c == ')' {
        Some(unsupported("a subshell", "run the inner command in its own call"))
    } else if c == '$' || c == '`' {
        Some(expansion(c))
    } else if c == '*' || c == '?' || c == '[' {
        Some(
            unsupported(
                around("an unquoted glob (`", c, "`)").as_str(),
                "call `glob` to expand the pattern, then pass the paths it returns",
            ),
        )
    } else if c == '~' && !open {
        Some(
            unsupported(
                "a leading `~`",
                "write the path out — the pod's filesystem is not your home directory",
            ),
        )
    } else {
        None
    }
}

/// Splits a command string into the argument vector that `/v1/run` executes.
///
/// There is no shell inside the pod: `/v1/run` spawns the first argument with
/// the others. Quoting and escaping are honoured. Anything whose meaning needs a
/// shell is refused with the reason, rather than passed through as a literal
/// argument, which would run something that the caller did not ask for. That goes
/// for an unquoted line feed between two commands; before the command and after
/// it, a line feed is white space like any other.
pub fn tokenize(command: &str) -> (r: Result<Vec<String>, String>)
    ensures
        match r {
            Ok(words) => tokens(command@) == Ok::<Seq<Seq<char>>, Seq<char>>(texts(words@)),
            Err(why) => tokens(command@) == Err::<Seq<Seq<char>>, Seq<char>>(why@),
        },
{
    let text = chars(command);
    let mut words: Vec<String> = Vec::new();
    let mut word = String::new();
    let mut open = false;
    let mut ended = false;
    let mut mode = Mode::Bare;
    let mut i: usize = 0;
    let ghost mut s = Scan::start();
    assert(text@.skip(0) == command@);
    assert(texts(words@) =~= s.words);
    while i < text.len()
        invariant
            i <= text@.len(),
            s == (Scan { mode, words: texts(words@), word: word@, open, ended }),
            Scan::start().over(command@) == s.over(text@.skip(i as int)),
            !open ==> word@.len() == 0,
        decreases text@.len() - i,
    {
        let c = text[i];
        let next: Option<char> = if i + 1 < text.len() {
            Some(text[i + 1])
        } else {
            None
        };
        let ghost before = s;
        let ghost listed = words@;
        let ghost rest = text@.skip(i as int);
        assert(rest[0] == c);
        assert(rest.drop_first() == text@.skip(i + 1));
        assert(rest.len() > 1 ==> rest[1] == text@[i + 1]);
        match mode {
            Mode::Bare => {
                if is_whitespace(c) {
                    if open {
                        words.push(word);
                        assert(texts(words@) =~= texts(listed).push(before.word));
                        word = String::new();
                        open = false;
                    }
                    if c == '\n' {
                        ended = words.len() > 0;
                    }
                } else if ended {
                    return Err(
                        unsupported(
                            "a second command after a line feed",
                            "run each command in its own call and combine the results yourself",
                        ),
                    );
                } else if c == '\\' {
                    mode = Mode::Escaped;
                } else if c == '\'' {
                    open = true;
                    mode = Mode::Single;
                } else if c == '"' {
                    open = true;
                    mode = Mode::Double;
                } else {
                    match refuse(c, next, open) {
                        Some(why) => {
                            return Err(why);
                        },
                        None => {
                            word.push(c);
                            open = true;
                        },
                    }
                }
            },
            Mode::Escaped => {
                word.push(c);
                open = true;
                mode = Mode::Bare;
            },
            Mode::Single => {
                if c == '\'' {
                    mode = Mode::Bare;
                } else {
                    word.push(c);
                    open = true;
                }
            },
            Mode::Double => {
                if c == '"' {
                    mode = Mode::Bare;
                } else if c == '\\' {
                    mode = Mode::DoubleEscaped;
                } else if c == '$' || c == '`' {
                    return Err(expansion(c));
                } else {
                    word.push(c);
                    open = true;
                }
            },
            Mode::DoubleEscaped => {
                word.push(c);
                open = true;
                mode = Mode::Double;
            },
        }
        proof {
            s = Scan { mode, words: texts(words@), word: word@, open, ended };
            assert(before.step(c, next) == Ok::<Scan, Seq<char>>(s));
        }
        i += 1;
    }
    match mode {
        Mode::Escaped => Err(unsupported("a trailing backslash", "nothing to escape")),
        Mode::Single => Err(unbalanced('\'')),
        Mode::Double => Err(unbalanced('"')),
        Mode::DoubleEscaped => Err(unbalanced('"')),
        Mode::Bare => {
            if open {
                let ghost listed = words@;
                words.push(word);
                assert(texts(words@) =~= texts(listed).push(s.word));
            }
            if words.len() == 0 {
                Err("`run` was given an empty command".to_owned())
            } else {
                Ok(words)
            }
        },
    }
}

/// The string that a tool requires under `key`, or what is said where it is
/// missing.
pub open spec fn required(args: JsonV, key: Seq<char>, tool: Seq<char>) -> Result<
    Seq<char>,
    Seq<char>,
> {
    match args.text_at(key) {
        Some(s) => Ok(s),
        None => Err("`"@ + tool + "` requires a string `"@ + key + "`"@),
    }
}

/// A body with the string that the arguments have under `from`, if they have
/// one, under `to`.
pub open spec fn with_text(
    body: Map<Seq<char>, JsonV>,
    args: JsonV,
    from: Seq<char>,
    to: Seq<char>,
) -> Map<Seq<char>, JsonV> {
    match args.text_at(from) {
        Some(s) => body.insert(to, JsonV::Str(s)),
        None => body,
    }
}

/// A body with the integer that the arguments have under `from`, if they have
/// one, under `to`.
pub open spec fn with_uint(
    body: Map<Seq<char>, JsonV>,
    args: JsonV,
    from: Seq<char>,
    to: Seq<char>,
) -> Map<Seq<char>, JsonV> {
    match args.uint_at(from) {
        Some(n) => body.insert(to, JsonV::Uint(n)),
        None => body,
    }
}

/// The least whole number of seconds, and at least one, that lasts as long as
/// `ms` milliseconds.
pub open spec fn seconds(ms: u64) -> u64 {
    if ms == 0 {
        1
    } else {
        ((ms + 999) / 1000) as u64
    }
}

/// A body with the timeout of the arguments, if they have one, in seconds.
pub open spec fn with_timeout(body: Map<Seq<char>, JsonV>, args: JsonV) -> Map<Seq<char>, JsonV> {
    match args.uint_at("timeout_ms"@) {
        Some(ms) => body.insert("timeout_seconds"@, JsonV::Uint(seconds(ms))),
        None => body,
    }
}

/// An array of strings.
pub open spec fn strings(words: Seq<Seq<char>>) -> JsonV {
    JsonV::Array(words.map_values(|w: Seq<char>| JsonV::Str(w)))
}

/// The body that the route of `tool` expects for these arguments, or why there
/// is none.
pub open spec fn proxy_body(tool: Seq<char>, args: JsonV) -> Result<JsonV, Seq<char>> {
    let nothing = Map::<Seq<char>, JsonV>::empty();
    if tool == "read"@ {
        match required(args, "file_path"@, "read"@) {
            Ok(path) => Ok(JsonV::Object(nothing.insert("path"@, JsonV::Str(path)))),
            Err(e) => Err(e),
        }
    } else if tool == "write"@ {
        match required(args, "file_path"@, "write"@) {
            Ok(path) => match required(args, "content"@, "write"@) {
                Ok(contents) => Ok(
                    JsonV::Object(
                        nothing.insert("path"@, JsonV::Str(path)).insert(
                            "contents"@,
                            JsonV::Str(contents),
                        ),
                    ),
                ),
                Err(e) => Err(e),
            },
            Err(e) => Err(e),
        }
    } else if tool == "glob"@ {
        match required(args, "pattern"@, "glob"@) {
            Ok(pattern) => {
                let body = nothing.insert("pattern"@, JsonV::Str(pattern));
                let body = with_text(body, args, "path"@, "directory"@);
                Ok(JsonV::Object(with_uint(body, args, "max_results"@, "max_results"@)))
            },
            Err(e) => Err(e),
        }
    } else if tool == "grep"@ {
        match required(args, "pattern"@, "grep"@) {
            Ok(pattern) => {
                let body = nothing.insert("pattern"@, JsonV::Str(pattern));
                let body = with_text(body, args, "path"@, "path"@);
                Ok(JsonV::Object(with_text(body, args, "glob"@, "glob"@)))
            },
            Err(e) => Err(e),
        }
    } else if tool == "web_fetch"@ {
        match required(args, "url"@, "web_fetch"@) {
            Ok(url) => Ok(JsonV::Object(nothing.insert("url"@, JsonV::Str(url)))),
            Err(e) => Err(e),
        }
    } else if tool == "web_search"@ {
        match required(args, "query"@, "web_search"@) {
            Ok(query) => {
                let body = nothing.insert("query"@, JsonV::Str(query));
                Ok(JsonV::Object(with_uint(body, args, "max_results"@, "max_results"@)))
            },
            Err(e) => Err(e),
        }
    } else if tool == "run"@ {
        match required(args, "command"@, "run"@) {
            Ok(command) => match tokens(command) {
                Ok(words) => {
                    let body = nothing.insert("args"@, strings(words));
                    let body = with_text(body, args, "directory"@, "directory"@);
                    let body = with_text(body, args, "stdin"@, "stdin"@);
                    Ok(JsonV::Object(with_timeout(body, args)))
                },
                Err(e) => Err(e),
            },
            Err(e) => Err(e),
        }
    } else {
        Err("`"@ + tool + "` has no request translation"@)
    }
}

/// Translates the arguments of one tool call into the body that its route
/// expects.
///
/// It fails rather than guesses. `offset` and `limit` of `read` and `prompt` of
/// `web_fetch` have no counterpart on the far side and are left out. A timeout is
/// rounded up, because rounding half a second down to zero is a timeout that the
/// caller did not ask for.
pub fn to_proxy_body(tool: &str, args: &Json) -> (r: Result<Json, String>)
    ensures
        match r {
            Ok(body) => proxy_body(tool@, args@) == Ok::<JsonV, Seq<char>>(body@),
            Err(e) => proxy_body(tool@, args@) == Err::<JsonV, Seq<char>>(e@),
        },
{
    let mut body: Vec<(String, Json)> = Vec::new();
    assert(fields(body@) =~= Map::empty());
    if same(tool, "read") {
        let path = require_str(args, "file_path", "read")?;
        put(&mut body, "path", Json::Str(path));
    } else if same(tool, "write") {
        let path = require_str(args, "file_path", "write")?;
        let contents = require_str(args, "content", "write")?;
        put(&mut body, "path", Json::Str(path));
        put(&mut body, "contents", Json::Str(contents));
    } else if same(tool, "glob") {
        let pattern = require_str(args, "pattern", "glob")?;
        put(&mut body, "pattern", Json::Str(pattern));
        copy_str(args, "path", &mut body, "directory");
        copy_u64(args, "max_results", &mut body, "max_results");
    } else if same(tool, "grep") {
        let pattern = require_str(args, "pattern", "grep")?;
        put(&mut body, "pattern", Json::Str(pattern));
        copy_str(args, "path", &mut body, "path");
        copy_str(args, "glob", &mut body, "glob");
    } else if same(tool, "web_fetch") {
        let url = require_str(args, "url", "web_fetch")?;
        put(&mut body, "url", Json::Str(url));
    } else if same(tool, "web_search") {
        let query = require_str(args, "query", "web_search")?;
        put(&mut body, "query", Json::Str(query));
        copy_u64(args, "max_results", &mut body, "max_results");
    } else if same(tool, "run") {
        let command = require_str(args, "command", "run")?;
        let words = tokenize(command.as_str())?;
        put(&mut body, "args", string_array(&words));
        copy_str(args, "directory", &mut body, "directory");
        copy_str(args, "stdin", &mut body, "stdin");
        if let Some(ms) = args.u64_at("timeout_ms") {
            put(&mut body, "timeout_seconds", Json::uint(whole_seconds(ms)));
        }
    } else {
        let mut e = "`".to_owned();
        e.append(tool);
        e.append("` has no request translation");
        return Err(e);
    }
    Ok(Json::Object(body))
}

/// Rounds milliseconds up to whole seconds, and to at least one.
pub fn whole_seconds(ms: u64) -> (r: u64)
    ensures
        r == seconds(ms),
{
    if ms == 0 {
        1
    } else if ms % 1000 == 0 {
        ms / 1000
    } else {
        ms / 1000 + 1
    }
}

/// An array of these strings.
fn string_array(words: &Vec<String>) -> (r: Json)
    ensures
        r@ == strings(texts(words@)),
{
    let mut out: Vec<Json> = Vec::new();
    let mut i: usize = 0;
    while i < words.len()
        invariant
            i <= words@.len(),
            items(out@) == texts(words@).take(i as int).map_values(|w: Seq<char>| JsonV::Str(w)),
        decreases words@.len() - i,
    {
        append(&mut out, Json::text(words[i].as_str()));
        i += 1;
    }
    assert(texts(words@).take(i as int) == texts(words@));
    Json::Array(out)
}

/// The string that a tool requires under `key`.
fn require_str(args: &Json, key: &str, tool: &str) -> (r: Result<String, String>)
    ensures
        match r {
            Ok(s) => required(args@, key@, tool@) == Ok::<Seq<char>, Seq<char>>(s@),
            Err(e) => required(args@, key@, tool@) == Err::<Seq<char>, Seq<char>>(e@),
        },
{
    match args.str_at(key) {
        Some(s) => Ok(s.to_owned()),
        None => {
            let mut e = "`".to_owned();
            e.append(tool);
            e.append("` requires a string `");
            e.append(key);
            e.append("`");
            Err(e)
        },
    }
}

/// Copies the string under `from`, if there is one, to `to`.
fn copy_str(args: &Json, from: &str, body: &mut Vec<(String, Json)>, to: &str)
    ensures
        fields(final(body)@) == with_text(fields(old(body)@), args@, from@, to@),
{
    if let Some(s) = args.str_at(from) {
        put(body, to, Json::text(s));
    }
}

/// Copies the integer under `from`, if there is one, to `to`.
fn copy_u64(args: &Json, from: &str, body: &mut Vec<(String, Json)>, to: &str)
    ensures
        fields(final(body)@) == with_uint(fields(old(body)@), args@, from@, to@),
{
    if let Some(n) = args.u64_at(from) {
        put(body, to, Json::uint(n));
    }
}

/// A character that is accepted is accepted whatever comes after it.
proof fn lemma_step_next(s: Scan, c: char, n: Option<char>, m: Option<char>)
    requires
        s.step(c, n) is Ok,
    ensures
        s.step(c, m) == s.step(c, n),
{
}

/// A scan of `a` and `b` is a scan of `b` after one of `a`.
pub proof fn lemma_over_split(s: Scan, a: Seq<char>, b: Seq<char>)
    requires
        s.over(a) is Ok,
    ensures
        s.over(a + b) == s.over(a)->Ok_0.over(b),
    decreases a.len(),
{
    if a.len() == 0 {
        assert(a + b == b);
    } else {
        let n = if a.len() > 1 {
            Some(a[1])
        } else {
            None
        };
        let ab = a + b;
        let m = if ab.len() > 1 {
            Some(ab[1])
        } else {
            None
        };
        assert(ab[0] == a[0]);
        lemma_step_next(s, a[0], n, m);
        assert(ab.drop_first() == a.drop_first() + b);
        lemma_over_split(s.step(a[0], n)->Ok_0, a.drop_first(), b);
    }
}

/// Whether a character means something, where the scan stands, that only a shell
/// could honour.
pub open spec fn needs_shell(s: Scan, c: char) -> bool {
    match s.mode {
        Mode::Bare => is_meta(c) || (c == '~' && !s.open) || (s.ended && !is_space(c)),
        Mode::Double => c == '$' || c == '`',
        _ => false,
    }
}

/// Shell syntax is refused with the reason, wherever it stands in a command,
/// rather than passed through literally.
pub proof fn law_shell_syntax_is_refused(a: Seq<char>, c: char, b: Seq<char>)
    requires
        Scan::start().over(a) matches Ok(s) && needs_shell(s, c),
    ensures
        tokens(a + seq![c] + b) matches Err(why) && begins(why, "there is no shell inside the pod"@),
{
    let s = Scan::start().over(a)->Ok_0;
    let cb = seq![c] + b;
    assert(a + seq![c] + b == a + cb);
    lemma_over_split(Scan::start(), a, cb);
    let next = if cb.len() > 1 {
        Some(cb[1])
    } else {
        None
    };
    assert(cb[0] == c);
    assert(s.step(c, next) is Err);
    let why = s.step(c, next)->Err_0;
    assert(s.over(cb) == Err::<Scan, Seq<char>>(why));
    reveal_strlit("there is no shell inside the pod, so ");
    reveal_strlit("there is no shell inside the pod");
    assert(begins(why, "there is no shell inside the pod"@)) by {
        assert(why.take("there is no shell inside the pod"@.len() as int)
            =~= "there is no shell inside the pod"@);
    }
}

/// A command is refused for nothing else: where it is refused, some character of
/// it needs a shell, or it ends inside quotes or after a backslash, or it has no
/// words.
pub proof fn law_nothing_else_is_refused(command: Seq<char>)
    requires
        tokens(command) is Err,
    ensures
        ({
            ||| exists|k: int|
                0 <= k < command.len() && (#[trigger] Scan::start().over(command.take(k)) matches Ok(
                    s,
                ) && needs_shell(s, command[k]))
            ||| Scan::start().over(command) matches Ok(s) && (!(s.mode is Bare)
                || s.closed().words.len() == 0)
        }),
{
    if Scan::start().over(command) is Err {
        lemma_refused_at(Scan::start(), command);
        let k = choose|k: int|
            0 <= k < command.len() && (#[trigger] Scan::start().over(command.take(k)) matches Ok(s)
                && needs_shell(s, command[k]));
        assert(Scan::start().over(command.take(k)) is Ok);
    }
}

/// A scan that fails does so at a character that needs a shell.
proof fn lemma_refused_at(s: Scan, rest: Seq<char>)
    requires
        s.over(rest) is Err,
    ensures
        exists|k: int|
            0 <= k < rest.len() && (#[trigger] s.over(rest.take(k)) matches Ok(t) && needs_shell(
                t,
                rest[k],
            )),
    decreases rest.len(),
{
    let next = if rest.len() > 1 {
        Some(rest[1])
    } else {
        None
    };
    if s.step(rest[0], next) is Err {
        assert(s.over(rest.take(0)) == Ok::<Scan, Seq<char>>(s));
    } else {
        let t = s.step(rest[0], next)->Ok_0;
        let tail = rest.drop_first();
        lemma_refused_at(t, tail);
        let k = choose|k: int|
            0 <= k < tail.len() && (#[trigger] t.over(tail.take(k)) matches Ok(u) && needs_shell(
                u,
                tail[k],
            ));
        let part = rest.take(k + 1);
        assert(part.drop_first() == tail.take(k));
        assert(part[0] == rest[0]);
        let n = if part.len() > 1 {
            Some(part[1])
        } else {
            None
        };
        lemma_step_next(s, rest[0], next, n);
        assert(s.over(part) == t.over(tail.take(k)));
        assert(rest[k + 1] == tail[k]);
    }
}

/// Whether a command holds no quoting, no shell syntax and no line feed. A tilde
/// may stand inside a word, and not at its beginning.
pub open spec fn is_plain(command: Seq<char>) -> bool {
    forall|i: int|
        0 <= i < command.len() ==> {
            let c = #[trigger] command[i];
            &&& !is_meta(c) && c != '\\' && c != '\'' && c != '"' && c != '\n'
            &&& c == '~' ==> i > 0 && !is_space(command[i - 1])
        }
}

/// A command without quoting, shell syntax and line feeds is split on white space, and
/// refused only where it is blank.
pub proof fn law_plain_command_is_split_on_white_space(command: Seq<char>)
    requires
        is_plain(command),
    ensures
        words_of(command).len() > 0 ==> tokens(command) == Ok::<Seq<Seq<char>>, Seq<char>>(
            words_of(command),
        ),
        words_of(command).len() == 0 ==> tokens(command) == Err::<Seq<Seq<char>>, Seq<char>>(
            "`run` was given an empty command"@,
        ),
{
    lemma_plain(Scan::start(), command);
    assert(Scan::start().words + words_of(command) =~= words_of(command));
}

/// What a scan outside quotes finds in plain text.
proof fn lemma_plain(s: Scan, rest: Seq<char>)
    requires
        s.mode is Bare,
        !s.ended,
        !s.open ==> s.word.len() == 0,
        forall|i: int|
            0 <= i < rest.len() ==> {
                let c = #[trigger] rest[i];
                &&& !is_meta(c) && c != '\\' && c != '\'' && c != '"' && c != '\n'
                &&& c == '~' ==> (i > 0 && !is_space(rest[i - 1])) || (i == 0 && s.open)
            },
    ensures
        s.over(rest) is Ok,
        s.over(rest)->Ok_0.mode is Bare,
        s.over(rest)->Ok_0.closed().words =~= if s.open {
            let n = word_len(rest) as int;
            s.words.push(s.word + rest.take(n)) + words_of(rest.skip(n))
        } else {
            s.words + words_of(rest)
        },
    decreases rest.len(),
{
    if rest.len() == 0 {
        assert(trim_start(rest).len() == 0);
        assert(s.word + rest.take(0) =~= s.word);
        assert(rest.skip(0) =~= rest);
    } else {
        let c = rest[0];
        let r = rest.drop_first();
        let next = if rest.len() > 1 {
            Some(rest[1])
        } else {
            None
        };
        let t = s.step(c, next)->Ok_0;
        assert forall|i: int| 0 <= i < r.len() implies {
            let d = #[trigger] r[i];
            &&& !is_meta(d) && d != '\\' && d != '\'' && d != '"' && d != '\n'
            &&& d == '~' ==> (i > 0 && !is_space(r[i - 1])) || (i == 0 && t.open)
        } by {
            assert(r[i] == rest[i + 1]);
            if i > 0 {
                assert(r[i - 1] == rest[i]);
            }
        }
        lemma_plain(t, r);
        if is_space(c) {
            assert(trim_start(rest) == trim_start(r));
            assert(words_of(rest) == words_of(r));
            assert(rest.take(0) =~= Seq::empty());
            assert(rest.skip(0) =~= rest);
            assert(s.word + rest.take(0) =~= s.word);
        } else {
            let n = word_len(r) as int;
            lemma_word_len(r);
            assert(rest.take(n + 1) =~= seq![c] + r.take(n));
            assert(rest.skip(n + 1) =~= r.skip(n));
            assert(s.word.push(c) + r.take(n) =~= s.word + rest.take(n + 1));
            if !s.open {
                assert(s.word + rest.take(n + 1) =~= rest.take(n + 1));
                assert(words_of(rest) =~= seq![rest.take(n + 1)] + words_of(rest.skip(n + 1)));
            }
        }
    }
}

/// A text as it stands between single quotes: each single quote in it ends the
/// quotes, stands escaped, and begins them again.
pub open spec fn between_quotes(w: Seq<char>) -> Seq<char>
    decreases w.len(),
{
    if w.len() == 0 {
        seq![]
    } else if w[0] == '\'' {
        seq!['\'', '\\', '\'', '\''] + between_quotes(w.drop_first())
    } else {
        seq![w[0]] + between_quotes(w.drop_first())
    }
}

/// A word in single quotes.
pub open spec fn quoted(w: Seq<char>) -> Seq<char> {
    seq!['\''] + between_quotes(w) + seq!['\'']
}

/// A word in double quotes: a backslash escapes what would mean something there.
pub open spec fn double_quoted(w: Seq<char>) -> Seq<char> {
    seq!['"'] + between_double_quotes(w) + seq!['"']
}

/// A text as it stands between double quotes.
pub open spec fn between_double_quotes(w: Seq<char>) -> Seq<char>
    decreases w.len(),
{
    if w.len() == 0 {
        seq![]
    } else if w[0] == '"' || w[0] == '\\' || w[0] == '$' || w[0] == '`' {
        seq!['\\', w[0]] + between_double_quotes(w.drop_first())
    } else {
        seq![w[0]] + between_double_quotes(w.drop_first())
    }
}

/// A word without quotes: a backslash escapes every character.
pub open spec fn escaped(w: Seq<char>) -> Seq<char>
    decreases w.len(),
{
    if w.len() == 0 {
        seq![]
    } else {
        seq!['\\', w[0]] + escaped(w.drop_first())
    }
}

/// A command that spells each of these words in a certain way.
pub open spec fn command_line(
    words: Seq<Seq<char>>,
    spelt: spec_fn(Seq<char>) -> Seq<char>,
) -> Seq<char> {
    joined(words.map_values(spelt), seq![' '])
}

/// Whether a scan finds a word in its spelling.
spec fn found(w: Seq<char>, spelling: Seq<char>) -> bool {
    forall|s: Scan|
        s.mode is Bare && !s.ended ==> #[trigger] s.over(spelling) == Ok::<Scan, Seq<char>>(
            Scan { word: s.word + w, open: true, ..s },
        )
}

/// What a scan finds between single quotes.
proof fn lemma_between_quotes(s: Scan, w: Seq<char>)
    requires
        s.mode is Single,
        s.open,
        !s.ended,
    ensures
        s.over(between_quotes(w)) == Ok::<Scan, Seq<char>>(Scan { word: s.word + w, ..s }),
    decreases w.len(),
{
    if w.len() == 0 {
        assert(s.word + w == s.word);
    } else {
        let t = Scan { word: s.word.push(w[0]), ..s };
        let part = if w[0] == '\'' {
            seq!['\'', '\\', '\'', '\'']
        } else {
            seq![w[0]]
        };
        assert(s.over(part) == Ok::<Scan, Seq<char>>(t)) by {
            reveal_with_fuel(Scan::over, 5);
            if w[0] == '\'' {
                assert(part.drop_first() =~= seq!['\\', '\'', '\'']);
                assert(seq!['\\', '\'', '\''].drop_first() =~= seq!['\'', '\'']);
                assert(seq!['\'', '\''].drop_first() =~= seq!['\'']);
                assert(seq!['\''].drop_first() =~= Seq::<char>::empty());
            } else {
                assert(part.drop_first() =~= Seq::<char>::empty());
            }
        }
        lemma_over_split(s, part, between_quotes(w.drop_first()));
        lemma_between_quotes(t, w.drop_first());
        assert(t.word + w.drop_first() =~= s.word + w);
    }
}

/// A scan finds a word in single quotes.
proof fn lemma_quoted(w: Seq<char>)
    ensures
        found(w, quoted(w)),
{
    let q = seq!['\''];
    assert(q.drop_first() =~= Seq::<char>::empty());
    assert forall|s: Scan| s.mode is Bare && !s.ended implies #[trigger] s.over(quoted(w)) == Ok::<
        Scan,
        Seq<char>,
    >(Scan { word: s.word + w, open: true, ..s }) by {
        let a = Scan { mode: Mode::Single, open: true, ..s };
        let b = Scan { word: s.word + w, ..a };
        let c = Scan { mode: Mode::Bare, ..b };
        assert(a.over(Seq::<char>::empty()) == Ok::<Scan, Seq<char>>(a));
        assert(c.over(Seq::<char>::empty()) == Ok::<Scan, Seq<char>>(c));
        assert(s.over(q) == Ok::<Scan, Seq<char>>(a));
        assert(b.over(q) == Ok::<Scan, Seq<char>>(c));
        lemma_between_quotes(a, w);
        lemma_over_split(s, q, between_quotes(w) + q);
        lemma_over_split(a, between_quotes(w), q);
        assert(quoted(w) == q + (between_quotes(w) + q));
    }
}

/// What a scan finds between double quotes.
proof fn lemma_between_double_quotes(s: Scan, w: Seq<char>)
    requires
        s.mode is Double,
        s.open,
    ensures
        s.over(between_double_quotes(w)) == Ok::<Scan, Seq<char>>(Scan { word: s.word + w, ..s }),
    decreases w.len(),
{
    if w.len() == 0 {
        assert(s.word + w == s.word);
    } else {
        let t = Scan { word: s.word.push(w[0]), ..s };
        let special = w[0] == '"' || w[0] == '\\' || w[0] == '$' || w[0] == '`';
        let part = if special {
            seq!['\\', w[0]]
        } else {
            seq![w[0]]
        };
        assert(s.over(part) == Ok::<Scan, Seq<char>>(t)) by {
            reveal_with_fuel(Scan::over, 3);
            if special {
                assert(part.drop_first() =~= seq![w[0]]);
                assert(seq![w[0]].drop_first() =~= Seq::<char>::empty());
            } else {
                assert(part.drop_first() =~= Seq::<char>::empty());
            }
        }
        lemma_over_split(s, part, between_double_quotes(w.drop_first()));
        lemma_between_double_quotes(t, w.drop_first());
        assert(t.word + w.drop_first() =~= s.word + w);
    }
}

/// A scan finds a word in double quotes.
proof fn lemma_double_quoted(w: Seq<char>)
    ensures
        found(w, double_quoted(w)),
{
    let q = seq!['"'];
    let inner = between_double_quotes(w);
    assert(q.drop_first() =~= Seq::<char>::empty());
    assert forall|s: Scan| s.mode is Bare && !s.ended implies #[trigger] s.over(double_quoted(w)) == Ok::<
        Scan,
        Seq<char>,
    >(Scan { word: s.word + w, open: true, ..s }) by {
        let a = Scan { mode: Mode::Double, open: true, ..s };
        let b = Scan { word: s.word + w, ..a };
        let c = Scan { mode: Mode::Bare, ..b };
        assert(a.over(Seq::<char>::empty()) == Ok::<Scan, Seq<char>>(a));
        assert(c.over(Seq::<char>::empty()) == Ok::<Scan, Seq<char>>(c));
        assert(s.over(q) == Ok::<Scan, Seq<char>>(a));
        assert(b.over(q) == Ok::<Scan, Seq<char>>(c));
        lemma_between_double_quotes(a, w);
        lemma_over_split(s, q, inner + q);
        lemma_over_split(a, inner, q);
        assert(double_quoted(w) == q + (inner + q));
    }
}

/// A scan finds a word whose characters are escaped, where it has any.
proof fn lemma_escaped(w: Seq<char>)
    requires
        w.len() > 0,
    ensures
        found(w, escaped(w)),
    decreases w.len(),
{
    let part = seq!['\\', w[0]];
    let rest = w.drop_first();
    if rest.len() > 0 {
        lemma_escaped(rest);
    }
    assert forall|s: Scan| s.mode is Bare && !s.ended implies #[trigger] s.over(escaped(w)) == Ok::<
        Scan,
        Seq<char>,
    >(Scan { word: s.word + w, open: true, ..s }) by {
        let t = Scan { word: s.word.push(w[0]), open: true, ..s };
        assert(s.over(part) == Ok::<Scan, Seq<char>>(t)) by {
            reveal_with_fuel(Scan::over, 3);
            assert(part.drop_first() =~= seq![w[0]]);
            assert(seq![w[0]].drop_first() =~= Seq::<char>::empty());
        }
        lemma_over_split(s, part, escaped(rest));
        if rest.len() == 0 {
            assert(t.over(escaped(rest)) == Ok::<Scan, Seq<char>>(t));
            assert(s.word.push(w[0]) =~= s.word + w);
        } else {
            assert(t.word + rest =~= s.word + w);
        }
    }
}

/// Quoting survives tokenisation: any argument vector, whatever its words hold,
/// can be written in single or in double quotes as a command that tokenises to
/// it.
pub proof fn law_quoted_words_come_back(words: Seq<Seq<char>>)
    requires
        words.len() > 0,
    ensures
        tokens(command_line(words, |w: Seq<char>| quoted(w))) == Ok::<Seq<Seq<char>>, Seq<char>>(
            words,
        ),
        tokens(command_line(words, |w: Seq<char>| double_quoted(w))) == Ok::<
            Seq<Seq<char>>,
            Seq<char>,
        >(words),
{
    assert forall|i: int| 0 <= i < words.len() implies found(
        #[trigger] words[i],
        (|w: Seq<char>| quoted(w))(words[i]),
    ) by {
        lemma_quoted(words[i]);
    }
    assert forall|i: int| 0 <= i < words.len() implies found(
        #[trigger] words[i],
        (|w: Seq<char>| double_quoted(w))(words[i]),
    ) by {
        lemma_double_quoted(words[i]);
    }
    lemma_command_line(words, |w: Seq<char>| quoted(w));
    lemma_command_line(words, |w: Seq<char>| double_quoted(w));
    assert(words.drop_last().push(words.last()) == words);
}

/// Escaping survives tokenisation: an argument vector without empty words can be
/// written with a backslash before every character.
pub proof fn law_escaped_words_come_back(words: Seq<Seq<char>>)
    requires
        words.len() > 0,
        forall|i: int| 0 <= i < words.len() ==> (#[trigger] words[i]).len() > 0,
    ensures
        tokens(command_line(words, |w: Seq<char>| escaped(w))) == Ok::<Seq<Seq<char>>, Seq<char>>(
            words,
        ),
{
    assert forall|i: int| 0 <= i < words.len() implies found(
        #[trigger] words[i],
        (|w: Seq<char>| escaped(w))(words[i]),
    ) by {
        lemma_escaped(words[i]);
    }
    lemma_command_line(words, |w: Seq<char>| escaped(w));
    assert(words.drop_last().push(words.last()) == words);
}

/// What a scan finds in words that it finds in their spellings.
proof fn lemma_command_line(words: Seq<Seq<char>>, spelt: spec_fn(Seq<char>) -> Seq<char>)
    requires
        words.len() > 0,
        forall|i: int| 0 <= i < words.len() ==> found(#[trigger] words[i], spelt(words[i])),
    ensures
        Scan::start().over(command_line(words, spelt)) == Ok::<Scan, Seq<char>>(
            Scan {
                mode: Mode::Bare,
                words: words.drop_last(),
                word: words.last(),
                open: true,
                ended: false,
            },
        ),
    decreases words.len(),
{
    let q = words.map_values(spelt);
    let d = words.drop_last();
    let s = Scan::start();
    assert(found(words[words.len() - 1], spelt(words.last())));
    if words.len() == 1 {
        assert(s.over(spelt(words[0])) is Ok);
        assert(s.word + words[0] =~= words[0]);
        assert(s.words =~= d);
        assert(words.last() == words[0]);
    } else {
        assert forall|i: int| 0 <= i < d.len() implies found(#[trigger] d[i], spelt(d[i])) by {
            assert(d[i] == words[i]);
        }
        lemma_command_line(d, spelt);
        assert(q.drop_last() == d.map_values(spelt));
        let space = seq![' '];
        let head = command_line(d, spelt);
        let a = s.over(head)->Ok_0;
        assert(d.drop_last().push(d.last()) == d);
        let b = Scan { mode: Mode::Bare, words: d, word: seq![], open: false, ended: false };
        assert(a.over(space) == Ok::<Scan, Seq<char>>(b)) by {
            assert(a.closed() == b);
            assert(space.drop_first() =~= Seq::<char>::empty());
            assert(b.over(Seq::<char>::empty()) == Ok::<Scan, Seq<char>>(b));
        }
        let last = spelt(words.last());
        assert(b.over(last) is Ok);
        assert(b.word + words.last() =~= words.last());
        lemma_over_split(a, space, last);
        lemma_over_split(s, head, space + last);
        assert(command_line(words, spelt) =~= head + (space + last));
    }
}

/// What a scan outside quotes finds in white space: nothing.
pub proof fn lemma_white_space(s: Scan, gap: Seq<char>)
    requires
        s.mode is Bare,
        forall|i: int| 0 <= i < gap.len() ==> is_space(#[trigger] gap[i]),
    ensures
        s.over(gap) matches Ok(t) && {
            &&& t.mode is Bare
            &&& t.closed().words == s.closed().words
            &&& s.ended && s.closed().words.len() > 0 ==> t.ended
            &&& s == Scan::start() ==> t == s
        },
    decreases gap.len(),
{
    if gap.len() > 0 {
        let next = if gap.len() > 1 {
            Some(gap[1])
        } else {
            None
        };
        assert(is_space(gap[0]));
        let t = s.step(gap[0], next)->Ok_0;
        let rest = gap.drop_first();
        assert forall|i: int| 0 <= i < rest.len() implies is_space(#[trigger] rest[i]) by {
            assert(rest[i] == gap[i + 1]);
        }
        lemma_white_space(t, rest);
    }
}

/// White space around a command is harmless, line feeds and all: before it in any
/// case, and after it where the command stands for an argument vector.
pub proof fn law_outer_white_space_is_harmless(
    before: Seq<char>,
    command: Seq<char>,
    after: Seq<char>,
)
    requires
        forall|i: int| 0 <= i < before.len() ==> is_space(#[trigger] before[i]),
        forall|i: int| 0 <= i < after.len() ==> is_space(#[trigger] after[i]),
    ensures
        tokens(before + command) == tokens(command),
        tokens(command) is Ok ==> tokens(command + after) == tokens(command),
{
    lemma_white_space(Scan::start(), before);
    lemma_over_split(Scan::start(), before, command);
    if tokens(command) is Ok {
        let s = Scan::start().over(command)->Ok_0;
        lemma_over_split(Scan::start(), command, after);
        lemma_white_space(s, after);
    }
}

/// Two commands, one on a line after the other, are refused with the reason: the
/// second is never run as arguments of the first.
pub proof fn law_second_command_is_refused(
    first: Seq<char>,
    gap: Seq<char>,
    c: char,
    rest: Seq<char>,
)
    requires
        tokens(first) is Ok,
        forall|i: int| 0 <= i < gap.len() ==> is_space(#[trigger] gap[i]),
        !is_space(c),
    ensures
        tokens(first + (seq!['\n'] + gap) + seq![c] + rest) matches Err(why) && begins(
            why,
            "there is no shell inside the pod"@,
        ),
{
    let s = Scan::start().over(first)->Ok_0;
    let feed = seq!['\n'];
    let t = Scan { ended: true, ..s.closed() };
    assert(feed.drop_first() =~= Seq::<char>::empty());
    assert(t.over(Seq::<char>::empty()) == Ok::<Scan, Seq<char>>(t));
    assert(s.over(feed) == Ok::<Scan, Seq<char>>(t));
    lemma_over_split(s, feed, gap);
    lemma_white_space(t, gap);
    lemma_over_split(Scan::start(), first, feed + gap);
    law_shell_syntax_is_refused(first + (feed + gap), c, rest);
}

/// A command that tokenises has at least one word: there is a program to run.
pub proof fn law_argument_vector_is_never_empty(command: Seq<char>)
    ensures
        tokens(command) matches Ok(words) ==> words.len() > 0,
{
}

/// A command that ends inside quotes or after a backslash is an error, and not
/// silently cut.
pub proof fn law_unbalanced_quote_is_an_error(command: Seq<char>)
    requires
        Scan::start().over(command) matches Ok(s) && !(s.mode is Bare),
    ensures
        tokens(command) is Err,
{
}

/// A timeout is never rounded down, never to zero, and never up by a whole
/// second.
pub proof fn law_timeout_rounds_up(ms: u64)
    ensures
        seconds(ms) >= 1,
        seconds(ms) * 1000 >= ms,
        seconds(ms) > 1 ==> (seconds(ms) - 1) * 1000 < ms,
{
}

/// The fields that a route refuses to do without.
pub open spec fn route_requires(route: Seq<char>) -> Seq<Seq<char>> {
    if route == "/v1/run"@ {
        seq!["args"@]
    } else if route == "/v1/read"@ {
        seq!["path"@]
    } else if route == "/v1/write"@ {
        seq!["path"@, "contents"@]
    } else if route == "/v1/glob"@ || route == "/v1/grep"@ {
        seq!["pattern"@]
    } else if route == "/v1/web_fetch"@ {
        seq!["url"@]
    } else if route == "/v1/web_search"@ {
        seq!["query"@]
    } else {
        seq![]
    }
}

/// The fields that a route also reads.
pub open spec fn route_allows(route: Seq<char>) -> Seq<Seq<char>> {
    if route == "/v1/run"@ {
        seq!["stdin"@, "directory"@, "timeout_seconds"@]
    } else if route == "/v1/glob"@ {
        seq!["directory"@, "max_results"@]
    } else if route == "/v1/grep"@ {
        seq!["path"@, "glob"@]
    } else if route == "/v1/web_search"@ {
        seq!["max_results"@]
    } else {
        seq![]
    }
}

/// The arguments that a tool refuses to do without.
pub open spec fn tool_requires(tool: Seq<char>) -> Seq<Seq<char>> {
    if tool == "run"@ {
        seq!["command"@]
    } else if tool == "read"@ {
        seq!["file_path"@]
    } else if tool == "write"@ {
        seq!["file_path"@, "content"@]
    } else if tool == "glob"@ || tool == "grep"@ {
        seq!["pattern"@]
    } else if tool == "web_fetch"@ {
        seq!["url"@]
    } else if tool == "web_search"@ {
        seq!["query"@]
    } else {
        seq![]
    }
}

/// Whether a body has every field that the route requires, and no field that it
/// does not read.
pub open spec fn fits(body: JsonV, route: Seq<char>) -> bool {
    body matches JsonV::Object(m) && {
        &&& forall|i: int|
            0 <= i < route_requires(route).len() ==> m.contains_key(
                #[trigger] route_requires(route)[i],
            )
        &&& forall|k: Seq<char>| #[trigger]
            m.contains_key(k) ==> route_requires(route).contains(k) || route_allows(
                route,
            ).contains(k)
    }
}

/// Whether some arguments hold a string under every key of a list.
pub open spec fn holds_texts(args: JsonV, keys: Seq<Seq<char>>) -> bool {
    forall|i: int| 0 <= i < keys.len() ==> args.text_at(#[trigger] keys[i]) is Some
}

/// The routes of the served tools, and of no other.
pub proof fn lemma_served_route(tool: Seq<char>)
    ensures
        served_route(tool) == (if tool == "run"@ {
            Some("/v1/run"@)
        } else if tool == "read"@ {
            Some("/v1/read"@)
        } else if tool == "write"@ {
            Some("/v1/write"@)
        } else if tool == "glob"@ {
            Some("/v1/glob"@)
        } else if tool == "grep"@ {
            Some("/v1/grep"@)
        } else if tool == "web_fetch"@ {
            Some("/v1/web_fetch"@)
        } else if tool == "web_search"@ {
            Some("/v1/web_search"@)
        } else {
            None
        }),
{
    law_served_tools();
    let l = served();
    reveal_with_fuel(route_in, 8);
    assert(l.drop_first()[0] == l[1]);
    assert(l.drop_first().drop_first()[0] == l[2]);
    assert(l.drop_first().drop_first().drop_first()[0] == l[3]);
    assert(l.drop_first().drop_first().drop_first().drop_first()[0] == l[4]);
    assert(l.drop_first().drop_first().drop_first().drop_first().drop_first()[0] == l[5]);
    assert(l.drop_first().drop_first().drop_first().drop_first().drop_first().drop_first()[0]
        == l[6]);
}

/// The names of the routes differ.
proof fn lemma_routes()
    ensures
        "/v1/run"@ != "/v1/read"@,
        "/v1/run"@ != "/v1/write"@,
        "/v1/run"@ != "/v1/glob"@,
        "/v1/run"@ != "/v1/grep"@,
        "/v1/run"@ != "/v1/web_fetch"@,
        "/v1/run"@ != "/v1/web_search"@,
        "/v1/read"@ != "/v1/write"@,
        "/v1/read"@ != "/v1/glob"@,
        "/v1/read"@ != "/v1/grep"@,
        "/v1/read"@ != "/v1/web_fetch"@,
        "/v1/read"@ != "/v1/web_search"@,
        "/v1/write"@ != "/v1/glob"@,
        "/v1/write"@ != "/v1/grep"@,
        "/v1/write"@ != "/v1/web_fetch"@,
        "/v1/write"@ != "/v1/web_search"@,
        "/v1/glob"@ != "/v1/grep"@,
        "/v1/glob"@ != "/v1/web_fetch"@,
        "/v1/glob"@ != "/v1/web_search"@,
        "/v1/grep"@ != "/v1/web_fetch"@,
        "/v1/grep"@ != "/v1/web_search"@,
        "/v1/web_fetch"@ != "/v1/web_search"@,
{
    reveal_strlit("/v1/run");
    reveal_strlit("/v1/read");
    reveal_strlit("/v1/write");
    reveal_strlit("/v1/glob");
    reveal_strlit("/v1/grep");
    reveal_strlit("/v1/web_fetch");
    reveal_strlit("/v1/web_search");
    assert("/v1/run"@.len() == 7 && "/v1/read"@.len() == 8 && "/v1/write"@.len() == 9
        && "/v1/glob"@.len() == 8 && "/v1/grep"@.len() == 8 && "/v1/web_fetch"@.len() == 13
        && "/v1/web_search"@.len() == 14);
    assert("/v1/read"@[5] == 'e' && "/v1/glob"@[5] == 'l' && "/v1/grep"@[5] == 'r');
}

/// A body that is sent has every field that its route requires, and no field
/// that the route does not read.
pub proof fn law_body_fits_its_route(tool: Seq<char>, args: JsonV)
    ensures
        proxy_body(tool, args) matches Ok(body) ==> (served_route(tool) matches Some(route)
            && fits(body, route)),
{
    lemma_served_route(tool);
    lemma_tools();
    lemma_routes();
    if let Ok(body) = proxy_body(tool, args) {
        let route = served_route(tool)->0;
        let r = route_requires(route);
        let a = route_allows(route);
        let m = body->Object_0;
        assert forall|k: Seq<char>| #[trigger] m.contains_key(k) implies r.contains(k)
            || a.contains(k) by {
            assert(r.len() > 0 ==> r.contains(r[0]));
            assert(r.len() > 1 ==> r.contains(r[1]));
            assert(a.len() > 0 ==> a.contains(a[0]));
            assert(a.len() > 1 ==> a.contains(a[1]));
            assert(a.len() > 2 ==> a.contains(a[2]));
        }
    }
}

/// A body that is sent is made of strings, integers and lists of strings: it is
/// shallow enough for its text to read back.
pub proof fn law_body_is_plain_data(tool: Seq<char>, args: JsonV)
    ensures
        proxy_body(tool, args) matches Ok(body) ==> nested(body, 127),
{
    if let Ok(body) = proxy_body(tool, args) {
        let m = body->Object_0;
        assert forall|k: Seq<char>| m.contains_key(k) implies nested(#[trigger] m[k], 126) by {
            if let JsonV::Array(a) = m[k] {
                assert forall|i: int| 0 <= i < a.len() implies nested(#[trigger] a[i], 125) by {}
            }
        }
    }
}

/// A call is translated exactly if its tool is served, the arguments that the
/// tool requires are there, and a command to run stands for an argument vector.
pub proof fn law_translated_iff_complete(tool: Seq<char>, args: JsonV)
    ensures
        proxy_body(tool, args) is Ok <==> {
            &&& served_route(tool) is Some
            &&& holds_texts(args, tool_requires(tool))
            &&& tool == "run"@ ==> (args.text_at("command"@) matches Some(command) && tokens(
                command,
            ) is Ok)
        },
{
    lemma_served_route(tool);
    lemma_tools();
    let k = tool_requires(tool);
    if holds_texts(args, k) {
        if k.len() > 0 {
            assert(args.text_at(k[0]) is Some);
        }
        if k.len() > 1 {
            assert(args.text_at(k[1]) is Some);
        }
    }
}

/// The names of the tools differ.
proof fn lemma_tools()
    ensures
        "run"@ != "read"@,
        "run"@ != "write"@,
        "run"@ != "glob"@,
        "run"@ != "grep"@,
        "run"@ != "web_fetch"@,
        "run"@ != "web_search"@,
{
    reveal_strlit("run");
    reveal_strlit("read");
    reveal_strlit("write");
    reveal_strlit("glob");
    reveal_strlit("grep");
    reveal_strlit("web_fetch");
    reveal_strlit("web_search");
    assert("run"@.len() == 3 && "read"@.len() == 4 && "write"@.len() == 5 && "glob"@.len() == 4
        && "grep"@.len() == 4 && "web_fetch"@.len() == 9 && "web_search"@.len() == 10);
}

} // verus!
