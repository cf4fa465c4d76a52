//! What a tool call becomes on its way to the pod.

use vstd::prelude::*;
use vstd::string::*;

use crate::json::JsonV;
use crate::mediation::served_route;
use crate::translate::{lemma_served_route, proxy_body, strings, tokens};

verus! {

/// What the body of a call holds under a key.
pub open spec fn sent(tool: Seq<char>, args: JsonV, key: Seq<char>) -> Option<JsonV> {
    match proxy_body(tool, args) {
        Ok(JsonV::Object(m)) => if m.dom().contains(key) {
            Some(m[key])
        } else {
            None
        },
        _ => None,
    }
}

/// The string argument under a key, as a body holds it.
pub open spec fn text_of(args: JsonV, key: Seq<char>) -> Option<JsonV> {
    match args {
        JsonV::Object(m) => if m.dom().contains(key) && m[key] is Str {
            Some(m[key])
        } else {
            None
        },
        _ => None,
    }
}

/// The integer argument under a key, as a body holds it.
pub open spec fn uint_of(args: JsonV, key: Seq<char>) -> Option<JsonV> {
    match args {
        JsonV::Object(m) => if m.dom().contains(key) && m[key] is Uint {
            Some(m[key])
        } else {
            None
        },
        _ => None,
    }
}

/// Whether the body of a call has no other key than these.
pub open spec fn only(tool: Seq<char>, args: JsonV, keys: Seq<Seq<char>>) -> bool {
    forall|k: Seq<char>| #[trigger] sent(tool, args, k) is Some ==> keys.contains(k)
}

/// The keys differ.
proof fn lemma_keys()
    ensures
        "path"@ =~= seq!['p', 'a', 't', 'h'],
        "contents"@ =~= seq!['c', 'o', 'n', 't', 'e', 'n', 't', 's'],
        "pattern"@ =~= seq!['p', 'a', 't', 't', 'e', 'r', 'n'],
        "directory"@ =~= seq!['d', 'i', 'r', 'e', 'c', 't', 'o', 'r', 'y'],
        "max_results"@ =~= seq!['m', 'a', 'x', '_', 'r', 'e', 's', 'u', 'l', 't', 's'],
        "glob"@ =~= seq!['g', 'l', 'o', 'b'],
        "url"@ =~= seq!['u', 'r', 'l'],
        "query"@ =~= seq!['q', 'u', 'e', 'r', 'y'],
        "args"@ =~= seq!['a', 'r', 'g', 's'],
        "stdin"@ =~= seq!['s', 't', 'd', 'i', 'n'],
        "timeout_seconds"@ =~= seq![
            't', 'i', 'm', 'e', 'o', 'u', 't', '_', 's', 'e', 'c', 'o', 'n', 'd', 's',
        ],
        "run"@ =~= seq!['r', 'u', 'n'],
        "read"@ =~= seq!['r', 'e', 'a', 'd'],
        "write"@ =~= seq!['w', 'r', 'i', 't', 'e'],
        "grep"@ =~= seq!['g', 'r', 'e', 'p'],
        "web_fetch"@ =~= seq!['w', 'e', 'b', '_', 'f', 'e', 't', 'c', 'h'],
        "web_search"@ =~= seq!['w', 'e', 'b', '_', 's', 'e', 'a', 'r', 'c', 'h'],
{
    reveal_strlit("path");
    reveal_strlit("contents");
    reveal_strlit("pattern");
    reveal_strlit("directory");
    reveal_strlit("max_results");
    reveal_strlit("glob");
    reveal_strlit("url");
    reveal_strlit("query");
    reveal_strlit("args");
    reveal_strlit("stdin");
    reveal_strlit("timeout_seconds");
    reveal_strlit("run");
    reveal_strlit("read");
    reveal_strlit("write");
    reveal_strlit("grep");
    reveal_strlit("web_fetch");
    reveal_strlit("web_search");
}

/// A list holds its members.
proof fn lemma_contains(s: Seq<Seq<char>>)
    ensures
        forall|i: int| 0 <= i < s.len() ==> s.contains(#[trigger] s[i]),
{
    assert forall|i: int| 0 <= i < s.len() implies s.contains(#[trigger] s[i]) by {}
}

/// A read asks for the very path that it was given, and for nothing else.
pub proof fn law_read_body(args: JsonV)
    ensures
        proxy_body("read"@, args) is Ok <==> text_of(args, "file_path"@) is Some,
        proxy_body("read"@, args) is Ok ==> {
            &&& sent("read"@, args, "path"@) == text_of(args, "file_path"@)
            &&& only("read"@, args, seq!["path"@])
        },
{
    lemma_contains(seq!["path"@]);
    assert(seq!["path"@][0] == "path"@);
}

/// A write hands over the very path and the very content that it was given,
/// character for character, and nothing else.
pub proof fn law_write_body(args: JsonV)
    ensures
        proxy_body("write"@, args) is Ok <==> text_of(args, "file_path"@) is Some && text_of(
            args,
            "content"@,
        ) is Some,
        proxy_body("write"@, args) is Ok ==> {
            &&& sent("write"@, args, "path"@) == text_of(args, "file_path"@)
            &&& sent("write"@, args, "contents"@) == text_of(args, "content"@)
            &&& only("write"@, args, seq!["path"@, "contents"@])
        },
{
    lemma_keys();
    let k = seq!["path"@, "contents"@];
    lemma_contains(k);
    assert(k[0] == "path"@ && k[1] == "contents"@);
}

/// A glob asks for the very pattern; the directory and the limit are those of the
/// arguments, and are there exactly if the arguments have them.
pub proof fn law_glob_body(args: JsonV)
    ensures
        proxy_body("glob"@, args) is Ok <==> text_of(args, "pattern"@) is Some,
        proxy_body("glob"@, args) is Ok ==> {
            &&& sent("glob"@, args, "pattern"@) == text_of(args, "pattern"@)
            &&& sent("glob"@, args, "directory"@) == text_of(args, "path"@)
            &&& sent("glob"@, args, "max_results"@) == uint_of(args, "max_results"@)
            &&& only("glob"@, args, seq!["pattern"@, "directory"@, "max_results"@])
        },
{
    lemma_keys();
    let k = seq!["pattern"@, "directory"@, "max_results"@];
    lemma_contains(k);
    assert(k[0] == "pattern"@ && k[1] == "directory"@ && k[2] == "max_results"@);
}

/// A grep asks for the very pattern; the path and the glob are those of the
/// arguments, and are there exactly if the arguments have them.
pub proof fn law_grep_body(args: JsonV)
    ensures
        proxy_body("grep"@, args) is Ok <==> text_of(args, "pattern"@) is Some,
        proxy_body("grep"@, args) is Ok ==> {
            &&& sent("grep"@, args, "pattern"@) == text_of(args, "pattern"@)
            &&& sent("grep"@, args, "path"@) == text_of(args, "path"@)
            &&& sent("grep"@, args, "glob"@) == text_of(args, "glob"@)
            &&& only("grep"@, args, seq!["pattern"@, "path"@, "glob"@])
        },
{
    lemma_keys();
    let k = seq!["pattern"@, "path"@, "glob"@];
    lemma_contains(k);
    assert(k[0] == "pattern"@ && k[1] == "path"@ && k[2] == "glob"@);
}

/// A fetch asks for the very URL, and for nothing else.
pub proof fn law_web_fetch_body(args: JsonV)
    ensures
        proxy_body("web_fetch"@, args) is Ok <==> text_of(args, "url"@) is Some,
        proxy_body("web_fetch"@, args) is Ok ==> {
            &&& sent("web_fetch"@, args, "url"@) == text_of(args, "url"@)
            &&& only("web_fetch"@, args, seq!["url"@])
        },
{
    lemma_keys();
    lemma_contains(seq!["url"@]);
    assert(seq!["url"@][0] == "url"@);
}

/// A search asks for the very query; the limit is that of the arguments, and is
/// there exactly if the arguments have one.
pub proof fn law_web_search_body(args: JsonV)
    ensures
        proxy_body("web_search"@, args) is Ok <==> text_of(args, "query"@) is Some,
        proxy_body("web_search"@, args) is Ok ==> {
            &&& sent("web_search"@, args, "query"@) == text_of(args, "query"@)
            &&& sent("web_search"@, args, "max_results"@) == uint_of(args, "max_results"@)
            &&& only("web_search"@, args, seq!["query"@, "max_results"@])
        },
{
    lemma_keys();
    let k = seq!["query"@, "max_results"@];
    lemma_contains(k);
    assert(k[0] == "query"@ && k[1] == "max_results"@);
}

/// A run hands over the words of its command, one string each and in order; the
/// directory and the input are those of the arguments. The timeout is there
/// exactly if the arguments have one, in whole seconds: enough of them, at least
/// one, and no more than that takes.
pub proof fn law_run_body(args: JsonV)
    ensures
        proxy_body("run"@, args) is Ok <==> (text_of(args, "command"@) matches Some(
            JsonV::Str(command),
        ) && tokens(command) is Ok),
        proxy_body("run"@, args) is Ok ==> {
            &&& sent("run"@, args, "args"@) matches Some(JsonV::Array(words)) && (text_of(
                args,
                "command"@,
            ) matches Some(JsonV::Str(command)) && (tokens(command) matches Ok(split) && {
                &&& words.len() == split.len()
                &&& forall|i: int|
                    0 <= i < words.len() ==> #[trigger] words[i] == JsonV::Str(split[i])
            }))
            &&& sent("run"@, args, "directory"@) == text_of(args, "directory"@)
            &&& sent("run"@, args, "stdin"@) == text_of(args, "stdin"@)
            &&& match uint_of(args, "timeout_ms"@) {
                Some(JsonV::Uint(ms)) => sent("run"@, args, "timeout_seconds"@) matches Some(
                    JsonV::Uint(s),
                ) && s >= 1 && s * 1000 >= ms && (s > 1 ==> (s - 1) * 1000 < ms),
                _ => sent("run"@, args, "timeout_seconds"@) is None,
            }
            &&& only("run"@, args, seq!["args"@, "directory"@, "stdin"@, "timeout_seconds"@])
        },
{
    lemma_keys();
    let k = seq!["args"@, "directory"@, "stdin"@, "timeout_seconds"@];
    lemma_contains(k);
    assert(k[0] == "args"@ && k[1] == "directory"@ && k[2] == "stdin"@ && k[3]
        == "timeout_seconds"@);
}

/// A call that lacks a string is told which one its tool requires, and a command
/// that stands for no argument vector is refused for its own reason. A tool that is
/// not served is named.
pub proof fn law_refused_calls(tool: Seq<char>, args: JsonV)
    ensures
        tool == "read"@ && text_of(args, "file_path"@) is None ==> proxy_body(tool, args) == Err::<
            JsonV,
            Seq<char>,
        >("`"@ + "read"@ + "` requires a string `"@ + "file_path"@ + "`"@),
        tool == "write"@ && text_of(args, "file_path"@) is None ==> proxy_body(tool, args) == Err::<
            JsonV,
            Seq<char>,
        >("`"@ + "write"@ + "` requires a string `"@ + "file_path"@ + "`"@),
        tool == "write"@ && text_of(args, "file_path"@) is Some && text_of(args, "content"@) is None
            ==> proxy_body(tool, args) == Err::<JsonV, Seq<char>>(
            "`"@ + "write"@ + "` requires a string `"@ + "content"@ + "`"@,
        ),
        (tool == "glob"@ || tool == "grep"@) && text_of(args, "pattern"@) is None ==> proxy_body(
            tool,
            args,
        ) == Err::<JsonV, Seq<char>>("`"@ + tool + "` requires a string `"@ + "pattern"@ + "`"@),
        tool == "web_fetch"@ && text_of(args, "url"@) is None ==> proxy_body(tool, args) == Err::<
            JsonV,
            Seq<char>,
        >("`"@ + tool + "` requires a string `"@ + "url"@ + "`"@),
        tool == "web_search"@ && text_of(args, "query"@) is None ==> proxy_body(tool, args)
            == Err::<JsonV, Seq<char>>("`"@ + tool + "` requires a string `"@ + "query"@ + "`"@),
        tool == "run"@ && text_of(args, "command"@) is None ==> proxy_body(tool, args) == Err::<
            JsonV,
            Seq<char>,
        >("`"@ + tool + "` requires a string `"@ + "command"@ + "`"@),
        tool == "run"@ && (text_of(args, "command"@) matches Some(JsonV::Str(command)) && tokens(
            command,
        ) is Err) ==> (text_of(args, "command"@) matches Some(JsonV::Str(command)) && proxy_body(
            tool,
            args,
        ) == Err::<JsonV, Seq<char>>(tokens(command)->Err_0)),
        served_route(tool) is None ==> proxy_body(tool, args) == Err::<JsonV, Seq<char>>(
            "`"@ + tool + "` has no request translation"@,
        ),
{
    lemma_keys();
    lemma_served_route(tool);
}

/// A list of strings has them in order, and nothing else.
pub proof fn law_strings(words: Seq<Seq<char>>)
    ensures
        strings(words) matches JsonV::Array(a) && a.len() == words.len() && forall|i: int|
            0 <= i < a.len() ==> #[trigger] a[i] == JsonV::Str(words[i]),
{
}

} // verus!
