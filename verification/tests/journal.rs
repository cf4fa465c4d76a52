use ccn::journal::{
    entry_of, overgrown, parse, path, recent, record, shown, subject_of, trim, truncate, Entry, Outcome,
    KEEP_ENTRIES, MAX_BYTES, SUBJECT_MAX,
};
use ccn::json::Json;

/// A journal in memory: what a file would hold.
struct Temp(Option<String>);

impl Temp {
    fn record(&mut self, entry: &Entry) {
        let mut raw = self.0.take().unwrap_or_default();
        raw.push_str(&record(1, entry));
        raw.push('\n');
        if overgrown(raw.len() as u64) {
            raw = trim(&raw);
        }
        self.0 = Some(raw);
    }

    fn recent(&self, limit: usize) -> Vec<Entry> {
        match &self.0 {
            Some(raw) => recent(raw, limit),
            None => recent("", limit),
        }
    }
}

fn json(s: &str) -> Json {
    Json::parse(s).unwrap()
}

fn entry(tool: &str, outcome: Outcome) -> Entry {
    Entry {
        tool: tool.into(),
        subject: "s".into(),
        outcome,
        pod: "127.0.0.1:1".into(),
    }
}

#[test]
fn what_was_written_is_what_comes_back() {
    let mut t = Temp(None);
    t.record(&entry("read", Outcome::Allowed));
    t.record(&entry(
        "web_fetch",
        Outcome::Refused("denied by lattice".into()),
    ));

    let got = t.recent(10);
    assert_eq!(got.len(), 2);
    assert_eq!(got[0].tool, "read");
    assert_eq!(got[0].outcome, Outcome::Allowed);
    assert_eq!(got[1].tool, "web_fetch");
    assert_eq!(
        got[1].outcome,
        Outcome::Refused("denied by lattice".into()),
        "the reason is the whole point of recording a refusal"
    );
}

#[test]
fn no_journal_is_an_empty_history_rather_than_a_failure() {
    let t = Temp(None);
    assert!(t.recent(10).is_empty());
}

#[test]
fn the_file_is_trimmed_rather_than_grown_forever() {
    let mut t = Temp(None);
    let long = "x".repeat(2000);
    for _ in 0..400 {
        t.record(&Entry {
            subject: long.clone(),
            ..entry("read", Outcome::Allowed)
        });
    }
    let size = t.0.as_ref().unwrap().len() as u64;
    assert!(size <= MAX_BYTES * 2, "journal grew to {size} bytes");
    assert!(t.recent(10_000).len() <= KEEP_ENTRIES + 1);
}

#[test]
fn a_corrupt_line_is_skipped_not_fatal() {
    let mut t = Temp(None);
    t.record(&entry("read", Outcome::Allowed));
    t.0.as_mut().unwrap().push_str("{not json\n");
    t.record(&entry("write", Outcome::Allowed));

    let got = t.recent(10);
    assert_eq!(got.len(), 2);
    assert_eq!(got[1].tool, "write");
}

#[test]
fn a_subject_is_the_argument_that_names_the_thing() {
    assert_eq!(
        subject_of("read", &json(r#"{ "file_path": "src/a.rs" }"#)),
        "src/a.rs"
    );
    assert_eq!(
        subject_of("run", &json(r#"{ "command": "cargo test" }"#)),
        "cargo test"
    );
    assert_eq!(
        subject_of("web_fetch", &json(r#"{ "url": "https://docs.rs/x" }"#)),
        "https://docs.rs/x"
    );
    assert_eq!(
        subject_of("glob", &json(r#"{ "pattern": "*.rs", "path": "src" }"#)),
        "*.rs in src"
    );
    assert_eq!(subject_of("glob", &json(r#"{ "pattern": "*.rs" }"#)), "*.rs");
}

#[test]
fn truncation_does_not_split_a_character() {
    assert_eq!(truncate("abc", 10), "abc");
    assert_eq!(truncate("abcdef", 4), "abc…");
    assert_eq!(truncate(&"é".repeat(10), 4), "ééé…");
}

#[test]
fn a_line_holds_the_call_and_the_time() {
    let line = record(
        1700000000,
        &entry("run", Outcome::Failed("a \"b\"\nc".into())),
    );
    assert!(!line.contains('\n'), "{line}");
    let v = json(&line);
    assert_eq!(v.u64_at("ts"), Some(1700000000));
    assert_eq!(v.str_at("tool"), Some("run"));
    let back = parse(&line).unwrap();
    assert_eq!(back.tool, "run");
    assert_eq!(back.subject, "s");
    assert_eq!(back.pod, "127.0.0.1:1");
    assert_eq!(back.outcome.tag(), Outcome::Failed(String::new()).tag());
    assert!(back.outcome.detail().is_some());
    assert_eq!(Outcome::Allowed.detail(), None);
}

#[test]
fn a_long_subject_is_kept_short() {
    let e = Entry {
        subject: "x".repeat(2000),
        ..entry("read", Outcome::Allowed)
    };
    let back = parse(&record(1, &e)).unwrap();
    assert_eq!(back.subject.chars().count(), SUBJECT_MAX);
}

#[test]
fn a_line_without_a_tool_or_an_outcome_is_not_a_call() {
    assert!(entry_of(&json(r#"{"tool":"read"}"#)).is_none());
    assert!(entry_of(&json(r#"{"outcome":"allow"}"#)).is_none());
    assert!(entry_of(&json("[]")).is_none());
    assert!(parse("").is_none());
}

#[test]
fn only_the_newest_are_asked_for() {
    let mut t = Temp(None);
    for tool in ["a", "b", "c"] {
        t.record(&entry(tool, Outcome::Allowed));
    }
    let tools: Vec<String> = t.recent(2).into_iter().map(|e| e.tool).collect();
    assert_eq!(tools, ["b", "c"]);
    assert!(t.recent(0).is_empty());
}

#[test]
fn trimming_keeps_the_newest_lines() {
    let raw: String = (0..KEEP_ENTRIES + 3).map(|i| format!("{i}\n")).collect();
    let kept = trim(&raw);
    assert_eq!(kept.lines().count(), KEEP_ENTRIES);
    assert_eq!(kept.lines().next(), Some("3"));
    assert!(!overgrown(MAX_BYTES));
    assert!(overgrown(MAX_BYTES + 1));
}

#[test]
fn the_journal_is_where_it_was_put_or_under_the_state_directory() {
    let b = |s: &str| Some(s.as_bytes().to_vec());
    assert_eq!(path(b("/x/j"), b("/state"), b("/home")), b("/x/j"));
    let state = path(None, b("/state"), b("/home")).unwrap();
    assert!(state.starts_with(b"/state/"));
    let home = path(None, None, b("/home")).unwrap();
    assert!(home.starts_with(b"/home/"));
    assert_eq!(path(None, None, None), None);
}

#[test]
fn trimming_is_not_seen_by_a_reader_of_the_newest() {
    let mut raw = String::new();
    for i in 0..KEEP_ENTRIES + 7 {
        raw.push_str(&record(1, &entry(&format!("t{i}"), Outcome::Allowed)));
        raw.push('\n');
    }
    let tools = |raw: &str| -> Vec<String> {
        recent(raw, 200).into_iter().map(|e| e.tool).collect()
    };
    assert_eq!(tools(&raw), tools(&trim(&raw)));
    assert_eq!(trim(""), "\n");
}

#[test]
fn paths_are_joined_as_the_standard_library_joins_them() {
    for base in ["/state", "/state/", "", "rel", "/", "a//"] {
        let b = || Some(base.as_bytes().to_vec());
        let under = std::path::PathBuf::from(base)
            .join("ccn")
            .join("journal.jsonl");
        assert_eq!(
            path(None, b(), None).unwrap(),
            under.to_str().unwrap().as_bytes()
        );
        let home = std::path::PathBuf::from(base)
            .join(".local/state")
            .join("ccn")
            .join("journal.jsonl");
        assert_eq!(
            path(None, None, b()).unwrap(),
            home.to_str().unwrap().as_bytes()
        );
    }
    assert_eq!(path(Some(Vec::new()), Some(vec![47]), None), None);
}

#[test]
fn what_is_shown_keeps_the_last_fetch_of_the_whole_journal() {
    let mut t = Temp(None);
    for tool in ["web_fetch", "web_search", "read", "write"] {
        t.record(&entry(tool, Outcome::Allowed));
    }
    t.record(&entry("web_fetch", Outcome::Failed("x".into())));
    let raw = t.0.unwrap();
    let tools = |limit: usize| -> Vec<String> {
        shown(&raw, limit).into_iter().map(|e| e.tool).collect()
    };
    assert_eq!(tools(2), ["web_search", "write", "web_fetch"]);
    assert_eq!(tools(4), ["web_search", "read", "write", "web_fetch"]);
    assert_eq!(tools(0), ["web_search"]);
    assert_eq!(tools(9).len(), 5);
    assert!(entry("web_fetch", Outcome::Allowed).taints());
    assert!(!entry("web_fetch", Outcome::Refused("x".into())).taints());
    assert!(!entry("read", Outcome::Allowed).taints());
}
