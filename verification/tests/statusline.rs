use ccn::journal::{Entry, Outcome};
use ccn::statusline::{render, run, short, taint_source, visible, SUBJECT_BUDGET, WIDTH, WINDOW};

fn e(tool: &str, subject: &str, outcome: Outcome) -> Entry {
    Entry {
        tool: tool.into(),
        subject: subject.into(),
        outcome,
        pod: "127.0.0.1:52341".into(),
    }
}

fn plain(entries: &[Entry]) -> Vec<String> {
    render(entries, false)
}

#[test]
fn an_empty_history_still_says_the_gate_is_on() {
    let rows = plain(&[]);
    assert_eq!(rows.len(), 1);
    assert!(rows[0].contains("gate on"), "{rows:?}");
}

#[test]
fn a_clean_session_is_one_quiet_row() {
    let rows = plain(&[e("read", "src/a.rs", Outcome::Allowed)]);
    assert_eq!(rows.len(), 1, "{rows:?}");
    assert!(rows[0].contains("1 ok"));
}

#[test]
fn a_refusal_is_still_visible_several_calls_later() {
    let rows = plain(&[
        e(
            "web_fetch",
            "https://docs.rs/x",
            Outcome::Refused("denied by lattice".into()),
        ),
        e("read", "a.rs", Outcome::Allowed),
        e("read", "b.rs", Outcome::Allowed),
        e("read", "c.rs", Outcome::Allowed),
    ]);
    assert_eq!(rows.len(), 2, "{rows:?}");
    assert!(rows[0].contains("1 refused"));
    assert!(rows[1].contains("web_fetch"), "{}", rows[1]);
    assert!(rows[1].contains("denied by lattice"), "{}", rows[1]);
}

#[test]
fn a_performed_fetch_shows_the_session_as_untrusted() {
    let rows = plain(&[e("web_fetch", "https://docs.rs/x", Outcome::Allowed)]);
    assert_eq!(rows.len(), 2, "{rows:?}");
    assert!(rows[1].contains("untrusted"), "{}", rows[1]);
    assert!(
        rows[1].contains('~'),
        "inference must be marked: {}",
        rows[1]
    );
    assert!(rows[1].contains("docs.rs"), "name the source: {}", rows[1]);
}

#[test]
fn a_refused_fetch_does_not_taint_the_session() {
    let rows = plain(&[e(
        "web_fetch",
        "https://x",
        Outcome::Refused("egress denied".into()),
    )]);
    assert!(
        !rows.iter().any(|r| r.contains("untrusted")),
        "a denied fetch must not read as taint: {rows:?}"
    );
}

#[test]
fn a_fault_is_counted_apart_from_a_refusal() {
    let rows = plain(&[
        e("read", "a", Outcome::Failed("422".into())),
        e("write", "b", Outcome::Refused("path blocked".into())),
    ]);
    assert!(rows[0].contains("1 failed"), "{}", rows[0]);
    assert!(rows[0].contains("1 refused"), "{}", rows[0]);
}

#[test]
fn taint_and_a_refusal_share_the_second_row() {
    let rows = plain(&[
        e("web_fetch", "https://docs.rs/x", Outcome::Allowed),
        e(
            "run",
            "git push",
            Outcome::Refused("git_push is never".into()),
        ),
    ]);
    assert_eq!(rows.len(), 2);
    assert!(rows[1].contains("untrusted") && rows[1].contains("git_push is never"));
}

#[test]
fn no_colour_output_has_no_escapes_and_loses_nothing() {
    let entries = [e("web_fetch", "https://docs.rs/x", Outcome::Allowed)];
    let plain_rows = render(&entries, false);
    let colour_rows = render(&entries, true);
    assert!(!plain_rows.iter().any(|r| r.contains('\x1b')));
    assert!(colour_rows.iter().any(|r| r.contains('\x1b')));
    assert_eq!(plain_rows.len(), colour_rows.len());
    assert!(plain_rows[1].contains("untrusted"));
}

#[test]
fn a_long_subject_is_cut_rather_than_wrapping_the_row() {
    let rows = plain(&[e(
        "web_fetch",
        &format!("https://example.com/{}", "a".repeat(400)),
        Outcome::Allowed,
    )]);
    assert!(rows[1].chars().count() < WIDTH, "{}", rows[1]);
}

#[test]
fn shortening_a_url_keeps_the_host() {
    assert_eq!(short("https://docs.rs/x", SUBJECT_BUDGET), "docs.rs/x");
    assert!(short(
        &format!("https://docs.rs/{}", "a".repeat(200)),
        SUBJECT_BUDGET
    )
    .starts_with("docs.rs/"));
}

#[test]
fn a_refusal_keeps_enough_of_the_reason_to_act_on() {
    let rows = plain(&[e(
        "read",
        "/etc/shadow",
        Outcome::Refused("resolves outside the sandbox root".into()),
    )]);
    assert!(
        rows[1].contains("resolves outside the sandbox root"),
        "the reason was cut: {}",
        rows[1]
    );
    // A layer prefix before the cause. Both halves have to survive, or the row
    // names the layer and not the reason.
    let live = plain(&[e(
        "web_fetch",
        "https://example.com",
        Outcome::Refused("ifc denied: discharge denied: InScopeWithTask".into()),
    )]);
    assert!(
        live[1].contains("InScopeWithTask"),
        "the cause was cut off by the layer prefix: {}",
        live[1]
    );
    assert!(
        rows[1].contains("/etc/shadow"),
        "name the subject: {}",
        rows[1]
    );
}

#[test]
fn escape_sequences_take_no_columns() {
    assert_eq!(visible("abc"), 3);
    assert_eq!(visible("\x1b[31mabc\x1b[0m"), 3);
    assert_eq!(visible(""), 0);
}

#[test]
fn the_last_performed_egress_is_the_source_of_taint() {
    let entries = [
        e("web_search", "b", Outcome::Allowed),
        e("web_fetch", "https://c", Outcome::Allowed),
        e("read", "x", Outcome::Allowed),
        e("web_fetch", "https://a", Outcome::Refused("no".into())),
    ];
    assert_eq!(taint_source(&entries).unwrap().subject, "https://c");
    assert_eq!(taint_source(&entries[..1]).unwrap().subject, "b");
    assert!(taint_source(&entries[2..]).is_none());
}

#[test]
fn the_rows_of_a_session_are_these() {
    let entries = [
        e("web_fetch", "https://docs.rs/x", Outcome::Allowed),
        e("read", "a", Outcome::Failed("422".into())),
        e("run", "git push", Outcome::Refused("never".into())),
    ];
    assert_eq!(
        plain(&entries),
        [
            "nucleus ● 127.0.0.1:52341 · 1 ok · 1 refused · 1 failed",
            "  ⚠ untrusted ~ web_fetch docs.rs/x · ✗ run git push never",
        ]
    );
    assert_eq!(plain(&[]), ["nucleus ● gate on · no mediated calls yet"]);
    let unnamed = Entry {
        tool: "run".into(),
        subject: "".into(),
        outcome: Outcome::Refused("".into()),
        pod: "".into(),
    };
    assert_eq!(
        plain(&[unnamed]),
        ["nucleus ● pod · 0 ok · 1 refused", "  ✗ run: refused"]
    );
}

#[test]
fn colour_is_put_around_the_words() {
    assert_eq!(
        render(&[e("read", "a", Outcome::Allowed)], true),
        ["\x1b[32mnucleus\x1b[0m \x1b[32m●\x1b[0m \x1b[2m127.0.0.1:52341\x1b[0m \x1b[2m·\x1b[0m 1 ok"]
    );
}

#[test]
fn a_coloured_row_says_what_the_plain_one_says() {
    let entries = [
        e("web_fetch", "https://docs.rs/x", Outcome::Allowed),
        e("run", "git push", Outcome::Refused("never".into())),
        e("read", "a", Outcome::Failed("422".into())),
    ];
    let bare = render(&entries, false);
    let coloured = render(&entries, true);
    for (b, c) in bare.iter().zip(&coloured) {
        assert_eq!(&ccn::discover::strip_ansi(c), b);
    }
}

#[test]
fn nothing_makes_a_tainted_session_trusted_again() {
    let mut entries = vec![e("web_search", "q", Outcome::Allowed)];
    for _ in 0..3 {
        entries.push(e("read", "a", Outcome::Allowed));
        entries.push(e("web_fetch", "b", Outcome::Failed("x".into())));
        assert!(plain(&entries)[1].contains("⚠ untrusted ~ web_search q"));
    }
    assert_eq!(
        plain(&entries)[0],
        "nucleus ● 127.0.0.1:52341 · 4 ok · 3 failed"
    );
}

#[test]
fn a_long_reason_is_cut_to_what_the_row_has_left() {
    let rows = plain(&[
        e("web_fetch", &"s".repeat(300), Outcome::Allowed),
        e("run", &"c".repeat(300), Outcome::Refused("r".repeat(300))),
    ]);
    assert!(rows[1].ends_with(&format!("{}…", "r".repeat(23))), "{}", rows[1]);
    let rows = plain(&[e("run", "cmd", Outcome::Refused("r".repeat(300)))]);
    assert_eq!(rows[1].chars().count(), WIDTH);
}

#[test]
fn a_refusal_without_a_subject_is_the_tool_and_the_reason() {
    let rows = plain(&[
        e("web_fetch", "docs.rs", Outcome::Allowed),
        e("web_fetch", "", Outcome::Refused("denied by lattice".into())),
    ]);
    assert_eq!(
        rows[1],
        "  ⚠ untrusted ~ web_fetch docs.rs · ✗ web_fetch: denied by lattice"
    );
}

fn journal(entries: &[Entry]) -> String {
    entries
        .iter()
        .map(|x| ccn::journal::record(1, x) + "\n")
        .collect()
}

#[test]
fn the_bar_does_not_forget_a_fetch_that_is_past_the_window() {
    let mut entries = vec![e("web_fetch", "https://docs.rs/x", Outcome::Allowed)];
    for _ in 0..WINDOW {
        entries.push(e("read", "a", Outcome::Allowed));
    }
    let raw = journal(&entries);
    let rows = run(&raw, false);
    assert_eq!(
        rows,
        [
            "nucleus ● 127.0.0.1:52341 · 201 ok",
            "  ⚠ untrusted ~ web_fetch docs.rs/x",
        ]
    );
    let clean = journal(&entries[1..]);
    assert_eq!(run(&clean, false), ["nucleus ● 127.0.0.1:52341 · 200 ok"]);
    assert_eq!(run("", false), plain(&[]));
}

#[test]
fn trimming_does_not_make_a_session_trusted_again() {
    let mut entries = vec![
        e("web_fetch", "old", Outcome::Allowed),
        e("web_search", "kept", Outcome::Allowed),
        e("web_fetch", "no", Outcome::Refused("never".into())),
    ];
    for _ in 0..ccn::journal::KEEP_ENTRIES {
        entries.push(e("read", "a", Outcome::Allowed));
    }
    let raw = journal(&entries);
    let mut trimmed = ccn::journal::trim(&raw);
    assert_eq!(trimmed.lines().count(), ccn::journal::KEEP_ENTRIES + 1);
    assert_eq!(run(&trimmed, false), run(&raw, false));
    trimmed.push_str(&journal(&[e("read", "b", Outcome::Allowed)]));
    let again = ccn::journal::trim(&trimmed);
    assert!(run(&again, false)[1].contains("untrusted ~ web_search kept"));
}
