use winshell::suggestions::{history_from_text, Suggestions};

#[test]
fn ranks_recent_history_and_deduplicates() {
    let suggestions = Suggestions::with_history(vec![
        "git status".into(),
        "git diff".into(),
        "git status".into(),
    ]);
    let result = suggestions.matching("git ");
    assert_eq!(result[0].command, "git status");
    assert_eq!(result[1].command, "git diff");
    assert_eq!(
        result.iter().filter(|s| s.command == "git status").count(),
        1
    );
    assert!(suggestions.matching(" password").is_empty());
}

#[test]
fn at_most_four_and_never_the_query() {
    let suggestions = Suggestions::new();
    let result = suggestions.matching("git ");
    assert_eq!(result.len(), 4);
    assert_eq!(result[0].command, "git status");
    assert_eq!(result[0].detail, "Inspect working tree changes");
    assert!(suggestions.matching("pwd").is_empty());
    assert!(suggestions.matching("").is_empty());
    assert!(suggestions.matching("git\tst").is_empty());
    let cargo = suggestions.matching("cargo b");
    assert_eq!(cargo.len(), 1);
    assert_eq!(cargo[0].command, "cargo build --release");
}

#[test]
fn history_comes_first_with_its_label() {
    let suggestions = Suggestions::with_history(vec!["git stash pop".into(), "ls".into()]);
    let result = suggestions.matching("git st");
    assert_eq!(result[0].command, "git stash pop");
    assert_eq!(result[0].detail, "Bash history");
    assert_eq!(result[1].command, "git status");
    assert_eq!(result[2].command, "git status --short");
    assert_eq!(result.len(), 3);
}

#[test]
fn history_file_text_is_filtered() {
    let text = "partial\n#1700000000\nls -la\n secret\ngit\tx\r\ncargo test\r\nlast";
    assert_eq!(
        history_from_text(text, true),
        vec!["ls -la".to_string(), "cargo test".to_string(), "last".to_string()]
    );
    assert_eq!(history_from_text("one\n\ntwo\n", false), vec!["one".to_string(), "".to_string(), "two".to_string()]);
    let mut s = Suggestions::new();
    s.set_history_text("a\nb\nc\n", false);
    assert_eq!(s.recent(2), ["b".to_string(), "c".to_string()]);
    assert_eq!(s.recent(10).len(), 3);
    assert!(s.recent(0).is_empty());
}

#[test]
fn history_read_from_file_bytes() {
    let mut s = Suggestions::new();
    s.set_history_bytes(b"tial\ngit status\n #secret\n echo hidden\ncargo test\n", true);
    assert_eq!(s.recent(10), ["git status".to_string(), "cargo test".to_string()]);
    s.set_history_bytes(b"ls \xff\ncd /tmp\n", false);
    assert_eq!(s.recent(10), ["ls \u{fffd}".to_string(), "cd /tmp".to_string()]);
}
