use ghc::credential::{clear_token_in, resolve_token, store_token_in, token_status};

#[test]
fn store_replaces_old_token_and_keeps_other_lines() {
    let before = "A=1\nGITHUB_TOKEN=old\n  GITHUB_TOKEN=older\nB=2";
    let after = store_token_in(before, "new_tok");
    assert_eq!(after, "A=1\nB=2\nGITHUB_TOKEN=new_tok\n");
    assert_eq!(resolve_token(None, Some(&after)), Some("new_tok".to_string()));
}

#[test]
fn store_into_empty_file() {
    assert_eq!(store_token_in("", "tok"), "GITHUB_TOKEN=tok\n");
}

#[test]
fn store_keeps_other_lines_verbatim() {
    assert_eq!(
        store_token_in("A=1\r\nGITHUB_TOKEN=old\r\nB=2\r\n", "t"),
        "A=1\r\nB=2\r\nGITHUB_TOKEN=t\n"
    );
    let once = clear_token_in("X=1\r").unwrap();
    assert_eq!(once, "X=1\r\n");
    assert_eq!(clear_token_in(&once), None);
    assert_eq!(resolve_token(None, Some("GITHUB_TOKEN=abc\r\n")), Some("abc".to_string()));
}

#[test]
fn clear_removes_token_and_then_nothing_resolves() {
    let before = "X=1\nGITHUB_TOKEN=abc\nY=2\n";
    let after = clear_token_in(before).expect("the file changes");
    assert_eq!(after, "X=1\nY=2\n");
    assert_eq!(resolve_token(None, Some(&after)), None);
    assert_eq!(clear_token_in(&after), None);
    assert_eq!(clear_token_in(""), None);
}

#[test]
fn env_override_wins_over_file() {
    let file = "GITHUB_TOKEN=from_file\n";
    assert_eq!(
        resolve_token(Some("from_env"), Some(file)),
        Some("from_env".to_string())
    );
    assert_eq!(resolve_token(Some("  "), Some(file)), Some("from_file".to_string()));
    assert_eq!(resolve_token(Some(" padded "), None), Some(" padded ".to_string()));
}

#[test]
fn resolve_reads_first_non_blank_assignment_trimmed() {
    let file = "GITHUB_TOKEN=   \n  GITHUB_TOKEN=  tok1  \nGITHUB_TOKEN=tok2\n";
    assert_eq!(resolve_token(None, Some(file)), Some("tok1".to_string()));
    assert_eq!(resolve_token(None, Some("OTHER=1\n")), None);
    assert_eq!(resolve_token(None, None), None);
}

#[test]
fn status_shows_only_last_three_characters() {
    let s = token_status(Some("ghp_secret123".to_string()));
    assert!(s.has_token);
    assert_eq!(s.tail, Some("123".to_string()));
    let short = token_status(Some("ab".to_string()));
    assert_eq!(short.tail, Some("ab".to_string()));
    let none = token_status(None);
    assert!(!none.has_token);
    assert_eq!(none.tail, None);
}

#[test]
fn status_of_resolved_token() {
    let file = store_token_in("", "tok_abc123");
    let s = token_status(resolve_token(None, Some(&file)));
    assert_eq!(s.tail, Some("123".to_string()));
    let s = token_status(resolve_token(None, Some("")));
    assert!(!s.has_token);
}
