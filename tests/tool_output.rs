use ghc::text::{split_lines, trim_text};
use ghc::tool::{
    augmented_path, command_output_result, context_temp_name, copilot_status,
    decode_euc_kr, decode_platform_bytes, first_path_line, is_context_temp_name,
    prompt_with_context, wants_context, where_log,
};

#[test]
fn lossy_decoding_replaces_bad_bytes() {
    assert_eq!(decode_platform_bytes(b"plain"), "plain");
    assert_eq!(decode_platform_bytes(&[0x61, 0xff, 0x62]), "a\u{fffd}b");
    assert_eq!(decode_platform_bytes(b""), "");
}

#[test]
fn euc_kr_decoding() {
    assert_eq!(decode_euc_kr(&[0xc7, 0xd1]), "\u{d55c}");
    assert_eq!(decode_euc_kr(b"C:\\bin\\copilot.exe"), "C:\\bin\\copilot.exe");
}

#[test]
fn command_output_is_trimmed() {
    assert_eq!(command_output_result(true, b"  1.2.3\n", b"warn"), Ok("1.2.3".to_string()));
    assert_eq!(command_output_result(false, b"out", b"\nboom \n"), Err("boom".to_string()));
}

#[test]
fn where_log_layout() {
    assert_eq!(where_log("/usr/bin/copilot\n", "", "which"), "STDOUT:\n/usr/bin/copilot");
    assert_eq!(where_log("a\n", "b\n", "where"), "STDOUT:\na\n\nSTDERR:\nb");
    assert_eq!(where_log("", "nope", "which"), "STDERR:\nnope");
    assert_eq!(where_log("", "", "which"), "No output from which copilot");
}

#[test]
fn path_is_augmented_in_front() {
    let extra = vec!["/opt/homebrew/bin".to_string(), "/usr/local/bin".to_string()];
    assert_eq!(augmented_path("/usr/bin", &extra, ":"), "/opt/homebrew/bin:/usr/local/bin:/usr/bin");
    assert_eq!(augmented_path("", &extra, ":"), "/opt/homebrew/bin:/usr/local/bin");
    assert_eq!(augmented_path("/usr/bin", &Vec::new(), ":"), "/usr/bin");
}

#[test]
fn status_of_tool() {
    let s = copilot_status(Some("1.0".to_string()), None);
    assert!(s.installed);
    let s = copilot_status(None, Some("/usr/local/bin/copilot".to_string()));
    assert!(s.installed);
    assert!(!copilot_status(None, None).installed);
}

#[test]
fn context_file_helpers() {
    assert!(wants_context(Some("/tmp/a.txt")));
    assert!(!wants_context(Some("   ")));
    assert!(!wants_context(None));
    let name = context_temp_name("1700000000000", "notes.md");
    assert_eq!(name, ".copilot-context-1700000000000-notes.md");
    assert!(is_context_temp_name(&name));
    assert!(!is_context_temp_name("notes.md"));
    assert_eq!(prompt_with_context("explain", "/tmp/ghc/x"), "explain /tmp/ghc/x");
}

#[test]
fn first_line_of_lookup() {
    assert_eq!(
        first_path_line("  C:\\a\\copilot.cmd \r\nC:\\b\\copilot.exe\r\n"),
        Some("C:\\a\\copilot.cmd".to_string())
    );
    assert_eq!(first_path_line(""), None);
    assert_eq!(first_path_line("   \nx"), None);
}

#[test]
fn text_helpers() {
    assert_eq!(trim_text("\t a b \u{3000}"), "a b");
    assert_eq!(split_lines("a\r\nb\n\nc"), vec!["a", "b", "", "c"]);
    assert_eq!(split_lines("a\n"), vec!["a"]);
    assert_eq!(split_lines("x\r"), vec!["x\r"]);
    assert!(split_lines("").is_empty());
}
