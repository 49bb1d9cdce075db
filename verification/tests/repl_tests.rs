use nockup::repl::{classify_input, poke_failure, poke_summary, ReplInput};
use nockup::text::{format_i64, format_u64, join_strings, trim};

#[test]
fn repl_lines_are_classified() {
    assert!(matches!(classify_input("   \n"), ReplInput::Empty));
    for w in ["exit", "x", "q", " quit \n"] {
        assert!(matches!(classify_input(w), ReplInput::Exit));
    }
    match classify_input("  hello world \n") {
        ReplInput::Command(c) => assert_eq!(c, "hello world"),
        _ => panic!("expected a command"),
    }
    assert!(matches!(classify_input("exits"), ReplInput::Command(_)));
}

#[test]
fn repl_answers() {
    assert_eq!(poke_summary(3), "3 effect(s)");
    assert_eq!(poke_summary(0), "0 effect(s)");
    assert_eq!(poke_failure("boom"), "command failed: boom");
}

#[test]
fn text_helpers() {
    assert_eq!(trim("\u{a0} a b\u{3000}\t"), "a b");
    assert_eq!(trim(""), "");
    assert_eq!(trim(&trim("  x ")), "x");
    assert_eq!(format_u64(0), "0");
    assert_eq!(format_u64(u64::MAX), "18446744073709551615");
    assert_eq!(format_i64(i64::MIN), "-9223372036854775808");
    assert_eq!(format_i64(-7), "-7");
    let parts = vec!["a".to_string(), "b".to_string(), "c".to_string()];
    assert_eq!(join_strings(&parts, ", "), "a, b, c");
    assert_eq!(join_strings(&Vec::new(), ", "), "");
}
