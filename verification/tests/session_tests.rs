use lazyjust::session::manager::{command_line, expired, log_accepts, prime_ready, unix_argv};
use lazyjust::session::osc::scan_done_marker;
use lazyjust::session::shell::{prime_line, shell_quote};

#[test]
fn shell_quote_plain() {
    assert_eq!(shell_quote("foo"), "'foo'");
}

#[test]
fn shell_quote_with_space() {
    assert_eq!(shell_quote("foo bar"), "'foo bar'");
}

#[test]
fn shell_quote_with_single_quote() {
    assert_eq!(shell_quote("it's"), "'it'\\''s'");
}

#[test]
fn shell_quote_with_dollar_and_paren() {
    assert_eq!(shell_quote("$(evil)"), "'$(evil)'");
}

#[test]
fn shell_quote_empty() {
    assert_eq!(shell_quote(""), "''");
}

#[test]
fn shell_quote_newline_preserved_literal() {
    assert_eq!(shell_quote("a\nb"), "'a\nb'");
}

#[test]
fn prime_line_no_args() {
    let line = prime_line("/p/Justfile", "build", &[]);
    assert_eq!(line, "just --justfile '/p/Justfile' 'build' ; printf '\\033]1337;LazyjustDone=%d\\007' $?");
}

#[test]
fn prime_line_with_args_and_spaces() {
    let args = vec!["a b".to_string(), "x".to_string()];
    let line = prime_line("/p/Justfile", "build", &args);
    assert_eq!(line, "just --justfile '/p/Justfile' 'build' 'a b' 'x' ; printf '\\033]1337;LazyjustDone=%d\\007' $?");
}

#[test]
fn prime_line_escapes_dangerous_recipe_name() {
    let line = prime_line("/p/Justfile", "it's; rm -rf /", &[]);
    assert!(line.contains("'it'\\''s; rm -rf /'"));
    assert!(line.ends_with("$?"));
}

#[test]
fn marker_is_removed_and_code_reported() {
    let input = b"hello\x1b]1337;LazyjustDone=42\x07world";
    let (out, codes) = scan_done_marker(input);
    assert_eq!(out, b"helloworld".to_vec());
    assert_eq!(codes, vec![42]);
}

#[test]
fn signed_and_several_markers() {
    let input = b"\x1b]1337;LazyjustDone=-1\x07a\x1b]1337;LazyjustDone=+7\x07";
    let (out, codes) = scan_done_marker(input);
    assert_eq!(out, b"a".to_vec());
    assert_eq!(codes, vec![-1, 7]);
}

#[test]
fn malformed_marker_stays_in_output() {
    let input = b"\x1b]1337;LazyjustDone=x\x07";
    let (out, codes) = scan_done_marker(input);
    assert_eq!(out, input.to_vec());
    assert!(codes.is_empty());
    let unterminated = b"\x1b]1337;LazyjustDone=5";
    let (out2, codes2) = scan_done_marker(unterminated);
    assert_eq!(out2, unterminated.to_vec());
    assert!(codes2.is_empty());
    let too_big = b"\x1b]1337;LazyjustDone=2147483648\x07";
    let (out3, codes3) = scan_done_marker(too_big);
    assert_eq!(out3, too_big.to_vec());
    assert!(codes3.is_empty());
}

#[test]
fn command_line_joins_args() {
    assert_eq!(command_line("/p/justfile", "build", &[]), "just --justfile /p/justfile build ");
    let args = vec!["a".to_string(), "b c".to_string()];
    assert_eq!(command_line("/p/justfile", "build", &args), "just --justfile /p/justfile build a b c");
}

#[test]
fn log_cap_drops_chunks_beyond_it() {
    assert!(log_accepts(0, 10, 10));
    assert!(!log_accepts(5, 6, 10));
    assert!(!log_accepts(u64::MAX, 1, u64::MAX));
}

#[test]
fn prime_waits_for_quiet_or_cap() {
    assert!(!prime_ready(100, None));
    assert!(!prime_ready(100, Some(399)));
    assert!(prime_ready(100, Some(400)));
    assert!(prime_ready(5000, None));
}

#[test]
fn shell_falls_back_to_sh() {
    let (argv, env) = unix_argv(None);
    assert_eq!(argv, vec!["/bin/sh".to_string(), "-i".to_string()]);
    assert!(env.is_empty());
    let (argv2, _) = unix_argv(Some("/bin/zsh".to_string()));
    assert_eq!(argv2[0], "/bin/zsh");
}

#[test]
fn retention_is_strict() {
    assert!(!expired(10, 10));
    assert!(expired(11, 10));
}

#[test]
fn done_marker_between_plain_output_is_removed() {
    for code in [0i32, 7, -1, 2147483647, -2147483648] {
        let marker = format!("\x1b]1337;LazyjustDone={code}\x07");
        let input = [b"before ".as_slice(), marker.as_bytes(), b" after".as_slice()].concat();
        let (out, codes) = scan_done_marker(&input);
        assert_eq!(out, b"before  after".to_vec());
        assert_eq!(codes, vec![code]);
    }
    let (out, codes) = scan_done_marker(b"plain text");
    assert_eq!(out, b"plain text".to_vec());
    assert!(codes.is_empty());
}
