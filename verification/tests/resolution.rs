//! Tests of resolving a command outcome into a revision hash.

use git_rev::resolve::{resolve, CommandOutcome, Error};

const SAMPLE_HEX: &str = "0123456789abcdef0123456789abcdef01234567";

fn completed(success: bool, stdout: &[u8]) -> CommandOutcome {
    CommandOutcome::Completed { success, stdout: stdout.to_vec() }
}

#[test]
fn success_with_trailing_newline() {
    let mut stdout = SAMPLE_HEX.as_bytes().to_vec();
    stdout.push(b'\n');
    let hash = resolve(CommandOutcome::Completed { success: true, stdout }).unwrap();
    assert_eq!(hash.to_hex_string(), SAMPLE_HEX);
    assert_eq!(
        hash.as_bytes(),
        &vec![
            0x01, 0x23, 0x45, 0x67, 0x89, 0xab, 0xcd, 0xef, 0x01, 0x23, 0x45, 0x67, 0x89, 0xab,
            0xcd, 0xef, 0x01, 0x23, 0x45, 0x67,
        ]
    );
}

#[test]
fn success_with_exactly_forty_characters() {
    let hash = resolve(completed(true, SAMPLE_HEX.as_bytes())).unwrap();
    assert_eq!(hash.to_hex_string(), SAMPLE_HEX);
}

#[test]
fn trailing_content_is_ignored() {
    let mut stdout = SAMPLE_HEX.as_bytes().to_vec();
    stdout.extend_from_slice(b" detached, not a hex digit at all\n");
    let hash = resolve(CommandOutcome::Completed { success: true, stdout }).unwrap();
    assert_eq!(hash.to_hex_string(), SAMPLE_HEX);
}

#[test]
fn uppercase_digits_are_accepted() {
    let upper = SAMPLE_HEX.to_uppercase();
    let hash = resolve(completed(true, upper.as_bytes())).unwrap();
    assert_eq!(hash.to_hex_string(), SAMPLE_HEX);
}

#[test]
fn short_output_is_a_parse_failure() {
    let r = resolve(completed(true, &SAMPLE_HEX.as_bytes()[..39]));
    assert_eq!(r.unwrap_err(), Error::Parse);
}

#[test]
fn empty_output_is_a_parse_failure() {
    let r = resolve(completed(true, b""));
    assert_eq!(r.unwrap_err(), Error::Parse);
}

#[test]
fn non_hex_digit_is_a_parse_failure() {
    for position in [0, 1, 17, 39] {
        let mut stdout = SAMPLE_HEX.as_bytes().to_vec();
        stdout[position] = b'g';
        let r = resolve(CommandOutcome::Completed { success: true, stdout });
        assert_eq!(r.unwrap_err(), Error::Parse);
    }
}

#[test]
fn non_ascii_output_is_a_parse_failure() {
    let mut stdout = SAMPLE_HEX.as_bytes().to_vec();
    stdout[5] = 0xc3;
    let r = resolve(CommandOutcome::Completed { success: true, stdout });
    assert_eq!(r.unwrap_err(), Error::Parse);
}

#[test]
fn non_success_exit_wins_over_output() {
    let r = resolve(completed(false, SAMPLE_HEX.as_bytes()));
    assert_eq!(r.unwrap_err(), Error::StatusCode);
    let r = resolve(completed(false, b""));
    assert_eq!(r.unwrap_err(), Error::StatusCode);
}

#[test]
fn not_launched_is_a_command_failure() {
    let r = resolve(CommandOutcome::NotLaunched);
    assert_eq!(r.unwrap_err(), Error::Command);
}

#[test]
fn resolution_is_idempotent() {
    let mut stdout = SAMPLE_HEX.as_bytes().to_vec();
    stdout.push(b'\n');
    let first = resolve(CommandOutcome::Completed { success: true, stdout: stdout.clone() })
        .unwrap();
    let second = resolve(CommandOutcome::Completed { success: true, stdout }).unwrap();
    assert_eq!(first, second);
    assert_eq!(first.to_hex_string(), second.to_hex_string());
    assert_eq!(first.most_significant_u64(), second.most_significant_u64());
}

#[test]
fn error_messages() {
    assert_eq!(Error::Command.message(), "Failed to execute git");
    assert_eq!(Error::StatusCode.message(), "git returned a non-success exit code");
    assert_eq!(Error::Parse.message(), "the output of git could not be parsed");
}
