use servo_core::command::{parse_command, Command, Servo, ServoMoveRequest};
use servo_core::trim::trim_ascii_whitespace;

fn move_cmd(servo: Servo, degrees: u8) -> Command {
    Command::Move(ServoMoveRequest { servo, degrees })
}

#[test]
fn trim_of_pure_whitespace_is_empty() {
    assert_eq!(trim_ascii_whitespace(b"   \t\r\n  "), &b""[..]);
    assert_eq!(trim_ascii_whitespace(b""), &b""[..]);
    assert_eq!(trim_ascii_whitespace(b"\n"), &b""[..]);
}

#[test]
fn trim_removes_only_leading_and_trailing_whitespace() {
    assert_eq!(trim_ascii_whitespace(b"  arm 45  "), &b"arm 45"[..]);
    assert_eq!(trim_ascii_whitespace(b"\t a b \t c \r\n"), &b"a b \t c"[..]);
    assert_eq!(trim_ascii_whitespace(b"abc"), &b"abc"[..]);
    assert_eq!(trim_ascii_whitespace(b"a"), &b"a"[..]);
}

#[test]
fn parses_each_servo_keyword() {
    assert_eq!(parse_command(b"arm 45"), move_cmd(Servo::Arm, 45));
    assert_eq!(parse_command(b"thumb 10"), move_cmd(Servo::Thumb, 10));
    assert_eq!(parse_command(b"fingers 255"), move_cmd(Servo::Fingers, 255));
}

#[test]
fn rejects_missing_or_bad_degree_values() {
    assert_eq!(parse_command(b"arm"), Command::Ignore);
    assert_eq!(parse_command(b"arm 300"), Command::Ignore);
    assert_eq!(parse_command(b"arm 256"), Command::Ignore);
    assert_eq!(parse_command(b"arm abc"), Command::Ignore);
    assert_eq!(parse_command(b"arm -1"), Command::Ignore);
    assert_eq!(parse_command(b"arm +"), Command::Ignore);
    assert_eq!(parse_command(b"arm45"), Command::Ignore);
}

#[test]
fn keyword_match_is_a_prefix_match() {
    // The first token only needs to start with a keyword; this permissive
    // boundary policy is deliberate and pinned down here.
    assert_eq!(parse_command(b"armrest 10"), move_cmd(Servo::Arm, 10));
    assert_eq!(parse_command(b"thumbs 7"), move_cmd(Servo::Thumb, 7));
}

#[test]
fn keywords_are_case_sensitive() {
    assert_eq!(parse_command(b"ARM 10"), Command::Ignore);
    assert_eq!(parse_command(b"Thumb 10"), Command::Ignore);
}

#[test]
fn degree_value_reads_like_a_decimal_integer() {
    assert_eq!(parse_command(b"arm +45"), move_cmd(Servo::Arm, 45));
    assert_eq!(parse_command(b"arm 045"), move_cmd(Servo::Arm, 45));
    assert_eq!(parse_command(b"arm 00255"), move_cmd(Servo::Arm, 255));
    assert_eq!(parse_command(b"arm 0"), move_cmd(Servo::Arm, 0));
}

#[test]
fn extra_tokens_after_the_value_are_tolerated() {
    assert_eq!(parse_command(b"arm 45 trailing words"), move_cmd(Servo::Arm, 45));
}

#[test]
fn reset_tokens_ignore_case() {
    assert_eq!(parse_command(b"q"), Command::Reset);
    assert_eq!(parse_command(b"Q"), Command::Reset);
    assert_eq!(parse_command(b"elf2uf2-term"), Command::Reset);
    assert_eq!(parse_command(b"ELF2UF2-TERM"), Command::Reset);
    assert_eq!(parse_command(b"Elf2Uf2-Term"), Command::Reset);
    assert_eq!(parse_command(b"  q  "), Command::Reset);
}

#[test]
fn near_misses_of_reset_tokens_do_nothing() {
    assert_eq!(parse_command(b"quit"), Command::Ignore);
    assert_eq!(parse_command(b"qq"), Command::Ignore);
    assert_eq!(parse_command(b"elf2uf2"), Command::Ignore);
}

#[test]
fn surrounding_whitespace_is_tolerated() {
    assert_eq!(parse_command(b"  thumb 90  "), move_cmd(Servo::Thumb, 90));
    assert_eq!(parse_command(b"\tarm\t45\t"), move_cmd(Servo::Arm, 45));
}

#[test]
fn invalid_utf8_is_dropped() {
    // Without the UTF-8 gate this line would parse as a move: the keyword
    // and the value are clean ASCII and only a later token is malformed.
    assert_eq!(parse_command(b"arm 45 \xff"), Command::Ignore);
    assert_eq!(parse_command(b"\xc2 arm 45"), Command::Ignore);
}

#[test]
fn empty_and_noise_lines_are_dropped() {
    assert_eq!(parse_command(b""), Command::Ignore);
    assert_eq!(parse_command(b"   "), Command::Ignore);
    assert_eq!(parse_command(b"hello world"), Command::Ignore);
}
