//! Tests for the per-dialect history decoders.

use history_finder::shell::{load_history, unmetafy_bytes, ShellType};

fn strings(v: &[&str]) -> Vec<String> {
    v.iter().map(|s| s.to_string()).collect()
}

#[test]
fn unmetafy_decodes_escaped_byte() {
    // 0x83 is dropped and the next byte is XORed with 32: 0x41 ^ 32 == 0x61.
    let input: Vec<u8> = vec![0x61, 0x83, 0x41];
    assert_eq!(unmetafy_bytes(&input), vec![0x61, 0x61]);
}

#[test]
fn unmetafy_passes_plain_bytes_through() {
    let input: Vec<u8> = vec![b'l', b's', b'\n'];
    assert_eq!(unmetafy_bytes(&input), vec![b'l', b's', b'\n']);
}

#[test]
fn unmetafy_drops_trailing_marker() {
    let input: Vec<u8> = vec![b'a', 0x83];
    assert_eq!(unmetafy_bytes(&input), vec![b'a']);
}

#[test]
fn fish_two_commands_reversed() {
    let input = b"- cmd: echo hi\n- cmd: ls\n".to_vec();
    assert_eq!(ShellType::parse_fish(input), strings(&["ls", "echo hi"]));
}

#[test]
fn fish_ignores_other_yaml_keys() {
    let input = b"- cmd: echo hi\n  when: 1700000000\n- cmd: ls\n  when: 1700000001\n".to_vec();
    assert_eq!(ShellType::parse_fish(input), strings(&["ls", "echo hi"]));
}

#[test]
fn fish_splits_escaped_newlines() {
    let input = b"- cmd: first\\nsecond\n".to_vec();
    assert_eq!(ShellType::parse_fish(input), strings(&["second", "first"]));
}

#[test]
fn fish_trims_pieces() {
    let input = b"- cmd:   padded  \n".to_vec();
    assert_eq!(ShellType::parse_fish(input), strings(&["padded"]));
}

#[test]
fn bash_reverses_lines() {
    let input = b"first\nsecond\nthird\n".to_vec();
    assert_eq!(
        ShellType::parse_bash(input),
        strings(&["third", "second", "first"])
    );
}

#[test]
fn bash_drops_timestamp_comments() {
    let input = b"#1700000000\nls\n#1700000001\necho hi\n".to_vec();
    assert_eq!(ShellType::parse_bash(input), strings(&["echo hi", "ls"]));
}

#[test]
fn bash_keeps_commands_starting_with_hash_word() {
    // only `#<digits>` lines are timestamp comments
    let input = b"#not a timestamp\nls\n".to_vec();
    assert_eq!(
        ShellType::parse_bash(input),
        strings(&["ls", "#not a timestamp"])
    );
}

#[test]
fn zsh_takes_text_after_separator() {
    let input = b": 1700000000:0;ls -la\n: 1700000001:0;echo hi\n".to_vec();
    assert_eq!(ShellType::parse_zsh(input), strings(&["echo hi", "ls -la"]));
}

#[test]
fn zsh_drops_lines_without_separator() {
    let input = b"no separator here\n: 1700000000:0;ls\n".to_vec();
    assert_eq!(ShellType::parse_zsh(input), strings(&["ls"]));
}

#[test]
fn zsh_decodes_metafied_bytes() {
    // "m;l" ++ [0x83, 0x53] decodes to "m;ls": 0x53 ^ 32 == 0x73 == 's'
    let input: Vec<u8> = vec![b'm', b';', b'l', 0x83, 0x53, b'\n'];
    assert_eq!(ShellType::parse_zsh(input), strings(&["ls"]));
}

#[test]
fn zsh_custom_separator() {
    let input = b"meta:ls\n".to_vec();
    assert_eq!(
        ShellType::parse_zsh_with_separator(input, ':'),
        strings(&["ls"])
    );
}

#[test]
fn zsh_invalid_utf8_after_unescaping_is_empty() {
    let input: Vec<u8> = vec![b'm', b';', 0xff, 0xfe, b'\n'];
    assert_eq!(ShellType::parse_zsh(input), Vec::<String>::new());
}

#[test]
fn powershell_trims_and_drops_blank_lines() {
    let input = b"  ls  \n\n   \necho hi\n".to_vec();
    assert_eq!(
        ShellType::parse_powershell(input),
        strings(&["echo hi", "ls"])
    );
}

#[test]
fn powershell_invalid_utf8_is_empty() {
    let input: Vec<u8> = vec![0xc3, 0x28];
    assert_eq!(ShellType::parse_powershell(input), Vec::<String>::new());
}

#[test]
fn unknown_shell_uses_bash_format() {
    let shell = ShellType::Unknown("/bin/weird".to_string());
    let input = b"one\ntwo\n".to_vec();
    assert_eq!(shell.parse_history(input), strings(&["two", "one"]));
}

#[test]
fn parse_history_dispatches_by_dialect() {
    let input = b"- cmd: ls\n".to_vec();
    assert_eq!(ShellType::Fish.parse_history(input), strings(&["ls"]));
    let input = b": 0:0;ls\n".to_vec();
    assert_eq!(ShellType::Zsh.parse_history(input), strings(&["ls"]));
}

#[test]
fn cap_keeps_newest_thousand() {
    let mut text = String::new();
    for i in 0..1200 {
        text.push_str(&format!("cmd{}\n", i));
    }
    let parsed = ShellType::parse_bash(text.into_bytes());
    assert_eq!(parsed.len(), 1000);
    // newest first: the last line of the file is the first entry
    assert_eq!(parsed[0], "cmd1199");
    assert_eq!(parsed[999], "cmd200");
}

#[test]
fn crlf_line_endings_are_handled() {
    let input = b"one\r\ntwo\r\n".to_vec();
    assert_eq!(ShellType::parse_bash(input), strings(&["two", "one"]));
}

#[test]
fn load_history_substitutes_sentinel_on_missing_file() {
    let r = load_history(&ShellType::Bash, None);
    assert_eq!(r, strings(&["No history found"]));
}

#[test]
fn load_history_substitutes_sentinel_on_undecodable_file() {
    let r = load_history(&ShellType::Bash, Some(vec![0xff, 0xfe]));
    assert_eq!(r, strings(&["No history found"]));
}

#[test]
fn load_history_keeps_decoded_commands() {
    let r = load_history(&ShellType::Bash, Some(b"ls\necho hi\n".to_vec()));
    assert_eq!(r, strings(&["echo hi", "ls"]));
}
