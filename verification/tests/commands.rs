use shell_sessions::command::{
    display_text, parse_command, split_commands, split_lines, starts_silent, CommandLine,
};
use shell_sessions::text::{chars_of, find};

fn visible(text: &str) -> CommandLine {
    CommandLine { text: String::from(text), silent: false }
}

fn silent(text: &str) -> CommandLine {
    CommandLine { text: String::from(text), silent: true }
}

#[test]
fn silent_line_loses_only_its_marker() {
    assert_eq!(
        split_commands("$ echo ok\necho visible"),
        vec![silent(" echo ok"), visible("echo visible")]
    );
}

#[test]
fn empty_body_has_no_commands() {
    assert_eq!(split_commands(""), Vec::<CommandLine>::new());
    assert_eq!(split_commands("\n\n"), Vec::<CommandLine>::new());
    assert_eq!(split_commands("\r\n"), Vec::<CommandLine>::new());
}

#[test]
fn empty_lines_are_no_commands() {
    assert_eq!(split_commands("a\n\nb\n"), vec![visible("a"), visible("b")]);
}

#[test]
fn line_endings_do_not_belong_to_commands() {
    assert_eq!(
        split_commands("a\r\nb\n\n$\nc\r"),
        vec![visible("a"), visible("b"), silent(""), visible("c\r")]
    );
}

#[test]
fn marker_counts_only_at_the_start() {
    assert_eq!(
        split_commands(" $x\necho $HOME\n$$\n"),
        vec![visible(" $x"), visible("echo $HOME"), silent("$")]
    );
}

#[test]
fn commands_keep_text_beyond_ascii() {
    assert_eq!(
        split_commands("echo \u{e9}t\u{e9}\n$echo \u{1f600}\n"),
        vec![visible("echo \u{e9}t\u{e9}"), silent("echo \u{1f600}")]
    );
}

#[test]
fn cloned_command_is_equal() {
    let command = silent("make");
    assert_eq!(command.clone(), command);
}

#[test]
fn chars_are_read_in_order() {
    assert_eq!(chars_of("a\u{e9}\n"), vec!['a', '\u{e9}', '\n']);
    assert_eq!(chars_of(""), Vec::<char>::new());
}

#[test]
fn find_gives_first_match_or_length() {
    let chars = chars_of("ab\ncd\n");
    assert_eq!(find(&chars, '\n', 0), 2);
    assert_eq!(find(&chars, '\n', 2), 2);
    assert_eq!(find(&chars, '\n', 3), 5);
    assert_eq!(find(&chars, 'x', 0), 6);
    assert_eq!(find(&chars, '\n', 6), 6);
}

#[test]
fn lines_are_split_as_the_standard_library_splits_them() {
    for text in ["", "\n", "a", "a\n", "a\nb", "a\r\nb\r\n", "\r", "a\r", "\n\na\n\n", "x\r\r\ny"] {
        let expected: Vec<String> = text.lines().map(String::from).collect();
        assert_eq!(split_lines(text), expected);
    }
}

#[test]
fn split_lines_gives_exact_lines() {
    assert_eq!(split_lines("a\r\nb\n\n$ c"), vec!["a", "b", "", "$ c"]);
}

#[test]
fn marker_is_read_at_the_first_character() {
    assert!(starts_silent("$ ls"));
    assert!(starts_silent("$"));
    assert!(!starts_silent(" $ ls"));
    assert!(!starts_silent("ls $"));
    assert!(!starts_silent(""));
}

#[test]
fn line_becomes_a_command() {
    assert_eq!(parse_command("$ make"), silent(" make"));
    assert_eq!(parse_command("make"), visible("make"));
    assert_eq!(parse_command("$"), silent(""));
    assert_eq!(parse_command(""), visible(""));
}

#[test]
fn display_text_drops_silent_lines() {
    assert_eq!(display_text("$ echo ok\necho visible"), "echo visible\n");
    assert_eq!(display_text("a\n$b\n\nc\r\n"), "a\n\nc\n");
    assert_eq!(display_text("$ only\n"), "");
    assert_eq!(display_text(""), "");
}
