use sysz::io::cmd::{invocation, parse_command_line, strip_line_break, strip_line_breaks};
use sysz::io::env::without_program;
use sysz::Error;

fn io_reason<T: std::fmt::Debug>(r: Result<T, Error>) -> String {
    match r {
        Err(Error::IoError(text)) => text,
        other => panic!("expected IoError, got {:?}", other.map(|_| ())),
    }
}

fn words(list: &[&str]) -> Vec<String> {
    list.iter().map(|w| w.to_string()).collect()
}

#[test]
fn command_line_is_cut_into_program_and_arguments() {
    let inv = parse_command_line("echo hello world").ok().unwrap();
    assert_eq!(inv.program, "echo");
    assert_eq!(inv.args, words(&["hello", "world"]));
}

#[test]
fn command_line_is_trimmed_and_quotes_are_read() {
    let inv = parse_command_line("  \tgrep -n 'two words' \"a b\" c\\ d \n").ok().unwrap();
    assert_eq!(inv.program, "grep");
    assert_eq!(inv.args, words(&["-n", "two words", "a b", "c d"]));
}

#[test]
fn command_line_of_one_word_has_no_arguments() {
    let inv = parse_command_line("ls").ok().unwrap();
    assert_eq!(inv.program, "ls");
    assert!(inv.args.is_empty());
}

#[test]
fn command_line_agrees_with_shell_words() {
    for line in ["a b c", "a 'b c' d", "x \"y z\"", " p  q ", "a\\ b", "e=1 f", "''"] {
        let expected = shell_words::split(line.trim()).unwrap();
        let inv = parse_command_line(line).ok().unwrap();
        assert_eq!(inv.program, expected[0]);
        assert_eq!(inv.args, expected[1..].to_vec());
    }
}

#[test]
fn command_line_that_is_empty_is_refused() {
    assert_eq!(io_reason(parse_command_line("").map(|_| ())), "Empty command line");
    assert_eq!(io_reason(parse_command_line(" \t\n").map(|_| ())), "Empty command line");
    assert_eq!(io_reason(parse_command_line("\u{3000}").map(|_| ())), "Empty command line");
}

#[test]
fn command_line_with_an_open_quote_is_refused() {
    assert_eq!(
        io_reason(parse_command_line("echo 'abc").map(|_| ())),
        "Parse error: missing closing quote"
    );
    assert_eq!(
        io_reason(parse_command_line("echo \"abc").map(|_| ())),
        "Parse error: missing closing quote"
    );
}

#[test]
fn command_line_that_is_only_a_comment_names_no_command() {
    assert_eq!(io_reason(parse_command_line("# nothing").map(|_| ())), "No command specified");
}

#[test]
fn invocation_takes_the_first_word_as_program() {
    let inv = invocation(words(&["a", "b", "c"])).ok().unwrap();
    assert_eq!(inv.program, "a");
    assert_eq!(inv.args, words(&["b", "c"]));
    assert_eq!(io_reason(invocation(Vec::new()).map(|_| ())), "No command specified");
}

#[test]
fn line_break_is_taken_off_once() {
    assert_eq!(strip_line_break("abc\n"), "abc");
    assert_eq!(strip_line_break("abc\r\n"), "abc");
    assert_eq!(strip_line_break("abc"), "abc");
    assert_eq!(strip_line_break("abc\r"), "abc\r");
    assert_eq!(strip_line_break("abc\n\n"), "abc\n");
    assert_eq!(strip_line_break("abc\r\r\n"), "abc\r");
    assert_eq!(strip_line_break("\n"), "");
    assert_eq!(strip_line_break("\r\n"), "");
    assert_eq!(strip_line_break(""), "");
    assert_eq!(strip_line_break("é\n"), "é");
}

#[test]
fn line_breaks_are_taken_off_altogether() {
    assert_eq!(strip_line_breaks("abc\n"), "abc");
    assert_eq!(strip_line_breaks("abc\r\n\r\n"), "abc");
    assert_eq!(strip_line_breaks("abc\n\r\r"), "abc");
    assert_eq!(strip_line_breaks("a\nb\n"), "a\nb");
    assert_eq!(strip_line_breaks("abc \n"), "abc ");
    assert_eq!(strip_line_breaks("\r\n"), "");
    assert_eq!(strip_line_breaks(""), "");
    for line in ["x\r\n", "\n\nx", "x\r", "x \t\n\r\n"] {
        assert_eq!(strip_line_breaks(line), line.trim_end_matches(['\r', '\n']));
    }
}

#[test]
fn arguments_without_the_program() {
    assert_eq!(without_program(words(&["prog", "a", "b"])), words(&["a", "b"]));
    assert_eq!(without_program(words(&["prog"])), Vec::<String>::new());
    assert_eq!(without_program(Vec::new()), Vec::<String>::new());
}
