//! Command lines and lines of input, as far as they are text.

use vstd::prelude::*;
use shell_words::ParseError;
use crate::types::error::Error;
use crate::types::text::{chars_of, push_chars, string_of, trim_spec, trimmed_chars};

verus! {

/// Declares `shell_words`' error: a quote that is never closed.
#[verifier::external_type_specification]
#[verifier::external_body]
pub struct ExParseError(ParseError);

/// The words into which `shell_words::split` cuts a command line by the
/// quoting rules of a Unix shell; `None` where a quote is not closed.
pub uninterp spec fn shell_split(line: Seq<char>) -> Option<Seq<Seq<char>>>;

/// `shell_words::split`. Assumed: what it returns is fixed by the line.
#[verifier::external_body]
pub(crate) fn split_words(line: &str) -> (r: Result<Vec<String>, ParseError>)
    ensures
        match shell_split(line@) {
            Some(words) => r is Ok && r->Ok_0.deep_view() == words,
            None => r is Err,
        },
{
    shell_words::split(line)
}

/// The `Display` text of `shell_words`' error, which is always the same.
#[verifier::external_body]
pub(crate) fn parse_error_text(e: &ParseError) -> (text: String)
    ensures
        text@ == "missing closing quote"@,
{
    e.to_string()
}

/// A program and its arguments.
pub struct Invocation {
    pub program: String,
    pub args: Vec<String>,
}

/// Message for a line that holds nothing but whitespace.
pub open spec fn empty_line_text() -> Seq<char> {
    "Empty command line"@
}

/// Message for a line whose quotes do not close.
pub open spec fn parse_error_reason() -> Seq<char> {
    "Parse error: "@ + "missing closing quote"@
}

/// Message for a line that holds no word.
pub open spec fn no_command_text() -> Seq<char> {
    "No command specified"@
}

/// The first word is the program, the others are its arguments; no word
/// is no command.
pub open spec fn invocation_of(words: Seq<Seq<char>>) -> Result<
    (Seq<char>, Seq<Seq<char>>),
    Seq<char>,
> {
    if words.len() == 0 {
        Err(no_command_text())
    } else {
        Ok((words[0], words.skip(1)))
    }
}

/// What a command line asks to run, or the message with which it is
/// refused: the line is trimmed, cut into words, and the words are read
/// as a program and its arguments.
pub open spec fn parse_command_line_spec(line: Seq<char>) -> Result<
    (Seq<char>, Seq<Seq<char>>),
    Seq<char>,
> {
    if trim_spec(line).len() == 0 {
        Err(empty_line_text())
    } else {
        match shell_split(trim_spec(line)) {
            None => Err(parse_error_reason()),
            Some(words) => invocation_of(words),
        }
    }
}

/// Reads the words of a command line as a program and its arguments.
pub fn invocation(words: Vec<String>) -> (r: Result<Invocation, Error>)
    ensures
        match invocation_of(words.deep_view()) {
            Ok((program, args)) => r is Ok && r->Ok_0.program@ == program
                && r->Ok_0.args.deep_view() == args,
            Err(reason) => r is Err && r->Err_0.is_io_error(reason),
        },
{
    let mut args = words;
    if args.len() == 0 {
        return Err(Error::IoError("No command specified".to_owned()));
    }
    let program = args.remove(0);
    assert(args.deep_view() =~= words.deep_view().skip(1));
    Ok(Invocation { program, args })
}

/// Reads a command line: the program to run and its arguments.
pub fn parse_command_line(command_line: &str) -> (r: Result<Invocation, Error>)
    ensures
        match parse_command_line_spec(command_line@) {
            Ok((program, args)) => r is Ok && r->Ok_0.program@ == program
                && r->Ok_0.args.deep_view() == args,
            Err(reason) => r is Err && r->Err_0.is_io_error(reason),
        },
{
    let trimmed = trimmed_chars(command_line);
    if trimmed.len() == 0 {
        return Err(Error::IoError("Empty command line".to_owned()));
    }
    let line = string_of(&trimmed);
    match split_words(line.as_str()) {
        Ok(words) => invocation(words),
        Err(e) => {
            let detail = parse_error_text(&e);
            let mut reason = "Parse error: ".to_owned();
            reason.append(detail.as_str());
            Err(Error::IoError(reason))
        },
    }
}

/// `line` without one line break at its end: a line feed, and the carriage
/// return before it if there is one.
pub open spec fn without_line_break(line: Seq<char>) -> Seq<char> {
    if line.len() > 0 && line.last() == '\n' {
        if line.len() > 1 && line[line.len() - 2] == '\r' {
            line.take(line.len() - 2)
        } else {
            line.take(line.len() - 1)
        }
    } else {
        line
    }
}

/// `line` without the carriage returns and line feeds at its end.
pub open spec fn without_line_breaks(line: Seq<char>) -> Seq<char>
    decreases line.len(),
{
    if line.len() > 0 && (line.last() == '\n' || line.last() == '\r') {
        without_line_breaks(line.drop_last())
    } else {
        line
    }
}

/// Takes the line break off the end of a line that was read.
pub fn strip_line_break(line: &str) -> (text: String)
    ensures
        text@ == without_line_break(line@),
{
    let chars = chars_of(line);
    let len = chars.len();
    let mut end: usize = len;
    if end > 0 && chars[end - 1] == '\n' {
        end -= 1;
        if end > 0 && chars[end - 1] == '\r' {
            end -= 1;
        }
    }
    let mut text = String::new();
    push_chars(&mut text, &chars, 0, end);
    assert(text@ =~= without_line_break(line@));
    text
}

/// Takes every carriage return and line feed off the end of a line.
pub fn strip_line_breaks(line: &str) -> (text: String)
    ensures
        text@ == without_line_breaks(line@),
{
    let chars = chars_of(line);
    let len = chars.len();
    let mut end: usize = len;
    assert(chars@.take(len as int) =~= chars@);
    while end > 0 && (chars[end - 1] == '\n' || chars[end - 1] == '\r')
        invariant
            end <= len == chars@.len(),
            without_line_breaks(chars@) == without_line_breaks(chars@.take(end as int)),
        decreases end,
    {
        assert(chars@.take(end as int).drop_last() =~= chars@.take(end - 1));
        end -= 1;
    }
    let mut text = String::new();
    push_chars(&mut text, &chars, 0, end);
    assert(text@ =~= chars@.take(end as int));
    text
}

} // verus!
