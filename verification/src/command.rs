//! The command lines of an example block.
//!
//! A block's body is split into lines as `str::lines` splits a text. Each
//! line that is not empty is one command. A line that starts with `$` is
//! silent: it runs, but neither its prompt nor its output is shown.

use crate::text::{chars_of, find, find_from, lemma_find_from};
use vstd::prelude::*;

verus! {

/// One command of an example block.
#[derive(Debug, PartialEq, Eq)]
pub struct CommandLine {
    /// What is handed to the shell.
    pub text: String,
    /// Whether prompt and output stay out of the transcript.
    pub silent: bool,
}

/// A command line as contracts see it.
pub struct CommandView {
    pub text: Seq<char>,
    pub silent: bool,
}

impl View for CommandLine {
    type V = CommandView;

    open spec fn view(&self) -> CommandView {
        CommandView { text: self.text@, silent: self.silent }
    }
}

impl Clone for CommandLine {
    fn clone(&self) -> (copy: Self)
        ensures
            copy == *self,
    {
        CommandLine { text: self.text.clone(), silent: self.silent }
    }
}

/// The views of the command lines `list`, in order.
pub open spec fn command_views(list: Seq<CommandLine>) -> Seq<CommandView> {
    list.map_values(|c: CommandLine| c@)
}

/// `line` without the carriage return that ended it, if one did.
pub open spec fn without_cr(line: Seq<char>) -> Seq<char> {
    if line.len() > 0 && line.last() == '\r' {
        line.drop_last()
    } else {
        line
    }
}

/// The lines of `text` from position `from` on.
///
/// A line ends with a line feed, or with a carriage return and a line feed;
/// neither belongs to the line. The last line needs no ending, and keeps a
/// carriage return that no line feed follows.
pub open spec fn lines_from(text: Seq<char>, from: int) -> Seq<Seq<char>>
    decreases text.len() - from,
{
    if from < 0 || from >= text.len() {
        Seq::empty()
    } else {
        let end = find_from(text, '\n', from);
        if end >= text.len() {
            seq![text.subrange(from, text.len() as int)]
        } else {
            proof {
                lemma_find_from(text, '\n', from);
            }
            seq![without_cr(text.subrange(from, end))] + lines_from(text, end + 1)
        }
    }
}

/// The lines of `text`.
pub open spec fn lines(text: Seq<char>) -> Seq<Seq<char>> {
    lines_from(text, 0)
}

/// Whether `line` is marked silent.
pub open spec fn is_silent(line: Seq<char>) -> bool {
    line.len() > 0 && line[0] == '$'
}

/// The command that the line `line` stands for: a silent line without its
/// marker, any other line as it is.
pub open spec fn command_of(line: Seq<char>) -> CommandView {
    if is_silent(line) {
        CommandView { text: line.skip(1), silent: true }
    } else {
        CommandView { text: line, silent: false }
    }
}

/// The commands of the lines `lines`, in order. An empty line is no command.
pub open spec fn commands_of(lines: Seq<Seq<char>>) -> Seq<CommandView>
    decreases lines.len(),
{
    if lines.len() == 0 {
        Seq::empty()
    } else if lines.last().len() == 0 {
        commands_of(lines.drop_last())
    } else {
        commands_of(lines.drop_last()).push(command_of(lines.last()))
    }
}

/// The commands of a block with the body `body`.
pub open spec fn commands(body: Seq<char>) -> Seq<CommandView> {
    commands_of(lines(body))
}

/// The text of a block as it would be shown in place: its lines without the
/// silent ones, each ended by a line feed.
pub open spec fn display_of(lines: Seq<Seq<char>>) -> Seq<char>
    decreases lines.len(),
{
    if lines.len() == 0 {
        Seq::empty()
    } else if is_silent(lines.last()) {
        display_of(lines.drop_last())
    } else {
        display_of(lines.drop_last()) + lines.last() + seq!['\n']
    }
}

/// The display text of a block with the body `body`.
pub open spec fn display(body: Seq<char>) -> Seq<char> {
    display_of(lines(body))
}

/// The views of the lines `list`, in order.
pub open spec fn line_views(list: Seq<String>) -> Seq<Seq<char>> {
    list.map_values(|l: String| l@)
}

/// Splits a text into its lines.
pub fn split_lines(text: &str) -> (list: Vec<String>)
    ensures
        line_views(list@) == lines(text@),
{
    let chars = chars_of(text);
    let len: usize = chars.len();
    let mut list: Vec<String> = Vec::new();
    let mut from: usize = 0;
    while from < len
        invariant
            chars@ == text@,
            len == chars.len(),
            from <= len,
            lines(text@) == line_views(list@) + lines_from(text@, from as int),
        decreases len - from,
    {
        let end: usize = find(&chars, '\n', from);
        proof {
            lemma_find_from(text@, '\n', from as int);
        }
        let mut stop: usize = end;
        if end < len && end > from && chars[end - 1] == '\r' {
            stop = end - 1;
        }
        let line = String::from_str(text.substring_char(from, stop));
        proof {
            let whole = text@.subrange(from as int, end as int);
            if end < len {
                assert(line@ == without_cr(whole)) by {
                    if whole.len() > 0 && whole.last() == '\r' {
                        assert(whole.drop_last() == line@);
                    } else {
                        assert(whole == line@);
                    }
                }
            }
            let rest = if end < len {
                lines_from(text@, end + 1)
            } else {
                Seq::<Seq<char>>::empty()
            };
            assert(lines_from(text@, from as int) == seq![line@] + rest);
            assert(line_views(list@) + (seq![line@] + rest) == line_views(list@.push(line))
                + rest);
        }
        list.push(line);
        from = if end < len {
            end + 1
        } else {
            len
        };
    }
    assert(line_views(list@) + Seq::<Seq<char>>::empty() == line_views(list@));
    list
}

/// Whether a line is marked silent.
pub fn starts_silent(line: &str) -> (silent: bool)
    ensures
        silent == is_silent(line@),
{
    line.unicode_len() > 0 && line.get_char(0) == '$'
}

/// Reads one line as a command.
pub fn parse_command(line: &str) -> (command: CommandLine)
    ensures
        command@ == command_of(line@),
{
    if starts_silent(line) {
        let len: usize = line.unicode_len();
        assert(line@.subrange(1, len as int) == line@.skip(1));
        CommandLine { text: String::from_str(line.substring_char(1, len)), silent: true }
    } else {
        CommandLine { text: String::from_str(line), silent: false }
    }
}

/// Splits the body of a block into its commands.
pub fn split_commands(body: &str) -> (list: Vec<CommandLine>)
    ensures
        command_views(list@) == commands(body@),
{
    let split = split_lines(body);
    let mut list: Vec<CommandLine> = Vec::new();
    let mut at: usize = 0;
    while at < split.len()
        invariant
            at <= split.len(),
            line_views(split@) == lines(body@),
            command_views(list@) == commands_of(line_views(split@).take(at as int)),
        decreases split.len() - at,
    {
        proof {
            let seen = line_views(split@).take(at + 1);
            assert(seen.drop_last() == line_views(split@).take(at as int));
            assert(seen.last() == split@[at as int]@);
        }
        if !split[at].as_str().is_empty() {
            let command = parse_command(split[at].as_str());
            assert(command_views(list@.push(command)) == command_views(list@).push(command@));
            list.push(command);
        }
        at = at + 1;
    }
    assert(line_views(split@).take(at as int) == line_views(split@));
    list
}

/// The text of a block as it would be shown in place of its transcript.
pub fn display_text(body: &str) -> (text: String)
    ensures
        text@ == display(body@),
{
    let split = split_lines(body);
    let mut text = String::new();
    let mut at: usize = 0;
    while at < split.len()
        invariant
            at <= split.len(),
            line_views(split@) == lines(body@),
            text@ == display_of(line_views(split@).take(at as int)),
        decreases split.len() - at,
    {
        proof {
            let seen = line_views(split@).take(at + 1);
            assert(seen.drop_last() == line_views(split@).take(at as int));
            assert(seen.last() == split@[at as int]@);
            reveal_strlit("\n");
            assert("\n"@ == seq!['\n']);
        }
        if !starts_silent(split[at].as_str()) {
            text.append(split[at].as_str());
            text.append("\n");
        }
        at = at + 1;
    }
    assert(line_views(split@).take(at as int) == line_views(split@));
    text
}

} // verus!
