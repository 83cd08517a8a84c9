//! The output renderer: from the bytes that a command wrote to the markup
//! shown for it, and from the commands of a block to its transcript.

use crate::command::{CommandLine, CommandView};
use crate::error::Failure;
use vstd::prelude::*;
use vstd::utf8::{decode_utf8, valid_utf8};

verus! {

/// What a command wrote, byte for byte.
#[derive(Debug, PartialEq, Eq)]
pub struct Output {
    pub stdout: Vec<u8>,
    pub stderr: Vec<u8>,
}

/// The markup shown for one command: its standard output, then its standard
/// error.
pub struct Shown {
    pub stdout: Seq<char>,
    pub stderr: Seq<char>,
}

/// The error of `ansi_to_html::convert`, carried through unread.
#[verifier::external_type_specification]
#[verifier::external_body]
pub struct ExStyleError(ansi_to_html::Error);

/// The error of `String::from_utf8`, carried through unread.
#[verifier::external_type_specification]
#[verifier::external_body]
pub struct ExEncodingError(std::string::FromUtf8Error);

/// The markup that `ansi_to_html::convert` gives for `text`, or `None` where
/// it refuses the text.
pub uninterp spec fn styled_markup(text: Seq<char>) -> Option<Seq<char>>;

/// Calls `ansi_to_html::convert`, which escapes the characters that are
/// special in HTML and turns the style and colour escape sequences of a
/// terminal into tags. The contract claims only that the result is a function
/// of the text: it is the one that `styled_markup` names.
#[verifier::external_body]
fn convert_styles(text: &str) -> (markup: Result<String, ansi_to_html::Error>)
    ensures
        match markup {
            Ok(m) => styled_markup(text@) == Some(m@),
            Err(_) => styled_markup(text@) is None,
        },
{
    ansi_to_html::convert(text)
}

/// Calls `String::from_utf8`, which gives the text that the bytes encode, and
/// fails exactly where they are not UTF-8.
#[verifier::external_body]
fn decode(bytes: Vec<u8>) -> (text: Result<String, std::string::FromUtf8Error>)
    ensures
        match text {
            Ok(t) => valid_utf8(bytes@) && t@ == decode_utf8(bytes@),
            Err(_) => !valid_utf8(bytes@),
        },
{
    String::from_utf8(bytes)
}

/// The markup for the captured bytes `bytes`: they are decoded as UTF-8, and
/// the text is converted.
pub open spec fn rendered(bytes: Seq<u8>) -> Result<Seq<char>, Failure> {
    if !valid_utf8(bytes) {
        Err(Failure::InvalidEncoding)
    } else {
        match styled_markup(decode_utf8(bytes)) {
            Some(markup) => Ok(markup),
            None => Err(Failure::InvalidEscape),
        }
    }
}

/// Renders captured output as markup.
pub fn render(bytes: Vec<u8>) -> (markup: Result<String, Failure>)
    ensures
        match markup {
            Ok(m) => rendered(bytes@) == Ok::<Seq<char>, Failure>(m@),
            Err(e) => rendered(bytes@) == Err::<Seq<char>, Failure>(e),
        },
{
    match decode(bytes) {
        Err(_) => Err(Failure::InvalidEncoding),
        Ok(text) => match convert_styles(text.as_str()) {
            Ok(markup) => Ok(markup),
            Err(_) => Err(Failure::InvalidEscape),
        },
    }
}

/// What opens a transcript.
pub open spec fn transcript_head() -> Seq<char> {
    "\n<pre><code>"@
}

/// What closes a transcript.
pub open spec fn transcript_tail() -> Seq<char> {
    "</code></pre>"@
}

/// What one command adds to a transcript. A silent command adds nothing. A
/// visible one adds its prompt line, what it wrote, and a line break if it
/// wrote anything.
pub open spec fn entry(command: CommandView, stdout: Seq<char>, stderr: Seq<char>) -> Seq<char> {
    if command.silent {
        Seq::empty()
    } else {
        "$ "@ + command.text + "\n"@ + stdout + stderr + if stdout.len() > 0 || stderr.len() > 0 {
            "\n"@
        } else {
            Seq::empty()
        }
    }
}

/// What the commands `commands` add to a transcript, the i-th of them having
/// written `shown[i]`.
pub open spec fn entries(commands: Seq<CommandView>, shown: Seq<Shown>) -> Seq<char>
    decreases commands.len(),
{
    if commands.len() == 0 {
        Seq::empty()
    } else {
        let last = commands.len() - 1;
        entries(commands.drop_last(), shown) + entry(
            commands[last],
            shown[last].stdout,
            shown[last].stderr,
        )
    }
}

/// The transcript of a block with the commands `commands`, the i-th of them
/// having written `shown[i]`: one preformatted container round the entries.
pub open spec fn transcript(commands: Seq<CommandView>, shown: Seq<Shown>) -> Seq<char> {
    transcript_head() + entries(commands, shown) + transcript_tail()
}

/// A transcript that holds nothing yet.
pub fn open_transcript() -> (text: String)
    ensures
        text@ == transcript_head(),
{
    String::from_str("\n<pre><code>")
}

/// Adds the entry of `command`, which wrote the markup `stdout` and `stderr`.
pub fn push_entry(text: &mut String, command: &CommandLine, stdout: &str, stderr: &str)
    ensures
        final(text)@ == old(text)@ + entry(command@, stdout@, stderr@),
{
    if command.silent {
        assert(text@ + Seq::<char>::empty() == text@);
    } else {
        text.append("$ ");
        text.append(command.text.as_str());
        text.append("\n");
        text.append(stdout);
        text.append(stderr);
        if !stdout.is_empty() || !stderr.is_empty() {
            text.append("\n");
        } else {
            assert(text@ + Seq::<char>::empty() == text@);
        }
        assert(text@ == old(text)@ + entry(command@, stdout@, stderr@));
    }
}

/// Closes a transcript.
pub fn close_transcript(text: &mut String)
    ensures
        final(text)@ == old(text)@ + transcript_tail(),
{
    text.append("</code></pre>");
}

} // verus!
