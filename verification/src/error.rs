//! What can stop the rewriting of a document.

use vstd::prelude::*;

verus! {

/// Why a pull, the recording of a command's output, or the writing of the
/// rewritten stream failed.
#[derive(Debug, Clone, Copy, PartialEq, Eq, Structural)]
pub enum Failure {
    /// A fenced block opened inside an open example block.
    NestedBlock,
    /// The stream ended inside an example block.
    UnterminatedBlock,
    /// Output was handed in while no command was waiting for it.
    NothingPending,
    /// Captured output is not UTF-8.
    InvalidEncoding,
    /// Captured output holds an escape sequence that the converter refuses.
    InvalidEscape,
    /// A passed-through event names a position that the document does not have.
    UnknownEvent,
    /// The serializer refused the rewritten stream.
    Unserializable,
}

impl Failure {
    /// The failure in words.
    pub open spec fn words(self) -> Seq<char> {
        match self {
            Failure::NestedBlock => "a fenced block opens inside an example block"@,
            Failure::UnterminatedBlock => "the document ends inside an example block"@,
            Failure::NothingPending => "no command is waiting for output"@,
            Failure::InvalidEncoding => "a command's output is not UTF-8"@,
            Failure::InvalidEscape => "a command's output holds an invalid escape sequence"@,
            Failure::UnknownEvent => "an event is not part of the document"@,
            Failure::Unserializable => "the rewritten document cannot be written as markdown"@,
        }
    }

    /// The failure in words, for a diagnostic.
    pub fn message(&self) -> (text: String)
        ensures
            text@ == self.words(),
    {
        match self {
            Failure::NestedBlock => String::from_str(
                "a fenced block opens inside an example block",
            ),
            Failure::UnterminatedBlock => String::from_str(
                "the document ends inside an example block",
            ),
            Failure::NothingPending => String::from_str("no command is waiting for output"),
            Failure::InvalidEncoding => String::from_str("a command's output is not UTF-8"),
            Failure::InvalidEscape => String::from_str(
                "a command's output holds an invalid escape sequence",
            ),
            Failure::UnknownEvent => String::from_str("an event is not part of the document"),
            Failure::Unserializable => String::from_str(
                "the rewritten document cannot be written as markdown",
            ),
        }
    }
}

} // verus!
