//! Rewrites the event stream of a markdown document so that every fenced
//! block tagged `bash,<session>` is replaced by the transcript of running its
//! commands.
//!
//! The library decides and the caller acts. A [`rewriter::Rewriter`] is
//! pulled for the rewritten stream; where commands have to run, the pull
//! yields what the caller is to do: open a working directory for a new
//! session, or run one command there and hand back what it wrote. Blocks of
//! one session run in one directory, in the order of the document.
//!
//! [`machine`] states the rewriter as a state machine over plain values,
//! [`stream`] says what the rewritten stream of a document is, and [`laws`]
//! proves that a caller who pulls to the end gets that stream.

pub mod command;
pub mod error;
pub mod event;
pub mod laws;
pub mod machine;
pub mod markdown;
pub mod render;
pub mod rewriter;
pub mod session;
pub mod stream;
pub mod tag;
pub mod text;
