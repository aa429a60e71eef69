//! A composable parser-combinator core.
//!
//! Three abstractions carry everything: a [`stream::Stream`] is a cursor over
//! a sequence of tokens, a [`parser::Parser`] consumes such a stream and
//! yields an output or an error, and an [`error::Error`] ties a failure to
//! the span where it arose.  Larger parsers are built from smaller ones with
//! the combinators of [`combinator`] and the matchers of [`token`].
//!
//! # Contracts
//!
//! A stream is modelled by the tokens of its input and the number of tokens
//! consumed.  Every parser states, as a relation between the stream before
//! and the stream after, which results it can give; the relation of a
//! combinator is stated over the relations of the parsers it wraps, and that
//! of a callback over what the callback ensures.  Running a parser never
//! moves a stream backwards: sequencing keeps what was consumed, also on
//! failure, and alternation starts every alternative where the first one
//! started.
//!
//! Verified callers run a parser with [`parser::run`].

pub mod combinator;
pub mod error;
pub mod input;
pub mod parser;
pub mod prelude;
mod sealed;
pub mod span;
pub mod stream;
pub mod token;
pub mod token_set;
