//! The names that most grammars need.

pub use crate::parser::{run, Parser};

pub use crate::token::text::Ascii;
pub use crate::token::{eat, eat_slice, end, peek, peek_slice};
pub use crate::token::{eat_if, peek_if};
pub use crate::token::{eat_while, seek};

pub use crate::combinator::{alt_inner, chain_inner, select_inner};
pub use crate::combinator::{between, prefixed, suffixed};
