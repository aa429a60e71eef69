//! Combinators: parsers built from other parsers.

pub mod alt;
mod by_ref;
mod chain;
mod errors;
mod map;
mod named;
mod recover;
mod repeat;
pub mod select;
mod with_state;

pub use alt::{alt_inner, lemma_alt_restores, Alt, AltParsers};
pub use by_ref::{ByRef, Opaque};
pub use chain::{
    between, chain_1_run, chain_2_run, chain_3_run, chain_4_run, chain_5_run, chain_6_run,
    chain_7_run, chain_8_run, chain_inner, lemma_chain_short_circuits, prefixed, suffixed, Between,
    Chained, ChainedParsers, Prefixed, Suffixed,
};
pub use errors::{WithErrCause, WithErrContext};
pub use map::{
    covered, lemma_to_slice_round_trip, AndThen, MapErr, MapErrTo, MapInto, MapTo, Mapped, OrElse,
    ToSlice, WithSlice, WithSpan,
};
pub use named::Named;
pub use recover::OrRecover;
pub use repeat::{lemma_repetition_bounds, Collect, NoCollection, RepeatWhile};
pub use select::{select_inner, Select, SelectArms};
pub use with_state::{
    same_but_state, AndThenWithState, MapErrWithState, MapWithState, OrElseWithState,
};
