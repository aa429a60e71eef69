//! The error model: causes, errors with spans, and added context.

use vstd::prelude::*;

use crate::stream::Stream;

verus! {

/// A sink for errors that a parser recovered from.
pub trait Report<Error>: Sized {
    /// The sink after `error` was reported to it.
    spec fn reported(self, error: Error) -> Self;

    /// Take note of an error that parsing went on after.
    fn report(&mut self, error: Error)
        ensures
            *final(self) == old(self).reported(error),
    ;
}

/// Why a single match failed.
///
/// The matchers of this crate make their causes through this trait, so that
/// an error type can bring causes of its own beside them.
pub trait Cause: Sized {
    type Token;

    type Slice: ?Sized;

    /// The cause that `expected_token` makes.
    spec fn spec_expected_token(token: Self::Token) -> Self;

    /// The cause that `expected_slice` makes.
    spec fn spec_expected_slice(slice: &'static Self::Slice) -> Self;

    /// The cause that `expected_matching_fn` makes.
    spec fn spec_expected_matching_fn() -> Self;

    /// The cause that `expected_end` makes.
    spec fn spec_expected_end() -> Self;

    /// The cause that `unknown` makes.
    spec fn spec_unknown() -> Self;

    /// This token was expected, and another or none was found.
    fn expected_token(token: Self::Token) -> (cause: Self)
        ensures
            cause == Self::spec_expected_token(token),
    ;

    /// This literal slice was expected.
    fn expected_slice(slice: &'static Self::Slice) -> (cause: Self)
        ensures
            cause == Self::spec_expected_slice(slice),
    ;

    /// A token that a predicate holds of was expected.
    fn expected_matching_fn() -> (cause: Self)
        ensures
            cause == Self::spec_expected_matching_fn(),
    ;

    /// The end of the input was expected.
    fn expected_end() -> (cause: Self)
        ensures
            cause == Self::spec_expected_end(),
    ;

    /// No more is known than that parsing failed.
    fn unknown() -> (cause: Self)
        ensures
            cause == Self::spec_unknown(),
    ;
}

/// A failure: a cause and the span where it arose.
pub trait Error<S: Stream>: Sized {
    type Cause: Cause<Token = S::Token, Slice = S::Slice>;

    /// The fresh error with this cause at this span.
    spec fn spec_new(cause: Self::Cause, span: S::Span) -> Self;

    /// The error with its cause replaced, and nothing else changed.
    spec fn spec_set_cause(self, cause: Self::Cause) -> Self;

    /// Make a fresh error.
    fn new(cause: Self::Cause, span: S::Span) -> (error: Self)
        ensures
            error == Self::spec_new(cause, span),
    ;

    /// Replace the cause, and keep what else the error holds.
    fn set_cause(&mut self, cause: Self::Cause)
        ensures
            *final(self) == old(self).spec_set_cause(cause),
    ;
}

/// An error that can be wrapped in layers of context.
pub trait ErrorWithContext<S: Stream>: Error<S> {
    type Context;

    /// The error wrapped in one more layer of context.
    spec fn spec_with_context(self, context: Self::Context, span: S::Span) -> Self;

    /// Wrap the error in one more layer of context.
    fn with_context(self, context: Self::Context, span: S::Span) -> (error: Self)
        ensures
            error == self.spec_with_context(context, span),
    ;
}

/// `Clone::clone` of a boxed string slice: the copy holds the same text.
pub assume_specification[ <Box<str> as Clone>::clone ](text: &Box<str>) -> (copy: Box<str>)
    ensures
        copy@ == text@,
;

/// The causes that the matchers of this crate give, and a custom one.
#[derive(Debug, PartialEq, Eq, Hash)]
pub enum DefaultCause<S: Stream> {
    Custom(Box<str>),
    ExpectedToken(S::Token),
    ExpectedSlice(&'static S::Slice),
    ExpectedMatchingFn,
    ExpectedEnd,
    Unknown,
}

impl<S: Stream> DefaultCause<S> {
    /// A cause of the caller's own, told in words.
    pub fn custom<T: Into<Box<str>>>(custom: T) -> (cause: Self)
        ensures
            cause matches DefaultCause::Custom(text) && call_ensures(
                <T as Into<Box<str>>>::into,
                (custom,),
                text,
            ),
    {
        Self::Custom(custom.into())
    }
}

impl<S: Stream<Token: Clone>> DefaultCause<S> {
    /// Whether `copy` can come of cloning this cause: the same kind of
    /// cause, of a clone of what it names.
    pub open spec fn clones_to(self, copy: Self) -> bool {
        match (self, copy) {
            (DefaultCause::Custom(text), DefaultCause::Custom(text_copy)) => text_copy@ == text@,
            (
                DefaultCause::ExpectedToken(token),
                DefaultCause::ExpectedToken(token_copy),
            ) => cloned(token, token_copy),
            (
                DefaultCause::ExpectedSlice(slice),
                DefaultCause::ExpectedSlice(slice_copy),
            ) => slice_copy == slice,
            (DefaultCause::ExpectedMatchingFn, DefaultCause::ExpectedMatchingFn) => true,
            (DefaultCause::ExpectedEnd, DefaultCause::ExpectedEnd) => true,
            (DefaultCause::Unknown, DefaultCause::Unknown) => true,
            _ => false,
        }
    }
}

impl<S: Stream<Token: Clone>> Clone for DefaultCause<S> {
    fn clone(&self) -> (copy: Self)
        ensures
            self.clones_to(copy),
    {
        match self {
            Self::Custom(text) => Self::Custom(text.clone()),
            Self::ExpectedToken(token) => Self::ExpectedToken(token.clone()),
            Self::ExpectedSlice(slice) => Self::ExpectedSlice(*slice),
            Self::ExpectedMatchingFn => Self::ExpectedMatchingFn,
            Self::ExpectedEnd => Self::ExpectedEnd,
            Self::Unknown => Self::Unknown,
        }
    }
}

impl<S: Stream> Cause for DefaultCause<S> {
    type Token = S::Token;

    type Slice = S::Slice;

    open spec fn spec_expected_token(token: S::Token) -> Self {
        DefaultCause::ExpectedToken(token)
    }

    open spec fn spec_expected_slice(slice: &'static S::Slice) -> Self {
        DefaultCause::ExpectedSlice(slice)
    }

    open spec fn spec_expected_matching_fn() -> Self {
        DefaultCause::ExpectedMatchingFn
    }

    open spec fn spec_expected_end() -> Self {
        DefaultCause::ExpectedEnd
    }

    open spec fn spec_unknown() -> Self {
        DefaultCause::Unknown
    }

    fn expected_token(token: S::Token) -> (cause: Self) {
        Self::ExpectedToken(token)
    }

    fn expected_slice(slice: &'static S::Slice) -> (cause: Self) {
        Self::ExpectedSlice(slice)
    }

    fn expected_matching_fn() -> (cause: Self) {
        Self::ExpectedMatchingFn
    }

    fn expected_end() -> (cause: Self) {
        Self::ExpectedEnd
    }

    fn unknown() -> (cause: Self) {
        Self::Unknown
    }
}

/// An error as a cause at a span, wrapped in any number of layers of
/// context, outermost first.
#[derive(Debug, PartialEq, Eq, Hash)]
pub enum DefaultError<S, C = DefaultCause<S>, Context = Box<str>> where
    S: Stream,
    C: Cause<Token = S::Token, Slice = S::Slice>,
 {
    Error { cause: C, span: S::Span },
    WithContext { context: Context, span: S::Span, inner: Box<Self> },
}

impl<S, C, Context> DefaultError<S, C, Context> where
    S: Stream,
    C: Cause<Token = S::Token, Slice = S::Slice>,
 {
    /// The cause at the core of the error.
    pub open spec fn cause(self) -> C
        decreases self,
    {
        match self {
            DefaultError::Error { cause, .. } => cause,
            DefaultError::WithContext { inner, .. } => inner.cause(),
        }
    }

    /// The span at which the cause arose.
    pub open spec fn origin(self) -> S::Span
        decreases self,
    {
        match self {
            DefaultError::Error { span, .. } => span,
            DefaultError::WithContext { inner, .. } => inner.origin(),
        }
    }

    /// The layers of context with their spans, outermost first.
    pub open spec fn contexts(self) -> Seq<(Context, S::Span)>
        decreases self,
    {
        match self {
            DefaultError::Error { .. } => Seq::empty(),
            DefaultError::WithContext { context, span, inner } => seq![(context, span)]
                + inner.contexts(),
        }
    }

    /// The span of the outermost layer.
    pub open spec fn spec_span(self) -> S::Span {
        match self {
            DefaultError::Error { span, .. } => span,
            DefaultError::WithContext { span, .. } => span,
        }
    }

    /// The span of the outermost layer: that of the whole production that
    /// failed.
    pub fn span(&self) -> (span: &S::Span)
        ensures
            *span == self.spec_span(),
    {
        match self {
            Self::Error { span, cause: _ } => span,
            Self::WithContext { span, .. } => span,
        }
    }

    /// Replacing the cause changes the cause and nothing else.
    pub proof fn lemma_set_cause(self, cause: C)
        ensures
            self.spec_set_cause(cause).cause() == cause,
            self.spec_set_cause(cause).origin() == self.origin(),
            self.spec_set_cause(cause).contexts() == self.contexts(),
            self.spec_set_cause(cause).spec_span() == self.spec_span(),
        decreases self,
    {
        match self {
            DefaultError::Error { .. } => {},
            DefaultError::WithContext { inner, .. } => {
                inner.lemma_set_cause(cause);
            },
        }
    }

    /// Adding context adds one outermost layer and changes nothing below.
    pub proof fn lemma_with_context(self, context: Context, span: S::Span)
        ensures
            self.spec_with_context(context, span).cause() == self.cause(),
            self.spec_with_context(context, span).origin() == self.origin(),
            self.spec_with_context(context, span).contexts() == seq![(context, span)]
                + self.contexts(),
            self.spec_with_context(context, span).spec_span() == span,
    {
    }
}

impl<S, C, Context> DefaultError<S, C, Context> where
    S: Stream<Span: Clone>,
    C: Cause<Token = S::Token, Slice = S::Slice> + Clone,
    Context: Clone,
 {
    /// Whether `copy` can come of cloning this error: layer by layer, each
    /// part a clone of the part it stands for.
    pub open spec fn clones_to(self, copy: Self) -> bool
        decreases self,
    {
        match (self, copy) {
            (
                DefaultError::Error { cause, span },
                DefaultError::Error { cause: cause_copy, span: span_copy },
            ) => cloned(cause, cause_copy) && cloned(span, span_copy),
            (
                DefaultError::WithContext { context, span, inner },
                DefaultError::WithContext {
                    context: context_copy,
                    span: span_copy,
                    inner: inner_copy,
                },
            ) => {
                &&& cloned(context, context_copy)
                &&& cloned(span, span_copy)
                &&& inner.clones_to(*inner_copy)
            },
            _ => false,
        }
    }
}

impl<S, C, Context> Clone for DefaultError<S, C, Context> where
    S: Stream<Span: Clone>,
    C: Cause<Token = S::Token, Slice = S::Slice> + Clone,
    Context: Clone,
 {
    fn clone(&self) -> (copy: Self)
        ensures
            self.clones_to(copy),
        decreases self,
    {
        match self {
            Self::Error { cause, span } => Self::Error { cause: cause.clone(), span: span.clone() },
            Self::WithContext { context, span, inner } => Self::WithContext {
                context: context.clone(),
                span: span.clone(),
                inner: Box::new((&**inner).clone()),
            },
        }
    }
}

impl<S, C, Context> Error<S> for DefaultError<S, C, Context> where
    S: Stream,
    C: Cause<Token = S::Token, Slice = S::Slice>,
 {
    type Cause = C;

    open spec fn spec_new(cause: C, span: S::Span) -> Self {
        DefaultError::Error { cause, span }
    }

    open spec fn spec_set_cause(self, cause: C) -> Self
        decreases self,
    {
        match self {
            DefaultError::Error { span, .. } => DefaultError::Error { cause, span },
            DefaultError::WithContext { context, span, inner } => DefaultError::WithContext {
                context,
                span,
                inner: Box::new(inner.spec_set_cause(cause)),
            },
        }
    }

    fn new(cause: C, span: S::Span) -> (error: Self)
        ensures
            error.cause() == cause,
            error.origin() == span,
            error.contexts() == Seq::<(Context, S::Span)>::empty(),
            error.spec_span() == span,
    {
        Self::Error { cause, span }
    }

    fn set_cause(&mut self, cause: C)
        ensures
            final(self).cause() == cause,
            final(self).origin() == old(self).origin(),
            final(self).contexts() == old(self).contexts(),
            final(self).spec_span() == old(self).spec_span(),
        decreases *old(self),
    {
        proof {
            old(self).lemma_set_cause(cause);
        }
        match self {
            Self::Error { cause: prev_cause, .. } => {
                *prev_cause = cause;
            },
            Self::WithContext { inner, .. } => {
                inner.set_cause(cause);
            },
        }
    }
}

impl<S, C, Context> ErrorWithContext<S> for DefaultError<S, C, Context> where
    S: Stream,
    C: Cause<Token = S::Token, Slice = S::Slice>,
 {
    type Context = Context;

    open spec fn spec_with_context(self, context: Context, span: S::Span) -> Self {
        DefaultError::WithContext { context, span, inner: Box::new(self) }
    }

    fn with_context(self, context: Context, span: S::Span) -> (error: Self)
        ensures
            error.cause() == self.cause(),
            error.origin() == self.origin(),
            error.contexts() == seq![(context, span)] + self.contexts(),
            error.spec_span() == span,
    {
        Self::WithContext { context, span, inner: Box::new(self) }
    }
}

} // verus!
