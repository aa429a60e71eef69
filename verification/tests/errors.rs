use parsley6::error::{Cause, DefaultCause, DefaultError, Error, ErrorWithContext};
use parsley6::stream::CharStream;

type Failure<'a> = DefaultError<CharStream<'a>>;

#[test]
fn new_makes_a_leaf() {
    let error = Failure::new(DefaultCause::ExpectedEnd, 3..4);
    assert_eq!(error, DefaultError::Error { cause: DefaultCause::ExpectedEnd, span: 3..4 });
    assert_eq!(error.span(), &(3..4));
}

#[test]
fn causes_are_made_by_name() {
    type Cause<'a> = DefaultCause<CharStream<'a>>;
    assert_eq!(Cause::expected_token('x'), DefaultCause::ExpectedToken('x'));
    assert_eq!(Cause::expected_slice("true"), DefaultCause::ExpectedSlice("true"));
    assert_eq!(Cause::expected_matching_fn(), DefaultCause::ExpectedMatchingFn);
    assert_eq!(Cause::expected_end(), DefaultCause::ExpectedEnd);
    assert_eq!(Cause::unknown(), DefaultCause::Unknown);
    assert_eq!(Cause::custom("odd"), DefaultCause::Custom("odd".into()));
    assert_eq!(Cause::custom(String::from("odd")), DefaultCause::Custom("odd".into()));
}

#[test]
fn set_cause_replaces_the_cause_of_a_leaf() {
    let mut error = Failure::new(DefaultCause::Unknown, 3..4);
    error.set_cause(DefaultCause::custom("expected a value"));
    assert_eq!(
        error,
        DefaultError::Error { cause: DefaultCause::Custom("expected a value".into()), span: 3..4 }
    );
}

#[test]
fn with_context_wraps_the_error() {
    let error = Failure::new(DefaultCause::ExpectedEnd, 3..4).with_context("in a list".into(), 0..4);
    assert_eq!(
        error,
        DefaultError::WithContext {
            context: "in a list".into(),
            span: 0..4,
            inner: Box::new(DefaultError::Error { cause: DefaultCause::ExpectedEnd, span: 3..4 }),
        }
    );
    assert_eq!(error.span(), &(0..4));
}

#[test]
fn set_cause_keeps_the_context_and_the_spans() {
    let mut error = Failure::new(DefaultCause::Unknown, 3..4)
        .with_context("in a list".into(), 1..4)
        .with_context("in a file".into(), 0..4);
    error.set_cause(DefaultCause::ExpectedToken(']'));
    assert_eq!(
        error,
        DefaultError::WithContext {
            context: "in a file".into(),
            span: 0..4,
            inner: Box::new(DefaultError::WithContext {
                context: "in a list".into(),
                span: 1..4,
                inner: Box::new(DefaultError::Error {
                    cause: DefaultCause::ExpectedToken(']'),
                    span: 3..4,
                }),
            }),
        }
    );
}

#[test]
fn errors_can_be_cloned() {
    let error = Failure::new(DefaultCause::custom("odd"), 3..4).with_context("in a list".into(), 1..4);
    assert_eq!(error.clone(), error);
    let leaf = Failure::new(DefaultCause::ExpectedToken('x'), 0..1);
    assert_eq!(leaf.clone(), leaf);
}
