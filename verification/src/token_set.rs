//! Sets of tokens: predicates that say whether a token belongs.

use core::ops::{Range, RangeFull, RangeInclusive};
use vstd::prelude::*;
use vstd::std_specs::range::ContainsSpec;

verus! {

/// A set of tokens.
///
/// Membership is stated as a relation, so that a closure can be a set:
/// [`holds`](TokenSet::holds) says which answers `contains` can give.
pub trait TokenSet<Token> {
    /// What the set needs to hold of itself to be asked.
    spec fn inv(&self) -> bool;

    /// Whether `contains` can answer `contained` for `token`.
    spec fn holds(&self, token: &Token, contained: bool) -> bool;

    fn contains(&self, token: &Token) -> (contained: bool)
        requires
            self.inv(),
        ensures
            self.holds(token, contained),
    ;

    /// The set of the tokens that are not in this one.
    fn not(self) -> (complement: Not<Self>) where Self: Sized
        ensures
            complement.0 == self,
    {
        Not(self)
    }
}

impl<F: Fn(&Token) -> bool, Token> TokenSet<Token> for F {
    open spec fn inv(&self) -> bool {
        forall|token: &Token| call_requires(*self, (token,))
    }

    open spec fn holds(&self, token: &Token, contained: bool) -> bool {
        call_ensures(*self, (token,), contained)
    }

    fn contains(&self, token: &Token) -> (contained: bool) {
        (self)(token)
    }
}

/// Whether searching `items` for `token` with `==`, first to last, can give
/// `contained`.
pub open spec fn found_in<Token: PartialEq>(
    items: Seq<Token>,
    token: &Token,
    contained: bool,
) -> bool {
    if contained {
        exists|at: int|
            {
                &&& 0 <= at < items.len()
                &&& #[trigger] call_ensures(<Token as PartialEq>::eq, (&items[at], token), true)
                &&& forall|i: int|
                    0 <= i < at ==> #[trigger] call_ensures(
                        <Token as PartialEq>::eq,
                        (&items[i], token),
                        false,
                    )
            }
    } else {
        forall|i: int|
            0 <= i < items.len() ==> #[trigger] call_ensures(
                <Token as PartialEq>::eq,
                (&items[i], token),
                false,
            )
    }
}

impl<Token: PartialEq> TokenSet<Token> for [Token] {
    open spec fn inv(&self) -> bool {
        true
    }

    open spec fn holds(&self, token: &Token, contained: bool) -> bool {
        found_in(self@, token, contained)
    }

    fn contains(&self, token: &Token) -> (contained: bool) {
        let mut i: usize = 0;
        while i < self.len()
            invariant
                i <= self.len(),
                forall|j: int|
                    0 <= j < i ==> #[trigger] call_ensures(
                        <Token as PartialEq>::eq,
                        (&self@[j], token),
                        false,
                    ),
            decreases self.len() - i,
        {
            if self[i].eq(token) {
                return true;
            }
            i = i + 1;
        }
        false
    }
}

impl<const N: usize, Token: PartialEq> TokenSet<Token> for [Token; N] {
    open spec fn inv(&self) -> bool {
        true
    }

    open spec fn holds(&self, token: &Token, contained: bool) -> bool {
        found_in(self@, token, contained)
    }

    fn contains(&self, token: &Token) -> (contained: bool) {
        let mut i: usize = 0;
        while i < N
            invariant
                i <= N,
                self@.len() == N,
                forall|j: int|
                    0 <= j < i ==> #[trigger] call_ensures(
                        <Token as PartialEq>::eq,
                        (&self@[j], token),
                        false,
                    ),
            decreases N - i,
        {
            if self[i].eq(token) {
                return true;
            }
            i = i + 1;
        }
        false
    }
}

impl<T: PartialOrd> TokenSet<T> for Range<T> {
    open spec fn inv(&self) -> bool {
        true
    }

    open spec fn holds(&self, token: &T, contained: bool) -> bool {
        <Range<T> as ContainsSpec<T, T>>::obeys_contains() ==> contained == self.contains_spec(
            token,
        )
    }

    fn contains(&self, token: &T) -> (contained: bool) {
        Range::contains(self, token)
    }
}

impl<T: PartialOrd> TokenSet<T> for RangeInclusive<T> {
    open spec fn inv(&self) -> bool {
        true
    }

    open spec fn holds(&self, token: &T, contained: bool) -> bool {
        <RangeInclusive<T> as ContainsSpec<T, T>>::obeys_contains() ==> contained
            == self.contains_spec(token)
    }

    fn contains(&self, token: &T) -> (contained: bool) {
        RangeInclusive::contains(self, token)
    }
}

/// `core::ops::RangeFull`, the type of `..`: a unit value that nothing is
/// read from.
#[verifier::external_type_specification]
#[verifier::external_body]
pub struct ExRangeFull(RangeFull);

impl<T> TokenSet<T> for RangeFull {
    open spec fn inv(&self) -> bool {
        true
    }

    open spec fn holds(&self, token: &T, contained: bool) -> bool {
        contained
    }

    fn contains(&self, token: &T) -> (contained: bool) {
        true
    }
}

impl<A: TokenSet<Token>, Token> TokenSet<Token> for (A,) {
    open spec fn inv(&self) -> bool {
        self.0.inv()
    }

    open spec fn holds(&self, token: &Token, contained: bool) -> bool {
        self.0.holds(token, contained)
    }

    fn contains(&self, token: &Token) -> (contained: bool) {
        self.0.contains(token)
    }
}

impl<A: TokenSet<Token>, B: TokenSet<Token>, Token> TokenSet<Token> for (A, B) {
    open spec fn inv(&self) -> bool {
        &&& self.0.inv()
        &&& self.1.inv()
    }

    open spec fn holds(&self, token: &Token, contained: bool) -> bool {
        let no_0 = self.0.holds(token, false);
        ||| self.0.holds(token, true) && contained
        ||| no_0 && self.1.holds(token, contained)
    }

    fn contains(&self, token: &Token) -> (contained: bool) {
        self.0.contains(token) || self.1.contains(token)
    }
}

impl<
    A: TokenSet<Token>,
    B: TokenSet<Token>,
    C: TokenSet<Token>,
    Token,
> TokenSet<Token> for (A, B, C) {
    open spec fn inv(&self) -> bool {
        &&& self.0.inv()
        &&& self.1.inv()
        &&& self.2.inv()
    }

    open spec fn holds(&self, token: &Token, contained: bool) -> bool {
        let no_0 = self.0.holds(token, false);
        let no_1 = no_0 && self.1.holds(token, false);
        ||| self.0.holds(token, true) && contained
        ||| no_0 && self.1.holds(token, true) && contained
        ||| no_1 && self.2.holds(token, contained)
    }

    fn contains(&self, token: &Token) -> (contained: bool) {
        self.0.contains(token) || self.1.contains(token) || self.2.contains(token)
    }
}

impl<
    A: TokenSet<Token>,
    B: TokenSet<Token>,
    C: TokenSet<Token>,
    D: TokenSet<Token>,
    Token,
> TokenSet<Token> for (A, B, C, D) {
    open spec fn inv(&self) -> bool {
        &&& self.0.inv()
        &&& self.1.inv()
        &&& self.2.inv()
        &&& self.3.inv()
    }

    open spec fn holds(&self, token: &Token, contained: bool) -> bool {
        let no_0 = self.0.holds(token, false);
        let no_1 = no_0 && self.1.holds(token, false);
        let no_2 = no_1 && self.2.holds(token, false);
        ||| self.0.holds(token, true) && contained
        ||| no_0 && self.1.holds(token, true) && contained
        ||| no_1 && self.2.holds(token, true) && contained
        ||| no_2 && self.3.holds(token, contained)
    }

    fn contains(&self, token: &Token) -> (contained: bool) {
        self.0.contains(token) || self.1.contains(token) || self.2.contains(token)
            || self.3.contains(token)
    }
}

impl<
    A: TokenSet<Token>,
    B: TokenSet<Token>,
    C: TokenSet<Token>,
    D: TokenSet<Token>,
    E: TokenSet<Token>,
    Token,
> TokenSet<Token> for (A, B, C, D, E) {
    open spec fn inv(&self) -> bool {
        &&& self.0.inv()
        &&& self.1.inv()
        &&& self.2.inv()
        &&& self.3.inv()
        &&& self.4.inv()
    }

    open spec fn holds(&self, token: &Token, contained: bool) -> bool {
        let no_0 = self.0.holds(token, false);
        let no_1 = no_0 && self.1.holds(token, false);
        let no_2 = no_1 && self.2.holds(token, false);
        let no_3 = no_2 && self.3.holds(token, false);
        ||| self.0.holds(token, true) && contained
        ||| no_0 && self.1.holds(token, true) && contained
        ||| no_1 && self.2.holds(token, true) && contained
        ||| no_2 && self.3.holds(token, true) && contained
        ||| no_3 && self.4.holds(token, contained)
    }

    fn contains(&self, token: &Token) -> (contained: bool) {
        self.0.contains(token) || self.1.contains(token) || self.2.contains(token)
            || self.3.contains(token) || self.4.contains(token)
    }
}

impl<
    A: TokenSet<Token>,
    B: TokenSet<Token>,
    C: TokenSet<Token>,
    D: TokenSet<Token>,
    E: TokenSet<Token>,
    F: TokenSet<Token>,
    Token,
> TokenSet<Token> for (A, B, C, D, E, F) {
    open spec fn inv(&self) -> bool {
        &&& self.0.inv()
        &&& self.1.inv()
        &&& self.2.inv()
        &&& self.3.inv()
        &&& self.4.inv()
        &&& self.5.inv()
    }

    open spec fn holds(&self, token: &Token, contained: bool) -> bool {
        let no_0 = self.0.holds(token, false);
        let no_1 = no_0 && self.1.holds(token, false);
        let no_2 = no_1 && self.2.holds(token, false);
        let no_3 = no_2 && self.3.holds(token, false);
        let no_4 = no_3 && self.4.holds(token, false);
        ||| self.0.holds(token, true) && contained
        ||| no_0 && self.1.holds(token, true) && contained
        ||| no_1 && self.2.holds(token, true) && contained
        ||| no_2 && self.3.holds(token, true) && contained
        ||| no_3 && self.4.holds(token, true) && contained
        ||| no_4 && self.5.holds(token, contained)
    }

    fn contains(&self, token: &Token) -> (contained: bool) {
        self.0.contains(token) || self.1.contains(token) || self.2.contains(token)
            || self.3.contains(token) || self.4.contains(token) || self.5.contains(token)
    }
}

impl<
    A: TokenSet<Token>,
    B: TokenSet<Token>,
    C: TokenSet<Token>,
    D: TokenSet<Token>,
    E: TokenSet<Token>,
    F: TokenSet<Token>,
    G: TokenSet<Token>,
    Token,
> TokenSet<Token> for (A, B, C, D, E, F, G) {
    open spec fn inv(&self) -> bool {
        &&& self.0.inv()
        &&& self.1.inv()
        &&& self.2.inv()
        &&& self.3.inv()
        &&& self.4.inv()
        &&& self.5.inv()
        &&& self.6.inv()
    }

    open spec fn holds(&self, token: &Token, contained: bool) -> bool {
        let no_0 = self.0.holds(token, false);
        let no_1 = no_0 && self.1.holds(token, false);
        let no_2 = no_1 && self.2.holds(token, false);
        let no_3 = no_2 && self.3.holds(token, false);
        let no_4 = no_3 && self.4.holds(token, false);
        let no_5 = no_4 && self.5.holds(token, false);
        ||| self.0.holds(token, true) && contained
        ||| no_0 && self.1.holds(token, true) && contained
        ||| no_1 && self.2.holds(token, true) && contained
        ||| no_2 && self.3.holds(token, true) && contained
        ||| no_3 && self.4.holds(token, true) && contained
        ||| no_4 && self.5.holds(token, true) && contained
        ||| no_5 && self.6.holds(token, contained)
    }

    fn contains(&self, token: &Token) -> (contained: bool) {
        self.0.contains(token) || self.1.contains(token) || self.2.contains(token)
            || self.3.contains(token) || self.4.contains(token) || self.5.contains(token)
            || self.6.contains(token)
    }
}

impl<
    A: TokenSet<Token>,
    B: TokenSet<Token>,
    C: TokenSet<Token>,
    D: TokenSet<Token>,
    E: TokenSet<Token>,
    F: TokenSet<Token>,
    G: TokenSet<Token>,
    H: TokenSet<Token>,
    Token,
> TokenSet<Token> for (A, B, C, D, E, F, G, H) {
    open spec fn inv(&self) -> bool {
        &&& self.0.inv()
        &&& self.1.inv()
        &&& self.2.inv()
        &&& self.3.inv()
        &&& self.4.inv()
        &&& self.5.inv()
        &&& self.6.inv()
        &&& self.7.inv()
    }

    open spec fn holds(&self, token: &Token, contained: bool) -> bool {
        let no_0 = self.0.holds(token, false);
        let no_1 = no_0 && self.1.holds(token, false);
        let no_2 = no_1 && self.2.holds(token, false);
        let no_3 = no_2 && self.3.holds(token, false);
        let no_4 = no_3 && self.4.holds(token, false);
        let no_5 = no_4 && self.5.holds(token, false);
        let no_6 = no_5 && self.6.holds(token, false);
        ||| self.0.holds(token, true) && contained
        ||| no_0 && self.1.holds(token, true) && contained
        ||| no_1 && self.2.holds(token, true) && contained
        ||| no_2 && self.3.holds(token, true) && contained
        ||| no_3 && self.4.holds(token, true) && contained
        ||| no_4 && self.5.holds(token, true) && contained
        ||| no_5 && self.6.holds(token, true) && contained
        ||| no_6 && self.7.holds(token, contained)
    }

    fn contains(&self, token: &Token) -> (contained: bool) {
        self.0.contains(token) || self.1.contains(token) || self.2.contains(token)
            || self.3.contains(token) || self.4.contains(token) || self.5.contains(token)
            || self.6.contains(token) || self.7.contains(token)
    }
}

/// The complement of a set of tokens.
#[derive(Debug, PartialEq, Eq, PartialOrd, Ord, Hash)]
pub struct Not<T>(pub T);

impl<T: Clone> Clone for Not<T> {
    fn clone(&self) -> (copy: Self)
        ensures
            cloned(self.0, copy.0),
    {
        Not(self.0.clone())
    }
}

impl<T: Copy> Copy for Not<T> {

}

impl<T: TokenSet<Token>, Token> TokenSet<Token> for Not<T> {
    open spec fn inv(&self) -> bool {
        self.0.inv()
    }

    open spec fn holds(&self, token: &Token, contained: bool) -> bool {
        self.0.holds(token, !contained)
    }

    fn contains(&self, token: &Token) -> (contained: bool) {
        !self.0.contains(token)
    }
}

} // verus!
