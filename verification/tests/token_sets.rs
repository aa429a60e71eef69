use parsley6::token_set::{Not, TokenSet};

#[test]
fn a_closure_is_the_set_of_what_it_holds_of() {
    let even = |n: &u8| n % 2 == 0;
    assert!(TokenSet::contains(&even, &4));
    assert!(!TokenSet::contains(&even, &5));
}

#[test]
fn a_slice_is_the_set_of_its_items() {
    let vowels: &[char] = &['a', 'e', 'i', 'o', 'u'];
    assert!(TokenSet::contains(vowels, &'a'));
    assert!(TokenSet::contains(vowels, &'u'));
    assert!(!TokenSet::contains(vowels, &'b'));
    let none: &[char] = &[];
    assert!(!TokenSet::contains(none, &'a'));
}

#[test]
fn an_array_is_the_set_of_its_items() {
    assert!(TokenSet::contains(&['x', 'y'], &'y'));
    assert!(!TokenSet::contains(&['x', 'y'], &'z'));
    assert!(!TokenSet::contains(&[0u8; 0], &0));
}

#[test]
fn a_range_excludes_its_end() {
    assert!(TokenSet::contains(&('a'..'c'), &'a'));
    assert!(TokenSet::contains(&('a'..'c'), &'b'));
    assert!(!TokenSet::contains(&('a'..'c'), &'c'));
    assert!(!TokenSet::contains(&(3u8..3), &3));
}

#[test]
fn an_inclusive_range_includes_its_end() {
    assert!(TokenSet::contains(&('a'..='c'), &'c'));
    assert!(!TokenSet::contains(&('a'..='c'), &'d'));
    assert!(TokenSet::contains(&(3u8..=3), &3));
}

#[test]
fn the_full_range_holds_everything() {
    assert!(TokenSet::contains(&(..), &'a'));
    assert!(TokenSet::contains(&(..), &0u8));
}

#[test]
fn a_tuple_is_the_union_of_its_sets() {
    let word = ('a'..='z', 'A'..='Z', ['_'], |c: &char| c.is_ascii_digit());
    for c in ['a', 'z', 'A', 'Z', '_', '0', '9'] {
        assert!(word.contains(&c));
    }
    for c in [' ', '-', '\u{e9}'] {
        assert!(!word.contains(&c));
    }
    assert!(TokenSet::contains(&(['a'],), &'a'));
    assert!(!TokenSet::contains(&(['a'],), &'b'));
    let eight = (['a'], ['b'], ['c'], ['d'], ['e'], ['f'], ['g'], ['h']);
    assert!(eight.contains(&'a'));
    assert!(eight.contains(&'h'));
    assert!(!eight.contains(&'i'));
}

#[test]
fn not_is_the_complement() {
    let digits = '0'..='9';
    let other = TokenSet::<char>::not(digits);
    assert_eq!(other, Not('0'..='9'));
    assert!(other.contains(&'a'));
    assert!(!other.contains(&'5'));
    let back = TokenSet::<char>::not(other);
    assert!(back.contains(&'5'));
    assert!(!back.contains(&'a'));
}
