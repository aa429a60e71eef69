//! Slices that can be cut at a length.

use vstd::prelude::*;
use vstd::slice::slice_subrange;
use vstd::string::StringSliceAdditionalSpecFns;
use vstd::utf8::is_char_boundary;

use crate::sealed::Sealed;

verus! {

/// A slice, namely `[T]` or [`str`].
pub trait Slice: Sealed {
    /// Whether the slice can be cut after `len` units: bytes of a `str`,
    /// items of a `[T]`.
    spec fn can_cut(&self, len: usize) -> bool;

    /// Whether `prefix` is the first `len` units of the slice.
    spec fn is_prefix(&self, len: usize, prefix: &Self) -> bool;

    /// The first `len` units of the slice, if it can be cut there.
    fn slice_prefix(&self, len: usize) -> (prefix: Option<&Self>)
        ensures
            prefix is Some <==> self.can_cut(len),
            prefix matches Some(cut) ==> self.is_prefix(len, cut),
    ;
}

impl Sealed for str {

}

impl Slice for str {
    open spec fn can_cut(&self, len: usize) -> bool {
        is_char_boundary(self.spec_bytes(), len as int)
    }

    open spec fn is_prefix(&self, len: usize, prefix: &Self) -> bool {
        prefix.spec_bytes() == self.spec_bytes().subrange(0, len as int)
    }

    fn slice_prefix(&self, len: usize) -> (prefix: Option<&Self>) {
        if self.is_char_boundary(len) {
            let (prefix, _) = self.split_at(len);
            Some(prefix)
        } else {
            None
        }
    }
}

impl<T> Sealed for [T] {

}

impl<T> Slice for [T] {
    open spec fn can_cut(&self, len: usize) -> bool {
        len <= self@.len()
    }

    open spec fn is_prefix(&self, len: usize, prefix: &Self) -> bool {
        prefix@ == self@.subrange(0, len as int)
    }

    fn slice_prefix(&self, len: usize) -> (prefix: Option<&Self>) {
        if len <= self.len() {
            Some(slice_subrange(self, 0, len))
        } else {
            None
        }
    }
}

} // verus!
