//! Byte-offset spans and values tagged with the span they were read from.

use vstd::prelude::*;
use std::cmp::Ordering;
use vstd::std_specs::cmp::{PartialEqSpec, PartialEqSpecImpl, PartialOrdSpec, PartialOrdSpecImpl};

verus! {

/// A contiguous region `lo..hi` of the input, in bytes.
#[derive(Debug, Copy, Clone, PartialEq, Eq, Structural)]
pub struct Span {
    pub lo: usize,
    pub hi: usize,
}

impl Span {
    /// A span is well formed when it does not end before it starts.
    pub open spec fn wf(&self) -> bool {
        self.lo <= self.hi
    }

    /// The span that marks a value as a default rather than as read from the input.
    pub open spec fn spec_dummy() -> Span {
        Span { lo: usize::MAX, hi: usize::MAX }
    }

    pub fn new(lo: usize, hi: usize) -> (span: Span)
        requires
            lo <= hi,
        ensures
            span.lo == lo,
            span.hi == hi,
            span.wf(),
    {
        Span { lo, hi }
    }

    /// The sentinel span carried by defaulted values.
    pub fn dummy() -> (span: Span)
        ensures
            span == Span::spec_dummy(),
            span.wf(),
    {
        Span { lo: usize::MAX, hi: usize::MAX }
    }

    pub fn is_dummy(&self) -> (b: bool)
        ensures
            b == (*self == Span::spec_dummy()),
    {
        self.lo == usize::MAX && self.hi == usize::MAX
    }

    /// The number of bytes covered.
    pub fn len(&self) -> (n: usize)
        requires
            self.wf(),
        ensures
            n == self.hi - self.lo,
    {
        self.hi - self.lo
    }
}

/// A value together with the span of the text it came from.
#[derive(Debug, Clone)]
pub struct Spanned<T> {
    pub span: Span,
    pub val: T,
}

impl<T> Spanned<T> {
    /// The value is a default: it carries the sentinel span.
    pub open spec fn is_defaulted(&self) -> bool {
        self.span == Span::spec_dummy()
    }

    pub fn new(span: Span, val: T) -> (s: Spanned<T>)
        ensures
            s.span == span,
            s.val == val,
    {
        Spanned { span, val }
    }

    /// Tags a default value with the sentinel span.
    pub fn defaulted(val: T) -> (s: Spanned<T>)
        ensures
            s.span == Span::spec_dummy(),
            s.val == val,
    {
        Spanned { span: Span::dummy(), val }
    }
}

/// Two values with spans are equal where the values are: the spans do
/// not count.
impl<T: PartialEq> PartialEq for Spanned<T> {
    fn eq(&self, other: &Spanned<T>) -> (r: bool) {
        self.val == other.val
    }
}

impl<T: PartialEq> PartialEqSpecImpl for Spanned<T> {
    open spec fn obeys_eq_spec() -> bool {
        T::obeys_eq_spec()
    }

    open spec fn eq_spec(&self, other: &Spanned<T>) -> bool {
        self.val.eq_spec(&other.val)
    }
}

/// Two values with spans are ordered as the values are.
impl<T: PartialOrd> PartialOrd for Spanned<T> {
    fn partial_cmp(&self, other: &Spanned<T>) -> (r: Option<Ordering>) {
        self.val.partial_cmp(&other.val)
    }
}

impl<T: PartialOrd> PartialOrdSpecImpl for Spanned<T> {
    open spec fn obeys_partial_cmp_spec() -> bool {
        T::obeys_partial_cmp_spec()
    }

    open spec fn partial_cmp_spec(&self, other: &Spanned<T>) -> Option<Ordering> {
        self.val.partial_cmp_spec(&other.val)
    }
}

/// The default of a value with a span is the default value with the
/// sentinel span.
impl<T: Default> Default for Spanned<T> {
    fn default() -> (s: Spanned<T>)
        ensures
            s.span == Span::spec_dummy(),
    {
        Spanned { span: Span::dummy(), val: T::default() }
    }
}

} // verus!
