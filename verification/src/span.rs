//! Source spans: closed-open character ranges into the path text, kept on
//! every syntax-tree node for tooling such as syntax highlighting.

use vstd::prelude::*;

verus! {

/// A source span in a path: the closed-open character range `start..end`
/// into the source text.
#[derive(Copy, Clone, Debug)]
pub struct Span {
    /// First character index covered
    pub start: usize,
    /// First character index past the covered range
    pub end: usize,
}

impl Span {
    /// Build a span from its character bounds.
    pub fn new(start: usize, end: usize) -> (r: Span)
        ensures
            r.start == start,
            r.end == end,
    {
        Span { start, end }
    }

    /// The smallest span covering both `self` and `other`.
    pub fn join(self, other: Span) -> (r: Span)
        ensures
            r == self.spec_join(other),
    {
        let start = if self.start < other.start {
            self.start
        } else {
            other.start
        };
        let end = if self.end > other.end {
            self.end
        } else {
            other.end
        };
        Span { start, end }
    }

    /// The smallest span covering both `self` and `other`.
    pub open spec fn spec_join(self, other: Span) -> Span {
        Span {
            start: if self.start < other.start {
                self.start
            } else {
                other.start
            },
            end: if self.end > other.end {
                self.end
            } else {
                other.end
            },
        }
    }

    /// The first character index covered.
    pub fn start(&self) -> (r: usize)
        ensures
            r == self.start,
    {
        self.start
    }

    /// The first character index past the covered range.
    pub fn end(&self) -> (r: usize)
        ensures
            r == self.end,
    {
        self.end
    }

    /// The slice of the source text this span covers. The provided string
    /// must be the whole source the span was produced from, and the span
    /// must lie inside it.
    pub fn get_span(self, source: &str) -> (r: &str)
        requires
            self.start <= self.end,
            self.end <= source@.len(),
        ensures
            r@ == source@.subrange(self.start as int, self.end as int),
    {
        source.substring_char(self.start, self.end)
    }
}

/// Any syntax item with a retrievable source span.
pub trait Spanned {
    /// The source span of this item.
    fn span(&self) -> Span;
}

} // verus!
