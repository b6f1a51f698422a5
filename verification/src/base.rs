//! Identifiers, positions and the cancellation signal.

use vstd::prelude::*;

verus! {

/// Names a file of the project.
#[derive(Clone, Copy, Debug, PartialEq, Eq, PartialOrd, Ord, Hash, Structural)]
pub struct FileId(pub u32);

/// Names a source root: a set of files that belong together.
#[derive(Clone, Copy, Debug, PartialEq, Eq, PartialOrd, Ord, Hash, Structural)]
pub struct SourceRootId(pub u32);

/// Names a crate of the project graph.
#[derive(Clone, Copy, Debug, PartialEq, Eq, PartialOrd, Ord, Hash, Structural)]
pub struct CrateId(pub u32);

/// The single signal that crosses the query boundary: the snapshot used for
/// a query is no longer current.
#[derive(Clone, Copy, Debug, PartialEq, Eq, Structural)]
pub struct Canceled;

/// The outcome of a query: its value, or the stale signal.
pub type Cancelable<T> = Result<T, Canceled>;

/// An offset into a text, in bytes.
pub type TextUnit = u32;

/// A range of a text, from `start` up to `end`, with `start <= end`.
#[derive(Clone, Copy, Debug, PartialEq, Eq, Structural)]
pub struct TextRange {
    start: TextUnit,
    end: TextUnit,
}

impl TextRange {
    #[verifier::type_invariant]
    spec fn ordered(self) -> bool {
        self.start <= self.end
    }

    /// The offset at which the range begins.
    pub closed spec fn spec_start(self) -> TextUnit {
        self.start
    }

    /// The offset before which the range ends.
    pub closed spec fn spec_end(self) -> TextUnit {
        self.end
    }

    /// The range from `start` up to `end`.
    pub fn from_to(start: TextUnit, end: TextUnit) -> (range: TextRange)
        requires
            start <= end,
        ensures
            range.spec_start() == start,
            range.spec_end() == end,
    {
        TextRange { start, end }
    }

    /// The range of `len` bytes that begins at `start`, if it ends within
    /// what an offset can hold.
    pub fn offset_len(start: TextUnit, len: TextUnit) -> (range: Option<TextRange>)
        ensures
            match range {
                Some(r) => r.spec_start() == start && r.spec_end() == start + len,
                None => start + len > u32::MAX,
            },
    {
        match start.checked_add(len) {
            Some(end) => Some(TextRange { start, end }),
            None => None,
        }
    }

    /// The offset at which the range begins.
    #[verifier::when_used_as_spec(spec_start)]
    pub fn start(self) -> (r: TextUnit)
        ensures
            r == self.spec_start(),
            r <= self.spec_end(),
    {
        proof {
            use_type_invariant(&self);
        }
        self.start
    }

    /// The offset before which the range ends.
    #[verifier::when_used_as_spec(spec_end)]
    pub fn end(self) -> (r: TextUnit)
        ensures
            r == self.spec_end(),
            self.spec_start() <= r,
    {
        proof {
            use_type_invariant(&self);
        }
        self.end
    }

    /// The number of bytes in the range.
    pub fn len(self) -> (r: TextUnit)
        ensures
            r == self.spec_end() - self.spec_start(),
    {
        proof {
            use_type_invariant(&self);
        }
        self.end - self.start
    }

    /// Whether `offset` lies in the range, its end included.
    pub fn contains_inclusive(self, offset: TextUnit) -> (r: bool)
        ensures
            r == (self.spec_start() <= offset <= self.spec_end()),
    {
        self.start <= offset && offset <= self.end
    }
}

/// A position in a file.
#[derive(Clone, Copy, Debug, PartialEq, Eq, Structural)]
pub struct FilePosition {
    pub file_id: FileId,
    pub offset: TextUnit,
}

/// A range of a file.
#[derive(Clone, Copy, Debug, PartialEq, Eq, Structural)]
pub struct FileRange {
    pub file_id: FileId,
    pub range: TextRange,
}

} // verus!
