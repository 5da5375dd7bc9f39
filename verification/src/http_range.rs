use core::ops::Range;
use vstd::prelude::*;

verus! {

/// A byte range of a remote resource, as sent in an HTTP `Range` header.
///
/// It is either bounded (`start..end`, `end` exclusive) or open-ended
/// (every byte from `start` to the end of the resource).
#[derive(Debug)]
pub enum HttpRange {
    /// The bytes `start..end`.
    Range(Range<u64>),
    /// The bytes from the given offset to the end of the resource (`start..`).
    RangeFrom(u64),
}

impl HttpRange {
    /// The first byte offset of the range.
    pub open spec fn start_spec(&self) -> u64 {
        match self {
            HttpRange::Range(range) => range.start,
            HttpRange::RangeFrom(start) => *start,
        }
    }

    /// The exclusive end of the range, `None` for an open-ended range.
    pub open spec fn end_spec(&self) -> Option<u64> {
        match self {
            HttpRange::Range(range) => Some(range.end),
            HttpRange::RangeFrom(_) => None,
        }
    }

    /// The range with the same start and the given end.
    pub open spec fn with_end_spec(self, end: Option<u64>) -> HttpRange {
        match end {
            Some(end) => HttpRange::Range(Range { start: self.start_spec(), end }),
            None => HttpRange::RangeFrom(self.start_spec()),
        }
    }

    /// The first byte offset of the range.
    #[verifier::when_used_as_spec(start_spec)]
    pub fn start(&self) -> (start: u64)
        ensures
            start == self.start_spec(),
    {
        match self {
            HttpRange::Range(range) => range.start,
            HttpRange::RangeFrom(start) => *start,
        }
    }

    /// The exclusive end of the range, `None` when the range is open-ended.
    #[verifier::when_used_as_spec(end_spec)]
    pub fn end(&self) -> (end: Option<u64>)
        ensures
            end == self.end_spec(),
    {
        match self {
            HttpRange::Range(range) => Some(range.end),
            HttpRange::RangeFrom(_) => None,
        }
    }

    /// Keeps the start of the range and replaces its end: bounded by `Some(end)`,
    /// open-ended by `None`.
    pub fn with_end(self, end: Option<u64>) -> (res: Self)
        ensures
            res == self.with_end_spec(end),
            res.start_spec() == self.start_spec(),
            res.end_spec() == end,
    {
        match end {
            Some(end) => HttpRange::Range(Range { start: self.start(), end }),
            None => HttpRange::RangeFrom(self.start()),
        }
    }

    /// Cuts the range at `new_end`: afterwards `self` covers `start..new_end`, and the
    /// returned range covers the rest, from `new_end` to the old end (bounded or not).
    ///
    /// `new_end` must lie after the start, and not past the end of a bounded range.
    pub fn split(&mut self, new_end: u64) -> (after: Self)
        requires
            new_end > old(self).start_spec(),
            old(self).end_spec() matches Some(end) ==> new_end <= end,
        ensures
            *final(self) == HttpRange::Range(Range { start: old(self).start_spec(), end: new_end }),
            after == old(self).with_start_spec(new_end),
            after.start_spec() == new_end,
            after.end_spec() == old(self).end_spec(),
    {
        match self {
            HttpRange::Range(range) => {
                let old_end: u64 = range.end;
                range.end = new_end;
                HttpRange::Range(Range { start: new_end, end: old_end })
            },
            HttpRange::RangeFrom(start) => {
                let start: u64 = *start;
                *self = HttpRange::Range(Range { start, end: new_end });
                HttpRange::RangeFrom(new_end)
            },
        }
    }

    /// The range with the same end and the given start.
    pub open spec fn with_start_spec(self, start: u64) -> HttpRange {
        match self {
            HttpRange::Range(range) => HttpRange::Range(Range { start, end: range.end }),
            HttpRange::RangeFrom(_) => HttpRange::RangeFrom(start),
        }
    }
}

impl Clone for HttpRange {
    fn clone(&self) -> (res: Self)
        ensures
            res == *self,
    {
        match self {
            HttpRange::Range(range) => HttpRange::Range(Range { start: range.start, end: range.end }),
            HttpRange::RangeFrom(start) => HttpRange::RangeFrom(*start),
        }
    }
}

impl From<Range<u64>> for HttpRange {
    fn from(value: Range<u64>) -> (res: Self) {
        HttpRange::Range(value)
    }
}

impl vstd::std_specs::convert::FromSpecImpl<Range<u64>> for HttpRange {
    open spec fn obeys_from_spec() -> bool {
        true
    }

    open spec fn from_spec(value: Range<u64>) -> HttpRange {
        HttpRange::Range(value)
    }
}

/// Replacing the end of a range by its own end gives the range back.
pub proof fn lemma_with_own_end(range: HttpRange)
    ensures
        range.with_end_spec(range.end_spec()) == range,
{
}

/// Splitting a range at an inner point and re-attaching the end of the second part
/// to the first part gives the original range back: no byte is lost or repeated.
pub proof fn lemma_split_rejoins(before: HttpRange, first: HttpRange, second: HttpRange, at: u64)
    requires
        at > before.start_spec(),
        before.end_spec() matches Some(end) ==> at <= end,
        first == HttpRange::Range(Range { start: before.start_spec(), end: at }),
        second.start_spec() == at,
        second.end_spec() == before.end_spec(),
    ensures
        first.with_end_spec(second.end_spec()) == before,
        first.end_spec() == Some(second.start_spec()),
{
}

} // verus!
