use crate::http_range::HttpRange;
use crate::local_bytes::{clamp, range_bytes};
use core::ops::Range;
use vstd::prelude::*;

verus! {

/// Counters of how a client used the bytes it requested.
#[derive(Debug)]
pub struct ReqStats {
    /// Bytes that were fetched and skipped over.
    pub wasted_bytes: u64,
    /// Bytes that were fetched and read.
    pub used_bytes: u64,
    /// Requests sent.
    pub req_count: usize,
}

impl ReqStats {
    /// All counters at zero.
    pub open spec fn zero() -> ReqStats {
        ReqStats { wasted_bytes: 0, used_bytes: 0, req_count: 0 }
    }
}

impl Default for ReqStats {
    fn default() -> (stats: Self)
        ensures
            stats == ReqStats::zero(),
    {
        ReqStats { wasted_bytes: 0, used_bytes: 0, req_count: 0 }
    }
}

/// What a seek has to do to bring the client to the start of a target range.
#[derive(Debug)]
pub enum SeekPlan {
    /// The client already stands at the start of a bounded target that its range
    /// covers: nothing to do.
    Stay,
    /// The target starts at the current position and reaches past the current range:
    /// append it to the current range.
    Append(Range<u64>),
    /// The target lies within the current range: discard bytes up to the given offset.
    FastForward(u64),
    /// The target starts past the end of the current range: request it anew.
    Refetch(Range<u64>),
    /// The target starts inside the current range and ends past it: discard bytes up to
    /// its start, then append it to the current range.
    FastForwardThenAppend(Range<u64>),
    /// The target is open-ended: extend the current range to the end of the resource,
    /// then discard bytes up to the given offset (nothing when the client stands there).
    ExtendThenFastForward(u64),
}

/// The bookkeeping of a streaming range client: the range of the resource that has
/// been requested, the offset of the next byte the reader yields, and usage counters.
///
/// The client itself performs the requests and reads; each of its operations consults
/// this state before the outside work (`begin_*`, `plan_seek`) and updates it after
/// the work succeeded (`finish_*`, `record_read`).
#[derive(Debug)]
pub struct ClientState {
    /// The requested range, `None` before the first request.
    pub range: Option<HttpRange>,
    /// The offset in the resource of the next byte to read.
    pub pos: u64,
    /// Usage counters.
    pub stats: ReqStats,
}

/// `range` contains every byte of `target`.
pub open spec fn covers(range: HttpRange, target: HttpRange) -> bool {
    &&& range.start_spec() <= target.start_spec()
    &&& match (range.end_spec(), target.end_spec()) {
        (None, _) => true,
        (Some(_), None) => false,
        (Some(end), Some(target_end)) => target_end <= end,
    }
}

impl ClientState {
    /// The current range, when it is bounded.
    pub open spec fn bounded_range(self) -> Option<Range<u64>> {
        match self.range {
            Some(HttpRange::Range(range)) => Some(range),
            _ => None,
        }
    }

    /// The state with one more request counted.
    pub open spec fn with_request(self) -> ClientState {
        ClientState {
            stats: ReqStats { req_count: (self.stats.req_count + 1) as usize, ..self.stats },
            ..self
        }
    }

    /// The state once a new range has been requested, before the response arrived.
    pub open spec fn set_range_begun(self, range: Range<u64>) -> ClientState {
        ClientState { pos: range.start, ..self.with_request() }
    }

    /// The state once the response for a new range arrived.
    pub open spec fn set_range_done(self, range: Range<u64>) -> ClientState {
        ClientState { range: Some(HttpRange::Range(range)), ..self }
    }

    /// The state once the bytes up to `to_pos` are counted as wasted.
    pub open spec fn fast_forward_begun(self, to_pos: u64) -> ClientState {
        ClientState {
            stats: ReqStats {
                wasted_bytes: (self.stats.wasted_bytes + (to_pos - self.pos)) as u64,
                ..self.stats
            },
            ..self
        }
    }

    /// The state once the bytes up to `to_pos` have been discarded.
    pub open spec fn fast_forward_done(self, to_pos: u64) -> ClientState {
        ClientState { pos: to_pos, ..self }
    }

    /// The request that extends a bounded range to the end of the resource.
    pub open spec fn extend_request(self) -> HttpRange {
        HttpRange::RangeFrom(self.bounded_range().unwrap().end)
    }

    /// The state once the rest of the resource has been requested.
    pub open spec fn extend_done(self) -> ClientState {
        ClientState {
            range: Some(HttpRange::RangeFrom(self.bounded_range().unwrap().start)),
            ..self
        }
    }

    /// The request that appending `extension` needs: the part of it past the current
    /// range, or nothing when the current range already covers it.
    pub open spec fn append_request(self, extension: Range<u64>) -> Option<Range<u64>> {
        let prev = self.bounded_range().unwrap();
        if prev.end >= extension.end {
            None
        } else {
            Some(Range { start: prev.end, end: extension.end })
        }
    }

    /// The state once the request for `extension` went out (if one was needed).
    pub open spec fn append_begun(self, extension: Range<u64>) -> ClientState {
        if self.append_request(extension) is Some {
            self.with_request()
        } else {
            self
        }
    }

    /// The state once the range has grown to the end of `extension`.
    pub open spec fn append_done(self, extension_end: u64) -> ClientState {
        ClientState {
            range: Some(
                HttpRange::Range(Range { start: self.bounded_range().unwrap().start, end: extension_end }),
            ),
            ..self
        }
    }

    /// The state once `n` more bytes have been read.
    pub open spec fn read_done(self, n: u64) -> ClientState {
        ClientState {
            pos: (self.pos + n) as u64,
            stats: ReqStats { used_bytes: (self.stats.used_bytes + n) as u64, ..self.stats },
            ..self
        }
    }

    /// The client that stays behind after a split: its range ends at the position.
    pub open spec fn split_parent(self) -> ClientState {
        ClientState {
            range: Some(HttpRange::Range(Range { start: self.range.unwrap().start_spec(), end: self.pos })),
            ..self
        }
    }

    /// The client that a split hands out: the rest of the range, from the position on.
    pub open spec fn split_child(self) -> ClientState {
        ClientState {
            range: Some(self.range.unwrap().with_start_spec(self.pos)),
            pos: self.pos,
            stats: ReqStats::zero(),
        }
    }

    /// The steps that bring the client to the start of `target`.
    pub open spec fn seek_plan_spec(self, target: HttpRange) -> SeekPlan {
        let existing = self.bounded_range().unwrap();
        match target {
            HttpRange::Range(r) => {
                if r.start == self.pos {
                    if r.end <= existing.end {
                        SeekPlan::Stay
                    } else {
                        SeekPlan::Append(r)
                    }
                } else if r.end <= existing.end {
                    SeekPlan::FastForward(r.start)
                } else if r.start > existing.end {
                    SeekPlan::Refetch(r)
                } else {
                    SeekPlan::FastForwardThenAppend(r)
                }
            },
            HttpRange::RangeFrom(start) => SeekPlan::ExtendThenFastForward(start),
        }
    }

    /// The state after the steps of `plan` all succeeded.
    pub open spec fn seek_done(self, plan: SeekPlan) -> ClientState {
        match plan {
            SeekPlan::Stay => self,
            SeekPlan::Append(r) => self.append_begun(r).append_done(r.end),
            SeekPlan::FastForward(to) => self.fast_forward_begun(to).fast_forward_done(to),
            SeekPlan::Refetch(r) => self.set_range_begun(r).set_range_done(r),
            SeekPlan::FastForwardThenAppend(r) => {
                let forwarded = self.fast_forward_begun(r.start).fast_forward_done(r.start);
                forwarded.append_begun(r).append_done(r.end)
            },
            SeekPlan::ExtendThenFastForward(to) => {
                let extended = self.with_request().extend_done();
                extended.fast_forward_begun(to).fast_forward_done(to)
            },
        }
    }

    /// The reader is in step with the state: the bytes it has yet to yield are those
    /// of the resource `data` from the position to the end of the range.
    pub open spec fn in_sync(self, data: Seq<u8>, unread: Seq<u8>) -> bool {
        match self.range {
            Some(range) => {
                &&& (range.end_spec() matches Some(end) ==> self.pos <= end)
                &&& unread == range_bytes(data, self.pos, range.end_spec())
            },
            None => unread.len() == 0,
        }
    }

    /// A client that has requested nothing yet.
    pub fn new() -> (state: Self)
        ensures
            state.range is None,
            state.pos == 0,
            state.stats == ReqStats::zero(),
    {
        ClientState { range: None, pos: 0, stats: ReqStats::default() }
    }

    /// Starts a request for `range`: the position moves to its start and the request is
    /// counted. The current range stays until the response arrived
    /// (`finish_set_range`).
    ///
    /// The range must not be empty.
    pub fn begin_set_range(&mut self, range: &Range<u64>)
        requires
            range.start < range.end,
            old(self).stats.req_count < usize::MAX,
        ensures
            *final(self) == old(self).set_range_begun(*range),
    {
        self.pos = range.start;
        self.stats.req_count = self.stats.req_count + 1;
    }

    /// Records that the response for `range` arrived: it becomes the current range.
    pub fn finish_set_range(&mut self, range: Range<u64>)
        ensures
            *final(self) == old(self).set_range_done(range),
    {
        self.range = Some(HttpRange::Range(range));
    }

    /// Starts advancing to `to_pos` without fetching further data: the skipped bytes are
    /// counted as wasted, and their number is returned; the reader has to discard that
    /// many bytes before `finish_fast_forward`.
    ///
    /// `to_pos` must not lie before the current position.
    pub fn begin_fast_forward(&mut self, to_pos: u64) -> (len: u64)
        requires
            to_pos >= old(self).pos,
            old(self).stats.wasted_bytes + (to_pos - old(self).pos) <= u64::MAX,
        ensures
            len == to_pos - old(self).pos,
            *final(self) == old(self).fast_forward_begun(to_pos),
    {
        let len: u64 = to_pos - self.pos;
        self.stats.wasted_bytes = self.stats.wasted_bytes + len;
        len
    }

    /// Records that the bytes up to `to_pos` have been discarded.
    pub fn finish_fast_forward(&mut self, to_pos: u64)
        ensures
            *final(self) == old(self).fast_forward_done(to_pos),
    {
        self.pos = to_pos;
    }

    /// Starts fetching all the bytes to the end of the resource: returns the request,
    /// which starts where the current range ends, and counts it.
    ///
    /// The current range must be set and bounded.
    pub fn begin_extend_to_end(&mut self) -> (request: HttpRange)
        requires
            old(self).bounded_range() is Some,
            old(self).stats.req_count < usize::MAX,
        ensures
            request == old(self).extend_request(),
            old(self).range matches Some(HttpRange::Range(prev)) && request == HttpRange::RangeFrom(
                prev.end,
            ),
            *final(self) == old(self).with_request(),
    {
        let end: u64 = match &self.range {
            Some(HttpRange::Range(prev)) => prev.end,
            _ => 0,
        };
        self.stats.req_count = self.stats.req_count + 1;
        HttpRange::RangeFrom(end)
    }

    /// Records that the rest of the resource arrived: the range becomes open-ended,
    /// with the same start.
    pub fn finish_extend_to_end(&mut self)
        requires
            old(self).bounded_range() is Some,
        ensures
            *final(self) == old(self).extend_done(),
    {
        let start: u64 = match &self.range {
            Some(HttpRange::Range(prev)) => prev.start,
            _ => 0,
        };
        self.range = Some(HttpRange::RangeFrom(start));
    }

    /// Starts appending `extension` to the current range: returns the request for the
    /// bytes of the extension past the current range, and counts it, or returns `None`
    /// when the current range already covers the extension.
    ///
    /// The current range must be set and bounded, and the extension must start within
    /// it or right at its end.
    pub fn begin_append(&mut self, extension: &Range<u64>) -> (request: Option<Range<u64>>)
        requires
            old(self).bounded_range() matches Some(prev) && prev.end >= extension.start,
            old(self).append_request(*extension) is Some ==> old(self).stats.req_count
                < usize::MAX,
        ensures
            request == old(self).append_request(*extension),
            old(self).range matches Some(HttpRange::Range(prev)) && (if prev.end >= extension.end {
                request is None
            } else {
                request == Some(Range { start: prev.end, end: extension.end })
            }),
            *final(self) == old(self).append_begun(*extension),
    {
        let prev_end: u64 = match &self.range {
            Some(HttpRange::Range(prev)) => prev.end,
            _ => 0,
        };
        if prev_end >= extension.end {
            None
        } else {
            self.stats.req_count = self.stats.req_count + 1;
            Some(Range { start: prev_end, end: extension.end })
        }
    }

    /// Records that the appended bytes arrived: the range now ends at `extension_end`.
    pub fn finish_append(&mut self, extension_end: u64)
        requires
            old(self).bounded_range() is Some,
        ensures
            *final(self) == old(self).append_done(extension_end),
    {
        let start: u64 = match &self.range {
            Some(HttpRange::Range(prev)) => prev.start,
            _ => 0,
        };
        self.range = Some(HttpRange::Range(Range { start, end: extension_end }));
    }

    /// Records that the reader yielded `n` more bytes: the position advances by `n`
    /// and the bytes are counted as used.
    ///
    /// A range must have been set.
    pub fn record_read(&mut self, n: u64)
        requires
            old(self).range is Some,
            old(self).pos + n <= u64::MAX,
            old(self).stats.used_bytes + n <= u64::MAX,
        ensures
            *final(self) == old(self).read_done(n),
    {
        self.pos = self.pos + n;
        self.stats.used_bytes = self.stats.used_bytes + n;
    }

    /// Splits off the unread part of the range: afterwards this client's range ends at
    /// the position, and the returned client covers the rest of the range from the
    /// position on, with fresh counters.
    ///
    /// A range must be set, the position must lie after its start and not past its end.
    pub fn split_off(&mut self) -> (child: ClientState)
        requires
            old(self).range matches Some(range) && old(self).pos > range.start_spec() && (
            range.end_spec() matches Some(end) ==> old(self).pos <= end),
        ensures
            *final(self) == old(self).split_parent(),
            child == old(self).split_child(),
    {
        let pos: u64 = self.pos;
        let mut range = self.range.take().unwrap();
        let after = range.split(pos);
        self.range = Some(range);
        ClientState { range: Some(after), pos, stats: ReqStats::default() }
    }

    /// Decides how to bring the client to the start of `target`, reusing the current
    /// range where it overlaps the target.
    ///
    /// The current range must be set and bounded, and the target must not start before
    /// the position.
    pub fn plan_seek(&self, target: &HttpRange) -> (plan: SeekPlan)
        requires
            self.bounded_range() is Some,
            target.start_spec() >= self.pos,
        ensures
            plan == self.seek_plan_spec(*target),
    {
        let existing_end: u64 = match &self.range {
            Some(HttpRange::Range(existing)) => existing.end,
            _ => 0,
        };
        match target {
            HttpRange::Range(r) => {
                if r.start == self.pos {
                    if r.end <= existing_end {
                        SeekPlan::Stay
                    } else {
                        SeekPlan::Append(Range { start: r.start, end: r.end })
                    }
                } else if r.end <= existing_end {
                    SeekPlan::FastForward(r.start)
                } else if r.start > existing_end {
                    SeekPlan::Refetch(Range { start: r.start, end: r.end })
                } else {
                    SeekPlan::FastForwardThenAppend(Range { start: r.start, end: r.end })
                }
            },
            HttpRange::RangeFrom(start) => SeekPlan::ExtendThenFastForward(*start),
        }
    }
}

/// Appending an extension that reaches past the current range requests exactly the
/// bytes that the range gains: the request starts where the range ended and ends where
/// the extension ends, and the range keeps its start.
pub proof fn lemma_append_requests_exactly_the_gain(state: ClientState, extension: Range<u64>)
    requires
        state.bounded_range() matches Some(prev) && prev.end >= extension.start && prev.end
            < extension.end,
    ensures
        ({
            let prev = state.bounded_range().unwrap();
            let request = state.append_request(extension).unwrap();
            let after = state.append_begun(extension).append_done(extension.end);
            &&& request.start == prev.end
            &&& request.end == extension.end
            &&& after.bounded_range() == Some(Range { start: prev.start, end: request.end })
            &&& after.pos == state.pos
        }),
{
}

/// Appending an extension that the current range already covers changes nothing and
/// requests nothing.
pub proof fn lemma_append_within_range_is_noop(state: ClientState, extension: Range<u64>)
    requires
        state.bounded_range() matches Some(prev) && prev.end >= extension.end,
    ensures
        state.append_request(extension) is None,
        state.append_begun(extension) == state,
{
}

/// The steps of a seek plan never move backwards and never re-request bytes of the
/// current range: a new request is only made for a target that starts past the current
/// range, and an append only for a target that reaches past it.
pub proof fn lemma_seek_plan_shape(state: ClientState, target: HttpRange)
    requires
        state.bounded_range() is Some,
        target.start_spec() >= state.pos,
    ensures
        ({
            let existing = state.bounded_range().unwrap();
            match state.seek_plan_spec(target) {
                SeekPlan::Stay => target.start_spec() == state.pos,
                SeekPlan::Append(r) => r.start == state.pos && r.end > existing.end && target
                    == HttpRange::Range(r),
                SeekPlan::FastForward(to) => {
                    &&& to == target.start_spec()
                    &&& to > state.pos
                    &&& target.end_spec() matches Some(end) && end <= existing.end
                },
                SeekPlan::Refetch(r) => r.start > existing.end && target == HttpRange::Range(r),
                SeekPlan::FastForwardThenAppend(r) => state.pos < r.start <= existing.end
                    < r.end && target == HttpRange::Range(r),
                SeekPlan::ExtendThenFastForward(to) => to >= state.pos && target
                    == HttpRange::RangeFrom(to),
            }
        }),
{
}

/// A seek brings the client to the start of the target, with a range that covers the
/// target, whenever the current range starts at or before the position; an open-ended
/// target always leaves the client with an open-ended range.
pub proof fn lemma_seek_reaches_target(state: ClientState, target: HttpRange)
    requires
        state.bounded_range() matches Some(existing) && existing.start <= state.pos,
        target.start_spec() >= state.pos,
    ensures
        ({
            let after = state.seek_done(state.seek_plan_spec(target));
            &&& after.pos == target.start_spec()
            &&& after.range matches Some(range) && covers(range, target)
        }),
{
}

/// After a new range has been requested and its bytes arrived, the reader is in step
/// with the state.
pub proof fn lemma_set_range_in_sync(state: ClientState, data: Seq<u8>, range: Range<u64>)
    requires
        range.start < range.end,
    ensures
        state.set_range_begun(range).set_range_done(range).in_sync(
            data,
            range_bytes(data, range.start, Some(range.end)),
        ),
{
}

/// Reading keeps the reader in step, and the bytes read are those of the resource at
/// the position: the `i`-th byte read is the byte at offset `pos + i`.
pub proof fn lemma_read_in_sync(state: ClientState, data: Seq<u8>, unread: Seq<u8>, n: u64)
    requires
        state.range is Some,
        state.in_sync(data, unread),
        n <= unread.len(),
        state.pos + n <= u64::MAX,
    ensures
        state.read_done(n).in_sync(data, unread.skip(n as int)),
        forall|i: int| 0 <= i < n ==> #[trigger] unread[i] == data[state.pos + i],
{
    let len: int = data.len() as int;
    let range = state.range.unwrap();
    let stop: int = match range.end_spec() {
        Some(e) => clamp(e as int, len),
        None => len,
    };
    if n > 0 {
        assert(state.pos <= len);
    }
    assert(unread.skip(n as int) =~= data.subrange(clamp((state.pos + n) as int, len), stop));
}

/// Discarding the bytes up to `to_pos` (all the unread bytes when fewer remain) keeps
/// the reader in step, when `to_pos` does not lie past the end of a bounded range.
pub proof fn lemma_fast_forward_in_sync(
    state: ClientState,
    data: Seq<u8>,
    unread: Seq<u8>,
    to_pos: u64,
)
    requires
        state.range is Some,
        state.in_sync(data, unread),
        to_pos >= state.pos,
        state.range.unwrap().end_spec() matches Some(end) ==> to_pos <= end,
    ensures
        ({
            let discarded: int = if to_pos - state.pos <= unread.len() {
                (to_pos - state.pos) as int
            } else {
                unread.len() as int
            };
            state.fast_forward_begun(to_pos).fast_forward_done(to_pos).in_sync(
                data,
                unread.skip(discarded),
            )
        }),
{
    let len: int = data.len() as int;
    let range = state.range.unwrap();
    let stop: int = match range.end_spec() {
        Some(e) => clamp(e as int, len),
        None => len,
    };
    let discarded: int = if to_pos - state.pos <= unread.len() {
        (to_pos - state.pos) as int
    } else {
        unread.len() as int
    };
    assert(unread.skip(discarded) =~= data.subrange(clamp(to_pos as int, len), stop));
}

/// Appending an extension keeps the reader in step, once the bytes requested for it
/// are chained behind the unread bytes.
pub proof fn lemma_append_in_sync(
    state: ClientState,
    data: Seq<u8>,
    unread: Seq<u8>,
    extension: Range<u64>,
)
    requires
        state.in_sync(data, unread),
        state.bounded_range() matches Some(prev) && prev.end >= extension.start && prev.end
            < extension.end,
    ensures
        state.append_begun(extension).append_done(extension.end).in_sync(
            data,
            unread + range_bytes(
                data,
                state.append_request(extension).unwrap().start,
                Some(state.append_request(extension).unwrap().end),
            ),
        ),
{
    let prev = state.bounded_range().unwrap();
    crate::local_bytes::lemma_adjacent_ranges_concatenate(
        data,
        state.pos,
        prev.end,
        Some(extension.end),
    );
}

/// Extending to the end of the resource keeps the reader in step, once the bytes from
/// the end of the range on are chained behind the unread bytes.
pub proof fn lemma_extend_in_sync(state: ClientState, data: Seq<u8>, unread: Seq<u8>)
    requires
        state.in_sync(data, unread),
        state.bounded_range() is Some,
    ensures
        state.with_request().extend_done().in_sync(
            data,
            unread + range_bytes(data, state.extend_request().start_spec(), None),
        ),
{
    let prev = state.bounded_range().unwrap();
    crate::local_bytes::lemma_adjacent_ranges_concatenate(data, state.pos, prev.end, None);
}

/// Splitting hands the unread bytes to the child: the parent has nothing left to read
/// and is in step with an empty reader, the child is in step with the old reader.
pub proof fn lemma_split_in_sync(state: ClientState, data: Seq<u8>, unread: Seq<u8>)
    requires
        state.in_sync(data, unread),
        state.range matches Some(range) && state.pos > range.start_spec(),
    ensures
        state.split_parent().in_sync(data, Seq::empty()),
        state.split_child().in_sync(data, unread),
{
    assert(range_bytes(data, state.pos, Some(state.pos)) =~= Seq::<u8>::empty());
}

/// A split cuts the range at the position: the parent's range ends where the child's
/// begins, and re-attaching the child's end to the parent's range gives the old range.
pub proof fn lemma_split_partitions_range(state: ClientState)
    requires
        state.range matches Some(range) && state.pos > range.start_spec() && (
        range.end_spec() matches Some(end) ==> state.pos <= end),
    ensures
        ({
            let parent = state.split_parent().range.unwrap();
            let child = state.split_child().range.unwrap();
            &&& parent.end_spec() == Some(child.start_spec())
            &&& parent.end_spec() == Some(state.pos)
            &&& parent.with_end_spec(child.end_spec()) == state.range.unwrap()
        }),
{
}

/// The unread bytes left after discarding up to `to_pos`.
pub open spec fn skip_to(unread: Seq<u8>, pos: u64, to_pos: u64) -> Seq<u8> {
    if to_pos - pos <= unread.len() {
        unread.skip(to_pos - pos)
    } else {
        unread.skip(unread.len() as int)
    }
}

/// The bytes the reader holds once the steps of a seek plan succeeded: what stays of
/// the unread bytes after discarding, followed by what the plan's requests return.
pub open spec fn seek_unread(state: ClientState, data: Seq<u8>, unread: Seq<u8>, plan: SeekPlan) -> Seq<u8> {
    let existing = state.bounded_range().unwrap();
    match plan {
        SeekPlan::Stay => unread,
        SeekPlan::Append(r) => unread + range_bytes(data, existing.end, Some(r.end)),
        SeekPlan::FastForward(to) => skip_to(unread, state.pos, to),
        SeekPlan::Refetch(r) => range_bytes(data, r.start, Some(r.end)),
        SeekPlan::FastForwardThenAppend(r) => skip_to(unread, state.pos, r.start) + range_bytes(
            data,
            existing.end,
            Some(r.end),
        ),
        SeekPlan::ExtendThenFastForward(to) => skip_to(
            unread + range_bytes(data, existing.end, None),
            state.pos,
            to,
        ),
    }
}

/// A seek keeps the reader in step: once its steps succeeded, the bytes the reader
/// holds are those of the resource from the new position to the end of the new range.
/// Excluded are targets that end before they start, and an empty target past the
/// current range, on which the request of the seek refuses to start.
pub proof fn lemma_seek_in_sync(state: ClientState, data: Seq<u8>, unread: Seq<u8>, target: HttpRange)
    requires
        state.in_sync(data, unread),
        state.bounded_range() is Some,
        target.start_spec() >= state.pos,
        target.end_spec() matches Some(end) ==> target.start_spec() <= end,
        state.seek_plan_spec(target) matches SeekPlan::Refetch(r) ==> r.start < r.end,
    ensures
        ({
            let plan = state.seek_plan_spec(target);
            state.seek_done(plan).in_sync(data, seek_unread(state, data, unread, plan))
        }),
{
    let plan = state.seek_plan_spec(target);
    let existing = state.bounded_range().unwrap();
    match plan {
        SeekPlan::Stay => {},
        SeekPlan::Append(r) => {
            lemma_append_in_sync(state, data, unread, r);
        },
        SeekPlan::FastForward(to) => {
            lemma_fast_forward_in_sync(state, data, unread, to);
        },
        SeekPlan::Refetch(r) => {
            lemma_set_range_in_sync(state, data, r);
        },
        SeekPlan::FastForwardThenAppend(r) => {
            lemma_fast_forward_in_sync(state, data, unread, r.start);
            let forwarded = state.fast_forward_begun(r.start).fast_forward_done(r.start);
            lemma_append_in_sync(forwarded, data, skip_to(unread, state.pos, r.start), r);
        },
        SeekPlan::ExtendThenFastForward(to) => {
            lemma_extend_in_sync(state, data, unread);
            let extended = state.with_request().extend_done();
            lemma_fast_forward_in_sync(
                extended,
                data,
                unread + range_bytes(data, existing.end, None),
                to,
            );
        },
    }
}

/// Fast forwarding to the position changes nothing, neither the state nor the reader.
pub proof fn lemma_fast_forward_to_position_is_noop(state: ClientState, unread: Seq<u8>)
    ensures
        state.fast_forward_begun(state.pos).fast_forward_done(state.pos) == state,
        skip_to(unread, state.pos, state.pos) == unread,
{
    assert(unread.skip(0) =~= unread);
}

/// Two fast forwards, first to `a` then to `b`, act as one fast forward to `b`: the
/// same position, range, counters and unread bytes. The wasted-byte counter must hold
/// the whole distance, as the single fast forward requires.
pub proof fn lemma_fast_forwards_compose(state: ClientState, unread: Seq<u8>, a: u64, b: u64)
    requires
        state.pos <= a <= b,
        state.stats.wasted_bytes + (b - state.pos) <= u64::MAX,
    ensures
        ({
            let first = state.fast_forward_begun(a).fast_forward_done(a);
            &&& first.fast_forward_begun(b).fast_forward_done(b) == state.fast_forward_begun(
                b,
            ).fast_forward_done(b)
            &&& skip_to(skip_to(unread, state.pos, a), a, b) == skip_to(unread, state.pos, b)
        }),
{
    let once = skip_to(unread, state.pos, a);
    assert(skip_to(once, a, b) =~= skip_to(unread, state.pos, b));
}

/// The request that extends a bounded range `start..end` to the end of the resource
/// asks for every byte from `end` on, wherever the client stands: nothing the range
/// holds is requested again, and no byte after it is skipped. Together with the bytes
/// of the range, the response holds exactly the bytes from the start of the range to the
/// end of the resource.
pub proof fn lemma_extend_request_starts_at_range_end(state: ClientState, data: Seq<u8>)
    requires
        state.bounded_range() matches Some(prev) && prev.start <= prev.end,
    ensures
        ({
            let prev = state.bounded_range().unwrap();
            &&& state.extend_request() == HttpRange::RangeFrom(prev.end)
            &&& state.extend_request().end_spec() is None
            &&& range_bytes(data, prev.start, Some(prev.end)) + range_bytes(
                data,
                state.extend_request().start_spec(),
                None,
            ) == range_bytes(data, prev.start, None)
        }),
{
    let prev = state.bounded_range().unwrap();
    crate::local_bytes::lemma_adjacent_ranges_concatenate(data, prev.start, prev.end, None);
}

/// Starting a request for a range moves the position to the start of that range and
/// counts exactly one request; the range in hand and the byte counters stay. When the
/// response arrived, that range is the current range, and nothing else changes.
pub proof fn lemma_set_range_moves_to_start(state: ClientState, range: Range<u64>)
    requires
        state.stats.req_count < usize::MAX,
    ensures
        ({
            let begun = state.set_range_begun(range);
            let done = begun.set_range_done(range);
            &&& begun.pos == range.start
            &&& begun.range == state.range
            &&& begun.stats.req_count == state.stats.req_count + 1
            &&& begun.stats.used_bytes == state.stats.used_bytes
            &&& begun.stats.wasted_bytes == state.stats.wasted_bytes
            &&& done.range == Some(HttpRange::Range(range))
            &&& done.pos == range.start
            &&& done.stats == begun.stats
        }),
{
}

/// A fast forward to `to_pos` counts exactly the skipped distance as wasted, requests
/// nothing, keeps the range, and leaves the client at `to_pos`.
pub proof fn lemma_fast_forward_counts_the_skip(state: ClientState, to_pos: u64)
    requires
        to_pos >= state.pos,
        state.stats.wasted_bytes + (to_pos - state.pos) <= u64::MAX,
    ensures
        ({
            let done = state.fast_forward_begun(to_pos).fast_forward_done(to_pos);
            &&& done.pos == to_pos
            &&& done.range == state.range
            &&& done.stats.wasted_bytes == state.stats.wasted_bytes + (to_pos - state.pos)
            &&& done.stats.used_bytes == state.stats.used_bytes
            &&& done.stats.req_count == state.stats.req_count
        }),
{
}

/// Reading `n` bytes advances the position by `n` and counts `n` used bytes; the range,
/// the wasted bytes and the requests stay.
pub proof fn lemma_read_counts_the_bytes(state: ClientState, n: u64)
    requires
        state.pos + n <= u64::MAX,
        state.stats.used_bytes + n <= u64::MAX,
    ensures
        ({
            let done = state.read_done(n);
            &&& done.pos == state.pos + n
            &&& done.stats.used_bytes == state.stats.used_bytes + n
            &&& done.range == state.range
            &&& done.stats.wasted_bytes == state.stats.wasted_bytes
            &&& done.stats.req_count == state.stats.req_count
        }),
{
}

/// Extending to the end counts exactly one request and turns the bounded range
/// `start..end` into the open-ended `start..`; appending up to `extension_end` turns it
/// into `start..extension_end`. Neither moves the position or counts bytes.
pub proof fn lemma_growing_keeps_start_and_position(state: ClientState, extension_end: u64)
    requires
        state.bounded_range() is Some,
        state.stats.req_count < usize::MAX,
    ensures
        ({
            let prev = state.bounded_range().unwrap();
            let extended = state.with_request().extend_done();
            let appended = state.append_done(extension_end);
            &&& extended.range == Some(HttpRange::RangeFrom(prev.start))
            &&& extended.pos == state.pos
            &&& extended.stats.req_count == state.stats.req_count + 1
            &&& extended.stats.used_bytes == state.stats.used_bytes
            &&& extended.stats.wasted_bytes == state.stats.wasted_bytes
            &&& appended.range == Some(HttpRange::Range(Range { start: prev.start, end: extension_end }))
            &&& appended.pos == state.pos
            &&& appended.stats == state.stats
        }),
{
}

/// A split leaves both clients at the position; the parent keeps its counters and the
/// child starts with all counters at zero.
pub proof fn lemma_split_keeps_position(state: ClientState)
    requires
        state.range is Some,
    ensures
        state.split_parent().pos == state.pos,
        state.split_parent().stats == state.stats,
        state.split_child().pos == state.pos,
        state.split_child().stats.req_count == 0,
        state.split_child().stats.used_bytes == 0,
        state.split_child().stats.wasted_bytes == 0,
{
}

} // verus!
