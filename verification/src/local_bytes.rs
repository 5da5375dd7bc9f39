use core::ops::Range;
use vstd::prelude::*;

verus! {

/// `x`, lowered to `len` when it lies past `len`.
pub open spec fn clamp(x: int, len: int) -> int {
    if x > len {
        len
    } else {
        x
    }
}

/// The bytes of `data` that a server returns for a request of `start..end`
/// (`start..` when `end` is `None`): a request past the end of the resource is cut
/// at its end.
pub open spec fn range_bytes(data: Seq<u8>, start: u64, end: Option<u64>) -> Seq<u8> {
    let len: int = data.len() as int;
    let stop: int = match end {
        Some(e) => clamp(e as int, len),
        None => len,
    };
    data.subrange(clamp(start as int, len), stop)
}

/// A byte source that serves ranges of a resource held in memory, as a web server
/// serves ranges of a file.
pub struct LocalBytesClient {
    pub bytes: Vec<u8>,
}

impl LocalBytesClient {
    /// A source serving the given bytes.
    pub fn new(bytes: Vec<u8>) -> (client: Self)
        ensures
            client.bytes@ == bytes@,
    {
        LocalBytesClient { bytes }
    }

    /// When requesting bytes _beyond_ a file's length, a web server typically ignores the
    /// extra request and just returns up until the end of the file.
    ///
    /// This method does similarly: both ends of the range are lowered to the length of
    /// the resource when they lie past it.
    pub fn clamp_range(&self, range: &mut Range<u64>)
        ensures
            final(range).start == clamp(old(range).start as int, self.bytes@.len() as int),
            final(range).end == clamp(old(range).end as int, self.bytes@.len() as int),
    {
        let len: u64 = self.bytes.len() as u64;
        if range.start > len {
            range.start = len;
        }
        if range.end > len {
            range.end = len;
        }
    }

    /// Lowers the start of an open-ended range to the length of the resource when it
    /// lies past it.
    pub fn clamp_range_from(&self, start: &mut u64)
        ensures
            *final(start) == clamp(*old(start) as int, self.bytes@.len() as int),
    {
        let len: u64 = self.bytes.len() as u64;
        if *start > len {
            *start = len;
        }
    }

    /// The bytes `start..end` of the resource, cut at its end.
    ///
    /// The range, once cut, must not run backwards.
    pub fn get_byte_range(&self, range: Range<u64>) -> (data: Vec<u8>)
        requires
            clamp(range.start as int, self.bytes@.len() as int) <= clamp(
                range.end as int,
                self.bytes@.len() as int,
            ),
        ensures
            data@ == range_bytes(self.bytes@, range.start, Some(range.end)),
    {
        let mut range = range;
        self.clamp_range(&mut range);
        let len: usize = self.bytes.len();
        assert(range.start <= len && range.end <= len);
        self.copy_out(range.start as usize, range.end as usize)
    }

    /// The bytes from `start` to the end of the resource.
    pub fn get_byte_range_from(&self, start: u64) -> (data: Vec<u8>)
        ensures
            data@ == range_bytes(self.bytes@, start, None),
    {
        let mut start = start;
        self.clamp_range_from(&mut start);
        self.copy_out(start as usize, self.bytes.len())
    }

    fn copy_out(&self, from: usize, to: usize) -> (data: Vec<u8>)
        requires
            from <= to <= self.bytes@.len(),
        ensures
            data@ == self.bytes@.subrange(from as int, to as int),
    {
        let mut data: Vec<u8> = Vec::new();
        let mut i: usize = from;
        while i < to
            invariant
                from <= i <= to <= self.bytes@.len(),
                data@ == self.bytes@.subrange(from as int, i as int),
            decreases to - i,
        {
            data.push(self.bytes[i]);
            i = i + 1;
        }
        data
    }
}

/// Two adjacent requests return, together, what the request spanning both returns.
pub proof fn lemma_adjacent_ranges_concatenate(data: Seq<u8>, a: u64, b: u64, c: Option<u64>)
    requires
        a <= b,
        c matches Some(c) ==> b <= c,
    ensures
        range_bytes(data, a, Some(b)) + range_bytes(data, b, c) == range_bytes(data, a, c),
{
    let len: int = data.len() as int;
    let stop: int = match c {
        Some(e) => clamp(e as int, len),
        None => len,
    };
    assert(data.subrange(clamp(a as int, len), clamp(b as int, len)) + data.subrange(
        clamp(b as int, len),
        stop,
    ) =~= data.subrange(clamp(a as int, len), stop));
}

/// Within the resource, a request returns exactly as many bytes as it asks for.
pub proof fn lemma_range_bytes_len(data: Seq<u8>, a: u64, b: u64)
    requires
        a <= b <= data.len(),
    ensures
        range_bytes(data, a, Some(b)).len() == b - a,
        forall|i: int| 0 <= i < b - a ==> #[trigger] range_bytes(data, a, Some(b))[i] == data[a + i],
{
}

/// Cutting at the end of the resource keeps a bound within it and lowers one past it to
/// the end: the smaller of the bound and the length.
pub proof fn lemma_clamp_is_min(x: int, len: int)
    ensures
        clamp(x, len) == vstd::math::min(x, len),
        x <= len ==> clamp(x, len) == x,
        x > len ==> clamp(x, len) == len,
{
}

/// A request that reaches past the end of the resource returns the bytes from its start
/// to the end of the resource, as a web server does, and a request that starts past the
/// end returns nothing.
pub proof fn lemma_request_past_end_is_cut(data: Seq<u8>, start: u64, end: u64)
    requires
        start <= data.len() <= end,
    ensures
        range_bytes(data, start, Some(end)) == data.subrange(start as int, data.len() as int),
        range_bytes(data, start, None) == data.subrange(start as int, data.len() as int),
        range_bytes(data, end, None).len() == 0,
{
}

} // verus!
