use vstd::math::min;
use vstd::prelude::*;

verus! {

/// The bytes of a received body chunk that a reader has not handed out yet.
///
/// A reader over a stream of chunks copies from this buffer first, and pulls the next
/// chunk from the stream only when the buffer is empty.
///
/// The buffer keeps a ghost record of every chunk it received and of every byte it
/// handed out, in order; what it handed out, followed by what is pending, is always
/// what it received: over any sequence of stores and takes, no byte is lost, repeated
/// or reordered.
pub struct PendingChunk {
    pending: Option<Vec<u8>>,
    received: Ghost<Seq<u8>>,
    handed: Ghost<Seq<u8>>,
}

impl View for PendingChunk {
    type V = Seq<u8>;

    closed spec fn view(&self) -> Seq<u8> {
        match self.pending {
            Some(chunk) => chunk@,
            None => Seq::empty(),
        }
    }
}

/// How many bytes a reader with room for `buf_len` bytes gets out of `pending` bytes.
pub open spec fn handed_out(pending: nat, buf_len: usize) -> int {
    if pending < buf_len {
        pending as int
    } else {
        buf_len as int
    }
}

impl PendingChunk {
    /// A stored chunk is never empty, and the bytes handed out followed by the pending
    /// bytes are the bytes received.
    #[verifier::type_invariant]
    spec fn wf(self) -> bool {
        &&& self.pending matches Some(chunk) ==> chunk@.len() > 0
        &&& self.handed@ + self.view() == self.received@
    }

    /// Every chunk stored so far, concatenated in the order they were stored.
    pub closed spec fn received(&self) -> Seq<u8> {
        self.received@
    }

    /// Every byte handed out so far, in the order it was handed out.
    pub closed spec fn handed(&self) -> Seq<u8> {
        self.handed@
    }

    /// A buffer that has received nothing.
    pub fn new() -> (buffer: Self)
        ensures
            buffer@ == Seq::<u8>::empty(),
            buffer.received() == Seq::<u8>::empty(),
            buffer.handed() == Seq::<u8>::empty(),
    {
        PendingChunk { pending: None, received: Ghost(Seq::empty()), handed: Ghost(Seq::empty()) }
    }

    /// Whether the buffer holds nothing.
    pub fn is_empty(&self) -> (empty: bool)
        ensures
            empty == (self@.len() == 0),
            self.handed() + self@ == self.received(),
    {
        proof {
            use_type_invariant(self);
        }
        self.pending.is_none()
    }

    /// Stores the next chunk of the stream. The buffer must be empty, and the chunk must
    /// not be.
    pub fn store_chunk(&mut self, chunk: Vec<u8>)
        requires
            old(self)@.len() == 0,
            chunk@.len() > 0,
        ensures
            final(self)@ == chunk@,
            final(self).received() == old(self).received() + chunk@,
            final(self).handed() == old(self).handed(),
            final(self).handed() + final(self)@ == final(self).received(),
    {
        proof {
            use_type_invariant(&*self);
            assert(self.handed@ + chunk@ =~= self.received@ + chunk@);
        }
        *self = PendingChunk {
            pending: Some(chunk),
            received: Ghost(self.received@ + chunk@),
            handed: self.handed,
        };
    }

    /// Hands out the first `buf_len` pending bytes (all of them when fewer are pending),
    /// or `None` when nothing is pending. What is handed out followed by what stays
    /// pending is what was pending.
    pub fn take_up_to(&mut self, buf_len: usize) -> (copied: Option<Vec<u8>>)
        ensures
            copied is Some <==> old(self)@.len() > 0,
            copied matches Some(out) ==> out@ == old(self)@.take(
                handed_out(old(self)@.len(), buf_len),
            ),
            final(self)@ == old(self)@.skip(handed_out(old(self)@.len(), buf_len)),
            final(self).received() == old(self).received(),
            final(self).handed() == old(self).handed() + old(self)@.take(
                handed_out(old(self)@.len(), buf_len),
            ),
            final(self).handed() + final(self)@ == final(self).received(),
            copied matches Some(out) ==> out@.len() == min(old(self)@.len() as int, buf_len as int),
            old(self)@.len() > 0 && buf_len > 0 ==> (copied matches Some(out) && out@.len() > 0),
    {
        let mut before = PendingChunk::new();
        std::mem::swap(self, &mut before);
        proof {
            use_type_invariant(&before);
        }
        let received = before.received;
        let handed = before.handed;
        match before.pending {
            None => {
                *self = PendingChunk { pending: None, received, handed };
                None
            },
            Some(mut chunk) => {
                let ghost whole = chunk@;
                let to_copy: usize = if chunk.len() < buf_len {
                    chunk.len()
                } else {
                    buf_len
                };
                let rest = chunk.split_off(to_copy);
                proof {
                    assert(handed@ + chunk@ + rest@ =~= handed@ + whole);
                }
                if rest.len() > 0 {
                    *self = PendingChunk {
                        pending: Some(rest),
                        received,
                        handed: Ghost(handed@ + chunk@),
                    };
                } else {
                    proof {
                        assert(handed@ + chunk@ + Seq::<u8>::empty() =~= handed@ + chunk@);
                    }
                    *self = PendingChunk { pending: None, received, handed: Ghost(handed@ + chunk@) };
                }
                Some(chunk)
            },
        }
    }
}

/// Handing out bytes loses and repeats none: the bytes handed out, followed by those
/// still pending, are the bytes that were pending.
pub proof fn lemma_take_up_to_loses_nothing(before: Seq<u8>, out: Seq<u8>, after: Seq<u8>, n: int)
    requires
        0 <= n <= before.len(),
        out == before.take(n),
        after == before.skip(n),
    ensures
        out + after == before,
{
    assert(out + after =~= before);
}

/// A reader with room for `buf_len` bytes gets the smaller of that room and what is
/// pending; with room and pending bytes it gets at least one byte, so a read never
/// looks like the end of the stream while bytes are pending.
pub proof fn lemma_handed_out_is_min(pending: nat, buf_len: usize)
    ensures
        handed_out(pending, buf_len) == min(pending as int, buf_len as int),
        pending > 0 && buf_len > 0 ==> handed_out(pending, buf_len) >= 1,
        0 <= handed_out(pending, buf_len) <= pending,
{
}

} // verus!
