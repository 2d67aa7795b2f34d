use vstd::prelude::*;

verus! {

/// A streaming byte payload: an owned sequence of byte chunks, consumed from
/// the front by exactly one reader. A `Body` is never duplicated; it moves
/// between a request, its split-off parts, and the response.
///
/// The view of a `Body` is the sequence of chunks that have not been pulled
/// yet, so a body at end of stream has the empty view.
pub struct Body {
    chunks: Vec<Vec<u8>>,
    read: usize,
}

impl View for Body {
    type V = Seq<Seq<u8>>;

    closed spec fn view(&self) -> Seq<Seq<u8>> {
        if self.read as int <= self.chunks.deep_view().len() {
            self.chunks.deep_view().skip(self.read as int)
        } else {
            Seq::empty()
        }
    }
}

/// Total number of bytes held by a sequence of chunks.
pub open spec fn chunks_len(s: Seq<Seq<u8>>) -> int
    decreases s.len(),
{
    if s.len() == 0 {
        0
    } else {
        chunks_len(s.drop_last()) + s.last().len()
    }
}

/// All bytes of a sequence of chunks, in order, without the chunk boundaries.
pub open spec fn chunks_bytes(s: Seq<Seq<u8>>) -> Seq<u8>
    decreases s.len(),
{
    if s.len() == 0 {
        Seq::empty()
    } else {
        chunks_bytes(s.drop_last()) + s.last()
    }
}

proof fn lemma_take_succ<A>(s: Seq<A>, i: int)
    requires
        0 <= i < s.len(),
    ensures
        s.take(i + 1).drop_last() == s.take(i),
        s.take(i + 1).last() == s[i],
{
    assert(s.take(i + 1).drop_last() =~= s.take(i));
}

/// The byte count of a prefix never exceeds the byte count of the whole.
pub proof fn lemma_chunks_len_prefix_bound(s: Seq<Seq<u8>>, i: int)
    requires
        0 <= i <= s.len(),
    ensures
        chunks_len(s.take(i)) <= chunks_len(s),
        chunks_len(s) >= 0,
    decreases s.len(),
{
    if s.len() == 0 {
        assert(s.take(i) =~= s);
    } else if i == s.len() {
        assert(s.take(i) =~= s);
        lemma_chunks_len_prefix_bound(s.drop_last(), s.len() - 1);
    } else {
        assert(s.take(i) =~= s.drop_last().take(i));
        lemma_chunks_len_prefix_bound(s.drop_last(), i);
    }
}

/// Byte count and flattened bytes agree.
pub proof fn lemma_chunks_bytes_len(s: Seq<Seq<u8>>)
    ensures
        chunks_bytes(s).len() == chunks_len(s),
    decreases s.len(),
{
    if s.len() > 0 {
        lemma_chunks_bytes_len(s.drop_last());
    }
}

impl Body {
    /// Wrap an already-produced sequence of chunks as a body.
    pub fn new(chunks: Vec<Vec<u8>>) -> (body: Body)
        ensures
            body@ == chunks.deep_view(),
    {
        let body = Body { chunks, read: 0 };
        proof {
            assert(body@ =~= body.chunks.deep_view());
        }
        body
    }

    /// A body with no chunks at all, already at end of stream.
    pub fn empty() -> (body: Body)
        ensures
            body@ == Seq::<Seq<u8>>::empty(),
    {
        let body = Body { chunks: Vec::new(), read: 0 };
        proof {
            assert(body@ =~= Seq::<Seq<u8>>::empty());
        }
        body
    }

    /// A body holding the given bytes as its single chunk.
    pub fn from_bytes(bytes: Vec<u8>) -> (body: Body)
        ensures
            body@ == seq![bytes@],
    {
        let mut chunks: Vec<Vec<u8>> = Vec::new();
        chunks.push(bytes);
        proof {
            assert(chunks.deep_view() =~~= seq![bytes@]);
        }
        Body::new(chunks)
    }

    /// Yield the next chunk, or `None` once the stream has ended. After the
    /// end has been reached every further pull keeps returning `None`.
    pub fn pull(&mut self) -> (chunk: Option<Vec<u8>>)
        ensures
            (chunk is None) <==> old(self)@.len() == 0,
            chunk is None ==> final(self)@ == old(self)@,
            chunk matches Some(c) ==> c@ == old(self)@[0] && final(self)@ == old(self)@.drop_first(),
    {
        if self.read < self.chunks.len() {
            let mut taken: Vec<u8> = Vec::new();
            self.chunks.set_and_swap(self.read, &mut taken);
            self.read = self.read + 1;
            proof {
                assert(taken@ == old(self)@[0]);
                assert(self@ =~= old(self)@.drop_first());
            }
            Some(taken)
        } else {
            None
        }
    }

    /// Whether the stream has ended: no chunk is left to pull.
    pub fn is_end_stream(&self) -> (end: bool)
        ensures
            end == (self@.len() == 0),
    {
        self.read >= self.chunks.len()
    }

    /// The exact number of bytes left in the body, or `None` when that count
    /// does not fit in `usize`. Never consumes anything.
    pub fn size_hint(&self) -> (hint: Option<usize>)
        ensures
            hint matches Some(n) ==> n == chunks_len(self@),
            hint is None ==> chunks_len(self@) > usize::MAX,
    {
        if self.read > self.chunks.len() {
            proof {
                assert(self@ =~= Seq::<Seq<u8>>::empty());
            }
            return Some(0);
        }
        let mut total: u128 = 0;
        let mut i: usize = self.read;
        while i < self.chunks.len()
            invariant
                self.read <= i <= self.chunks.len(),
                self.read as int <= self.chunks.deep_view().len(),
                total == chunks_len(self@.take(i - self.read)),
            decreases self.chunks.len() - i,
        {
            proof {
                lemma_take_succ(self@, i - self.read);
                assert(self@[i - self.read] == self.chunks.deep_view()[i as int]);
            }
            let len = self.chunks[i].len();
            if total > u128::MAX - len as u128 {
                proof {
                    lemma_chunks_len_prefix_bound(self@, i - self.read + 1);
                }
                return None;
            }
            total = total + len as u128;
            i = i + 1;
        }
        proof {
            assert(self@.take(self.chunks.len() - self.read) =~= self@);
        }
        if total <= usize::MAX as u128 {
            Some(total as usize)
        } else {
            None
        }
    }

    /// Drain the whole body into one flat byte vector, or `None` when the
    /// bytes do not fit in one vector. Chunk boundaries are dropped; the body
    /// is left at end of stream on success.
    pub fn collect_bytes(&mut self) -> (bytes: Option<Vec<u8>>)
        ensures
            bytes matches Some(b) ==> b@ == chunks_bytes(old(self)@) && final(self)@
                == Seq::<Seq<u8>>::empty(),
            bytes is None ==> chunks_len(old(self)@) > usize::MAX,
    {
        let ghost all = old(self)@;
        let mut out: Vec<u8> = Vec::new();
        let ghost mut i: int = 0;
        loop
            invariant
                all == old(self)@,
                0 <= i <= all.len(),
                out@ == chunks_bytes(all.take(i)),
                self@ == all.skip(i),
            decreases all.len() - i,
        {
            match self.pull() {
                Option::Some(chunk) => {
                    proof {
                        assert(all.skip(i)[0] == all[i]);
                        assert(all.skip(i).drop_first() =~= all.skip(i + 1));
                        lemma_take_succ(all, i);
                        assert(chunks_len(all.take(i + 1)) == chunks_len(all.take(i))
                            + all[i].len());
                        lemma_chunks_bytes_len(all.take(i));
                    }
                    if out.len() as u128 + chunk.len() as u128 > usize::MAX as u128 {
                        proof {
                            lemma_chunks_len_prefix_bound(all, i + 1);
                        }
                        return None;
                    }
                    out.extend_from_slice(chunk.as_slice());
                    proof {
                        assert(out@ =~= chunks_bytes(all.take(i + 1)));
                        i = i + 1;
                    }
                },
                Option::None => {
                    proof {
                        assert(all.len() == i);
                        assert(all.take(i) =~= all);
                        assert(self@ =~= Seq::<Seq<u8>>::empty());
                    }
                    return Some(out);
                },
            }
        }
    }
}

} // verus!
