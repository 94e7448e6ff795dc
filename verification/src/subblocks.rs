//! The sub-block chain decoder: walking a sequence of length-prefixed chunks
//! terminated by a zero-length chunk, and iterating the logical payload.

use vstd::prelude::*;

use crate::model::{DecodeError, SubBlocks};

verus! {

/// Where the sub-block chain starting at `i` ends (exclusive, terminator
/// included), or `None` if no well-formed chain starts there: a length byte
/// or a chunk body would run past the end of the buffer.
pub open spec fn chain_end(s: Seq<u8>, i: int) -> Option<int>
    decreases s.len() - i,
{
    if i < 0 || i >= s.len() {
        None
    } else if s[i] == 0 {
        Some(i + 1)
    } else if i + 1 + s[i] > s.len() {
        None
    } else {
        chain_end(s, i + 1 + s[i])
    }
}

/// `s` is exactly one well-formed sub-block chain: zero or more non-empty
/// length-prefixed chunks, then the single zero terminator byte, and nothing
/// after it.
pub open spec fn is_chain(s: Seq<u8>) -> bool
    decreases s.len(),
{
    if s.len() == 0 {
        false
    } else if s[0] == 0 {
        s.len() == 1
    } else {
        1 + s[0] < s.len() && is_chain(s.skip(1 + s[0]))
    }
}

/// The logical payload of the chain `s`: the chunk bodies concatenated in
/// chunk order, with the length bytes and the terminator stripped.
pub open spec fn chain_payload(s: Seq<u8>) -> Seq<u8>
    decreases s.len(),
{
    if s.len() == 0 || s[0] == 0 {
        Seq::empty()
    } else if 1 + s[0] <= s.len() {
        s.subrange(1, 1 + s[0]) + chain_payload(s.skip(1 + s[0]))
    } else {
        Seq::empty()
    }
}

/// A chain occupies at least its terminator byte and stays inside the buffer.
pub proof fn lemma_chain_end_bounds(s: Seq<u8>, i: int)
    ensures
        chain_end(s, i) matches Some(e) ==> i < e <= s.len(),
    decreases s.len() - i,
{
    if 0 <= i < s.len() && s[i] != 0 && i + 1 + s[i] <= s.len() {
        lemma_chain_end_bounds(s, i + 1 + s[i]);
    }
}

/// The span a successful walk delimits is itself a well-formed chain.
pub proof fn lemma_chain_end_is_chain(s: Seq<u8>, i: int)
    requires
        chain_end(s, i) is Some,
    ensures
        is_chain(s.subrange(i, chain_end(s, i)->Some_0)),
    decreases s.len() - i,
{
    let e = chain_end(s, i)->Some_0;
    lemma_chain_end_bounds(s, i);
    let c = s.subrange(i, e);
    if s[i] == 0 {
        assert(c.len() == 1);
    } else {
        let j = i + 1 + s[i];
        lemma_chain_end_bounds(s, j);
        lemma_chain_end_is_chain(s, j);
        assert(c.skip(1 + c[0]) =~= s.subrange(j, e));
    }
}

/// A well-formed chain sitting at `i` in `s` is exactly what the walk finds.
pub proof fn lemma_chain_end_of_span(s: Seq<u8>, i: int, c: Seq<u8>)
    requires
        is_chain(c),
        0 <= i,
        i + c.len() <= s.len(),
        s.subrange(i, i + c.len()) == c,
    ensures
        chain_end(s, i) == Some(i + c.len()),
    decreases c.len(),
{
    assert(s[i] == c[0]);
    if c[0] == 0 {
        assert(c.len() == 1);
    } else {
        let j = i + 1 + c[0];
        let c2 = c.skip(1 + c[0]);
        assert(s.subrange(j, j + c2.len()) =~= c2);
        lemma_chain_end_of_span(s, j, c2);
    }
}

/// Locates the end of the sub-block chain starting at `pos`: the position
/// just past the zero terminator byte.
fn find_chain_end(input: &[u8], pos: usize) -> (r: Result<usize, DecodeError>)
    ensures
        match r {
            Ok(end) => chain_end(input@, pos as int) == Some(end as int),
            Err(e) => e == DecodeError::Truncated && chain_end(input@, pos as int) is None,
        },
{
    if pos >= input.len() {
        return Err(DecodeError::Truncated);
    }
    let mut cur = pos;
    loop
        invariant
            pos <= cur <= input.len(),
            chain_end(input@, pos as int) == chain_end(input@, cur as int),
        decreases input.len() - cur,
    {
        if cur >= input.len() {
            return Err(DecodeError::Truncated);
        }
        let l = input[cur];
        if l == 0 {
            return Ok(cur + 1);
        }
        if (l as usize) > input.len() - cur - 1 {
            return Err(DecodeError::Truncated);
        }
        cur = cur + 1 + (l as usize);
    }
}

/// Decodes the sub-block chain starting at `pos`: returns the exact span it
/// occupies, terminator included, together with the position just past it.
/// Succeeds if and only if a well-formed chain starts at `pos`; the only
/// failure is `Truncated`.
pub fn data_subblocks(input: &[u8], pos: usize) -> (r: Result<(SubBlocks, usize), DecodeError>)
    ensures
        match r {
            Ok((sb, end)) => {
                &&& chain_end(input@, pos as int) == Some(end as int)
                &&& pos < end <= input.len()
                &&& sb@ == input@.subrange(pos as int, end as int)
                &&& is_chain(sb@)
            },
            Err(e) => e == DecodeError::Truncated && chain_end(input@, pos as int) is None,
        },
{
    match find_chain_end(input, pos) {
        Err(e) => Err(e),
        Ok(end) => {
            proof {
                lemma_chain_end_bounds(input@, pos as int);
                lemma_chain_end_is_chain(input@, pos as int);
            }
            let span = vstd::slice::slice_to_vec(&input[pos..end]);
            Ok((SubBlocks(span), end))
        },
    }
}

impl SubBlocks {
    /// The logical payload flattened into one owned buffer: the chunk bodies
    /// in chunk order, without the framing bytes.
    pub fn payload(&self) -> (r: Vec<u8>)
        requires
            is_chain(self@),
        ensures
            r@ == chain_payload(self@),
    {
        let mut out: Vec<u8> = Vec::new();
        let mut cur: usize = 0;
        proof {
            assert(self@.skip(0) =~= self@);
            assert(out@ + chain_payload(self@) =~= chain_payload(self@));
        }
        loop
            invariant
                is_chain(self@),
                cur < self.0.len(),
                is_chain(self@.skip(cur as int)),
                chain_payload(self@) == out@ + chain_payload(self@.skip(cur as int)),
            decreases self.0.len() - cur,
        {
            let ghost rest = self@.skip(cur as int);
            let l = self.0[cur];
            if l == 0 {
                proof {
                    assert(chain_payload(rest) =~= Seq::<u8>::empty());
                    assert(out@ + chain_payload(rest) =~= out@);
                }
                return out;
            }
            assert(1 + rest[0] < rest.len());
            let ghost out_start = out@;
            let mut k: usize = 0;
            while k < l as usize
                invariant
                    cur < self.0.len(),
                    rest == self@.skip(cur as int),
                    rest[0] == l,
                    l != 0,
                    k <= l as usize,
                    cur + 1 + l < self.0.len(),
                    out@ == out_start + rest.subrange(1, 1 + k as int),
                decreases l as usize - k,
            {
                assert(self@[cur + 1 + k] == rest[1 + k]);
                out.push(self.0[cur + 1 + k]);
                k = k + 1;
                proof {
                    assert(out@ =~= out_start + rest.subrange(1, 1 + k as int));
                }
            }
            proof {
                let tail = rest.skip(1 + l);
                assert(chain_payload(rest) == rest.subrange(1, 1 + l as int) + chain_payload(
                    tail,
                ));
                assert(out@ + chain_payload(tail) =~= out_start + chain_payload(rest));
                assert(self@.skip(cur + 1 + l) =~= tail);
            }
            cur = cur + 1 + (l as usize);
        }
    }

    /// Starts a restartable walk over the logical payload bytes. The chunk
    /// framing stays invisible: the iterator yields payload bytes only and
    /// stops exactly at the terminator chunk.
    pub fn into_iter(self) -> (it: SubBlocksIterator)
        requires
            is_chain(self@),
        ensures
            it.wf(),
            it.subblocks@ == self@,
            it.remaining() == chain_payload(self@),
    {
        let it = SubBlocksIterator { subblocks: self, current_subblock_pos: 0, index: 0 };
        proof {
            assert(it.subblocks@.skip(0) =~= it.subblocks@);
            assert(it.remaining() =~= chain_payload(it.subblocks@));
        }
        it
    }
}

/// A cursor over the logical payload of a sub-block chain: the current chunk's
/// start and the offset of the next byte inside that chunk.
#[derive(Clone, Debug)]
pub struct SubBlocksIterator {
    pub subblocks: SubBlocks,
    pub current_subblock_pos: usize,
    pub index: u8,
}

impl SubBlocksIterator {
    /// The cursor points at a chunk boundary of a well-formed chain, with the
    /// in-chunk offset strictly inside the current chunk.
    pub open spec fn wf(self) -> bool {
        &&& self.current_subblock_pos < self.subblocks@.len()
        &&& is_chain(self.subblocks@.skip(self.current_subblock_pos as int))
        &&& (self.subblocks@[self.current_subblock_pos as int] == 0 ==> self.index == 0)
        &&& self.index <= self.subblocks@[self.current_subblock_pos as int]
        &&& (self.subblocks@[self.current_subblock_pos as int] != 0 ==> self.index
            < self.subblocks@[self.current_subblock_pos as int])
    }

    /// The payload bytes the walk has not yielded yet.
    pub open spec fn remaining(self) -> Seq<u8> {
        chain_payload(self.subblocks@.skip(self.current_subblock_pos as int)).skip(
            self.index as int,
        )
    }

    /// Yields the next logical payload byte, or `None` exactly when the walk
    /// has reached the terminator chunk.
    pub fn next(&mut self) -> (r: Option<u8>)
        requires
            old(self).wf(),
        ensures
            final(self).wf(),
            final(self).subblocks@ == old(self).subblocks@,
            match r {
                None => old(self).remaining().len() == 0 && *final(self) == *old(self),
                Some(b) => {
                    &&& old(self).remaining().len() > 0
                    &&& b == old(self).remaining()[0]
                    &&& final(self).remaining() == old(self).remaining().skip(1)
                },
            },
    {
        let cur = self.current_subblock_pos;
        let ghost rest = self.subblocks@.skip(cur as int);
        let subblock_len = self.subblocks.0[cur];
        if subblock_len == 0 {
            proof {
                assert(self.remaining() =~= Seq::<u8>::empty());
            }
            None
        } else {
            assert(1 + rest[0] < rest.len());
            assert(rest[0] == self.subblocks@[cur as int]);
            assert(self.index < subblock_len);
            assert(cur + 1 + subblock_len < self.subblocks.0.len());
            assert(chain_payload(rest) == rest.subrange(1, 1 + subblock_len as int)
                + chain_payload(rest.skip(1 + subblock_len)));
            let result = self.subblocks.0[cur + self.index as usize + 1];
            assert(result == rest[1 + self.index as int]);
            assert(self.remaining()[0] == chain_payload(rest)[self.index as int]);
            let ghost old_remaining = self.remaining();
            self.index = self.index + 1;
            if self.index >= subblock_len {
                self.current_subblock_pos = cur + self.index as usize + 1;
                self.index = 0;
                proof {
                    let tail = rest.skip(1 + subblock_len);
                    assert(self.subblocks@.skip(self.current_subblock_pos as int) =~= tail);
                    assert(self.remaining() =~= chain_payload(tail));
                    assert(old_remaining.skip(1) =~= chain_payload(tail));
                }
            } else {
                proof {
                    assert(self.remaining() =~= old_remaining.skip(1));
                }
            }
            Some(result)
        }
    }
}

} // verus!
