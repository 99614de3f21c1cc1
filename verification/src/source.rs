//! The byte-source side of the transcoder: a fill/consume protocol in the
//! style of a buffered reader, plus two in-memory implementations.

use vstd::prelude::*;

verus! {

/// Failure of the underlying byte source. This is the one error a read can
/// surface: it stands for an I/O failure of whatever produces the bytes.
#[derive(Clone, Copy, PartialEq, Eq, Structural, Debug)]
pub struct SourceError;

/// An ownership-exclusive, buffered byte producer, with "peek available bytes
/// without consuming" and "mark bytes as consumed" as two separate operations.
/// Consumption happens only after the decoder confirms how many input bytes it
/// actually used, so bytes of an incomplete multi-byte sequence are offered
/// again on the next fill.
pub trait ByteSource {
    /// The bytes this source has not yet handed out through `consume`.
    spec fn pending(&self) -> Seq<u8>;

    /// Return currently available bytes without consuming them, blocking for a
    /// refill if necessary. An empty result means true end-of-stream; an error
    /// stands for an I/O failure and leaves the pending bytes unchanged.
    fn fill(&mut self) -> (r: Result<Vec<u8>, SourceError>)
        ensures
            final(self).pending() == old(self).pending(),
            (r matches Ok(chunk) ==> chunk@.len() <= old(self).pending().len()),
            (r matches Ok(chunk) ==> chunk@ == old(self).pending().take(chunk@.len() as int)),
            (r matches Ok(chunk) ==> (chunk@.len() == 0 <==> old(self).pending().len() == 0)),
    ;

    /// Advance past `amt` bytes previously returned by `fill`.
    fn consume(&mut self, amt: usize)
        requires
            amt <= old(self).pending().len(),
        ensures
            final(self).pending() == old(self).pending().skip(amt as int),
    ;
}

/// An in-memory byte source over a vector of bytes. It hands the bytes out in
/// chunks of a configurable maximum size, which lets callers exercise input
/// chunking boundaries; by default a fill offers everything that remains.
pub struct MemSource {
    data: Vec<u8>,
    pos: usize,
    chunk: usize,
}

impl MemSource {
    #[verifier::type_invariant]
    spec fn inv(self) -> bool {
        self.pos <= self.data@.len() && self.chunk >= 1
    }

    /// A source over `data` that offers all remaining bytes on each fill.
    pub fn new(data: Vec<u8>) -> (s: MemSource)
        ensures
            s.pending() == data@,
    {
        let s = MemSource { data, pos: 0, chunk: usize::MAX };
        proof {
            assert(s.pending() =~= s.data@);
        }
        s
    }

    /// A source over `data` that offers at most `chunk` bytes per fill, so a
    /// multi-byte sequence can straddle fill boundaries.
    pub fn with_chunk_size(data: Vec<u8>, chunk: usize) -> (s: MemSource)
        requires
            chunk >= 1,
        ensures
            s.pending() == data@,
    {
        let s = MemSource { data, pos: 0, chunk };
        proof {
            assert(s.pending() =~= s.data@);
        }
        s
    }
}

impl ByteSource for MemSource {
    closed spec fn pending(&self) -> Seq<u8> {
        self.data@.skip(self.pos as int)
    }

    fn fill(&mut self) -> (r: Result<Vec<u8>, SourceError>)
        ensures
            r is Ok,
    {
        proof {
            use_type_invariant(&*self);
        }
        let remaining = self.data.len() - self.pos;
        let n = if remaining < self.chunk {
            remaining
        } else {
            self.chunk
        };
        let end = self.pos + n;
        let mut idx = self.pos;
        let mut out: Vec<u8> = Vec::new();
        while idx < end
            invariant
                self == old(self),
                self.pos <= idx && idx <= end,
                end <= self.data@.len(),
                out@ == self.data@.subrange(self.pos as int, idx as int),
            decreases end - idx,
        {
            let b = self.data[idx];
            out.push(b);
            idx = idx + 1;
            proof {
                assert(out@ =~= self.data@.subrange(self.pos as int, idx as int));
            }
        }
        proof {
            assert(out@.len() == n);
            assert(out@ =~= self.pending().take(out@.len() as int));
        }
        Ok(out)
    }

    fn consume(&mut self, amt: usize) {
        proof {
            use_type_invariant(&*self);
        }
        let len = self.data.len();
        proof {
            assert(self.pos + amt <= len);
        }
        self.pos = self.pos + amt;
        proof {
            assert(self.pending() =~= old(self).pending().skip(amt as int));
        }
    }
}

/// A source whose every fill fails, standing for a byte producer whose I/O is
/// broken; it lets the error path of a reader be exercised.
pub struct FailingSource;

impl ByteSource for FailingSource {
    closed spec fn pending(&self) -> Seq<u8> {
        Seq::empty()
    }

    fn fill(&mut self) -> (r: Result<Vec<u8>, SourceError>)
        ensures
            r is Err,
    {
        Err(SourceError)
    }

    fn consume(&mut self, amt: usize) {
        proof {
            assert(final(self).pending() =~= old(self).pending().skip(amt as int));
        }
    }
}

} // verus!
