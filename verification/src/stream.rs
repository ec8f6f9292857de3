//! The owned, seekable byte source that a decoder claims.
//!
//! The handle holds the whole stream in memory together with a cursor, so
//! reading and seeking are ordinary verified operations, and a failed format
//! probe can give the handle back untouched.

use vstd::prelude::*;

verus! {

/// An owned, seekable byte stream: the bytes and a cursor into them.
pub struct ByteStream {
    pub data: Vec<u8>,
    pub pos: usize,
}

/// What a read of `n` bytes from `s` yields: the next `n` bytes after the
/// cursor, or fewer when the stream ends before that.
pub open spec fn spec_read(s: ByteStream, n: int) -> Seq<u8> {
    if n <= s.remaining().len() {
        s.remaining().take(n)
    } else {
        s.remaining()
    }
}

impl ByteStream {
    /// The cursor never points past the end.
    pub open spec fn wf(&self) -> bool {
        self.pos <= self.data@.len()
    }

    /// The bytes still ahead of the cursor.
    pub open spec fn remaining(&self) -> Seq<u8> {
        self.data@.skip(self.pos as int)
    }

    /// Wraps a byte buffer as a stream with the cursor at its start.
    pub fn new(data: Vec<u8>) -> (s: ByteStream)
        ensures
            s.data@ == data@,
            s.pos == 0,
            s.wf(),
    {
        ByteStream { data, pos: 0 }
    }

    /// The current cursor position.
    pub fn position(&self) -> (r: usize)
        ensures
            r == self.pos,
    {
        self.pos
    }

    /// Moves the cursor to `p`, stopping at the end of the stream.
    pub fn seek(&mut self, p: usize)
        ensures
            final(self).data@ == old(self).data@,
            final(self).pos == if p <= old(self).data@.len() {
                p as int
            } else {
                old(self).data@.len() as int
            },
            final(self).wf(),
    {
        if p <= self.data.len() {
            self.pos = p;
        } else {
            self.pos = self.data.len();
        }
    }

    /// Reads up to `n` bytes at the cursor and advances past them.
    pub fn read(&mut self, n: usize) -> (r: Vec<u8>)
        requires
            old(self).wf(),
        ensures
            final(self).data@ == old(self).data@,
            final(self).pos == old(self).pos + r@.len(),
            final(self).wf(),
            r@ == spec_read(*old(self), n as int),
    {
        let avail: usize = self.data.len() - self.pos;
        let k: usize = if n < avail {
            n
        } else {
            avail
        };
        let mut out: Vec<u8> = Vec::new();
        let mut i: usize = 0;
        while i < k
            invariant
                i <= k,
                k <= self.data@.len() - self.pos,
                self.pos + k <= usize::MAX,
                self.wf(),
                out@.len() == i,
                forall|j: int| 0 <= j < i ==> out@[j] == self.data@[self.pos + j],
            decreases k - i,
        {
            let b: u8 = self.data[self.pos + i];
            out.push(b);
            i = i + 1;
        }
        proof {
            assert(out@ =~= spec_read(*self, n as int));
        }
        self.pos = self.pos + k;
        out
    }

    /// Gives the underlying buffer back.
    pub fn into_vec(self) -> (r: Vec<u8>)
        ensures
            r@ == self.data@,
    {
        self.data
    }
}

/// What a read yields depends on the stream's bytes and cursor alone: two
/// handles in the same state answer every read the same way. Together with
/// a failed construction returning the handle unchanged, this says that the
/// next read after a failed probe yields the very bytes it would have
/// yielded before it.
pub proof fn lemma_read_depends_on_state_alone(a: ByteStream, b: ByteStream, n: int)
    requires
        a.data@ == b.data@,
        a.pos == b.pos,
    ensures
        spec_read(a, n) == spec_read(b, n),
{
}

} // verus!
