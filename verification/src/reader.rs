use crate::error::Error;
use vstd::prelude::*;

verus! {

/// A byte source that hands out bytes in order and reports exhaustion as an
/// error instead of padding or blocking. Every parser of this crate reads
/// through one of these; a caller frames the packet's bytes and builds one.
pub struct ByteReader {
    data: Vec<u8>,
    pos: usize,
}

impl ByteReader {
    /// The whole underlying byte sequence.
    pub closed spec fn bytes(&self) -> Seq<u8> {
        self.data@
    }

    /// The index of the next unread byte.
    pub closed spec fn pos(&self) -> nat {
        self.pos as nat
    }

    pub open spec fn wf(&self) -> bool {
        self.pos() <= self.bytes().len()
    }

    pub open spec fn remaining(&self) -> nat {
        (self.bytes().len() - self.pos()) as nat
    }

    pub fn new(data: Vec<u8>) -> (r: Self)
        ensures
            r.wf(),
            r.bytes() == data@,
            r.pos() == 0,
    {
        ByteReader { data, pos: 0 }
    }

    /// Reads the next byte; fails with `ParseError` when none is left.
    pub fn read_u8(&mut self) -> (r: Result<u8, Error>)
        requires
            old(self).wf(),
        ensures
            final(self).wf(),
            final(self).bytes() == old(self).bytes(),
            match r {
                Ok(b) => {
                    &&& old(self).remaining() >= 1
                    &&& b == old(self).bytes()[old(self).pos() as int]
                    &&& final(self).pos() == old(self).pos() + 1
                },
                Err(e) => {
                    &&& e == Error::ParseError
                    &&& old(self).remaining() == 0
                    &&& final(self).pos() == old(self).pos()
                },
            },
    {
        if self.pos < self.data.len() {
            let b = self.data[self.pos];
            self.pos = self.pos + 1;
            Ok(b)
        } else {
            Err(Error::ParseError)
        }
    }

    /// Reads exactly `n` bytes; fails with `ParseError`, consuming nothing,
    /// when fewer are left.
    pub fn read_bytes(&mut self, n: usize) -> (r: Result<Vec<u8>, Error>)
        requires
            old(self).wf(),
        ensures
            final(self).wf(),
            final(self).bytes() == old(self).bytes(),
            match r {
                Ok(v) => {
                    &&& old(self).remaining() >= n
                    &&& v@ == old(self).bytes().subrange(
                        old(self).pos() as int,
                        old(self).pos() + n,
                    )
                    &&& final(self).pos() == old(self).pos() + n
                },
                Err(e) => {
                    &&& e == Error::ParseError
                    &&& old(self).remaining() < n
                    &&& final(self).pos() == old(self).pos()
                },
            },
    {
        if n > self.data.len() - self.pos {
            return Err(Error::ParseError);
        }
        let mut out: Vec<u8> = Vec::new();
        let mut i: usize = 0;
        while i < n
            invariant
                i <= n,
                self.pos + n <= self.data.len(),
                self.data@ == old(self).bytes(),
                self.pos == old(self).pos(),
                out@ == self.data@.subrange(self.pos as int, self.pos + i),
            decreases n - i,
        {
            out.push(self.data[self.pos + i]);
            i = i + 1;
            proof {
                assert(out@ =~= self.data@.subrange(self.pos as int, self.pos + i));
            }
        }
        self.pos = self.pos + n;
        Ok(out)
    }
}

} // verus!
