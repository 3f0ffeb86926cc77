use vstd::prelude::*;

verus! {

/// A forward-only producer of the bytes of a filing: a local file, a network
/// stream, an in-memory buffer.
pub trait ByteSource {
    /// The next line, with its terminator where it has one; `Ok(None)` at a
    /// clean end of input, `Err` where reading failed.
    fn read_line(&mut self) -> (r: Result<Option<Vec<u8>>, String>);
}

/// The index just past the first line of `b`: past its first `\n`, or the
/// end where there is none.
pub open spec fn line_end(b: Seq<u8>) -> int
    decreases b.len(),
{
    if b.len() == 0 {
        0
    } else if b[0] == 10 {
        1
    } else {
        1 + line_end(b.drop_first())
    }
}

proof fn lemma_line_end_bounds(b: Seq<u8>)
    ensures
        0 <= line_end(b) <= b.len(),
        b.len() > 0 ==> line_end(b) > 0,
    decreases b.len(),
{
    if b.len() > 0 && b[0] != 10 {
        lemma_line_end_bounds(b.drop_first());
    }
}

/// A byte source over bytes held in memory.
pub struct MemorySource {
    data: Vec<u8>,
    pos: usize,
}

impl MemorySource {
    /// The bytes not read yet.
    pub closed spec fn remaining(&self) -> Seq<u8> {
        self.data@.subrange(self.pos as int, self.data@.len() as int)
    }

    #[verifier::type_invariant]
    spec fn inv(&self) -> bool {
        self.pos <= self.data@.len()
    }

    pub fn new(data: Vec<u8>) -> (r: MemorySource)
        ensures
            r.remaining() == data@,
    {
        let r = MemorySource { data, pos: 0 };
        assert(r.remaining() =~= data@);
        r
    }

    /// Hands out the next line and moves past it.
    pub fn next_line(&mut self) -> (r: Option<Vec<u8>>)
        ensures
            old(self).remaining().len() == 0 ==> r is None && final(self).remaining() == old(
                self,
            ).remaining(),
            old(self).remaining().len() > 0 ==> (r matches Some(l) && l@ == old(
                self,
            ).remaining().subrange(0, line_end(old(self).remaining()))),
            old(self).remaining().len() > 0 ==> final(self).remaining() == old(
                self,
            ).remaining().subrange(line_end(old(self).remaining()), old(self).remaining().len() as int),
    {
        proof {
            use_type_invariant(&*self);
        }
        let n = self.data.len();
        if self.pos >= n {
            return None;
        }
        let ghost rem = self.remaining();
        proof {
            lemma_line_end_bounds(rem);
        }
        let start = self.pos;
        let mut line: Vec<u8> = Vec::new();
        let mut i: usize = start;
        while i < n
            invariant
                start <= i <= n,
                n == self.data@.len(),
                start == self.pos,
                rem == self.data@.subrange(start as int, n as int),
                rem == old(self).remaining(),
                self.data == old(self).data,
                line@ == self.data@.subrange(start as int, i as int),
                forall|k: int| start <= k < i ==> self.data@[k] != 10,
                line_end(rem) == (i - start) + line_end(self.data@.subrange(i as int, n as int)),
            decreases n - i,
        {
            let c = self.data[i];
            line.push(c);
            assert(self.data@.subrange(i as int, n as int)[0] == c);
            if c == 10u8 {
                assert(line@ =~= self.data@.subrange(start as int, i + 1));
                self.pos = i + 1;
                proof {
                    assert(rem.subrange(0, line_end(rem)) =~= line@);
                    assert(self.remaining() =~= rem.subrange(line_end(rem), rem.len() as int));
                }
                return Some(line);
            }
            assert(self.data@.subrange(i as int, n as int).drop_first() =~= self.data@.subrange(
                i + 1,
                n as int,
            ));
            assert(line@ =~= self.data@.subrange(start as int, i + 1));
            i = i + 1;
        }
        self.pos = n;
        proof {
            assert(self.data@.subrange(n as int, n as int).len() == 0);
            assert(rem.subrange(0, line_end(rem)) =~= line@);
            assert(self.remaining() =~= rem.subrange(line_end(rem), rem.len() as int));
        }
        Some(line)
    }
}

impl ByteSource for MemorySource {
    fn read_line(&mut self) -> (r: Result<Option<Vec<u8>>, String>) {
        Ok(self.next_line())
    }
}

} // verus!
