use vstd::prelude::*;

use crate::error::ClassParserError;

verus! {

/// Big-endian value of the two bytes of `s` at `i` and `i + 1`.
pub open spec fn u16_at(s: Seq<u8>, i: int) -> int {
    s[i] as int * 256 + s[i + 1] as int
}

/// Big-endian value of the four bytes of `s` starting at `i`.
pub open spec fn u32_at(s: Seq<u8>, i: int) -> int {
    u16_at(s, i) * 65536 + u16_at(s, i + 2)
}

/// Forward-only reader over an owned byte buffer. Its view is the part of
/// the buffer that has not been consumed yet.
pub struct ClassFileParser {
    data: Vec<u8>,
    pos: usize,
}

impl View for ClassFileParser {
    type V = Seq<u8>;

    closed spec fn view(&self) -> Seq<u8> {
        self.data@.subrange(self.pos as int, self.data@.len() as int)
    }
}

impl ClassFileParser {
    #[verifier::type_invariant]
    spec fn inv(&self) -> bool {
        self.pos <= self.data@.len()
    }

    /// A reader positioned at the start of `data`.
    pub fn new(data: Vec<u8>) -> (r: ClassFileParser)
        ensures
            r@ == data@,
    {
        let r = ClassFileParser { data, pos: 0 };
        assert(r@ =~= data@);
        r
    }

    /// Number of bytes not consumed yet.
    pub fn remaining(&self) -> (r: usize)
        ensures
            r == self@.len(),
    {
        proof {
            use_type_invariant(self);
        }
        self.data.len() - self.pos
    }

    /// Takes the next `bytes` bytes, or fails without consuming anything when
    /// fewer remain.
    pub fn read_n_bytes(&mut self, bytes: usize) -> (r: Result<Vec<u8>, ClassParserError>)
        ensures
            bytes > old(self)@.len() ==> r == Err::<Vec<u8>, ClassParserError>(
                ClassParserError::UnexpectedEndOfInput,
            ) && final(self)@ == old(self)@,
            bytes <= old(self)@.len() ==> r is Ok && r->Ok_0@ == old(self)@.take(bytes as int)
                && final(self)@ == old(self)@.skip(bytes as int),
    {
        proof {
            use_type_invariant(&*self);
        }
        if bytes > self.data.len() - self.pos {
            return Err(ClassParserError::UnexpectedEndOfInput);
        }
        let mut out: Vec<u8> = Vec::with_capacity(bytes);
        let start = self.pos;
        let data = &self.data;
        let mut i: usize = 0;
        while i < bytes
            invariant
                i <= bytes,
                start + bytes <= data.len(),
                out@ =~= data@.subrange(start as int, start + i),
            decreases bytes - i,
        {
            out.push(data[start + i]);
            i = i + 1;
        }
        self.pos = start + bytes;
        assert(out@ =~= old(self)@.take(bytes as int));
        assert(self@ =~= old(self)@.skip(bytes as int));
        Ok(out)
    }

    /// Reads one byte.
    pub fn read_u1(&mut self) -> (r: Result<u8, ClassParserError>)
        ensures
            old(self)@.len() < 1 ==> r == Err::<u8, ClassParserError>(
                ClassParserError::UnexpectedEndOfInput,
            ) && final(self)@ == old(self)@,
            old(self)@.len() >= 1 ==> r == Ok::<u8, ClassParserError>(old(self)@[0])
                && final(self)@ == old(self)@.skip(1),
    {
        let b = self.read_n_bytes(1)?;
        Ok(b[0])
    }

    /// Reads a big-endian two-byte value.
    pub fn read_u2(&mut self) -> (r: Result<u16, ClassParserError>)
        ensures
            old(self)@.len() < 2 ==> r == Err::<u16, ClassParserError>(
                ClassParserError::UnexpectedEndOfInput,
            ) && final(self)@ == old(self)@,
            old(self)@.len() >= 2 ==> r is Ok && r->Ok_0 as int == u16_at(old(self)@, 0)
                && final(self)@ == old(self)@.skip(2),
    {
        let b = self.read_n_bytes(2)?;
        Ok((b[0] as u16) * 256 + (b[1] as u16))
    }

    /// Reads a big-endian four-byte value.
    pub fn read_u4(&mut self) -> (r: Result<u32, ClassParserError>)
        ensures
            old(self)@.len() < 4 ==> r == Err::<u32, ClassParserError>(
                ClassParserError::UnexpectedEndOfInput,
            ) && final(self)@ == old(self)@,
            old(self)@.len() >= 4 ==> r is Ok && r->Ok_0 as int == u32_at(old(self)@, 0)
                && final(self)@ == old(self)@.skip(4),
    {
        let b = self.read_n_bytes(4)?;
        let hi = (b[0] as u32) * 256 + (b[1] as u32);
        let lo = (b[2] as u32) * 256 + (b[3] as u32);
        Ok(hi * 65536 + lo)
    }
}

} // verus!
