//! Byte streams with a ceiling on the bytes that pass through them.

use vstd::prelude::*;
use vstd::slice::slice_subrange;
use crate::error::CodecError;

verus! {

/// What reading `n` bytes at `pos` gives, on an input of which at most
/// `limit` bytes may be read: the ceiling is tested before the input is
/// touched.
pub open spec fn read_at(input: Seq<u8>, pos: nat, n: nat, limit: nat) -> Result<
    Seq<u8>,
    CodecError,
> {
    if pos + n > limit {
        Err(CodecError::SizeLimitExceeded)
    } else if pos + n > input.len() {
        Err(CodecError::UnexpectedEnd)
    } else {
        Ok(input.subrange(pos as int, (pos + n) as int))
    }
}

/// What writing `bytes` after `written` gives, where at most `limit` bytes
/// may be written in all.
pub open spec fn write_after(written: Seq<u8>, bytes: Seq<u8>, limit: nat) -> Result<
    Seq<u8>,
    CodecError,
> {
    if written.len() + bytes.len() > limit {
        Err(CodecError::SizeLimitExceeded)
    } else {
        Ok(written + bytes)
    }
}

/// A byte source that hands out at most `limit` bytes over its lifetime.
pub struct BoundedReader<'a> {
    input: &'a [u8],
    consumed: usize,
    limit: usize,
}

impl<'a> BoundedReader<'a> {
    /// All the bytes of the source, read or not.
    pub closed spec fn input(&self) -> Seq<u8> {
        self.input@
    }

    /// The bytes read so far.
    pub closed spec fn consumed(&self) -> nat {
        self.consumed as nat
    }

    /// The ceiling on the bytes read.
    pub closed spec fn limit(&self) -> nat {
        self.limit as nat
    }

    /// No more was read than the input holds.
    pub closed spec fn wf(&self) -> bool {
        self.consumed <= self.input@.len()
    }

    /// A reader at the start of `input`, with nothing counted yet.
    pub fn new(input: &'a [u8], limit: usize) -> (r: Self)
        ensures
            r.wf(),
            r.input() == input@,
            r.consumed() == 0,
            r.limit() == limit,
    {
        BoundedReader { input, consumed: 0, limit }
    }

    /// Reads the next `n` bytes. On a failure nothing is consumed.
    pub fn read(&mut self, n: usize) -> (r: Result<&'a [u8], CodecError>)
        requires
            old(self).wf(),
        ensures
            final(self).wf(),
            final(self).input() == old(self).input(),
            final(self).limit() == old(self).limit(),
            match r {
                Ok(bytes) => read_at(
                    old(self).input(),
                    old(self).consumed(),
                    n as nat,
                    old(self).limit(),
                ) == Ok::<Seq<u8>, CodecError>(bytes@) && final(self).consumed() == old(
                    self,
                ).consumed() + n,
                Err(e) => read_at(
                    old(self).input(),
                    old(self).consumed(),
                    n as nat,
                    old(self).limit(),
                ) == Err::<Seq<u8>, CodecError>(e) && final(self).consumed() == old(
                    self,
                ).consumed(),
            },
    {
        if self.consumed > self.limit || n > self.limit - self.consumed {
            return Err(CodecError::SizeLimitExceeded);
        }
        if n > self.input.len() - self.consumed {
            return Err(CodecError::UnexpectedEnd);
        }
        let start: usize = self.consumed;
        let bytes = slice_subrange(self.input, start, start + n);
        self.consumed = start + n;
        Ok(bytes)
    }

    /// Reads one byte.
    pub fn read_u8(&mut self) -> (r: Result<u8, CodecError>)
        requires
            old(self).wf(),
        ensures
            final(self).wf(),
            final(self).input() == old(self).input(),
            final(self).limit() == old(self).limit(),
            match r {
                Ok(b) => read_at(old(self).input(), old(self).consumed(), 1, old(self).limit())
                    == Ok::<Seq<u8>, CodecError>(seq![b]) && final(self).consumed() == old(
                    self,
                ).consumed() + 1,
                Err(e) => read_at(old(self).input(), old(self).consumed(), 1, old(self).limit())
                    == Err::<Seq<u8>, CodecError>(e) && final(self).consumed() == old(
                    self,
                ).consumed(),
            },
    {
        match self.read(1) {
            Ok(bytes) => {
                let b: u8 = bytes[0];
                assert(bytes@ =~= seq![b]);
                Ok(b)
            },
            Err(e) => Err(e),
        }
    }
}

/// A byte sink that takes at most `limit` bytes over its lifetime.
pub struct BoundedWriter {
    buffer: Vec<u8>,
    limit: usize,
}

impl BoundedWriter {
    /// The bytes written so far.
    pub closed spec fn written(&self) -> Seq<u8> {
        self.buffer@
    }

    /// The ceiling on the bytes written.
    pub closed spec fn limit(&self) -> nat {
        self.limit as nat
    }

    /// A writer that holds nothing yet.
    pub fn new(limit: usize) -> (r: Self)
        ensures
            r.written() == Seq::<u8>::empty(),
            r.limit() == limit,
    {
        BoundedWriter { buffer: Vec::new(), limit }
    }

    /// Writes `bytes`, all of them or none.
    pub fn write(&mut self, bytes: &[u8]) -> (r: Result<(), CodecError>)
        ensures
            final(self).limit() == old(self).limit(),
            match r {
                Ok(_) => write_after(old(self).written(), bytes@, old(self).limit()) == Ok::<
                    Seq<u8>,
                    CodecError,
                >(final(self).written()),
                Err(e) => write_after(old(self).written(), bytes@, old(self).limit()) == Err::<
                    Seq<u8>,
                    CodecError,
                >(e) && final(self).written() == old(self).written(),
            },
    {
        if self.buffer.len() > self.limit || bytes.len() > self.limit - self.buffer.len() {
            return Err(CodecError::SizeLimitExceeded);
        }
        self.buffer.extend_from_slice(bytes);
        assert(self.buffer@ =~= old(self).buffer@ + bytes@);
        Ok(())
    }

    /// Writes one byte.
    pub fn write_u8(&mut self, b: u8) -> (r: Result<(), CodecError>)
        ensures
            final(self).limit() == old(self).limit(),
            match r {
                Ok(_) => write_after(old(self).written(), seq![b], old(self).limit()) == Ok::<
                    Seq<u8>,
                    CodecError,
                >(final(self).written()),
                Err(e) => write_after(old(self).written(), seq![b], old(self).limit()) == Err::<
                    Seq<u8>,
                    CodecError,
                >(e) && final(self).written() == old(self).written(),
            },
    {
        if self.buffer.len() >= self.limit {
            return Err(CodecError::SizeLimitExceeded);
        }
        self.buffer.push(b);
        assert(self.buffer@ =~= old(self).buffer@ + seq![b]);
        Ok(())
    }

    /// Ends the stream and hands over what was written.
    pub fn into_bytes(self) -> (r: Vec<u8>)
        ensures
            r@ == self.written(),
    {
        self.buffer
    }
}

} // verus!
