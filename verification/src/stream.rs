//! A forward-only cursor over the bytes of one module file.

use vstd::prelude::*;
use vstd::slice::slice_subrange;

use crate::error::DecodeError;

verus! {

/// A byte source that is read front to back and never rewound.
#[derive(Clone, Copy, Debug)]
pub struct ByteStream<'a> {
    data: &'a [u8],
    position: usize,
}

impl<'a> ByteStream<'a> {
    #[verifier::type_invariant]
    spec fn position_in_bounds(self) -> bool {
        self.position <= self.data@.len()
    }

    /// The bytes that have not been read yet, in reading order.
    pub closed spec fn remaining(self) -> Seq<u8> {
        self.data@.skip(self.position as int)
    }

    /// A stream positioned at the first byte of `data`.
    pub fn new(data: &'a [u8]) -> (stream: Self)
        ensures
            stream.remaining() == data@,
    {
        ByteStream { data, position: 0 }
    }

    /// The number of bytes that can still be read.
    pub fn available(&self) -> (count: usize)
        ensures
            count == self.remaining().len(),
    {
        proof {
            use_type_invariant(self);
        }
        self.data.len() - self.position
    }

    /// Reads exactly `count` bytes, or fails and consumes nothing when fewer are left.
    pub fn read_bytes(&mut self, count: usize) -> (result: Result<&'a [u8], DecodeError>)
        ensures
            match result {
                Ok(bytes) => {
                    &&& count <= old(self).remaining().len()
                    &&& bytes@ == old(self).remaining().take(count as int)
                    &&& final(self).remaining() == old(self).remaining().skip(count as int)
                },
                Err(error) => {
                    &&& error == DecodeError::TruncatedInput
                    &&& count > old(self).remaining().len()
                    &&& *final(self) == *old(self)
                },
            },
    {
        proof {
            use_type_invariant(&*self);
        }
        if count > self.data.len() - self.position {
            return Err(DecodeError::TruncatedInput);
        }
        let start = self.position;
        let bytes = slice_subrange(self.data, start, start + count);
        self.position = start + count;
        Ok(bytes)
    }
}

} // verus!
