//! A cursor over input that is held in memory.
use vstd::prelude::*;
use vstd::slice::slice_subrange;

verus! {

/// The part of an input that has not been read yet.
#[derive(Clone, Copy, Debug)]
pub struct ByteReader<'a> {
    bytes: &'a [u8],
}

impl<'a> View for ByteReader<'a> {
    type V = Seq<u8>;

    /// The bytes that are left to read.
    closed spec fn view(&self) -> Seq<u8> {
        self.bytes@
    }
}

/// Whether `after` is what is left of `before` once its first `taken` bytes
/// are read.
pub open spec fn took(before: Seq<u8>, taken: nat, after: Seq<u8>) -> bool {
    taken <= before.len() && after == before.skip(taken as int)
}

impl<'a> ByteReader<'a> {
    /// A reader at the start of `bytes`.
    pub fn new(bytes: &'a [u8]) -> (reader: Self)
        ensures
            reader@ == bytes@,
    {
        ByteReader { bytes }
    }

    /// The bytes that are left to read.
    pub fn remaining(&self) -> (bytes: &'a [u8])
        ensures
            bytes@ == self@,
    {
        self.bytes
    }

    /// The number of bytes that are left to read.
    pub fn len(&self) -> (n: usize)
        ensures
            n == self@.len(),
    {
        self.bytes.len()
    }

    /// Takes the next `n` bytes, or nothing where fewer are left.
    pub fn read_exact(&mut self, n: usize) -> (taken: Option<&'a [u8]>)
        ensures
            match taken {
                Some(bytes) => n <= old(self)@.len() && bytes@ == old(self)@.take(n as int)
                    && final(self)@ == old(self)@.skip(n as int),
                None => n > old(self)@.len() && final(self)@ == old(self)@,
            },
    {
        let len = self.bytes.len();
        if n <= len {
            let head = slice_subrange(self.bytes, 0, n);
            self.bytes = slice_subrange(self.bytes, n, len);
            Some(head)
        } else {
            None
        }
    }
}

} // verus!
