//! A cursor over a borrowed byte slice.

use vstd::prelude::*;
use vstd::slice::slice_subrange;

verus! {

/// `std::io::Error`, the error type of [`ByteStream::consume`], declared so
/// that a signature can hold it. Nothing is known of its values.
#[verifier::external_type_specification]
#[verifier::external_body]
pub struct ExIoError(std::io::Error);

/// A read cursor over a byte slice; the bytes before the cursor have been
/// consumed.
pub struct ByteStream<'a> {
    data: &'a [u8],
    index: usize,
}

/// Calls `std::io::Error::new` with the kind `UnexpectedEof`. Nothing is
/// claimed of the value that comes back.
#[verifier::external_body]
fn unexpected_eof() -> std::io::Error {
    std::io::Error::new(std::io::ErrorKind::UnexpectedEof, "consume")
}

impl<'a> ByteStream<'a> {
    #[verifier::type_invariant]
    spec fn cursor_in_bounds(&self) -> bool {
        self.index <= self.data@.len()
    }

    /// The whole input, consumed bytes included.
    pub closed spec fn bytes(&self) -> Seq<u8> {
        self.data@
    }

    /// How many bytes have been consumed.
    pub closed spec fn position(&self) -> nat {
        self.index as nat
    }

    /// The bytes that have not been consumed yet.
    pub open spec fn remaining(&self) -> Seq<u8> {
        self.bytes().skip(self.position() as int)
    }

    pub fn new(data: &'a [u8]) -> (stream: Self)
        ensures
            stream.bytes() == data@,
            stream.position() == 0,
    {
        ByteStream { data, index: 0 }
    }

    /// The slice the stream was made over.
    pub fn data(&self) -> (data: &'a [u8])
        ensures
            data@ == self.bytes(),
    {
        self.data
    }

    /// The number of bytes consumed so far.
    pub fn index(&self) -> (index: usize)
        ensures
            index == self.position(),
            index <= self.bytes().len(),
    {
        proof {
            use_type_invariant(self);
        }
        self.index
    }

    /// The next byte, without consuming it.
    pub fn peek(&self) -> (next: Option<u8>)
        ensures
            next == if self.position() < self.bytes().len() {
                Some(self.bytes()[self.position() as int])
            } else {
                None
            },
    {
        if self.index >= self.data.len() {
            return None;
        }
        Some(self.data[self.index])
    }

    /// The number of bytes left.
    pub fn len(&self) -> (n: usize)
        ensures
            n == self.bytes().len() - self.position(),
            n == self.remaining().len(),
            self.bytes().len() <= usize::MAX,
    {
        proof {
            use_type_invariant(self);
        }
        let len = self.data.len();
        if self.index >= len {
            return 0;
        }
        len - self.index
    }

    pub fn is_empty(&self) -> (empty: bool)
        ensures
            empty == (self.position() == self.bytes().len()),
    {
        proof {
            use_type_invariant(self);
        }
        self.len() == 0
    }

    /// Takes the next `amount` bytes, or fails and leaves the stream as it was
    /// when fewer are left.
    pub fn consume(&mut self, amount: usize) -> (taken: Result<&'a [u8], std::io::Error>)
        ensures
            final(self).bytes() == old(self).bytes(),
            taken is Ok <==> old(self).position() + amount <= old(self).bytes().len(),
            taken is Ok ==> {
                &&& taken->Ok_0@ == old(self).bytes().subrange(
                    old(self).position() as int,
                    old(self).position() + amount,
                )
                &&& final(self).position() == old(self).position() + amount
            },
            taken is Err ==> final(self).position() == old(self).position(),
    {
        proof {
            use_type_invariant(&*self);
        }
        if self.len() < amount {
            return Err(unexpected_eof());
        }
        let result = slice_subrange(self.data, self.index, self.index + amount);
        self.index += amount;
        Ok(result)
    }
}

} // verus!
