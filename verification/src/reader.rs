//! An in-memory source of bytes that is consumed front to back.

use vstd::prelude::*;
use crate::types::Error;
use crate::types::IoErrorKind;

verus! {

/// What a source looks like to a contract: all of its bytes, and how many of
/// them have been consumed.
pub struct ReaderView {
    pub input: Seq<u8>,
    pub pos: nat,
}

impl ReaderView {
    /// The bytes that have not been consumed yet.
    pub open spec fn remaining(self) -> Seq<u8> {
        self.input.skip(self.pos as int)
    }

    /// The same source after `n` more bytes were consumed.
    pub open spec fn advance(self, n: nat) -> ReaderView {
        ReaderView { input: self.input, pos: self.pos + n }
    }
}

/// What an attempt to read something from the front of some bytes comes to:
/// the value or the failure, and the number of bytes the attempt consumed.
pub struct Parsed<T> {
    pub result: Result<T, Error>,
    pub consumed: nat,
}

impl<T> Parsed<T> {
    /// The same attempt with `f` applied to its value.
    pub open spec fn map<U>(self, f: spec_fn(T) -> U) -> Parsed<U> {
        Parsed {
            result: match self.result {
                Ok(v) => Ok(f(v)),
                Err(e) => Err(e),
            },
            consumed: self.consumed,
        }
    }
}

/// The view of a read result: the view of the value, or the error as it is.
pub open spec fn result_view<T: View>(r: Result<T, Error>) -> Result<T::V, Error> {
    match r {
        Ok(v) => Ok(v@),
        Err(e) => Err(e),
    }
}

/// What taking exactly `n` bytes from the front of `input` comes to. Where
/// fewer than `n` bytes are left the attempt fails and uses up what is there.
pub open spec fn spec_read_exact(input: Seq<u8>, n: nat) -> Parsed<Seq<u8>> {
    if n <= input.len() {
        Parsed { result: Ok(input.take(n as int)), consumed: n }
    } else {
        Parsed { result: Err(Error::IoError(IoErrorKind::UnexpectedEof)), consumed: input.len() }
    }
}

/// Consuming `n` bytes, where that many are left, leaves what was left
/// without its first `n` bytes.
pub proof fn lemma_advance_remaining(v: ReaderView, n: nat)
    requires
        v.pos + n <= v.input.len(),
    ensures
        v.advance(n).remaining() == v.remaining().skip(n as int),
{
    assert(v.advance(n).remaining() =~= v.remaining().skip(n as int));
}

/// A cursor over a slice of bytes.
pub struct ByteReader<'a> {
    data: &'a [u8],
    pos: usize,
}

impl<'a> View for ByteReader<'a> {
    type V = ReaderView;

    closed spec fn view(&self) -> ReaderView {
        ReaderView {
            input: self.data@,
            pos: if self.pos <= self.data@.len() {
                self.pos as nat
            } else {
                self.data@.len()
            },
        }
    }
}

impl<'a> ByteReader<'a> {
    #[verifier::type_invariant]
    spec fn in_bounds(&self) -> bool {
        self.pos <= self.data@.len()
    }

    /// The view of a cursor at the start of `data`.
    pub open spec fn new_view(data: Seq<u8>) -> ReaderView {
        ReaderView { input: data, pos: 0 }
    }

    /// A cursor at the start of `data`.
    pub fn new(data: &'a [u8]) -> (r: Self)
        ensures
            r@ == Self::new_view(data@),
            r@.remaining() == data@,
    {
        assert(data@.skip(0) =~= data@);
        ByteReader { data, pos: 0 }
    }

    /// The cursor never runs past the end of its bytes.
    pub proof fn lemma_in_bounds(&self)
        ensures
            self@.pos <= self@.input.len(),
            self@.remaining().len() == self@.input.len() - self@.pos,
    {
    }

    /// The number of bytes consumed so far.
    pub fn position(&self) -> (r: usize)
        ensures
            r == self@.pos,
    {
        proof {
            use_type_invariant(self);
        }
        self.pos
    }

    /// The number of bytes that are left.
    pub fn remaining_len(&self) -> (r: usize)
        ensures
            r == self@.remaining().len(),
    {
        proof {
            use_type_invariant(self);
        }
        self.data.len() - self.pos
    }

    /// Takes exactly `n` bytes. With fewer than `n` left, fails with
    /// [`IoErrorKind::UnexpectedEof`] and leaves the cursor at the end.
    pub fn read_exact(&mut self, n: usize) -> (r: Result<&'a [u8], Error>)
        ensures
            result_view(r) == spec_read_exact(old(self)@.remaining(), n as nat).result,
            final(self)@ == old(self)@.advance(
                spec_read_exact(old(self)@.remaining(), n as nat).consumed,
            ),
    {
        proof {
            use_type_invariant(&*self);
        }
        let left = self.data.len() - self.pos;
        if n <= left {
            let out = vstd::slice::slice_subrange(self.data, self.pos, self.pos + n);
            self.pos = self.pos + n;
            assert(out@ =~= old(self)@.remaining().take(n as int));
            Ok(out)
        } else {
            self.pos = self.data.len();
            Err(Error::IoError(IoErrorKind::UnexpectedEof))
        }
    }
}

} // verus!
