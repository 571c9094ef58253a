//! A byte source over a borrowed slice.

use vstd::prelude::*;
use crate::error::Error;
use crate::error::ErrorCode;
use crate::private::Sealed;
use crate::read::copy_bytes;
use crate::read::eof_at;
use crate::read::EitherLifetime;
use crate::read::Read;
use crate::read::RegionState;

verus! {

/// A CBOR input source that reads from a slice of bytes.
pub struct SliceRead<'a> {
    slice: &'a [u8],
    scratch: Vec<u8>,
    index: usize,
}

impl<'a> View for SliceRead<'a> {
    type V = RegionState;

    closed spec fn view(&self) -> RegionState {
        RegionState {
            unread: self.slice@.skip(self.index as int),
            buffer: self.scratch@,
            position: self.index as nat,
        }
    }
}

impl<'a> SliceRead<'a> {
    /// Creates a CBOR input source to read from a slice of bytes.
    pub fn new(slice: &'a [u8]) -> (source: SliceRead<'a>)
        ensures
            source.well_formed(),
            source@ == RegionState::start(slice@),
    {
        let source = SliceRead { slice, scratch: Vec::new(), index: 0 };
        assert(source@.unread =~= slice@);
        source
    }

    /// Where the `n` bytes that come next end, if the input holds as many.
    fn end(&self, n: usize) -> (result: Result<usize, Error>)
        requires
            self.well_formed(),
        ensures
            self@.length() == self.slice@.len() <= usize::MAX,
            n <= self@.unread.len() ==> (result matches Ok(end) && end == self.index + n),
            n > self@.unread.len() ==> (result matches Err(error) && error == eof_at(
                self@.length() as int,
            )),
    {
        match self.index.checked_add(n) {
            Some(end) if end <= self.slice.len() => Ok(end),
            _ => Err(Error::syntax(ErrorCode::EofWhileParsingValue, self.slice.len() as u64)),
        }
    }
}

impl<'a> Sealed for SliceRead<'a> {

}

impl<'a> Read<'a> for SliceRead<'a> {
    closed spec fn well_formed(&self) -> bool {
        self.index <= self.slice@.len()
    }

    open spec fn state(&self) -> RegionState {
        self@
    }

    proof fn lemma_length_fits(&self) {
        broadcast use Error::lemma_at;

        assert(self.slice.len() == self.slice@.len());
    }

    fn next(&mut self) -> (result: Result<Option<u8>, std::io::Error>) {
        let result = if self.index < self.slice.len() {
            let ch = self.slice[self.index];
            self.index += 1;
            Ok(Some(ch))
        } else {
            Ok(None)
        };
        assert(self@.unread =~= old(self)@.unread.skip(self.index - old(self).index));
        result
    }

    fn peek(&mut self) -> (result: Result<Option<u8>, std::io::Error>) {
        if self.index < self.slice.len() {
            Ok(Some(self.slice[self.index]))
        } else {
            Ok(None)
        }
    }

    /// Hands out the next `n` bytes of the input itself, and leaves the
    /// buffer as it is.
    fn read<'b>(&'b mut self, n: usize) -> (result: Result<EitherLifetime<'b, 'a>, Error>)
        ensures
            result is Ok ==> result matches Ok(EitherLifetime::Long(_)),
            final(self)@.buffer == old(self)@.buffer,
    {
        let end = match self.end(n) {
            Ok(end) => end,
            Err(error) => {
                return Err(error);
            },
        };
        let slice = &self.slice[self.index..end];
        self.index = end;
        assert(self@.unread =~= old(self)@.unread.skip(n as int));
        assert(slice@ =~= old(self)@.unread.take(n as int));
        Ok(EitherLifetime::Long(slice))
    }

    fn clear_buffer(&mut self) {
        self.scratch.clear();
    }

    fn read_to_buffer(&mut self, n: usize) -> (result: Result<(), Error>) {
        let end = match self.end(n) {
            Ok(end) => end,
            Err(error) => {
                return Err(error);
            },
        };
        let slice = &self.slice[self.index..end];
        self.scratch.extend_from_slice(slice);
        self.index = end;
        assert(self@.unread =~= old(self)@.unread.skip(n as int));
        assert(self@.buffer =~= old(self)@.buffer + old(self)@.unread.take(n as int));
        Ok(())
    }

    /// The buffer, which is the source's own.
    fn view_buffer<'b>(&'b self) -> (bytes: EitherLifetime<'b, 'a>)
        ensures
            bytes is Short,
    {
        EitherLifetime::Short(self.scratch.as_slice())
    }

    fn read_into(&mut self, buf: &mut [u8]) -> (result: Result<(), Error>) {
        let end = match self.end(buf.len()) {
            Ok(end) => end,
            Err(error) => {
                return Err(error);
            },
        };
        copy_bytes(buf, &self.slice[self.index..end]);
        self.index = end;
        assert(self@.unread =~= old(self)@.unread.skip(old(buf)@.len() as int));
        assert(buf@ =~= old(self)@.unread.take(old(buf)@.len() as int));
        Ok(())
    }

    fn discard(&mut self) {
        assert(self.index < self.slice.len());
        self.index += 1;
        assert(self@.unread =~= old(self)@.unread.skip(1));
    }

    fn offset(&self) -> (offset: u64) {
        self.index as u64
    }
}

} // verus!
