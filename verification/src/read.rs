//! Byte sources.

use vstd::prelude::*;
use crate::error::Error;
use crate::error::ErrorCode;
use crate::private::Sealed;

verus! {

/// Bytes handed out by a source: borrowed either from the source's own buffer,
/// and then valid only until the source is used again, or from the input
/// itself, and then valid for as long as the input is.
pub enum EitherLifetime<'short, 'long> {
    Short(&'short [u8]),
    Long(&'long [u8]),
}

impl<'short, 'long> View for EitherLifetime<'short, 'long> {
    type V = Seq<u8>;

    open spec fn view(&self) -> Seq<u8> {
        match *self {
            EitherLifetime::Short(bytes) => bytes@,
            EitherLifetime::Long(bytes) => bytes@,
        }
    }
}

/// The end-of-input error that a source reports at `offset`.
pub open spec fn eof_at(offset: int) -> Error {
    Error::at(ErrorCode::EofWhileParsingValue, offset as u64)
}

/// What a source that reads from a byte region looks like to its callers.
pub struct RegionState {
    /// The input that has not been consumed yet.
    pub unread: Seq<u8>,
    /// The bytes gathered since the buffer was last cleared.
    pub buffer: Seq<u8>,
    /// How many bytes of the input have been consumed.
    pub position: nat,
}

impl RegionState {
    /// A source at the start of `input`.
    pub open spec fn start(input: Seq<u8>) -> RegionState {
        RegionState { unread: input, buffer: Seq::empty(), position: 0 }
    }

    /// The next byte of the input, if there is one.
    pub open spec fn first(self) -> Option<u8> {
        if self.unread.len() > 0 {
            Some(self.unread[0])
        } else {
            None
        }
    }

    /// The length of the whole input.
    pub open spec fn length(self) -> nat {
        self.position + self.unread.len()
    }

    /// The source after `n` bytes were consumed and dropped.
    pub open spec fn skip(self, n: nat) -> RegionState
        recommends
            n <= self.unread.len(),
    {
        RegionState {
            unread: self.unread.skip(n as int),
            buffer: self.buffer,
            position: self.position + n,
        }
    }

    /// The source after its buffer was cleared.
    pub open spec fn clear(self) -> RegionState {
        RegionState { unread: self.unread, buffer: Seq::empty(), position: self.position }
    }

    /// The source after `n` bytes were consumed and appended to its buffer.
    pub open spec fn gather(self, n: nat) -> RegionState
        recommends
            n <= self.unread.len(),
    {
        RegionState {
            unread: self.unread.skip(n as int),
            buffer: self.buffer + self.unread.take(n as int),
            position: self.position + n,
        }
    }
}

/// The input in which each of the chunks follows its gap, in their order:
/// each part is a gap, which holds no payload, and the chunk behind it.
pub open spec fn laid_out(parts: Seq<(Seq<u8>, Seq<u8>)>) -> Seq<u8>
    decreases parts.len(),
{
    if parts.len() == 0 {
        Seq::empty()
    } else {
        parts[0].0 + parts[0].1 + laid_out(parts.skip(1))
    }
}

/// The chunks of the parts put together, without the gaps.
pub open spec fn chunks(parts: Seq<(Seq<u8>, Seq<u8>)>) -> Seq<u8>
    decreases parts.len(),
{
    if parts.len() == 0 {
        Seq::empty()
    } else {
        parts[0].1 + chunks(parts.skip(1))
    }
}

impl RegionState {
    /// The source after it went through the parts in their order: it
    /// consumed and dropped each gap and appended each chunk to its buffer.
    pub open spec fn gather_parts(self, parts: Seq<(Seq<u8>, Seq<u8>)>) -> RegionState
        decreases parts.len(),
    {
        if parts.len() == 0 {
            self
        } else {
            self.skip(parts[0].0.len()).gather(parts[0].1.len()).gather_parts(parts.skip(1))
        }
    }

    /// A source whose input starts with chunks that lie apart, each behind a
    /// gap, and that drops the gaps and gathers the chunks one by one, has
    /// in the end the chunks in its buffer, one directly behind the other
    /// and behind what the buffer held before, and stands behind the last
    /// chunk.
    pub proof fn lemma_gather_parts(self, parts: Seq<(Seq<u8>, Seq<u8>)>, rest: Seq<u8>)
        requires
            self.unread == laid_out(parts) + rest,
        ensures
            self.gather_parts(parts).buffer == self.buffer + chunks(parts),
            self.gather_parts(parts).unread == rest,
            self.gather_parts(parts).position == self.position + laid_out(parts).len(),
        decreases parts.len(),
    {
        if parts.len() == 0 {
        } else {
            let gap = parts[0].0;
            let chunk = parts[0].1;
            let next = self.skip(gap.len()).gather(chunk.len());
            assert(next.unread =~= laid_out(parts.skip(1)) + rest);
            next.lemma_gather_parts(parts.skip(1), rest);
        }
    }
}

/// Trait used by the decoder for iterating over input.
///
/// This trait is sealed and cannot be implemented for types outside of this crate.
pub trait Read<'de>: Sealed {
    /// Whether the source is in a state that its operations keep it in.
    spec fn well_formed(&self) -> bool;

    /// What the source looks like to its callers.
    spec fn state(&self) -> RegionState;

    /// The input of a well-formed source is no longer than a `usize` holds:
    /// the offset of an end-of-input error is the length of the input, and
    /// `offset()` is the position, with nothing cut off.
    proof fn lemma_length_fits(&self)
        requires
            self.well_formed(),
        ensures
            self.state().length() <= usize::MAX,
            self.state().position <= self.state().length(),
            eof_at(self.state().length() as int).position() == self.state().length(),
            eof_at(self.state().length() as int).reason() is EofWhileParsingValue,
    ;

    /// Consumes and returns the next byte, or `None` at the end of the input.
    fn next(&mut self) -> (result: Result<Option<u8>, std::io::Error>)
        requires
            old(self).well_formed(),
        ensures
            final(self).well_formed(),
            result == Ok::<Option<u8>, std::io::Error>(old(self).state().first()),
            final(self).state() == old(self).state().skip(
                if old(self).state().first() is Some {
                    1nat
                } else {
                    0nat
                },
            ),
    ;

    /// Returns the next byte without consuming it, or `None` at the end of
    /// the input. The source stays as it is: as long as nothing else is done
    /// to it, every call returns the same.
    fn peek(&mut self) -> (result: Result<Option<u8>, std::io::Error>)
        requires
            old(self).well_formed(),
        ensures
            final(self).well_formed(),
            result == Ok::<Option<u8>, std::io::Error>(old(self).state().first()),
            final(self).state() == old(self).state(),
    ;

    /// Reads `n` bytes from the input, or fails, where the input holds
    /// fewer, with the end of the input at its length.
    ///
    /// Sources that can do so hand out bytes borrowed from the input itself,
    /// which outlive the source; the others gather the bytes in their buffer
    /// and hand out that. Either way the buffer may have been cleared.
    fn read<'a>(&'a mut self, n: usize) -> (result: Result<EitherLifetime<'a, 'de>, Error>)
        requires
            old(self).well_formed(),
        ensures
            final(self).well_formed(),
            n <= old(self).state().unread.len() ==> {
                &&& result matches Ok(bytes) && bytes@ == old(self).state().unread.take(n as int)
                &&& final(self).state().unread == old(self).state().unread.skip(n as int)
                &&& final(self).state().position == old(self).state().position + n
            },
            n > old(self).state().unread.len() ==> {
                &&& result matches Err(error) && error == eof_at(
                    old(self).state().length() as int,
                )
                &&& final(self).state().unread == old(self).state().unread
                &&& final(self).state().position == old(self).state().position
            },
    {
        self.clear_buffer();
        match self.read_to_buffer(n) {
            Ok(()) => {
                let bytes = self.view_buffer();
                assert(bytes@ =~= old(self).state().unread.take(n as int));
                Ok(bytes)
            },
            Err(error) => Err(error),
        }
    }

    /// Empties the buffer.
    fn clear_buffer(&mut self)
        requires
            old(self).well_formed(),
        ensures
            final(self).well_formed(),
            final(self).state() == old(self).state().clear(),
    ;

    /// Appends `n` bytes from the input to the buffer, without clearing it,
    /// or fails, where the input holds fewer, with the end of the input at
    /// its length, and changes nothing.
    fn read_to_buffer(&mut self, n: usize) -> (result: Result<(), Error>)
        requires
            old(self).well_formed(),
        ensures
            final(self).well_formed(),
            n <= old(self).state().unread.len() ==> {
                &&& result is Ok
                &&& final(self).state() == old(self).state().gather(n as nat)
            },
            n > old(self).state().unread.len() ==> {
                &&& result == Err::<(), Error>(eof_at(old(self).state().length() as int))
                &&& final(self).state() == old(self).state()
            },
    ;

    /// The buffer.
    fn view_buffer<'a>(&'a self) -> (bytes: EitherLifetime<'a, 'de>)
        requires
            self.well_formed(),
        ensures
            bytes@ == self.state().buffer,
    ;

    /// Fills `buf` from the input, or fails, where the input holds fewer
    /// bytes than `buf`, with the end of the input at its length, and
    /// changes nothing.
    fn read_into(&mut self, buf: &mut [u8]) -> (result: Result<(), Error>)
        requires
            old(self).well_formed(),
        ensures
            final(self).well_formed(),
            old(buf)@.len() <= old(self).state().unread.len() ==> {
                &&& result is Ok
                &&& final(buf)@ == old(self).state().unread.take(old(buf)@.len() as int)
                &&& final(self).state() == old(self).state().skip(old(buf)@.len())
            },
            old(buf)@.len() > old(self).state().unread.len() ==> {
                &&& result == Err::<(), Error>(eof_at(old(self).state().length() as int))
                &&& final(buf)@ == old(buf)@
                &&& final(self).state() == old(self).state()
            },
    ;

    /// Consumes the next byte, which a call of `peek` has shown to be there.
    fn discard(&mut self)
        requires
            old(self).well_formed(),
            old(self).state().unread.len() > 0,
        ensures
            final(self).well_formed(),
            final(self).state() == old(self).state().skip(1),
    ;

    /// The absolute position in the input, in bytes.
    fn offset(&self) -> (offset: u64)
        requires
            self.well_formed(),
        ensures
            offset == self.state().position,
    ;
}

/// Copies `src` over `dest`, which has the same length.
pub(crate) fn copy_bytes(dest: &mut [u8], src: &[u8])
    requires
        old(dest)@.len() == src@.len(),
    ensures
        final(dest)@ == src@,
{
    let mut i: usize = 0;
    while i < src.len()
        invariant
            i <= src@.len() == dest@.len(),
            dest@.take(i as int) == src@.take(i as int),
        decreases src@.len() - i,
    {
        dest[i] = src[i];
        i += 1;
    }
    assert(src@ =~= src@.take(i as int));
}

} // verus!
