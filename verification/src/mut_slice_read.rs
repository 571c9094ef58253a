//! A byte source over a mutable slice, which gathers scattered chunks in place.

use vstd::prelude::*;
use sealingslice::SealingSlice;
use crate::error::Error;
use crate::error::ErrorCode;
use crate::private::Sealed;
use crate::read::copy_bytes;
use crate::read::eof_at;
use crate::read::EitherLifetime;
use crate::read::Read;
use crate::read::RegionState;

verus! {

/// `sealingslice::SealingSlice`: a slice whose front part is sealed off from
/// mutation, piece by piece.
#[verifier::external_type_specification]
#[verifier::external_body]
#[verifier::reject_recursive_types(Item)]
pub struct ExSealingSlice<'s, Item: 's>(SealingSlice<'s, Item>);

/// The sealed part of a sealing slice: what `SealingSlice::sealed` hands out.
pub uninterp spec fn sealed_part(slice: SealingSlice<u8>) -> Seq<u8>;

/// The part of a sealing slice that is still mutable: what
/// `SealingSlice::mutable` hands out.
pub uninterp spec fn mutable_part(slice: SealingSlice<u8>) -> Seq<u8>;

/// `SealingSlice::new`: the new sealing slice has nothing sealed, and the
/// whole of the given slice is its mutable part.
#[verifier::external_body]
fn sealing_slice<'s>(slice: &'s mut [u8]) -> (sealing: SealingSlice<'s, u8>)
    ensures
        sealed_part(sealing) == Seq::<u8>::empty(),
        mutable_part(sealing) == old(slice)@,
{
    SealingSlice::new(slice)
}

/// `SealingSlice::seal`: the first `n` bytes of the mutable part move, as they
/// are, to the end of the sealed part. The call panics where the mutable part
/// is shorter than `n`.
#[verifier::external_body]
fn seal(sealing: &mut SealingSlice<u8>, n: usize)
    requires
        n <= mutable_part(*old(sealing)).len(),
    ensures
        sealed_part(*final(sealing)) == sealed_part(*old(sealing)) + mutable_part(
            *old(sealing),
        ).take(n as int),
        mutable_part(*final(sealing)) == mutable_part(*old(sealing)).skip(n as int),
{
    sealing.seal(n)
}

/// `SealingSlice::mutable`: a mutable view of the part that is not sealed.
/// What is written through it is the mutable part afterwards; the sealed part
/// stays as it is.
#[verifier::external_body]
fn mutable<'a>(sealing: &'a mut SealingSlice<u8>) -> (live: &'a mut [u8])
    ensures
        live@ == mutable_part(*old(sealing)),
        mutable_part(*final(sealing)) == final(live)@,
        sealed_part(*final(sealing)) == sealed_part(*old(sealing)),
{
    sealing.mutable()
}

/// `SealingSlice::sealed`: the sealed part, borrowed for as long as the
/// underlying slice lives.
#[verifier::external_body]
fn sealed<'a, 's>(sealing: &'a SealingSlice<'s, u8>) -> (bytes: &'s [u8])
    ensures
        bytes@ == sealed_part(*sealing),
{
    sealing.sealed()
}

/// `<[T]>::rotate_left` of std: the first `mid` elements move to the end and
/// the others to the front. The call panics where `mid` exceeds the length.
pub assume_specification<T>[ <[T]>::rotate_left ](slice: &mut [T], mid: usize)
    requires
        mid <= old(slice)@.len(),
    ensures
        final(slice)@ == old(slice)@.skip(mid as int) + old(slice)@.take(mid as int),
;

/// A CBOR input source that reads from a slice of bytes, and can move data
/// around internally to reassemble indefinite strings without the need of an
/// allocated scratch buffer.
pub struct MutSliceRead<'a> {
    /// A complete view of the reader's data.
    slice: SealingSlice<'a, u8>,
    /// Read cursor position in the mutable part of the slice.
    index: usize,
    /// Length of the immutable part when the buffer was last cleared.
    buffer_start: usize,
}

impl<'a> View for MutSliceRead<'a> {
    type V = RegionState;

    closed spec fn view(&self) -> RegionState {
        RegionState {
            unread: mutable_part(self.slice).skip(self.index as int),
            buffer: sealed_part(self.slice).skip(self.buffer_start as int),
            position: sealed_part(self.slice).len() + self.index as nat,
        }
    }
}

impl<'a> MutSliceRead<'a> {
    /// The front of the region, which is sealed: no later operation changes
    /// these bytes. The buffer is the end of it.
    pub closed spec fn sealed(&self) -> Seq<u8> {
        sealed_part(self.slice)
    }

    /// The bytes that were consumed and are not sealed yet. In the region
    /// they lie between the sealed part and the unread input.
    pub closed spec fn skipped(&self) -> Seq<u8> {
        mutable_part(self.slice).take(self.index as int)
    }

    /// The part of the region that is not sealed.
    pub open spec fn live(&self) -> Seq<u8> {
        self.skipped() + self@.unread
    }

    /// The whole region, as it stands.
    pub open spec fn region(&self) -> Seq<u8> {
        self.sealed() + self.live()
    }

    /// The buffer is the end of the sealed part.
    pub proof fn lemma_buffer_is_sealed(&self)
        requires
            self.well_formed(),
        ensures
            self@.buffer.is_suffix_of(self.sealed()),
    {
        let front = self.sealed().take(self.buffer_start as int);
        assert(self.sealed() =~= front + self@.buffer);
    }

    /// Gathering a chunk moves it in front of the bytes that were skipped,
    /// and nothing else: the region holds the same bytes as before, each as
    /// often as before.
    pub proof fn lemma_gathering_permutes(
        sealed: Seq<u8>,
        skipped: Seq<u8>,
        chunk: Seq<u8>,
        rest: Seq<u8>,
    )
        ensures
            ((sealed + chunk) + (skipped + rest)).to_multiset() == (sealed + (skipped + (chunk
                + rest))).to_multiset(),
            ((sealed + chunk) + (skipped + rest)).len() == (sealed + (skipped + (chunk
                + rest))).len(),
    {
        vstd::seq_lib::lemma_multiset_commutative(sealed + chunk, skipped + rest);
        vstd::seq_lib::lemma_multiset_commutative(sealed, chunk);
        vstd::seq_lib::lemma_multiset_commutative(skipped, rest);
        vstd::seq_lib::lemma_multiset_commutative(sealed, skipped + (chunk + rest));
        vstd::seq_lib::lemma_multiset_commutative(skipped, chunk + rest);
        vstd::seq_lib::lemma_multiset_commutative(chunk, rest);
        assert(((sealed + chunk) + (skipped + rest)).to_multiset() =~= (sealed + (skipped + (chunk
            + rest))).to_multiset());
    }

    /// Creates a CBOR input source to read from a slice of bytes.
    pub fn new(slice: &'a mut [u8]) -> (source: MutSliceRead<'a>)
        ensures
            source.well_formed(),
            source@ == RegionState::start(old(slice)@),
            source.sealed() == Seq::<u8>::empty(),
            source.skipped() == Seq::<u8>::empty(),
    {
        assert(slice.len() == slice@.len());
        let source = MutSliceRead { slice: sealing_slice(slice), index: 0, buffer_start: 0 };
        assert(source@.unread =~= old(slice)@);
        assert(source@.buffer =~= Seq::<u8>::empty());
        source
    }

    /// Where the `n` bytes that come next end in the mutable part, if the
    /// input holds as many.
    fn end(&mut self, n: usize) -> (result: Result<usize, Error>)
        requires
            old(self).well_formed(),
        ensures
            final(self).well_formed(),
            final(self).index == old(self).index,
            final(self).buffer_start == old(self).buffer_start,
            sealed_part(final(self).slice) == sealed_part(old(self).slice),
            mutable_part(final(self).slice) == mutable_part(old(self).slice),
            n <= old(self)@.unread.len() ==> (result matches Ok(end) && end == old(self).index + n),
            n > old(self)@.unread.len() ==> (result matches Err(error) && error == eof_at(
                old(self)@.length() as int,
            )),
    {
        let mutlen = mutable(&mut self.slice).len();
        match self.index.checked_add(n) {
            Some(end) if end <= mutlen => Ok(end),
            _ => Err(
                Error::syntax(
                    ErrorCode::EofWhileParsingValue,
                    (sealed(&self.slice).len() + mutlen) as u64,
                ),
            ),
        }
    }
}

impl<'a> Sealed for MutSliceRead<'a> {

}

impl<'a> Read<'a> for MutSliceRead<'a> {
    closed spec fn well_formed(&self) -> bool {
        &&& self.index <= mutable_part(self.slice).len()
        &&& self.buffer_start <= sealed_part(self.slice).len()
        &&& sealed_part(self.slice).len() + mutable_part(self.slice).len() <= usize::MAX
    }

    open spec fn state(&self) -> RegionState {
        self@
    }

    proof fn lemma_length_fits(&self) {
        broadcast use Error::lemma_at;
    }

    fn next(&mut self) -> (result: Result<Option<u8>, std::io::Error>)
        ensures
            final(self).sealed() == old(self).sealed(),
            final(self).skipped() == match old(self)@.first() {
                Some(byte) => old(self).skipped().push(byte),
                None => old(self).skipped(),
            },
            final(self).region() == old(self).region(),
    {
        let next = self.peek();
        if let Ok(Some(_)) = next {
            self.index += 1;
        }
        assert(self@.unread =~= old(self)@.unread.skip(self.index - old(self).index));
        next
    }

    fn peek(&mut self) -> (result: Result<Option<u8>, std::io::Error>)
        ensures
            final(self).sealed() == old(self).sealed(),
            final(self).skipped() == old(self).skipped(),
            final(self).region() == old(self).region(),
    {
        let live = mutable(&mut self.slice);
        let result = if self.index < live.len() {
            Ok(Some(live[self.index]))
        } else {
            Ok(None)
        };
        result
    }

    /// Gathers the next `n` bytes of the input in the buffer, which is
    /// cleared first, and hands out the buffer. Where the input holds fewer
    /// bytes, the buffer is cleared all the same.
    fn read<'b>(&'b mut self, n: usize) -> (result: Result<EitherLifetime<'b, 'a>, Error>)
        ensures
            result is Ok ==> result matches Ok(EitherLifetime::Long(_)),
            final(self)@.buffer == if n <= old(self)@.unread.len() {
                old(self)@.unread.take(n as int)
            } else {
                Seq::empty()
            },
            final(self).sealed() == old(self).sealed() + old(self).skipped() + if n <= old(
                self,
            )@.unread.len() {
                old(self)@.unread.take(n as int)
            } else {
                Seq::empty()
            },
            final(self).skipped() == Seq::<u8>::empty(),
            final(self).region() == old(self).region(),
    {
        self.clear_buffer();
        match self.read_to_buffer(n) {
            Ok(()) => {
                let bytes = self.view_buffer();
                assert(bytes@ =~= old(self)@.unread.take(n as int));
                Ok(bytes)
            },
            Err(error) => Err(error),
        }
    }

    /// Seals what was consumed so far, and lets the buffer start behind it.
    /// The region stays as it is.
    fn clear_buffer(&mut self)
        ensures
            final(self).sealed() == old(self).sealed() + old(self).skipped(),
            final(self).skipped() == Seq::<u8>::empty(),
            final(self).region() == old(self).region(),
    {
        seal(&mut self.slice, self.index);
        self.buffer_start = sealed(&self.slice).len();
        self.index = 0;
        assert(self@.unread =~= old(self)@.unread);
        assert(self@.buffer =~= Seq::<u8>::empty());
    }

    /// Moves the next `n` bytes of the input to the end of the sealed part,
    /// in front of what was consumed and not sealed yet, and seals them. The
    /// region holds the same bytes as before: the chunk and the skipped bytes
    /// have changed places.
    fn read_to_buffer(&mut self, n: usize) -> (result: Result<(), Error>)
        ensures
            final(self).sealed() == if result is Ok {
                old(self).sealed() + old(self)@.unread.take(n as int)
            } else {
                old(self).sealed()
            },
            final(self).skipped() == old(self).skipped(),
            final(self).region().len() == old(self).region().len(),
            final(self).region().to_multiset() == old(self).region().to_multiset(),
    {
        let end = match self.end(n) {
            Ok(end) => end,
            Err(error) => {
                return Err(error);
            },
        };
        let (front, _) = mutable(&mut self.slice).split_at_mut(end);
        front.rotate_left(self.index);
        seal(&mut self.slice, n);
        assert(self@.unread =~= old(self)@.unread.skip(n as int));
        assert(self@.buffer =~= old(self)@.buffer + old(self)@.unread.take(n as int));
        proof {
            let chunk = old(self)@.unread.take(n as int);
            let rest = old(self)@.unread.skip(n as int);
            Self::lemma_gathering_permutes(old(self).sealed(), old(self).skipped(), chunk, rest);
            assert(old(self)@.unread =~= chunk + rest);
            assert(self.skipped() =~= old(self).skipped());
            assert(self.region() =~= (old(self).sealed() + chunk) + (old(self).skipped() + rest));
            assert(old(self).region() =~= old(self).sealed() + (old(self).skipped() + (chunk
                + rest)));
        }
        Ok(())
    }

    /// The buffer, which is a part of the input itself.
    fn view_buffer<'b>(&'b self) -> (bytes: EitherLifetime<'b, 'a>)
        ensures
            bytes is Long,
    {
        let whole = sealed(&self.slice);
        EitherLifetime::Long(&whole[self.buffer_start..whole.len()])
    }

    fn read_into(&mut self, buf: &mut [u8]) -> (result: Result<(), Error>)
        ensures
            final(self).sealed() == old(self).sealed(),
            final(self).skipped() == if result is Ok {
                old(self).skipped() + old(self)@.unread.take(old(buf)@.len() as int)
            } else {
                old(self).skipped()
            },
            final(self).region() == old(self).region(),
    {
        let end = match self.end(buf.len()) {
            Ok(end) => end,
            Err(error) => {
                return Err(error);
            },
        };
        let live = mutable(&mut self.slice);
        copy_bytes(buf, &live[self.index..end]);
        self.index = end;
        assert(self@.unread =~= old(self)@.unread.skip(old(buf)@.len() as int));
        Ok(())
    }

    fn discard(&mut self)
        ensures
            final(self).sealed() == old(self).sealed(),
            final(self).skipped() == old(self).skipped().push(old(self)@.unread[0]),
            final(self).region() == old(self).region(),
    {
        self.index += 1;
        assert(self@.unread =~= old(self)@.unread.skip(1));
    }

    fn offset(&self) -> (offset: u64) {
        let offset = sealed(&self.slice).len() + self.index;
        offset as u64
    }
}

} // verus!
