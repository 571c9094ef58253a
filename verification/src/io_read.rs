//! A byte source over a sequential byte transport.

use vstd::prelude::*;
use crate::error::Error;
use crate::error::ErrorCode;
use crate::private::Sealed;
use crate::read::eof_at;
use crate::read::EitherLifetime;

verus! {

/// How much room `read_to_buffer` reserves at most before it has read anything:
/// a length that the input claims commits no more memory than this.
pub const RESERVE_LIMIT: usize = 16384;

/// How often in a row a transport may report an interruption before the
/// source gives up on it.
pub const RETRY_LIMIT: u64 = u64::MAX;

/// What a transport reported of one request for bytes.
#[derive(Debug)]
pub enum Outcome {
    /// It delivered this many bytes; none means that the input has ended.
    Count(usize),
    /// It was interrupted before it delivered anything.
    Interrupted(std::io::Error),
    /// It failed because the input ended early.
    UnexpectedEof(std::io::Error),
    /// It failed otherwise.
    Failed(std::io::Error),
}

/// What one attempt to get the next byte came to.
#[derive(Debug)]
pub enum Pull {
    /// The next byte.
    Byte(u8),
    /// The input has ended.
    End,
    /// Nothing yet: ask again, or give up with this.
    Again(std::io::Error),
    /// The transport failed.
    Failed(std::io::Error),
}

/// What one attempt to get more bytes for a caller's buffer came to.
#[derive(Debug)]
pub enum Fill {
    /// This many bytes more are there.
    Got(usize),
    /// Nothing yet: ask again, or give up with this.
    Again(std::io::Error),
    /// The bytes cannot be had.
    Stop(Error),
}

/// A position that is `count` bytes behind `position`, as far as a `u64` can
/// tell.
pub open spec fn advanced(position: nat, count: nat) -> nat {
    if position + count > u64::MAX {
        u64::MAX as nat
    } else {
        position + count
    }
}

/// What a request for one byte came to, where `byte` is what the transport
/// left in the buffer.
pub open spec fn pull_of(outcome: Outcome, byte: u8) -> Pull {
    match outcome {
        Outcome::Count(count) => if count == 0 {
            Pull::End
        } else {
            Pull::Byte(byte)
        },
        Outcome::Interrupted(error) => Pull::Again(error),
        Outcome::UnexpectedEof(error) => Pull::Failed(error),
        Outcome::Failed(error) => Pull::Failed(error),
    }
}

/// What a request for more bytes came to, where `offset` is the position
/// after it.
pub open spec fn fill_of(outcome: Outcome, offset: u64) -> Fill {
    match outcome {
        Outcome::Count(count) => if count == 0 {
            Fill::Stop(eof_at(offset as int))
        } else {
            Fill::Got(count)
        },
        Outcome::Interrupted(error) => Fill::Again(error),
        Outcome::UnexpectedEof(_) => Fill::Stop(eof_at(offset as int)),
        Outcome::Failed(error) => Fill::Stop(Error::at(ErrorCode::Io(error), 0)),
    }
}

/// What a request for exactly `wanted` bytes came to, where `offset` is the
/// position after it.
pub open spec fn transfer_of(outcome: Outcome, wanted: usize, offset: u64) -> Result<(), Error> {
    match outcome {
        Outcome::Count(count) => if count == wanted {
            Ok(())
        } else {
            Err(eof_at(offset as int))
        },
        Outcome::Interrupted(error) => Err(Error::at(ErrorCode::Io(error), 0)),
        Outcome::UnexpectedEof(error) => Err(Error::at(ErrorCode::Io(error), 0)),
        Outcome::Failed(error) => Err(Error::at(ErrorCode::Io(error), 0)),
    }
}

/// Counts `count` bytes more onto `offset`. The count stops at what a `u64`
/// holds.
pub fn advance(offset: u64, count: usize) -> (position: u64)
    ensures
        position == advanced(offset as nat, count as nat),
{
    offset.saturating_add(count as u64)
}

/// How much room to reserve ahead of a transfer of `n` bytes: `n`, but no
/// more than `RESERVE_LIMIT`, however long the input claims to be.
pub fn reserve_room(n: usize) -> (room: usize)
    ensures
        room == if n < RESERVE_LIMIT {
            n
        } else {
            RESERVE_LIMIT
        },
{
    if n < RESERVE_LIMIT {
        n
    } else {
        RESERVE_LIMIT
    }
}

/// How many bytes a transfer of `n` bytes to the buffer asks of the
/// transport: `n`, less the byte that was looked ahead at, which comes first.
/// A transfer of no bytes asks for none.
pub fn transfer_limit(n: usize, pending: Option<u8>) -> (limit: usize)
    ensures
        limit == if n == 0 {
            0
        } else {
            n - lookahead(pending).len()
        },
{
    if n == 0 {
        0
    } else {
        match pending {
            Some(_) => n - 1,
            None => n,
        }
    }
}

/// Decides what a request for one byte came to.
pub fn pull_step(outcome: Outcome, byte: u8) -> (pull: Pull)
    ensures
        pull == pull_of(outcome, byte),
{
    match outcome {
        Outcome::Count(0) => Pull::End,
        Outcome::Count(_) => Pull::Byte(byte),
        Outcome::Interrupted(error) => Pull::Again(error),
        Outcome::UnexpectedEof(error) => Pull::Failed(error),
        Outcome::Failed(error) => Pull::Failed(error),
    }
}

/// Decides what a request for more bytes came to.
pub fn fill_step(outcome: Outcome, offset: u64) -> (fill: Fill)
    ensures
        fill == fill_of(outcome, offset),
{
    match outcome {
        Outcome::Count(0) => Fill::Stop(Error::syntax(ErrorCode::EofWhileParsingValue, offset)),
        Outcome::Count(count) => Fill::Got(count),
        Outcome::Interrupted(error) => Fill::Again(error),
        Outcome::UnexpectedEof(_) => Fill::Stop(
            Error::syntax(ErrorCode::EofWhileParsingValue, offset),
        ),
        Outcome::Failed(error) => Fill::Stop(Error::io(error)),
    }
}

/// Decides what a request for exactly `wanted` bytes came to.
pub fn transfer_result(outcome: Outcome, wanted: usize, offset: u64) -> (result: Result<(), Error>)
    ensures
        result == transfer_of(outcome, wanted, offset),
{
    match outcome {
        Outcome::Count(count) => if count == wanted {
            Ok(())
        } else {
            Err(Error::syntax(ErrorCode::EofWhileParsingValue, offset))
        },
        Outcome::Interrupted(error) => Err(Error::io(error)),
        Outcome::UnexpectedEof(error) => Err(Error::io(error)),
        Outcome::Failed(error) => Err(Error::io(error)),
    }
}

/// `std::io::Read::read`: the transport pulls some bytes into `buf`, and
/// reports how many. As std asks of every implementation, the count does not
/// exceed the length of `buf`.
#[verifier::external_body]
fn transport_read<R: std::io::Read>(reader: &mut R, buf: &mut [u8]) -> (result: Result<
    usize,
    std::io::Error,
>)
    ensures
        final(buf)@.len() == old(buf)@.len(),
        result matches Ok(count) ==> count <= old(buf)@.len(),
{
    reader.read(buf)
}

/// `std::io::Read::read_to_end` on what `std::io::Read::take` makes of a
/// borrow of the transport: appends to `sink`, behind what it holds, what the
/// transport
/// delivers until `limit` bytes have come, the input has ended or the
/// transport has failed, and reports on success how many bytes came. Once the
/// limit is reached the taken input is at its end, whatever the transport
/// would do: with a limit of 0 the call succeeds with nothing read.
#[verifier::external_body]
fn transport_take<R: std::io::Read>(reader: &mut R, limit: u64, sink: &mut Vec<u8>) -> (result:
    Result<usize, std::io::Error>)
    ensures
        old(sink)@.is_prefix_of(final(sink)@),
        final(sink)@.len() - old(sink)@.len() <= limit,
        result matches Ok(count) ==> count == final(sink)@.len() - old(sink)@.len(),
        limit == 0 ==> result is Ok,
{
    std::io::Read::read_to_end(&mut std::io::Read::take(reader, limit), sink)
}

/// `std::io::Error::kind`: sorts a transport's report by the kind of its
/// failure. A count stays a count, and an error stays the error that it was.
#[verifier::external_body]
fn outcome_of(result: Result<usize, std::io::Error>) -> (outcome: Outcome)
    ensures
        result matches Ok(count) ==> outcome == Outcome::Count(count),
        result matches Err(error) ==> outcome == Outcome::Interrupted(error) || outcome
            == Outcome::UnexpectedEof(error) || outcome == Outcome::Failed(error),
{
    match result {
        Ok(count) => Outcome::Count(count),
        Err(error) => match error.kind() {
            std::io::ErrorKind::Interrupted => Outcome::Interrupted(error),
            std::io::ErrorKind::UnexpectedEof => Outcome::UnexpectedEof(error),
            _ => Outcome::Failed(error),
        },
    }
}

/// A transport together with the position in its input: the count of the
/// bytes that it has delivered, less one that was only looked at.
struct OffsetReader<R> {
    reader: R,
    offset: u64,
}

impl<R: std::io::Read> OffsetReader<R> {
    /// Pulls some bytes into `buf` without counting them: they are looked
    /// at, and counted once they are consumed.
    fn look(&mut self, buf: &mut [u8]) -> (outcome: Outcome)
        ensures
            final(buf)@.len() == old(buf)@.len(),
            outcome matches Outcome::Count(count) ==> count <= old(buf)@.len(),
            final(self).offset == old(self).offset,
    {
        outcome_of(transport_read(&mut self.reader, buf))
    }

    /// Counts `count` bytes that were looked at as consumed.
    fn consume(&mut self, count: usize)
        ensures
            final(self).offset == advanced(old(self).offset as nat, count as nat),
    {
        self.offset = advance(self.offset, count);
    }

    /// Pulls some bytes into `buf` and counts them.
    fn read(&mut self, buf: &mut [u8]) -> (outcome: Outcome)
        ensures
            final(buf)@.len() == old(buf)@.len(),
            outcome matches Outcome::Count(count) ==> {
                &&& count <= old(buf)@.len()
                &&& final(self).offset == advanced(old(self).offset as nat, count as nat)
            },
            !(outcome is Count) ==> final(self).offset == old(self).offset,
    {
        let result = transport_read(&mut self.reader, buf);
        if let Ok(count) = result {
            self.offset = advance(self.offset, count);
        }
        outcome_of(result)
    }

    /// Appends up to `limit` bytes to `sink` and counts them. With a limit
    /// of 0 nothing comes, whatever the transport would deliver.
    fn take_to_end(&mut self, limit: u64, sink: &mut Vec<u8>) -> (outcome: Outcome)
        ensures
            limit == 0 ==> outcome == Outcome::Count(0),
            old(sink)@.is_prefix_of(final(sink)@),
            final(sink)@.len() - old(sink)@.len() <= limit,
            final(self).offset == advanced(
                old(self).offset as nat,
                (final(sink)@.len() - old(sink)@.len()) as nat,
            ),
            outcome matches Outcome::Count(count) ==> count == final(sink)@.len() - old(
                sink,
            )@.len(),
    {
        let before = sink.len();
        let result = transport_take(&mut self.reader, limit, sink);
        let grown = sink.len() - before;
        self.offset = advance(self.offset, grown);
        outcome_of(result)
    }
}

/// CBOR input source that reads from a std::io input stream.
///
/// It has the operations of [`crate::read::Read`], under the same names, as
/// methods of its own. What they return depends on what the transport
/// delivers, so each of them states what holds of every outcome.
pub struct IoRead<R> {
    reader: OffsetReader<R>,
    scratch: Vec<u8>,
    ch: Option<u8>,
}

/// The byte that a source has looked ahead at, as a sequence.
pub open spec fn lookahead(pending: Option<u8>) -> Seq<u8> {
    match pending {
        Some(byte) => seq![byte],
        None => Seq::empty(),
    }
}

/// Whether `error` is one that a source over a transport reports when it
/// stands at `position`: the end of the input there, or a failure of the
/// transport.
pub open spec fn stream_error(error: Error, position: nat) -> bool {
    ||| error == eof_at(position as int)
    ||| error.reason() is Io && error.position() == 0
}

impl<R> IoRead<R> {
    /// The bytes gathered since the buffer was last cleared.
    pub closed spec fn buffer(&self) -> Seq<u8> {
        self.scratch@
    }

    /// The position in the input: how many bytes were consumed. A byte that
    /// was only looked ahead at does not count.
    pub closed spec fn position(&self) -> nat {
        self.reader.offset as nat
    }

    /// The byte that was looked ahead at and not consumed yet.
    pub closed spec fn pending(&self) -> Option<u8> {
        self.ch
    }
}

impl<R: std::io::Read> IoRead<R> {
    /// Creates a new CBOR input source to read from a std::io input stream.
    pub fn new(reader: R) -> (source: IoRead<R>)
        ensures
            source.pending() is None,
            source.buffer() == Seq::<u8>::empty(),
            source.position() == 0,
    {
        IoRead { reader: OffsetReader { reader, offset: 0 }, scratch: Vec::new(), ch: None }
    }

    /// Pulls one byte from the transport, past what was looked ahead at,
    /// and does not count it yet.
    fn next_inner(&mut self) -> (result: Result<Option<u8>, std::io::Error>)
        ensures
            final(self).ch == old(self).ch,
            final(self).scratch == old(self).scratch,
            final(self).reader.offset == old(self).reader.offset,
    {
        let mut buf = [0u8;1];
        let mut retries: u64 = 0;
        loop
            invariant
                self.ch == old(self).ch,
                self.scratch == old(self).scratch,
                self.reader.offset == old(self).reader.offset,
                buf@.len() == 1,
            decreases RETRY_LIMIT - retries,
        {
            let outcome = self.reader.look(&mut buf);
            match pull_step(outcome, buf[0]) {
                Pull::Byte(byte) => {
                    return Ok(Some(byte));
                },
                Pull::End => {
                    return Ok(None);
                },
                Pull::Again(error) => {
                    if retries == RETRY_LIMIT {
                        return Err(error);
                    }
                    retries += 1;
                },
                Pull::Failed(error) => {
                    return Err(error);
                },
            }
        }
    }

    /// Consumes and returns the next byte, or `None` at the end of the input.
    pub fn next(&mut self) -> (result: Result<Option<u8>, std::io::Error>)
        ensures
            old(self).pending() is Some ==> result == Ok::<Option<u8>, std::io::Error>(
                old(self).pending(),
            ),
            final(self).pending() is None,
            final(self).buffer() == old(self).buffer(),
            final(self).position() == if result matches Ok(Some(_)) {
                advanced(old(self).position(), 1)
            } else {
                old(self).position()
            },
    {
        let result = match self.ch.take() {
            Some(ch) => Ok(Some(ch)),
            None => self.next_inner(),
        };
        if let Ok(Some(_)) = result {
            self.reader.consume(1);
        }
        result
    }

    /// Returns the next byte without consuming it: the position stays. Once
    /// a byte is there, every further call returns it and asks nothing of the
    /// transport.
    pub fn peek(&mut self) -> (result: Result<Option<u8>, std::io::Error>)
        ensures
            old(self).pending() is Some ==> result == Ok::<Option<u8>, std::io::Error>(
                old(self).pending(),
            ) && final(self).pending() == old(self).pending(),
            old(self).pending() is None ==> final(self).pending() == match result {
                Ok(byte) => byte,
                Err(_) => None,
            },
            final(self).buffer() == old(self).buffer(),
            final(self).position() == old(self).position(),
    {
        match self.ch {
            Some(ch) => Ok(Some(ch)),
            None => {
                match self.next_inner() {
                    Ok(byte) => {
                        self.ch = byte;
                        Ok(self.ch)
                    },
                    Err(error) => Err(error),
                }
            },
        }
    }

    /// Reads `n` bytes from the input into the buffer, which is cleared
    /// first, and hands out the buffer.
    pub fn read<'a, 'de>(&'a mut self, n: usize) -> (result: Result<
        EitherLifetime<'a, 'de>,
        Error,
    >)
        ensures
            result matches Ok(bytes) ==> bytes is Short && bytes@ == final(self).buffer()
                && bytes@.len() == n,
            result matches Err(error) ==> stream_error(error, final(self).position()),
            (result matches Err(error) && error.reason() is EofWhileParsingValue)
                ==> final(self).buffer().len() < n,
            n == 0 ==> {
                &&& result is Ok
                &&& final(self).pending() == old(self).pending()
                &&& final(self).position() == old(self).position()
            },
            n == 1 && old(self).pending() is Some ==> {
                &&& result is Ok
                &&& final(self).buffer() == lookahead(old(self).pending())
            },
            n > 0 ==> {
                &&& final(self).pending() is None
                &&& lookahead(old(self).pending()).is_prefix_of(final(self).buffer())
                &&& final(self).buffer().len() <= n
                &&& final(self).position() == advanced(
                    old(self).position(),
                    final(self).buffer().len(),
                )
            },
    {
        self.clear_buffer();
        match self.read_to_buffer(n) {
            Ok(()) => Ok(self.view_buffer()),
            Err(error) => Err(error),
        }
    }

    /// Empties the buffer.
    pub fn clear_buffer(&mut self)
        ensures
            final(self).buffer() == Seq::<u8>::empty(),
            final(self).pending() == old(self).pending(),
            final(self).position() == old(self).position(),
    {
        self.scratch.clear();
    }

    /// Appends `n` bytes from the input to the buffer, without clearing it.
    ///
    /// A byte that was looked ahead at comes first; where it is all that is
    /// asked for, the call succeeds whatever the transport would deliver. The
    /// transport is asked for `transfer_limit(n, pending)` bytes, and the
    /// call fails with the end of the input only where fewer came. The
    /// position moves by as many bytes as the buffer has gained. The room
    /// reserved ahead of the transfer is `reserve_room(n)`, so that a length
    /// taken from hostile input cannot commit memory by itself.
    pub fn read_to_buffer(&mut self, n: usize) -> (result: Result<(), Error>)
        ensures
            n == 0 ==> {
                &&& result is Ok
                &&& final(self).pending() == old(self).pending()
                &&& final(self).buffer() == old(self).buffer()
                &&& final(self).position() == old(self).position()
            },
            n == 1 && old(self).pending() is Some ==> {
                &&& result is Ok
                &&& final(self).buffer() == old(self).buffer() + lookahead(old(self).pending())
            },
            n > 0 ==> {
                &&& final(self).pending() is None
                &&& (old(self).buffer() + lookahead(old(self).pending())).is_prefix_of(
                    final(self).buffer(),
                )
                &&& final(self).buffer().len() <= old(self).buffer().len() + n
                &&& final(self).position() == advanced(
                    old(self).position(),
                    (final(self).buffer().len() - old(self).buffer().len()) as nat,
                )
            },
            result is Ok ==> final(self).buffer().len() == old(self).buffer().len() + n,
            result matches Err(error) ==> stream_error(error, final(self).position()),
            (result matches Err(error) && error.reason() is EofWhileParsingValue)
                ==> final(self).buffer().len() < old(self).buffer().len() + n,
    {
        broadcast use Error::lemma_at;

        self.scratch.reserve(reserve_room(n));
        if n == 0 {
            return Ok(());
        }
        let wanted = transfer_limit(n, self.ch);
        if let Some(ch) = self.ch.take() {
            self.scratch.push(ch);
            self.reader.consume(1);
        }
        let ghost gathered = self.scratch@;
        let outcome = self.reader.take_to_end(wanted as u64, &mut self.scratch);
        assert(wanted == 0 ==> self.scratch@ =~= gathered);
        transfer_result(outcome, wanted, self.reader.offset)
    }

    /// The buffer.
    pub fn view_buffer<'a, 'de>(&'a self) -> (bytes: EitherLifetime<'a, 'de>)
        ensures
            bytes is Short,
            bytes@ == self.buffer(),
    {
        EitherLifetime::Short(self.scratch.as_slice())
    }

    /// Fills `buf` from the transport, past what was looked ahead at. An
    /// empty `buf` is filled without asking the transport. The call fails
    /// with the end of the input only where fewer bytes came than `buf`
    /// holds.
    pub fn read_into(&mut self, buf: &mut [u8]) -> (result: Result<(), Error>)
        ensures
            final(buf)@.len() == old(buf)@.len(),
            old(buf)@.len() == 0 ==> result is Ok && final(buf)@ == old(buf)@,
            final(self).pending() == old(self).pending(),
            final(self).buffer() == old(self).buffer(),
            final(self).position() <= advanced(old(self).position(), old(buf)@.len()),
            result is Ok ==> final(self).position() == advanced(
                old(self).position(),
                old(buf)@.len(),
            ),
            result matches Err(error) ==> stream_error(error, final(self).position()),
            (result matches Err(error) && error.reason() is EofWhileParsingValue)
                ==> final(self).position() < old(self).position() + old(buf)@.len(),
    {
        let mut filled: usize = 0;
        let mut retries: u64 = 0;
        while filled < buf.len()
            invariant
                filled <= buf@.len() == old(buf)@.len(),
                self.ch == old(self).ch,
                self.scratch == old(self).scratch,
                self.reader.offset == advanced(old(self).reader.offset as nat, filled as nat),
            decreases buf@.len() - filled, RETRY_LIMIT - retries,
        {
            broadcast use Error::lemma_at;

            let (_, rest) = buf.split_at_mut(filled);
            let outcome = self.reader.read(rest);
            match fill_step(outcome, self.reader.offset) {
                Fill::Got(count) => {
                    filled += count;
                    retries = 0;
                },
                Fill::Again(error) => {
                    if retries == RETRY_LIMIT {
                        return Err(Error::io(error));
                    }
                    retries += 1;
                },
                Fill::Stop(error) => {
                    return Err(error);
                },
            }
        }
        Ok(())
    }

    /// Consumes the byte that was looked ahead at, if there is one.
    pub fn discard(&mut self)
        ensures
            final(self).pending() is None,
            final(self).buffer() == old(self).buffer(),
            final(self).position() == if old(self).pending() is Some {
                advanced(old(self).position(), 1)
            } else {
                old(self).position()
            },
    {
        if let Some(_) = self.ch.take() {
            self.reader.consume(1);
        }
    }

    /// The position in the input: how many bytes were consumed.
    pub fn offset(&self) -> (offset: u64)
        ensures
            offset == self.position(),
    {
        self.reader.offset
    }
}

impl<R> Sealed for IoRead<R> {

}

} // verus!
