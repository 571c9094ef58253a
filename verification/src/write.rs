//! Byte sinks.

use vstd::prelude::*;
use vstd::string::StringSliceAdditionalSpecFns;
use crate::error::Error;

verus! {

/// What a window holds after `buf` was written at `cursor`: the bytes of `buf`
/// that fall inside the window replace what was there, the others are dropped.
pub open spec fn written(view: Seq<u8>, cursor: int, buf: Seq<u8>) -> Seq<u8> {
    Seq::new(
        view.len(),
        |i: int|
            if cursor <= i < cursor + buf.len() {
                buf[i - cursor]
            } else {
                view[i]
            },
    )
}

/// What a window holds after the pieces were written one after the other,
/// the first at `cursor` and each of the others where the one before ended.
pub open spec fn written_in_pieces(view: Seq<u8>, cursor: int, pieces: Seq<Seq<u8>>) -> Seq<u8>
    decreases pieces.len(),
{
    if pieces.len() == 0 {
        view
    } else {
        written_in_pieces(
            written(view, cursor, pieces[0]),
            cursor + pieces[0].len(),
            pieces.skip(1),
        )
    }
}

/// Where the cursor stands after the pieces were written one after the
/// other, the first at `cursor`.
pub open spec fn cursor_after(cursor: int, pieces: Seq<Seq<u8>>) -> int
    decreases pieces.len(),
{
    if pieces.len() == 0 {
        cursor
    } else {
        cursor_after(cursor + pieces[0].len(), pieces.skip(1))
    }
}

/// The pieces put together, in their order.
pub open spec fn joined(pieces: Seq<Seq<u8>>) -> Seq<u8>
    decreases pieces.len(),
{
    if pieces.len() == 0 {
        Seq::empty()
    } else {
        pieces[0] + joined(pieces.skip(1))
    }
}

/// Writing `first` and then, where it ended, `second` leaves the window as
/// one write of both together does.
pub proof fn lemma_written_twice(view: Seq<u8>, cursor: int, first: Seq<u8>, second: Seq<u8>)
    ensures
        written(written(view, cursor, first), cursor + first.len(), second) == written(
            view,
            cursor,
            first + second,
        ),
{
}

/// However a byte sequence is cut into pieces, writing the pieces one after
/// the other leaves the window and the cursor as one write of the whole
/// sequence does.
pub proof fn lemma_written_in_pieces(view: Seq<u8>, cursor: int, pieces: Seq<Seq<u8>>)
    ensures
        written_in_pieces(view, cursor, pieces) == written(view, cursor, joined(pieces)),
        cursor_after(cursor, pieces) == cursor + joined(pieces).len(),
    decreases pieces.len(),
{
    if pieces.len() == 0 {
    } else {
        lemma_written_in_pieces(
            written(view, cursor, pieces[0]),
            cursor + pieces[0].len(),
            pieces.skip(1),
        );
        lemma_written_twice(view, cursor, pieces[0], joined(pieces.skip(1)));
    }
}

/// `core::fmt::Error`: what a failed write of text reports. It carries
/// nothing.
#[verifier::external_type_specification]
pub struct ExFmtError(core::fmt::Error);

/// A destination for bytes, similar to `std::io::Write`, but with potentially
/// different errors.
pub trait Write {
    /// What a failed write reports.
    type Error: Into<Error>;

    /// Whether a write of `buf` to this sink may end with `result` and leave
    /// the sink as `after`.
    spec fn writes(&self, buf: Seq<u8>, after: &Self, result: Result<(), Self::Error>) -> bool;

    /// Writes the whole of `buf`.
    fn write_all(&mut self, buf: &[u8]) -> (result: Result<(), Self::Error>)
        ensures
            old(self).writes(buf@, final(self), result),
    ;

    /// Writes the bytes of `s`, as `write_all` does, for the sake of
    /// formatted text.
    fn write_str(&mut self, s: &str) -> (result: Result<(), core::fmt::Error>)
        ensures
            exists|written: Result<(), Self::Error>|
                (written is Ok <==> result is Ok) && #[trigger] old(self).writes(
                    s.spec_bytes(),
                    final(self),
                    written,
                ),
    {
        match self.write_all(s.as_bytes()) {
            Ok(()) => Ok(()),
            Err(_) => Err(core::fmt::Error),
        }
    }
}

impl<'a, W> Write for &'a mut W where W: Write {
    type Error = W::Error;

    open spec fn writes(&self, buf: Seq<u8>, after: &Self, result: Result<(), Self::Error>) -> bool {
        (**self).writes(buf, &**after, result)
    }

    fn write_all(&mut self, buf: &[u8]) -> (result: Result<(), Self::Error>) {
        (**self).write_all(buf)
    }
}

impl Write for Vec<u8> {
    type Error = std::io::Error;

    open spec fn writes(&self, buf: Seq<u8>, after: &Self, result: Result<(), Self::Error>) -> bool {
        result is Ok && after@ == self@ + buf
    }

    fn write_all(&mut self, buf: &[u8]) -> (result: Result<(), Self::Error>) {
        self.extend_from_slice(buf);
        assert(self@ =~= old(self)@ + buf@);
        Ok(())
    }
}

/// An infinite writable space of which a small section is mapped to a byte
/// slice: writes to that section reach the slice, writes outside are dropped.
pub struct WindowedInfinity<'a> {
    view: &'a mut [u8],
    cursor: isize,
}

impl<'a> WindowedInfinity<'a> {
    /// The bytes of the window.
    pub closed spec fn window(&self) -> Seq<u8> {
        self.view@
    }

    /// The borrowed slice behind the window.
    pub closed spec fn target(&self) -> &'a mut [u8] {
        self.view
    }

    /// A sink that is written to no more has delivered its window.
    pub proof fn lemma_delivered(&self)
        requires
            has_resolved(*self),
        ensures
            final(self.target())@ == self.window(),
    {
    }

    /// Where, in the index space of the window, the next write starts.
    pub closed spec fn position(&self) -> int {
        self.cursor as int
    }

    /// Create a new infinity with the window passed as view. The cursor says
    /// where (in the index space of the view) the writes start, and is
    /// typically either 0 or negative.
    pub fn new(view: &'a mut [u8], cursor: isize) -> (sink: Self)
        ensures
            sink.window() == old(view)@,
            final(sink.target())@ == final(view)@,
            sink.position() == cursor,
    {
        WindowedInfinity { view, cursor }
    }
}

impl<'a> Write for WindowedInfinity<'a> {
    type Error = ();

    open spec fn writes(&self, buf: Seq<u8>, after: &Self, result: Result<(), ()>) -> bool {
        if self.position() + buf.len() <= isize::MAX {
            &&& result is Ok
            &&& after.position() == self.position() + buf.len()
            &&& after.window() == written(self.window(), self.position(), buf)
        } else {
            &&& result is Err
            &&& after.position() == self.position()
            &&& after.window() == self.window()
        }
    }

    /// Writes `buf` at the cursor and moves the cursor behind it, whether or
    /// not the bytes fall inside the window. A write that would move the
    /// cursor past what an `isize` holds fails and changes nothing.
    fn write_all(&mut self, buf: &[u8]) -> (result: Result<(), ()>)
        ensures
            final(final(self).target())@ == final(old(self).target())@,
    {
        let start: isize = self.cursor;
        let end: isize = match start.checked_add_unsigned(buf.len()) {
            Some(end) => end,
            None => {
                return Err(());
            },
        };
        self.cursor = end;
        let width: usize = self.view.len();
        if end <= 0 || (start >= 0 && start as usize >= width) {
            assert(self.view@ =~= written(self.view@, start as int, buf@));
            return Ok(());
        }
        let front: usize = if start < 0 {
            (-(start + 1)) as usize + 1
        } else {
            0
        };
        let first: usize = if start < 0 {
            0
        } else {
            start as usize
        };
        let last: usize = if end as usize > width {
            width
        } else {
            end as usize
        };
        let ghost before = self.view@;
        let mut i: usize = first;
        while i < last
            invariant
                first <= i <= last <= width,
                self.view@.len() == width == before.len(),
                self.cursor == end,
                final(self.view)@ == final(old(self).view)@,
                first - front == start,
                last <= end == start + buf@.len(),
                forall|j: int|
                    0 <= j < width ==> self.view@[j] == if first <= j < i {
                        buf@[j - start]
                    } else {
                        before[j]
                    },
            decreases last - i,
        {
            self.view[i] = buf[i - first + front];
            i += 1;
        }
        assert(self.view@ =~= written(before, start as int, buf@));
        Ok(())
    }

    fn write_str(&mut self, s: &str) -> (result: Result<(), core::fmt::Error>)
        ensures
            final(final(self).target())@ == final(old(self).target())@,
    {
        match self.write_all(s.as_bytes()) {
            Ok(()) => Ok(()),
            Err(_) => Err(core::fmt::Error),
        }
    }
}

impl<'a> WindowedInfinity<'a> {

    /// Where the next write starts.
    pub fn get_cursor(&self) -> (cursor: isize)
        ensures
            cursor == self.position(),
    {
        self.cursor
    }
}

} // verus!
