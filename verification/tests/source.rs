use cbor_io::error::Error;
use cbor_io::error::ErrorCode;
use cbor_io::io_read::advance;
use cbor_io::io_read::fill_step;
use cbor_io::io_read::pull_step;
use cbor_io::io_read::reserve_room;
use cbor_io::io_read::transfer_limit;
use cbor_io::io_read::transfer_result;
use cbor_io::io_read::Fill;
use cbor_io::io_read::IoRead;
use cbor_io::io_read::Outcome;
use cbor_io::io_read::Pull;
use cbor_io::io_read::RESERVE_LIMIT;
use cbor_io::mut_slice_read::MutSliceRead;
use cbor_io::read::EitherLifetime;
use cbor_io::read::Read;
use cbor_io::slice_read::SliceRead;

fn long_bytes<'a>(bytes: EitherLifetime<'_, 'a>) -> &'a [u8] {
    match bytes {
        EitherLifetime::Long(bytes) => bytes,
        EitherLifetime::Short(_) => panic!("bytes borrowed from the source's buffer"),
    }
}

fn short_bytes(bytes: EitherLifetime<'_, '_>) -> Vec<u8> {
    match bytes {
        EitherLifetime::Short(bytes) => bytes.to_vec(),
        EitherLifetime::Long(_) => panic!("bytes borrowed from the input"),
    }
}

fn assert_eof_at(error: &Error, offset: u64) {
    assert!(error.is_eof());
    assert!(matches!(error.code(), ErrorCode::EofWhileParsingValue));
    assert_eq!(error.offset(), offset);
}

fn failure(kind: std::io::ErrorKind) -> std::io::Error {
    std::io::Error::new(kind, "transport")
}

#[test]
fn slice_read_hands_out_the_next_bytes_of_the_input() {
    let input = [10u8, 11, 12, 13, 14];
    for skipped in 0..=input.len() {
        for n in 0..=input.len() - skipped {
            let mut source = SliceRead::new(&input);
            for _ in 0..skipped {
                source.discard();
            }
            let bytes = long_bytes(source.read(n).unwrap());
            assert_eq!(bytes, &input[skipped..skipped + n]);
            assert_eq!(source.offset(), (skipped + n) as u64);
        }
    }
}

#[test]
fn slice_read_bytes_outlive_the_source() {
    let input = [1u8, 2, 3];
    let bytes = {
        let mut source = SliceRead::new(&input);
        long_bytes(source.read(2).unwrap())
    };
    assert_eq!(bytes, &[1, 2]);
}

#[test]
fn slice_read_past_the_end_fails_with_the_length() {
    let input = [10u8, 11, 12, 13, 14];
    for skipped in 0..=input.len() {
        let mut source = SliceRead::new(&input);
        for _ in 0..skipped {
            source.discard();
        }
        let error = source.read(input.len() - skipped + 1).err().unwrap();
        assert_eof_at(&error, 5);
        assert_eq!(source.offset(), skipped as u64);
        assert_eq!(error.to_string(), "EOF while parsing a value at offset 5");
    }
}

#[test]
fn slice_read_of_a_length_that_overflows_fails() {
    let input = [1u8, 2, 3];
    let mut source = SliceRead::new(&input);
    assert_eq!(source.next().unwrap(), Some(1));
    assert_eof_at(&source.read(usize::MAX).err().unwrap(), 3);
    assert_eof_at(&source.read_to_buffer(usize::MAX).err().unwrap(), 3);
    assert_eq!(source.offset(), 1);
}

#[test]
fn slice_next_walks_the_input() {
    let input = [7u8, 8];
    let mut source = SliceRead::new(&input);
    assert_eq!(source.offset(), 0);
    assert_eq!(source.next().unwrap(), Some(7));
    assert_eq!(source.offset(), 1);
    assert_eq!(source.next().unwrap(), Some(8));
    assert_eq!(source.offset(), 2);
    assert_eq!(source.next().unwrap(), None);
    assert_eq!(source.next().unwrap(), None);
    assert_eq!(source.offset(), 2);
}

#[test]
fn slice_peek_is_stable() {
    let input = [7u8, 8];
    let mut source = SliceRead::new(&input);
    for _ in 0..4 {
        assert_eq!(source.peek().unwrap(), Some(7));
        assert_eq!(source.offset(), 0);
    }
    assert_eq!(source.next().unwrap(), Some(7));
    for _ in 0..4 {
        assert_eq!(source.peek().unwrap(), Some(8));
        assert_eq!(source.offset(), 1);
    }
    source.discard();
    for _ in 0..4 {
        assert_eq!(source.peek().unwrap(), None);
        assert_eq!(source.offset(), 2);
    }
}

#[test]
fn slice_buffer_gathers_until_cleared() {
    let input = [1u8, 2, 3, 4, 5, 6];
    let mut source = SliceRead::new(&input);
    assert_eq!(short_bytes(source.view_buffer()), Vec::<u8>::new());
    source.read_to_buffer(2).unwrap();
    assert_eq!(short_bytes(source.view_buffer()), vec![1, 2]);
    assert_eq!(source.next().unwrap(), Some(3));
    source.read_to_buffer(2).unwrap();
    assert_eq!(short_bytes(source.view_buffer()), vec![1, 2, 4, 5]);
    assert_eq!(source.offset(), 5);
    assert_eof_at(&source.read_to_buffer(2).err().unwrap(), 6);
    assert_eq!(short_bytes(source.view_buffer()), vec![1, 2, 4, 5]);
    assert_eq!(source.offset(), 5);
    source.clear_buffer();
    assert_eq!(short_bytes(source.view_buffer()), Vec::<u8>::new());
    assert_eq!(source.offset(), 5);
    source.read_to_buffer(1).unwrap();
    assert_eq!(short_bytes(source.view_buffer()), vec![6]);
}

#[test]
fn slice_read_leaves_the_buffer_alone() {
    let input = [1u8, 2, 3, 4];
    let mut source = SliceRead::new(&input);
    source.read_to_buffer(1).unwrap();
    assert_eq!(long_bytes(source.read(2).unwrap()), &[2, 3]);
    assert_eq!(short_bytes(source.view_buffer()), vec![1]);
}

#[test]
fn slice_read_into_fills_the_buffer() {
    let input = [1u8, 2, 3, 4];
    let mut source = SliceRead::new(&input);
    let mut buf = [0u8; 3];
    source.read_into(&mut buf).unwrap();
    assert_eq!(buf, [1, 2, 3]);
    assert_eq!(source.offset(), 3);
    let mut more = [9u8; 2];
    assert_eof_at(&source.read_into(&mut more).err().unwrap(), 4);
    assert_eq!(more, [9, 9]);
    assert_eq!(source.offset(), 3);
    let mut none = [0u8; 0];
    source.read_into(&mut none).unwrap();
    assert_eq!(source.offset(), 3);
}

#[test]
fn slice_read_of_nothing_succeeds_at_the_end() {
    let input = [1u8];
    let mut source = SliceRead::new(&input);
    source.discard();
    assert_eq!(long_bytes(source.read(0).unwrap()), &[] as &[u8]);
    assert_eq!(source.offset(), 1);
}

#[test]
fn empty_slice_has_nothing() {
    let mut source = SliceRead::new(&[]);
    assert_eq!(source.peek().unwrap(), None);
    assert_eq!(source.next().unwrap(), None);
    assert_eof_at(&source.read(1).err().unwrap(), 0);
    assert_eq!(source.offset(), 0);
}

#[test]
fn mut_slice_gathers_chunks_that_lie_apart() {
    let mut region = *b"\x5f\x42ab\x43cde\x41f\xff!";
    let gathered = {
        let mut source = MutSliceRead::new(&mut region);
        assert_eq!(source.next().unwrap(), Some(0x5f));
        source.clear_buffer();
        assert_eq!(source.next().unwrap(), Some(0x42));
        source.read_to_buffer(2).unwrap();
        assert_eq!(source.next().unwrap(), Some(0x43));
        source.read_to_buffer(3).unwrap();
        assert_eq!(source.next().unwrap(), Some(0x41));
        source.read_to_buffer(1).unwrap();
        assert_eq!(source.offset(), 10);
        assert_eq!(source.peek().unwrap(), Some(0xff));
        let gathered = long_bytes(source.view_buffer());
        assert_eq!(gathered, b"abcdef");
        source.discard();
        assert_eq!(source.next().unwrap(), Some(b'!'));
        assert_eq!(source.next().unwrap(), None);
        assert_eq!(source.offset(), 12);
        gathered
    };
    assert_eq!(gathered, b"abcdef");
}

#[test]
fn mut_slice_gathers_in_the_region_itself() {
    let mut region = [9u8, 1, 2, 8, 8, 3, 7, 4, 5];
    let lengths = [(1usize, 2usize), (2, 1), (1, 2)];
    {
        let start = region.as_ptr() as usize;
        let mut source = MutSliceRead::new(&mut region);
        source.clear_buffer();
        for (gap, chunk) in lengths {
            for _ in 0..gap {
                source.discard();
            }
            source.read_to_buffer(chunk).unwrap();
        }
        let gathered = long_bytes(source.view_buffer());
        assert_eq!(gathered, &[1, 2, 3, 4, 5]);
        let place = gathered.as_ptr() as usize;
        assert!(start <= place && place + gathered.len() <= start + 9);
    }
    let mut sorted = region;
    sorted.sort();
    assert_eq!(sorted, [1, 2, 3, 4, 5, 7, 8, 8, 9]);
}

#[test]
fn mut_slice_chunks_without_gaps_stay_in_place() {
    let mut region = [1u8, 2, 3, 4, 5, 6];
    {
        let mut source = MutSliceRead::new(&mut region);
        source.clear_buffer();
        source.read_to_buffer(1).unwrap();
        source.read_to_buffer(2).unwrap();
        source.read_to_buffer(3).unwrap();
        assert_eq!(long_bytes(source.view_buffer()), &[1, 2, 3, 4, 5, 6]);
        assert_eq!(source.offset(), 6);
    }
    assert_eq!(region, [1, 2, 3, 4, 5, 6]);
}

#[test]
fn mut_slice_read_hands_out_bytes_of_the_input() {
    let mut region = [1u8, 2, 3, 4, 5];
    let mut source = MutSliceRead::new(&mut region);
    assert_eq!(source.next().unwrap(), Some(1));
    let first = long_bytes(source.read(2).unwrap());
    assert_eq!(first, &[2, 3]);
    assert_eq!(source.offset(), 3);
    let second = long_bytes(source.read(1).unwrap());
    assert_eq!(second, &[4]);
    assert_eq!(first, &[2, 3]);
    assert_eq!(source.offset(), 4);
    assert_eq!(long_bytes(source.view_buffer()), &[4]);
}

#[test]
fn mut_slice_past_the_end_fails_with_the_whole_length() {
    let mut region = [1u8, 2, 3, 4, 5];
    let mut source = MutSliceRead::new(&mut region);
    source.read(2).unwrap();
    assert_eq!(source.next().unwrap(), Some(3));
    assert_eof_at(&source.read_to_buffer(3).err().unwrap(), 5);
    assert_eq!(source.offset(), 3);
    assert_eq!(long_bytes(source.view_buffer()), &[1, 2]);
    assert_eof_at(&source.read(3).err().unwrap(), 5);
    assert_eq!(source.offset(), 3);
    assert_eq!(long_bytes(source.view_buffer()), &[] as &[u8]);
    assert_eof_at(&source.read(usize::MAX).err().unwrap(), 5);
    let mut buf = [0u8; 3];
    assert_eof_at(&source.read_into(&mut buf).err().unwrap(), 5);
    assert_eq!(buf, [0, 0, 0]);
    assert_eq!(long_bytes(source.read(2).unwrap()), &[4, 5]);
    assert_eq!(source.offset(), 5);
}

#[test]
fn mut_slice_peek_is_stable() {
    let mut region = [7u8, 8];
    let mut source = MutSliceRead::new(&mut region);
    for _ in 0..4 {
        assert_eq!(source.peek().unwrap(), Some(7));
        assert_eq!(source.offset(), 0);
    }
    source.discard();
    assert_eq!(source.next().unwrap(), Some(8));
    for _ in 0..4 {
        assert_eq!(source.peek().unwrap(), None);
        assert_eq!(source.offset(), 2);
    }
    assert_eq!(source.next().unwrap(), None);
}

#[test]
fn mut_slice_read_into_fills_the_buffer() {
    let mut region = [1u8, 2, 3, 4];
    let mut source = MutSliceRead::new(&mut region);
    source.discard();
    let mut buf = [0u8; 2];
    source.read_into(&mut buf).unwrap();
    assert_eq!(buf, [2, 3]);
    assert_eq!(source.offset(), 3);
    assert_eq!(source.next().unwrap(), Some(4));
}

#[test]
fn stream_next_walks_the_input() {
    let mut source = IoRead::new(std::io::Cursor::new(vec![7u8, 8]));
    assert_eq!(source.offset(), 0);
    assert_eq!(source.next().unwrap(), Some(7));
    assert_eq!(source.offset(), 1);
    assert_eq!(source.next().unwrap(), Some(8));
    assert_eq!(source.next().unwrap(), None);
    assert_eq!(source.offset(), 2);
}

#[test]
fn stream_peek_keeps_the_offset() {
    let mut source = IoRead::new(std::io::Cursor::new(vec![7u8, 8]));
    for _ in 0..4 {
        assert_eq!(source.peek().unwrap(), Some(7));
        assert_eq!(source.offset(), 0);
    }
    assert_eq!(source.next().unwrap(), Some(7));
    assert_eq!(source.offset(), 1);
    for _ in 0..4 {
        assert_eq!(source.peek().unwrap(), Some(8));
        assert_eq!(source.offset(), 1);
    }
    source.discard();
    assert_eq!(source.offset(), 2);
    for _ in 0..4 {
        assert_eq!(source.peek().unwrap(), None);
        assert_eq!(source.offset(), 2);
    }
    source.discard();
    assert_eq!(source.offset(), 2);
}

#[test]
fn stream_peek_pulls_one_byte_for_all_calls() {
    let broken = std::io::ErrorKind::BrokenPipe;
    let mut source = script(vec![Ok(vec![7]), Err(broken)]);
    for _ in 0..4 {
        assert_eq!(source.peek().unwrap(), Some(7));
        assert_eq!(source.offset(), 0);
    }
    assert_eq!(source.next().unwrap(), Some(7));
    assert_eq!(source.offset(), 1);
    assert!(source.peek().is_err());
    assert_eq!(source.offset(), 1);
}

#[test]
fn stream_read_into_an_empty_buffer_asks_nothing() {
    let broken = std::io::ErrorKind::BrokenPipe;
    let mut source = script(vec![Err(broken)]);
    let mut none = [0u8; 0];
    source.read_into(&mut none).unwrap();
    assert_eq!(source.offset(), 0);
    assert!(source.next().is_err());
}

#[test]
fn stream_read_into_counts_past_a_lookahead() {
    let mut source = IoRead::new(std::io::Cursor::new(vec![1u8, 2, 3, 4]));
    assert_eq!(source.peek().unwrap(), Some(1));
    assert_eq!(source.offset(), 0);
    let mut buf = [0u8; 2];
    source.read_into(&mut buf).unwrap();
    assert_eq!(source.offset(), 2);
    source.discard();
    assert_eq!(source.offset(), 3);
    assert_eq!(source.next().unwrap(), Some(4));
    assert_eq!(source.offset(), 4);
}

#[test]
fn stream_discard_without_a_peek_drops_nothing() {
    let mut source = IoRead::new(std::io::Cursor::new(vec![7u8]));
    source.discard();
    assert_eq!(source.offset(), 0);
    assert_eq!(source.next().unwrap(), Some(7));
}

#[test]
fn stream_read_gathers_in_the_buffer() {
    let mut source = IoRead::new(std::io::Cursor::new(vec![1u8, 2, 3, 4, 5, 6]));
    assert_eq!(short_bytes(source.read(2).unwrap()), vec![1, 2]);
    assert_eq!(source.offset(), 2);
    assert_eq!(short_bytes(source.read(0).unwrap()), Vec::<u8>::new());
    assert_eq!(source.peek().unwrap(), Some(3));
    assert_eq!(short_bytes(source.read(3).unwrap()), vec![3, 4, 5]);
    assert_eq!(source.offset(), 5);
    source.read_to_buffer(1).unwrap();
    assert_eq!(short_bytes(source.view_buffer()), vec![3, 4, 5, 6]);
    source.clear_buffer();
    assert_eq!(short_bytes(source.view_buffer()), Vec::<u8>::new());
    assert_eq!(source.offset(), 6);
}

#[test]
fn stream_read_of_nothing_keeps_the_lookahead() {
    let mut source = IoRead::new(std::io::Cursor::new(vec![1u8, 2]));
    assert_eq!(source.peek().unwrap(), Some(1));
    source.read_to_buffer(0).unwrap();
    assert_eq!(short_bytes(source.view_buffer()), Vec::<u8>::new());
    assert_eq!(source.next().unwrap(), Some(1));
    assert_eq!(source.next().unwrap(), Some(2));
}

#[test]
fn stream_short_read_fails_where_the_input_ends() {
    let mut source = IoRead::new(std::io::Cursor::new(vec![1u8, 2, 3]));
    assert_eq!(source.next().unwrap(), Some(1));
    let error = source.read_to_buffer(5).err().unwrap();
    assert_eof_at(&error, 3);
    assert_eq!(source.offset(), 3);
    assert_eq!(short_bytes(source.view_buffer()), vec![2, 3]);
}

#[test]
fn stream_claimed_length_far_beyond_the_input_fails() {
    assert_eq!(RESERVE_LIMIT, 16 * 1024);
    let mut source = IoRead::new(std::io::Cursor::new(vec![1u8, 2, 3]));
    let error = source.read(usize::MAX).err().unwrap();
    assert_eof_at(&error, 3);
}

#[test]
fn stream_reads_more_than_it_reserves() {
    let input: Vec<u8> = (0..3 * RESERVE_LIMIT).map(|i| (i % 251) as u8).collect();
    let mut source = IoRead::new(std::io::Cursor::new(input.clone()));
    assert_eq!(short_bytes(source.read(input.len()).unwrap()), input);
    assert_eq!(source.offset(), input.len() as u64);
}

#[test]
fn stream_read_into_fills_the_buffer() {
    let mut source = IoRead::new(std::io::Cursor::new(vec![1u8, 2, 3, 4]));
    let mut buf = [0u8; 3];
    source.read_into(&mut buf).unwrap();
    assert_eq!(buf, [1, 2, 3]);
    assert_eq!(source.offset(), 3);
    let mut more = [0u8; 2];
    let error = source.read_into(&mut more).err().unwrap();
    assert_eof_at(&error, 4);
    assert_eq!(source.offset(), 4);
}

#[test]
fn stream_read_into_goes_past_the_lookahead() {
    let mut source = IoRead::new(std::io::Cursor::new(vec![1u8, 2, 3]));
    assert_eq!(source.peek().unwrap(), Some(1));
    let mut buf = [0u8; 2];
    source.read_into(&mut buf).unwrap();
    assert_eq!(buf, [2, 3]);
    assert_eq!(source.next().unwrap(), Some(1));
    assert_eq!(source.offset(), 3);
}

struct Script {
    steps: Vec<Result<Vec<u8>, std::io::ErrorKind>>,
}

impl std::io::Read for Script {
    fn read(&mut self, buf: &mut [u8]) -> std::io::Result<usize> {
        if self.steps.is_empty() {
            return Ok(0);
        }
        match self.steps.remove(0) {
            Ok(bytes) => {
                let count = bytes.len().min(buf.len());
                buf[..count].copy_from_slice(&bytes[..count]);
                if count < bytes.len() {
                    self.steps.insert(0, Ok(bytes[count..].to_vec()));
                }
                Ok(count)
            }
            Err(kind) => Err(failure(kind)),
        }
    }
}

fn script(steps: Vec<Result<Vec<u8>, std::io::ErrorKind>>) -> IoRead<Script> {
    IoRead::new(Script { steps })
}

#[test]
fn stream_retries_when_interrupted() {
    let interrupted = std::io::ErrorKind::Interrupted;
    let mut source = script(vec![
        Err(interrupted),
        Err(interrupted),
        Ok(vec![1]),
        Err(interrupted),
        Ok(vec![2, 3]),
        Err(interrupted),
        Ok(vec![4]),
        Err(interrupted),
        Ok(vec![5, 6]),
        Err(interrupted),
    ]);
    assert_eq!(source.next().unwrap(), Some(1));
    assert_eq!(source.peek().unwrap(), Some(2));
    assert_eq!(short_bytes(source.read(3).unwrap()), vec![2, 3, 4]);
    let mut buf = [0u8; 2];
    source.read_into(&mut buf).unwrap();
    assert_eq!(buf, [5, 6]);
    assert_eq!(source.next().unwrap(), None);
    assert_eq!(source.offset(), 6);
}

#[test]
fn stream_hands_on_transport_failures() {
    let broken = std::io::ErrorKind::BrokenPipe;
    let mut source = script(vec![Ok(vec![1]), Err(broken), Err(broken), Err(broken), Err(broken)]);
    assert_eq!(source.next().unwrap(), Some(1));
    assert_eq!(source.next().err().unwrap().kind(), broken);
    assert_eq!(source.peek().err().unwrap().kind(), broken);
    let error = source.read_to_buffer(2).err().unwrap();
    assert!(error.is_io());
    assert_eq!(error.offset(), 0);
    let mut buf = [0u8; 2];
    let error = source.read_into(&mut buf).err().unwrap();
    assert!(error.is_io());
    assert_eq!(error.offset(), 0);
    assert_eq!(source.offset(), 1);
}

#[test]
fn stream_read_into_counts_what_came_before_the_failure() {
    let mut source = script(vec![Ok(vec![1, 2]), Err(std::io::ErrorKind::UnexpectedEof)]);
    let mut buf = [0u8; 4];
    let error = source.read_into(&mut buf).err().unwrap();
    assert_eof_at(&error, 2);
    assert_eq!(source.offset(), 2);
    assert_eq!(&buf[..2], &[1, 2]);
}

#[test]
fn stream_lookahead_alone_needs_no_transport() {
    let broken = std::io::ErrorKind::BrokenPipe;
    let mut source = script(vec![Ok(vec![7]), Err(broken), Err(broken)]);
    assert_eq!(source.peek().unwrap(), Some(7));
    source.read_to_buffer(1).unwrap();
    assert_eq!(short_bytes(source.view_buffer()), vec![7]);
    assert_eq!(source.offset(), 1);
    assert!(source.next().is_err());

    let mut source = script(vec![Ok(vec![8]), Err(broken)]);
    assert_eq!(source.peek().unwrap(), Some(8));
    assert_eq!(short_bytes(source.read(1).unwrap()), vec![8]);
    assert_eq!(source.offset(), 1);
    assert!(source.read(1).err().unwrap().is_io());
}

#[test]
fn transfer_limit_leaves_out_the_lookahead() {
    assert_eq!(transfer_limit(0, None), 0);
    assert_eq!(transfer_limit(0, Some(9)), 0);
    assert_eq!(transfer_limit(1, None), 1);
    assert_eq!(transfer_limit(1, Some(9)), 0);
    assert_eq!(transfer_limit(5, None), 5);
    assert_eq!(transfer_limit(5, Some(0)), 4);
    assert_eq!(transfer_limit(usize::MAX, None), usize::MAX);
    assert_eq!(transfer_limit(usize::MAX, Some(1)), usize::MAX - 1);
}

#[test]
fn stream_transfer_asks_for_what_is_missing() {
    let mut source = IoRead::new(std::io::Cursor::new(vec![1u8, 2, 3, 4, 5]));
    assert_eq!(source.peek().unwrap(), Some(1));
    source.read_to_buffer(3).unwrap();
    assert_eq!(short_bytes(source.view_buffer()), vec![1, 2, 3]);
    assert_eq!(source.offset(), 3);
    assert_eq!(source.next().unwrap(), Some(4));
    let error = source.read_to_buffer(2).err().unwrap();
    assert_eof_at(&error, 5);
    assert_eq!(short_bytes(source.view_buffer()), vec![1, 2, 3, 5]);
}

#[test]
fn reserve_room_is_capped() {
    assert_eq!(reserve_room(0), 0);
    assert_eq!(reserve_room(1), 1);
    assert_eq!(reserve_room(RESERVE_LIMIT - 1), RESERVE_LIMIT - 1);
    assert_eq!(reserve_room(RESERVE_LIMIT), RESERVE_LIMIT);
    assert_eq!(reserve_room(RESERVE_LIMIT + 1), RESERVE_LIMIT);
    assert_eq!(reserve_room(usize::MAX), 16 * 1024);
}

#[test]
fn advance_counts_up_to_the_largest_offset() {
    assert_eq!(advance(0, 0), 0);
    assert_eq!(advance(0, 3), 3);
    assert_eq!(advance(40, 2), 42);
    assert_eq!(advance(u64::MAX - 5, 5), u64::MAX);
    assert_eq!(advance(u64::MAX - 1, 5), u64::MAX);
    assert_eq!(advance(u64::MAX, 0), u64::MAX);
    assert_eq!(advance(u64::MAX, usize::MAX), u64::MAX);
}

#[test]
fn pull_step_decides_by_the_outcome() {
    assert!(matches!(pull_step(Outcome::Count(0), 9), Pull::End));
    assert!(matches!(pull_step(Outcome::Count(1), 9), Pull::Byte(9)));
    let interrupted = failure(std::io::ErrorKind::Interrupted);
    assert!(matches!(pull_step(Outcome::Interrupted(interrupted), 9), Pull::Again(_)));
    let ended = failure(std::io::ErrorKind::UnexpectedEof);
    match pull_step(Outcome::UnexpectedEof(ended), 9) {
        Pull::Failed(error) => assert_eq!(error.kind(), std::io::ErrorKind::UnexpectedEof),
        _ => panic!("not a failure"),
    }
    let broken = failure(std::io::ErrorKind::BrokenPipe);
    match pull_step(Outcome::Failed(broken), 9) {
        Pull::Failed(error) => assert_eq!(error.kind(), std::io::ErrorKind::BrokenPipe),
        _ => panic!("not a failure"),
    }
}

#[test]
fn fill_step_decides_by_the_outcome() {
    assert!(matches!(fill_step(Outcome::Count(3), 40), Fill::Got(3)));
    match fill_step(Outcome::Count(0), 40) {
        Fill::Stop(error) => assert_eof_at(&error, 40),
        _ => panic!("not the end"),
    }
    let interrupted = failure(std::io::ErrorKind::Interrupted);
    assert!(matches!(fill_step(Outcome::Interrupted(interrupted), 40), Fill::Again(_)));
    let ended = failure(std::io::ErrorKind::UnexpectedEof);
    match fill_step(Outcome::UnexpectedEof(ended), 40) {
        Fill::Stop(error) => assert_eof_at(&error, 40),
        _ => panic!("not the end"),
    }
    let broken = failure(std::io::ErrorKind::BrokenPipe);
    match fill_step(Outcome::Failed(broken), 40) {
        Fill::Stop(error) => {
            assert!(error.is_io());
            assert_eq!(error.offset(), 0);
        }
        _ => panic!("not a failure"),
    }
}

#[test]
fn transfer_result_decides_by_the_outcome() {
    assert!(transfer_result(Outcome::Count(4), 4, 9).is_ok());
    assert!(transfer_result(Outcome::Count(0), 0, 9).is_ok());
    assert_eof_at(&transfer_result(Outcome::Count(3), 4, 9).err().unwrap(), 9);
    assert_eof_at(&transfer_result(Outcome::Count(5), 4, 9).err().unwrap(), 9);
    let outcomes = [
        Outcome::Interrupted(failure(std::io::ErrorKind::Interrupted)),
        Outcome::UnexpectedEof(failure(std::io::ErrorKind::UnexpectedEof)),
        Outcome::Failed(failure(std::io::ErrorKind::BrokenPipe)),
    ];
    for outcome in outcomes {
        let error = transfer_result(outcome, 4, 9).err().unwrap();
        assert!(error.is_io());
        assert_eq!(error.offset(), 0);
    }
}

trait Bytes {
    fn byte(&mut self) -> Option<u8>;
    fn pair(&mut self) -> Option<[u8; 2]>;
    fn place(&self) -> u64;
}

impl<'a> Bytes for SliceRead<'a> {
    fn byte(&mut self) -> Option<u8> {
        self.next().unwrap()
    }

    fn pair(&mut self) -> Option<[u8; 2]> {
        let mut pair = [0u8; 2];
        self.read_into(&mut pair).ok().map(|_| pair)
    }

    fn place(&self) -> u64 {
        self.offset()
    }
}

impl<'a> Bytes for MutSliceRead<'a> {
    fn byte(&mut self) -> Option<u8> {
        self.next().unwrap()
    }

    fn pair(&mut self) -> Option<[u8; 2]> {
        let mut pair = [0u8; 2];
        self.read_into(&mut pair).ok().map(|_| pair)
    }

    fn place(&self) -> u64 {
        self.offset()
    }
}

impl<R: std::io::Read> Bytes for IoRead<R> {
    fn byte(&mut self) -> Option<u8> {
        self.next().unwrap()
    }

    fn pair(&mut self) -> Option<[u8; 2]> {
        let mut pair = [0u8; 2];
        self.read_into(&mut pair).ok().map(|_| pair)
    }

    fn place(&self) -> u64 {
        self.offset()
    }
}

fn take_number<S: Bytes>(source: &mut S) -> Option<u16> {
    match source.byte()? {
        small @ 0..=0x17 => Some(small as u16),
        0x18 => source.byte().map(|byte| byte as u16),
        0x19 => source.pair().map(u16::from_be_bytes),
        _ => None,
    }
}

fn take_triple<S: Bytes>(source: &mut S) -> Option<((u16, u16, u16), u64)> {
    if source.byte()? != 0x83 {
        return None;
    }
    let triple = (take_number(source)?, take_number(source)?, take_number(source)?);
    Some((triple, source.place()))
}

#[test]
fn triple_decodes_alike_from_every_source() {
    let input = *b"\x83\x19\x12\x34\x00\x00";
    let expected = Some(((4660, 0, 0), 6));
    assert_eq!(take_triple(&mut SliceRead::new(&input)), expected);
    let mut region = input;
    assert_eq!(take_triple(&mut MutSliceRead::new(&mut region)), expected);
    assert_eq!(take_triple(&mut IoRead::new(&input[..])), expected);
    assert_eq!(take_triple(&mut IoRead::new(std::io::Cursor::new(input.to_vec()))), expected);
}

fn gather<'de, S: Read<'de>>(source: &mut S, lengths: &[usize]) -> Result<Vec<u8>, Error> {
    source.clear_buffer();
    for length in lengths {
        source.discard();
        source.read_to_buffer(*length)?;
    }
    Ok(match source.view_buffer() {
        EitherLifetime::Short(bytes) => bytes.to_vec(),
        EitherLifetime::Long(bytes) => bytes.to_vec(),
    })
}

#[test]
fn both_region_sources_gather_alike() {
    let input = [0u8, 1, 2, 0, 3, 0, 4, 5, 6];
    let lengths = [2, 1, 3];
    let mut region = input;
    let from_slice = gather(&mut SliceRead::new(&input), &lengths).unwrap();
    let from_region = gather(&mut MutSliceRead::new(&mut region), &lengths).unwrap();
    assert_eq!(from_slice, vec![1, 2, 3, 4, 5, 6]);
    assert_eq!(from_region, from_slice);
    assert_eof_at(&gather(&mut SliceRead::new(&input), &[2, 1, 4]).err().unwrap(), 9);
}
