use seal_stream::model::{ExactFill, Pulled, Sought};
use seal_stream::names::operation_name;
use seal_stream::policy::TruncateSide;
use seal_stream::stream::{
    Operation, Stream, StreamError, StreamType, ITER_POLL_INTERVAL_MILLIS, POLL_INTERVAL_MILLIS,
    READ_CHUNK, STARTUP_NAP_NANOS, STARTUP_WINDOW_NANOS,
};

fn stream_with(capacity: usize, side: TruncateSide, chunks: &[&[u8]]) -> Stream {
    let mut stream = Stream::new(StreamType::Stdout, capacity, side);
    for chunk in chunks {
        assert!(stream.producer_step(Ok(chunk)));
    }
    stream
}

#[test]
fn new_stream_is_alive_and_empty() {
    let mut stream = Stream::new(StreamType::Stderr, 64, TruncateSide::Back);
    assert_eq!(stream.size(), 0);
    assert_eq!(stream.capacity(), 64);
    assert_eq!(stream.stream_type(), StreamType::Stderr);
    assert!(stream.still_reading());
    assert_eq!(stream.alive(Operation::Read), Ok(()));
}

#[test]
fn scenario_front_eviction_one_chunk() {
    let mut stream = stream_with(4, TruncateSide::Front, &[b"12345"]);
    assert_eq!(stream.size(), 4);
    assert_eq!(stream.read(), Ok(Some(b"2345".to_vec())));
}

#[test]
fn scenario_back_eviction_one_chunk() {
    let mut stream = stream_with(4, TruncateSide::Back, &[b"12345"]);
    assert_eq!(stream.size(), 4);
    assert_eq!(stream.read(), Ok(Some(b"1234".to_vec())));
}

#[test]
fn capacity_invariant_after_each_producer_step() {
    for side in [TruncateSide::Front, TruncateSide::Back] {
        let mut stream = Stream::new(StreamType::Stdout, 7, side);
        for round in 1..60usize {
            let chunk: Vec<u8> = (0..(1 + round % 11)).map(|i| (i * round) as u8).collect();
            assert!(stream.producer_step(Ok(&chunk)));
            assert!(stream.size() <= stream.capacity());
        }
    }
}

#[test]
fn producer_eof_stops_the_producer() {
    let mut stream = stream_with(8, TruncateSide::Front, &[b"ab"]);
    assert!(!stream.producer_step(Ok(b"")));
    assert!(!stream.still_reading());
    assert!(!stream.producer_step(Ok(b"late")));
    assert_eq!(stream.size(), 2);
    assert_eq!(stream.read(), Ok(Some(b"ab".to_vec())));
}

#[test]
fn producer_failure_reaches_first_operation_only() {
    let mut stream = stream_with(8, TruncateSide::Front, &[b"ab"]);
    assert!(!stream.producer_step(Err(String::from("broken pipe"))));
    assert!(!stream.still_reading());
    assert_eq!(
        stream.read_exact(1),
        Err(StreamError::ProducerFailed {
            operation: Operation::ReadExact,
            message: String::from("broken pipe"),
        })
    );
    assert_eq!(stream.size(), 2);
    assert_eq!(stream.read_exact(1), Ok(Some(b"a".to_vec())));
    assert_eq!(stream.read(), Ok(Some(b"b".to_vec())));
    assert_eq!(
        stream.read(),
        Err(StreamError::DeadAndEmpty { operation: Operation::Read })
    );
    assert_eq!(
        stream.read_to(b"|", false, false, false),
        Err(StreamError::DeadAndEmpty { operation: Operation::ReadTo })
    );
}

#[test]
fn dead_and_empty_is_reported() {
    let mut stream = Stream::new(StreamType::Stdout, 8, TruncateSide::Front);
    assert!(!stream.producer_step(Ok(b"")));
    assert_eq!(
        stream.read(),
        Err(StreamError::DeadAndEmpty { operation: Operation::Read })
    );
}

#[test]
fn dead_and_empty_after_full_drain() {
    let mut stream = stream_with(8, TruncateSide::Front, &[b"xyz"]);
    assert_eq!(stream.read(), Ok(Some(b"xyz".to_vec())));
    assert!(!stream.producer_step(Ok(b"")));
    assert_eq!(
        stream.read_exact(1),
        Err(StreamError::DeadAndEmpty { operation: Operation::ReadExact })
    );
    let mut target = [0u8; 4];
    let mut stream = stream_with(8, TruncateSide::Front, &[b"xyz"]);
    assert_eq!(stream.read(), Ok(Some(b"xyz".to_vec())));
    assert!(!stream.producer_step(Ok(b"")));
    assert_eq!(
        stream.readbytes(&mut target, 0),
        Err(StreamError::DeadAndEmpty { operation: Operation::ReadBytes })
    );
    assert_eq!(target, [0u8; 4]);
}

#[test]
fn dead_and_empty_for_every_operation() {
    let mut target = [0u8; 4];
    let mut stream = Stream::new(StreamType::Stdout, 8, TruncateSide::Front);
    stream.producer_step(Ok(b""));
    assert_eq!(
        stream.alive(Operation::Size),
        Err(StreamError::DeadAndEmpty { operation: Operation::Size })
    );
    let mut stream = Stream::new(StreamType::Stdout, 8, TruncateSide::Front);
    stream.producer_step(Ok(b""));
    assert_eq!(
        stream.read_to(b"|", false, false, false),
        Err(StreamError::DeadAndEmpty { operation: Operation::ReadTo })
    );
    let mut stream = Stream::new(StreamType::Stdout, 8, TruncateSide::Front);
    stream.producer_step(Ok(b""));
    assert_eq!(
        stream.readbytes_exact(2, &mut target, 0),
        Err(StreamError::DeadAndEmpty { operation: Operation::ReadBytesExact })
    );
    let mut stream = Stream::new(StreamType::Stdout, 8, TruncateSide::Front);
    stream.producer_step(Ok(b""));
    assert_eq!(
        stream.lines(),
        Err(StreamError::DeadAndEmpty { operation: Operation::Lines })
    );
    let mut stream = Stream::new(StreamType::Stdout, 8, TruncateSide::Front);
    stream.producer_step(Ok(b""));
    assert_eq!(
        stream.iter(),
        Err(StreamError::DeadAndEmpty { operation: Operation::Iter })
    );
}

#[test]
fn dead_with_data_still_readable() {
    let mut stream = stream_with(8, TruncateSide::Front, &[b"tail"]);
    assert!(!stream.producer_step(Ok(b"")));
    assert_eq!(stream.alive(Operation::Read), Ok(()));
    assert_eq!(stream.read_exact(2), Ok(Some(b"ta".to_vec())));
    assert_eq!(stream.read(), Ok(Some(b"il".to_vec())));
}

#[test]
fn empty_but_running_is_no_data() {
    let mut stream = Stream::new(StreamType::Stdout, 8, TruncateSide::Front);
    assert_eq!(stream.read(), Ok(None));
    assert_eq!(stream.read_exact(1), Ok(None));
    let mut target = [0u8; 2];
    assert_eq!(stream.readbytes(&mut target, 0), Ok(None));
    assert_eq!(stream.readbytes_exact(1, &mut target, 0), Ok(ExactFill::Empty));
}

#[test]
fn read_drains_everything() {
    let mut stream = stream_with(16, TruncateSide::Front, &[b"abc", b"def"]);
    assert_eq!(stream.read(), Ok(Some(b"abcdef".to_vec())));
    assert_eq!(stream.size(), 0);
    assert_eq!(stream.read(), Ok(None));
}

#[test]
fn read_exact_is_all_or_nothing() {
    let mut stream = stream_with(16, TruncateSide::Front, &[b"abcdef"]);
    assert_eq!(stream.read_exact(7), Ok(None));
    assert_eq!(stream.size(), 6);
    assert_eq!(stream.read_exact(4), Ok(Some(b"abcd".to_vec())));
    assert_eq!(stream.size(), 2);
    assert_eq!(stream.read_exact(3), Ok(None));
    assert_eq!(stream.size(), 2);
    assert_eq!(stream.read_exact(2), Ok(Some(b"ef".to_vec())));
    assert_eq!(stream.size(), 0);
}

#[test]
fn read_exact_zero_returns_empty_data() {
    let mut stream = stream_with(16, TruncateSide::Front, &[b"ab"]);
    assert_eq!(stream.read_exact(0), Ok(Some(Vec::new())));
    assert_eq!(stream.size(), 2);
    let mut empty = Stream::new(StreamType::Stdout, 4, TruncateSide::Front);
    assert_eq!(empty.read_exact(0), Ok(Some(Vec::new())));
}

#[test]
fn insufficient_data_leaves_buffer_identical() {
    let mut stream = stream_with(16, TruncateSide::Front, &[b"abc"]);
    assert_eq!(stream.read_exact(10), Ok(None));
    let mut target = [0u8; 16];
    assert_eq!(
        stream.readbytes_exact(5, &mut target, 0),
        Ok(ExactFill::Short { available: 3 })
    );
    assert_eq!(target, [0u8; 16]);
    assert_eq!(stream.read_to(b"|", false, false, true), Ok(Sought::Done(None)));
    assert_eq!(stream.read_to(b"|", false, false, false), Ok(Sought::Wait));
    assert_eq!(stream.next_line(false), Pulled::Wait);
    assert_eq!(stream.read(), Ok(Some(b"abc".to_vec())));
}

#[test]
fn argument_errors_leave_buffer_identical() {
    let mut stream = stream_with(16, TruncateSide::Front, &[b"abcdef"]);
    let mut target = [7u8; 4];
    assert_eq!(
        stream.readbytes(&mut target, 4),
        Err(StreamError::OffsetOutOfRange { offset: 4, target_len: 4 })
    );
    assert_eq!(
        stream.readbytes(&mut target, 9),
        Err(StreamError::OffsetOutOfRange { offset: 9, target_len: 4 })
    );
    assert_eq!(
        stream.readbytes_exact(3, &mut target, 2),
        Err(StreamError::TargetTooSmall { offset: 2, count: 3, target_len: 4 })
    );
    assert_eq!(
        stream.readbytes_exact(2, &mut target, usize::MAX),
        Err(StreamError::TargetTooSmall { offset: usize::MAX, count: 2, target_len: 4 })
    );
    assert_eq!(target, [7u8; 4]);
    assert_eq!(stream.size(), 6);
    assert_eq!(stream.read(), Ok(Some(b"abcdef".to_vec())));
}

#[test]
fn readbytes_on_empty_target_is_an_error() {
    let mut stream = stream_with(16, TruncateSide::Front, &[b"abc"]);
    let mut target: [u8; 0] = [];
    assert_eq!(
        stream.readbytes(&mut target, 0),
        Err(StreamError::OffsetOutOfRange { offset: 0, target_len: 0 })
    );
    assert_eq!(stream.size(), 3);
}

#[test]
fn fifo_order_byte_by_byte() {
    let mut stream = stream_with(64, TruncateSide::Front, &[b"first ", b"second ", b"third"]);
    let mut out = Vec::new();
    while let Ok(Some(byte)) = stream.read_exact(1) {
        assert_eq!(byte.len(), 1);
        out.extend(byte);
        if stream.size() == 0 {
            break;
        }
    }
    assert_eq!(out, b"first second third".to_vec());
}

#[test]
fn readbytes_fills_what_fits() {
    let mut stream = stream_with(16, TruncateSide::Front, &[b"abcdef"]);
    let mut target = [b'.'; 5];
    assert_eq!(stream.readbytes(&mut target, 2), Ok(Some(3)));
    assert_eq!(&target, b"..abc");
    assert_eq!(stream.size(), 3);
    let mut wide = [b'.'; 8];
    assert_eq!(stream.readbytes(&mut wide, 1), Ok(Some(3)));
    assert_eq!(&wide, b".def....");
    assert_eq!(stream.size(), 0);
    assert_eq!(stream.readbytes(&mut wide, 0), Ok(None));
}

#[test]
fn readbytes_last_slot_takes_one_byte() {
    let mut stream = stream_with(16, TruncateSide::Front, &[b"xyz"]);
    let mut target = [0u8; 3];
    assert_eq!(stream.readbytes(&mut target, 2), Ok(Some(1)));
    assert_eq!(target, [0, 0, b'x']);
    assert_eq!(stream.read(), Ok(Some(b"yz".to_vec())));
}

#[test]
fn readbytes_exact_tri_state() {
    let mut stream = Stream::new(StreamType::Stdout, 16, TruncateSide::Front);
    let mut target = [b'.'; 6];
    assert_eq!(stream.readbytes_exact(4, &mut target, 1), Ok(ExactFill::Empty));
    stream.producer_step(Ok(b"ab"));
    assert_eq!(
        stream.readbytes_exact(4, &mut target, 1),
        Ok(ExactFill::Short { available: 2 })
    );
    assert_eq!(stream.size(), 2);
    stream.producer_step(Ok(b"cdef"));
    assert_eq!(stream.readbytes_exact(4, &mut target, 1), Ok(ExactFill::Filled));
    assert_eq!(&target, b".abcd.");
    assert_eq!(stream.read(), Ok(Some(b"ef".to_vec())));
}

#[test]
fn readbytes_exact_to_the_brim() {
    let mut stream = stream_with(16, TruncateSide::Front, &[b"abcd"]);
    let mut target = [0u8; 4];
    assert_eq!(stream.readbytes_exact(4, &mut target, 0), Ok(ExactFill::Filled));
    assert_eq!(&target, b"abcd");
    assert_eq!(stream.size(), 0);
}

#[test]
fn readbytes_exact_zero_count() {
    let mut stream = stream_with(16, TruncateSide::Front, &[b"ab"]);
    let mut target = [9u8; 2];
    assert_eq!(stream.readbytes_exact(0, &mut target, 2), Ok(ExactFill::Filled));
    assert_eq!(target, [9u8; 2]);
    assert_eq!(stream.size(), 2);
    assert_eq!(
        stream.readbytes_exact(0, &mut target, 3),
        Err(StreamError::TargetTooSmall { offset: 3, count: 0, target_len: 2 })
    );
}

#[test]
fn delimiter_exclusive() {
    let mut stream = stream_with(16, TruncateSide::Front, &[b"abc|def"]);
    assert_eq!(
        stream.read_to(b"|", false, false, false),
        Ok(Sought::Done(Some(b"abc".to_vec())))
    );
    assert_eq!(stream.read(), Ok(Some(b"def".to_vec())));
}

#[test]
fn delimiter_inclusive() {
    let mut stream = stream_with(16, TruncateSide::Front, &[b"abc|def"]);
    assert_eq!(
        stream.read_to(b"|", true, false, false),
        Ok(Sought::Done(Some(b"abc|".to_vec())))
    );
    assert_eq!(stream.read(), Ok(Some(b"def".to_vec())));
}

#[test]
fn delimiter_of_several_bytes() {
    let mut stream = stream_with(32, TruncateSide::Front, &[b"head\r\n\r\nbody\r\n\r\n"]);
    assert_eq!(
        stream.read_to(b"\r\n\r\n", false, false, false),
        Ok(Sought::Done(Some(b"head".to_vec())))
    );
    assert_eq!(
        stream.read_to(b"\r\n\r\n", true, false, false),
        Ok(Sought::Done(Some(b"body\r\n\r\n".to_vec())))
    );
    assert_eq!(stream.size(), 0);
}

#[test]
fn delimiter_split_across_chunks() {
    let mut stream = stream_with(32, TruncateSide::Front, &[b"ab<"]);
    assert_eq!(stream.read_to(b"<>", false, false, false), Ok(Sought::Wait));
    stream.producer_step(Ok(b">cd"));
    assert_eq!(
        stream.read_to(b"<>", false, false, false),
        Ok(Sought::Done(Some(b"ab".to_vec())))
    );
    assert_eq!(stream.read(), Ok(Some(b"cd".to_vec())));
}

#[test]
fn delimiter_at_front_gives_empty_data() {
    let mut stream = stream_with(16, TruncateSide::Front, &[b"|rest"]);
    assert_eq!(
        stream.read_to(b"|", false, false, false),
        Ok(Sought::Done(Some(Vec::new())))
    );
    assert_eq!(stream.read(), Ok(Some(b"rest".to_vec())));
}

#[test]
fn delimiter_match_wins_over_timeout() {
    let mut stream = stream_with(16, TruncateSide::Front, &[b"abc|def"]);
    assert_eq!(
        stream.read_to(b"|", false, true, true),
        Ok(Sought::Done(Some(b"abc".to_vec())))
    );
    assert_eq!(stream.size(), 3);
}

#[test]
fn delimiter_timeout_without_match() {
    let mut stream = stream_with(16, TruncateSide::Front, &[b"abcdef"]);
    assert_eq!(stream.read_to(b"|", false, false, true), Ok(Sought::Done(None)));
    assert_eq!(stream.size(), 6);
    assert_eq!(
        stream.read_to(b"|", false, true, true),
        Ok(Sought::Done(Some(b"abcdef".to_vec())))
    );
    assert_eq!(stream.size(), 0);
    assert_eq!(
        stream.read_to(b"|", false, true, true),
        Ok(Sought::Done(Some(Vec::new())))
    );
}

#[test]
fn delimiter_longer_than_buffer_waits() {
    let mut stream = stream_with(16, TruncateSide::Front, &[b"ab"]);
    assert_eq!(stream.read_to(b"abc", true, false, false), Ok(Sought::Wait));
    assert_eq!(stream.size(), 2);
}

#[test]
fn empty_delimiter_reads_to_end() {
    let mut stream = stream_with(16, TruncateSide::Front, &[b"abc"]);
    assert_eq!(stream.read_to(b"", false, false, false), Ok(Sought::Wait));
    assert_eq!(stream.size(), 3);
    stream.producer_step(Ok(b"def"));
    stream.producer_step(Ok(b""));
    assert_eq!(
        stream.read_to(b"", false, false, false),
        Ok(Sought::Done(Some(b"abcdef".to_vec())))
    );
    assert_eq!(stream.size(), 0);
}

#[test]
fn lines_until_producer_is_dead() {
    let mut stream = Stream::new(StreamType::Stdout, 64, TruncateSide::Front);
    assert_eq!(stream.lines(), Ok(()));
    assert_eq!(stream.next_line(false), Pulled::Wait);
    stream.producer_step(Ok(b"a\nb\n"));
    assert_eq!(stream.next_line(false), Pulled::Item(b"a".to_vec()));
    assert_eq!(stream.next_line(false), Pulled::Item(b"b".to_vec()));
    assert_eq!(stream.size(), 0);
    assert_eq!(stream.next_line(false), Pulled::Wait);
    stream.producer_step(Ok(b""));
    assert_eq!(stream.next_line(false), Pulled::End);
}

#[test]
fn lines_after_producer_closed() {
    let mut stream = stream_with(64, TruncateSide::Front, &[b"a\nb\n"]);
    stream.producer_step(Ok(b""));
    assert_eq!(stream.lines(), Ok(()));
    assert_eq!(stream.next_line(false), Pulled::Item(b"a".to_vec()));
    assert_eq!(stream.next_line(false), Pulled::Item(b"b".to_vec()));
    assert_eq!(stream.next_line(false), Pulled::End);
}

#[test]
fn lines_strip_one_trailing_carriage_return() {
    let mut stream = stream_with(64, TruncateSide::Front, &[b"one\r\ntwo\r\r\n\r\n\n\rthree\n"]);
    assert_eq!(stream.next_line(false), Pulled::Item(b"one".to_vec()));
    assert_eq!(stream.next_line(false), Pulled::Item(b"two\r".to_vec()));
    assert_eq!(stream.next_line(false), Pulled::Item(Vec::new()));
    assert_eq!(stream.next_line(false), Pulled::Item(Vec::new()));
    assert_eq!(stream.next_line(false), Pulled::Item(b"\rthree".to_vec()));
    assert_eq!(stream.next_line(false), Pulled::Wait);
}

#[test]
fn lines_leave_unfinished_line_buffered() {
    let mut stream = stream_with(64, TruncateSide::Front, &[b"done\npart"]);
    assert_eq!(stream.next_line(false), Pulled::Item(b"done".to_vec()));
    assert_eq!(stream.next_line(false), Pulled::Wait);
    assert_eq!(stream.next_line(true), Pulled::End);
    assert_eq!(stream.size(), 4);
    stream.producer_step(Ok(b"ial\n"));
    assert_eq!(stream.next_line(false), Pulled::Item(b"partial".to_vec()));
}

#[test]
fn chunks_until_producer_is_dead() {
    let mut stream = Stream::new(StreamType::Stdout, 64, TruncateSide::Front);
    assert_eq!(stream.iter(), Ok(()));
    assert_eq!(stream.next_chunk(false), Pulled::Wait);
    assert_eq!(stream.next_chunk(true), Pulled::End);
    stream.producer_step(Ok(b"abc"));
    stream.producer_step(Ok(b"def"));
    assert_eq!(stream.next_chunk(true), Pulled::Item(b"abcdef".to_vec()));
    assert_eq!(stream.next_chunk(false), Pulled::Wait);
    stream.producer_step(Ok(b"g"));
    stream.producer_step(Ok(b""));
    assert_eq!(stream.next_chunk(false), Pulled::Item(b"g".to_vec()));
    assert_eq!(stream.next_chunk(false), Pulled::End);
}

#[test]
fn sleep_plan_follows_the_caller() {
    assert_eq!(Stream::sleep_if_needed(Some(0), 0), 0);
    assert_eq!(Stream::sleep_if_needed(Some(250_000_000), 0), 250_000_000);
    assert_eq!(Stream::sleep_if_needed(Some(7), 5_000_000_000), 7);
    assert_eq!(Stream::sleep_if_needed(None, 0), 10_000_000);
    assert_eq!(Stream::sleep_if_needed(None, 999_999), 10_000_000);
    assert_eq!(Stream::sleep_if_needed(None, 1_000_000), 0);
    assert_eq!(Stream::sleep_if_needed(None, u64::MAX), 0);
}

#[test]
fn constants_have_their_values() {
    assert_eq!(READ_CHUNK, 1024);
    assert_eq!(POLL_INTERVAL_MILLIS, 10);
    assert_eq!(ITER_POLL_INTERVAL_MILLIS, 5);
    assert_eq!(STARTUP_WINDOW_NANOS, 1_000_000);
    assert_eq!(STARTUP_NAP_NANOS, 10_000_000);
}

#[test]
fn operation_names_carry_the_stream_type() {
    assert_eq!(
        operation_name(StreamType::Stdout, Operation::Read),
        "ChildProcess.stdout:read(duration: number?)"
    );
    assert_eq!(
        operation_name(StreamType::Stderr, Operation::ReadExact),
        "ChildProcess.stderr:read_exact(count: number, duration: number?)"
    );
    assert_eq!(
        operation_name(StreamType::Stderr, Operation::Lines),
        "ChildProcess.stderr:lines()"
    );
    assert_eq!(
        operation_name(StreamType::Stdout, Operation::Iter),
        "ChildProcess.stdout:__iter()"
    );
    for operation in [
        Operation::Read,
        Operation::ReadExact,
        Operation::ReadTo,
        Operation::ReadBytes,
        Operation::ReadBytesExact,
        Operation::Lines,
        Operation::Iter,
        Operation::Size,
    ] {
        assert!(operation_name(StreamType::Stdout, operation).starts_with("ChildProcess.stdout:"));
        assert!(operation_name(StreamType::Stderr, operation).starts_with("ChildProcess.stderr:"));
    }
}

#[test]
fn timeout_is_up_once_reached() {
    assert!(!Stream::timed_out(None, 0));
    assert!(!Stream::timed_out(None, u64::MAX));
    assert!(Stream::timed_out(Some(0), 0));
    assert!(!Stream::timed_out(Some(10), 9));
    assert!(Stream::timed_out(Some(10), 10));
    assert!(Stream::timed_out(Some(10), 11));
}

#[test]
fn dead_and_empty_on_every_check() {
    let mut stream = Stream::new(StreamType::Stdout, 8, TruncateSide::Front);
    assert!(!stream.producer_step(Ok(b"")));
    for _ in 0..4 {
        assert_eq!(
            stream.alive(Operation::Read),
            Err(StreamError::DeadAndEmpty { operation: Operation::Read })
        );
        assert_eq!(stream.size(), 0);
    }
}

#[test]
fn end_of_source_then_drain_then_read() {
    let mut stream = stream_with(16, TruncateSide::Front, &[b"x"]);
    assert!(!stream.producer_step(Ok(b"")));
    assert_eq!(stream.read(), Ok(Some(b"x".to_vec())));
    assert_eq!(
        stream.read(),
        Err(StreamError::DeadAndEmpty { operation: Operation::Read })
    );
    assert_eq!(
        stream.read(),
        Err(StreamError::DeadAndEmpty { operation: Operation::Read })
    );
    assert_eq!(stream.size(), 0);
}

#[test]
fn end_of_source_then_drain_then_every_operation() {
    let mut target = [0u8; 4];
    let mut stream = stream_with(16, TruncateSide::Front, &[b"xyz"]);
    assert!(!stream.producer_step(Ok(b"")));
    assert_eq!(stream.alive(Operation::Read), Ok(()));
    assert_eq!(stream.read_exact(3), Ok(Some(b"xyz".to_vec())));
    assert_eq!(
        stream.alive(Operation::Size),
        Err(StreamError::DeadAndEmpty { operation: Operation::Size })
    );
    assert_eq!(
        stream.read_exact(1),
        Err(StreamError::DeadAndEmpty { operation: Operation::ReadExact })
    );
    assert_eq!(
        stream.read_exact(0),
        Err(StreamError::DeadAndEmpty { operation: Operation::ReadExact })
    );
    assert_eq!(
        stream.readbytes(&mut target, 0),
        Err(StreamError::DeadAndEmpty { operation: Operation::ReadBytes })
    );
    assert_eq!(
        stream.readbytes_exact(1, &mut target, 0),
        Err(StreamError::DeadAndEmpty { operation: Operation::ReadBytesExact })
    );
    assert_eq!(
        stream.lines(),
        Err(StreamError::DeadAndEmpty { operation: Operation::Lines })
    );
    assert_eq!(
        stream.iter(),
        Err(StreamError::DeadAndEmpty { operation: Operation::Iter })
    );
    assert_eq!(target, [0u8; 4]);
}

#[test]
fn read_to_never_waits_on_a_drained_dead_stream() {
    let mut stream = stream_with(16, TruncateSide::Front, &[b"ab|"]);
    assert!(!stream.producer_step(Ok(b"")));
    assert_eq!(
        stream.read_to(b"|", true, false, false),
        Ok(Sought::Done(Some(b"ab|".to_vec())))
    );
    for _ in 0..3 {
        assert_eq!(
            stream.read_to(b"|", true, false, false),
            Err(StreamError::DeadAndEmpty { operation: Operation::ReadTo })
        );
    }
    assert_eq!(
        stream.read_to(b"", false, true, true),
        Err(StreamError::DeadAndEmpty { operation: Operation::ReadTo })
    );
}

#[test]
fn lines_noticed_the_end_then_reads_report_it() {
    let mut stream = stream_with(16, TruncateSide::Front, &[b"a\n"]);
    assert!(!stream.producer_step(Ok(b"")));
    assert_eq!(stream.lines(), Ok(()));
    assert_eq!(stream.next_line(false), Pulled::Item(b"a".to_vec()));
    assert_eq!(stream.next_line(false), Pulled::End);
    assert_eq!(
        stream.read_exact(1),
        Err(StreamError::DeadAndEmpty { operation: Operation::ReadExact })
    );
    assert_eq!(
        stream.alive(Operation::Read),
        Err(StreamError::DeadAndEmpty { operation: Operation::Read })
    );
}

#[test]
fn failure_once_then_dead_and_empty() {
    let mut stream = Stream::new(StreamType::Stderr, 8, TruncateSide::Back);
    assert!(!stream.producer_step(Err(String::from("reset"))));
    assert_eq!(
        stream.read(),
        Err(StreamError::ProducerFailed {
            operation: Operation::Read,
            message: String::from("reset"),
        })
    );
    assert_eq!(
        stream.read(),
        Err(StreamError::DeadAndEmpty { operation: Operation::Read })
    );
    assert_eq!(
        stream.read_to(b"x", false, false, false),
        Err(StreamError::DeadAndEmpty { operation: Operation::ReadTo })
    );
}

#[test]
fn size_never_exceeds_capacity() {
    for side in [TruncateSide::Front, TruncateSide::Back] {
        for capacity in 0..6usize {
            let mut stream = Stream::new(StreamType::Stdout, capacity, side);
            for round in 0..30usize {
                let chunk: Vec<u8> = (0..(1 + round % 7)).map(|i| (i + round) as u8).collect();
                stream.producer_step(Ok(&chunk));
                assert!(stream.size() <= stream.capacity());
                if round % 4 == 0 {
                    let _ = stream.read_exact(1);
                    assert!(stream.size() <= stream.capacity());
                }
            }
        }
    }
}

#[test]
fn offsets_are_checked_against_the_target() {
    assert_eq!(Stream::check_offset(0, 1), Ok(()));
    assert_eq!(Stream::check_offset(3, 4), Ok(()));
    assert_eq!(
        Stream::check_offset(4, 4),
        Err(StreamError::OffsetOutOfRange { offset: 4, target_len: 4 })
    );
    assert_eq!(
        Stream::check_offset(0, 0),
        Err(StreamError::OffsetOutOfRange { offset: 0, target_len: 0 })
    );
    assert_eq!(
        Stream::check_offset(usize::MAX, 8),
        Err(StreamError::OffsetOutOfRange { offset: usize::MAX, target_len: 8 })
    );
}

#[test]
fn readbytes_exact_refuses_a_small_target_with_nothing_buffered() {
    let mut stream = Stream::new(StreamType::Stdout, 16, TruncateSide::Front);
    let mut target = [7u8; 2];
    assert_eq!(
        stream.readbytes_exact(3, &mut target, 0),
        Err(StreamError::TargetTooSmall { offset: 0, count: 3, target_len: 2 })
    );
    assert_eq!(
        stream.readbytes_exact(1, &mut target, 2),
        Err(StreamError::TargetTooSmall { offset: 2, count: 1, target_len: 2 })
    );
    assert_eq!(
        stream.readbytes_exact(usize::MAX, &mut target, usize::MAX),
        Err(StreamError::TargetTooSmall {
            offset: usize::MAX,
            count: usize::MAX,
            target_len: 2,
        })
    );
    assert_eq!(target, [7u8; 2]);
    assert_eq!(stream.size(), 0);
    assert_eq!(stream.readbytes_exact(2, &mut target, 0), Ok(ExactFill::Empty));
}

#[test]
fn readbytes_exact_refuses_a_small_target_with_too_little_buffered() {
    let mut stream = stream_with(16, TruncateSide::Front, &[b"a"]);
    let mut target = [7u8; 2];
    assert_eq!(
        stream.readbytes_exact(3, &mut target, 0),
        Err(StreamError::TargetTooSmall { offset: 0, count: 3, target_len: 2 })
    );
    assert_eq!(
        stream.readbytes_exact(2, &mut target, 1),
        Err(StreamError::TargetTooSmall { offset: 1, count: 2, target_len: 2 })
    );
    assert_eq!(target, [7u8; 2]);
    assert_eq!(stream.size(), 1);
    assert_eq!(
        stream.readbytes_exact(2, &mut target, 0),
        Ok(ExactFill::Short { available: 1 })
    );
    assert_eq!(stream.read(), Ok(Some(b"a".to_vec())));
}

#[test]
fn readbytes_exact_liveness_comes_before_the_fit() {
    let mut stream = Stream::new(StreamType::Stdout, 16, TruncateSide::Front);
    stream.producer_step(Ok(b""));
    let mut target = [7u8; 2];
    assert_eq!(
        stream.readbytes_exact(3, &mut target, 0),
        Err(StreamError::DeadAndEmpty { operation: Operation::ReadBytesExact })
    );
}

#[test]
fn fit_is_checked_against_the_target() {
    assert_eq!(Stream::check_fit(0, 0, 0), Ok(()));
    assert_eq!(Stream::check_fit(0, 4, 4), Ok(()));
    assert_eq!(Stream::check_fit(1, 3, 4), Ok(()));
    assert_eq!(Stream::check_fit(4, 0, 4), Ok(()));
    assert_eq!(
        Stream::check_fit(1, 4, 4),
        Err(StreamError::TargetTooSmall { offset: 1, count: 4, target_len: 4 })
    );
    assert_eq!(
        Stream::check_fit(5, 0, 4),
        Err(StreamError::TargetTooSmall { offset: 5, count: 0, target_len: 4 })
    );
    assert_eq!(
        Stream::check_fit(usize::MAX, 1, 4),
        Err(StreamError::TargetTooSmall { offset: usize::MAX, count: 1, target_len: 4 })
    );
}
