//! The stream: a bounded buffer, the liveness of the producer that fills it,
//! and the reads that drain it.

use crate::model::{
    next_chunk_reply, next_line_reply, next_line_rest, overwrite, read_exact_reply,
    read_exact_rest, read_reply, read_to_cut, read_to_reply, read_to_rest, readbytes_count,
    ExactFill, Pulled, Sought, CARRIAGE_RETURN, LINE_FEED,
};
use crate::policy::{evict, TruncateSide};
use crate::ring::RingBuffer;
use crate::search::lemma_first_match_sound;
use vstd::prelude::*;

verus! {

/// Which output of the child a stream carries. It only words the context of errors.
#[derive(Clone, Copy, Debug, PartialEq, Eq, Structural)]
pub enum StreamType {
    Stdout,
    Stderr,
}

/// The operations of a stream that a caller can name.
#[derive(Clone, Copy, Debug, PartialEq, Eq, Structural)]
pub enum Operation {
    Read,
    ReadExact,
    ReadTo,
    ReadBytes,
    ReadBytesExact,
    Lines,
    Iter,
    Size,
}

/// Why a read of a stream failed.
#[derive(Debug, PartialEq, Eq)]
pub enum StreamError {
    /// The producer stopped on a read failure; the first operation afterwards reports it.
    ProducerFailed { operation: Operation, message: String },
    /// The producer has stopped and nothing is buffered: nothing will ever
    /// be. Every operation reports it for as long as it holds.
    DeadAndEmpty { operation: Operation },
    /// The offset lies at or past the end of the target.
    OffsetOutOfRange { offset: usize, target_len: usize },
    /// `count` bytes from `offset` on do not fit into the target.
    TargetTooSmall { offset: usize, count: usize, target_len: usize },
}

/// The most bytes the producer asks of its source in one read.
pub const READ_CHUNK: usize = 1024;

/// For how long a read that waits for the producer sleeps between attempts, in milliseconds.
pub const POLL_INTERVAL_MILLIS: u64 = 10;

/// For how long the chunk iterator sleeps between pulls unless told otherwise, in milliseconds.
pub const ITER_POLL_INTERVAL_MILLIS: u64 = 5;

/// The age below which a stream counts as just started, in nanoseconds.
pub const STARTUP_WINDOW_NANOS: u64 = 1_000_000;

/// For how long a read of a just started stream sleeps when the caller named
/// no duration, in nanoseconds.
pub const STARTUP_NAP_NANOS: u64 = 10_000_000;

/// A stream as contracts see it.
pub struct StreamView {
    /// The buffered bytes, oldest first.
    pub buffer: Seq<u8>,
    /// The most bytes the buffer holds.
    pub capacity: nat,
    /// The side from which the buffer evicts.
    pub truncate_side: TruncateSide,
    /// Which output of the child the stream carries.
    pub stream_type: StreamType,
    /// The liveness flag: true until the producer stops.
    pub still_reading: bool,
    /// The failure on which the producer stopped, from the moment it stops
    /// until the first operation that reports it.
    pub failure: Option<String>,
}

impl StreamView {
    /// Dead and empty: the producer has stopped and nothing is buffered, so
    /// nothing ever will be.
    pub open spec fn dead_and_empty(self) -> bool {
        !self.still_reading && self.buffer.len() == 0
    }

    /// The error that the liveness check raises for `operation`, if any. A
    /// failure of the producer that nobody has reported yet comes first.
    /// Otherwise a stream that is dead and empty is an error, on every check.
    pub open spec fn verdict(self, operation: Operation) -> Option<StreamError> {
        match self.failure {
            Some(message) => Some(StreamError::ProducerFailed { operation, message }),
            None => if self.dead_and_empty() {
                Some(StreamError::DeadAndEmpty { operation })
            } else {
                None
            },
        }
    }

    /// The stream after the liveness check: a failure of the producer has
    /// been reported and is not reported again.
    pub open spec fn observed(self) -> StreamView {
        StreamView { failure: None, ..self }
    }

    /// The stream with other bytes buffered.
    pub open spec fn with_buffer(self, buffer: Seq<u8>) -> StreamView {
        StreamView { buffer, ..self }
    }

    /// The stream once the producer has stopped at the end of its source.
    pub open spec fn ended(self) -> StreamView {
        StreamView { still_reading: false, ..self }
    }

    /// The stream once the producer has stopped on a failure.
    pub open spec fn failed(self, message: String) -> StreamView {
        StreamView { still_reading: false, failure: Some(message), ..self }
    }

    /// The stream after the producer has handed in the result of one read of
    /// its source: more bytes, which are appended and evicted down to the
    /// capacity; no bytes, which is the end of the source; or a failure.
    /// A producer that has stopped changes nothing any more.
    pub open spec fn fed(self, read: Result<Seq<u8>, String>) -> StreamView {
        if !self.still_reading {
            self
        } else {
            match read {
                Ok(chunk) => if chunk.len() == 0 {
                    self.ended()
                } else {
                    self.with_buffer(evict(self.buffer + chunk, self.capacity, self.truncate_side))
                },
                Err(message) => self.failed(message),
            }
        }
    }

    /// The buffer holds no more than the capacity.
    pub open spec fn within_capacity(self) -> bool {
        self.buffer.len() <= self.capacity
    }
}

/// The consumer's handle on the bytes that a producer reads from one output of
/// a child process.
pub struct Stream {
    buffer: RingBuffer,
    stream_type: StreamType,
    still_reading: bool,
    failure: Option<String>,
}

impl View for Stream {
    type V = StreamView;

    closed spec fn view(&self) -> StreamView {
        StreamView {
            buffer: self.buffer@,
            capacity: self.buffer.limit() as nat,
            truncate_side: self.buffer.policy(),
            stream_type: self.stream_type,
            still_reading: self.still_reading,
            failure: self.failure,
        }
    }
}

/// The bytes of a reply, if it holds any.
pub open spec fn bytes_of(reply: Option<Vec<u8>>) -> Option<Seq<u8>> {
    match reply {
        Some(bytes) => Some(bytes@),
        None => None,
    }
}

impl Stream {
    /// A stream with nothing buffered whose producer is running.
    pub fn new(stream_type: StreamType, capacity: usize, truncate_side: TruncateSide) -> (stream:
        Self)
        ensures
            stream@ == (StreamView {
                buffer: Seq::empty(),
                capacity: capacity as nat,
                truncate_side,
                stream_type,
                still_reading: true,
                failure: None,
            }),
            stream@.within_capacity(),
    {
        Stream {
            buffer: RingBuffer::new(capacity, truncate_side),
            stream_type,
            still_reading: true,
            failure: None,
        }
    }

    /// One turn of the producer: takes the result of one read of the source and
    /// says whether the producer goes on reading. Bytes are appended, and the
    /// buffer is cut down to its capacity at once. A read of no bytes is the
    /// end of the source; it and a failed read stop the producer and clear
    /// the liveness flag, and the failure is kept for the first operation
    /// that reports it.
    pub fn producer_step(&mut self, read: Result<&[u8], String>) -> (keep_reading: bool)
        ensures
            final(self)@ == old(self)@.fed(
                match read {
                    Ok(chunk) => Ok(chunk@),
                    Err(message) => Err(message),
                },
            ),
            keep_reading == final(self)@.still_reading,
            final(self)@.within_capacity(),
    {
        proof {
            use_type_invariant(&self.buffer);
        }
        if !self.still_reading {
            return false;
        }
        match read {
            Ok(chunk) => {
                if chunk.len() == 0 {
                    self.still_reading = false;
                    false
                } else {
                    self.buffer.append(chunk);
                    true
                }
            },
            Err(message) => {
                self.still_reading = false;
                self.failure = Some(message);
                false
            },
        }
    }

    /// The liveness check that precedes every read. A failure of the producer
    /// is returned by the first check after it, and by that one only. Apart
    /// from that, every check of a stream that is dead and empty is an error:
    /// the first and each one after it. With bytes still buffered, or while
    /// the producer runs, the check passes.
    pub fn alive(&mut self, operation: Operation) -> (checked: Result<(), StreamError>)
        ensures
            final(self)@ == old(self)@.observed(),
            final(self)@.within_capacity(),
            match old(self)@.verdict(operation) {
                Some(error) => checked == Err::<(), StreamError>(error),
                None => checked is Ok,
            },
    {
        proof {
            use_type_invariant(&self.buffer);
        }
        match self.failure.take() {
            Some(message) => Err(StreamError::ProducerFailed { operation, message }),
            None => {
                if !self.still_reading && self.buffer.is_empty() {
                    Err(StreamError::DeadAndEmpty { operation })
                } else {
                    Ok(())
                }
            },
        }
    }

    /// Whether `count` bytes fit into a target of `target_len` bytes from
    /// `offset` on. A read of exactly `count` bytes into a target refuses a
    /// target that cannot hold them, before it looks at what is buffered.
    pub fn check_fit(offset: usize, count: usize, target_len: usize) -> (checked: Result<
        (),
        StreamError,
    >)
        ensures
            offset + count > target_len ==> checked == Err::<(), StreamError>(
                StreamError::TargetTooSmall { offset, count, target_len },
            ),
            offset + count <= target_len ==> checked is Ok,
    {
        if count <= target_len && offset <= target_len - count {
            Ok(())
        } else {
            Err(StreamError::TargetTooSmall { offset, count, target_len })
        }
    }

    /// Whether `offset` lies inside a target of `target_len` bytes. A read
    /// into a target refuses an offset at or past its end.
    pub fn check_offset(offset: usize, target_len: usize) -> (checked: Result<(), StreamError>)
        ensures
            offset >= target_len ==> checked == Err::<(), StreamError>(
                StreamError::OffsetOutOfRange { offset, target_len },
            ),
            offset < target_len ==> checked is Ok,
    {
        if offset >= target_len {
            Err(StreamError::OffsetOutOfRange { offset, target_len })
        } else {
            Ok(())
        }
    }

    /// How many bytes are buffered: never more than the capacity.
    pub fn size(&self) -> (size: usize)
        ensures
            size == self@.buffer.len(),
            size <= self@.capacity,
            self@.within_capacity(),
    {
        self.buffer.len()
    }

    /// The configured capacity.
    pub fn capacity(&self) -> (capacity: usize)
        ensures
            capacity == self@.capacity,
            self@.within_capacity(),
    {
        proof {
            use_type_invariant(&self.buffer);
        }
        self.buffer.capacity()
    }

    /// Which output of the child the stream carries.
    pub fn stream_type(&self) -> (stream_type: StreamType)
        ensures
            stream_type == self@.stream_type,
    {
        self.stream_type
    }

    /// Whether the producer is still reading its source.
    pub fn still_reading(&self) -> (flag: bool)
        ensures
            flag == self@.still_reading,
    {
        self.still_reading
    }
}

impl Stream {
    /// Drains the buffer: after the liveness check, returns everything
    /// buffered, or nothing when nothing is buffered.
    pub fn read(&mut self) -> (reply: Result<Option<Vec<u8>>, StreamError>)
        ensures
            final(self)@.within_capacity(),
            match old(self)@.verdict(Operation::Read) {
                Some(error) => {
                    &&& reply == Err::<Option<Vec<u8>>, StreamError>(error)
                    &&& final(self)@ == old(self)@.observed()
                },
                None => {
                    &&& reply matches Ok(data)
                    &&& bytes_of(data) == read_reply(old(self)@.buffer)
                    &&& final(self)@ == old(self)@.observed().with_buffer(Seq::empty())
                },
            },
    {
        match self.alive(Operation::Read) {
            Err(error) => {
                return Err(error);
            },
            Ok(()) => {},
        }
        if self.buffer.is_empty() {
            assert(self.buffer@ =~= Seq::<u8>::empty());
            Ok(None)
        } else {
            Ok(Some(self.buffer.drain_all()))
        }
    }

    /// Reads exactly `count` bytes: after the liveness check, removes and
    /// returns the `count` oldest bytes if that many are buffered, and else
    /// returns nothing and consumes nothing.
    pub fn read_exact(&mut self, count: usize) -> (reply: Result<Option<Vec<u8>>, StreamError>)
        ensures
            final(self)@.within_capacity(),
            match old(self)@.verdict(Operation::ReadExact) {
                Some(error) => {
                    &&& reply == Err::<Option<Vec<u8>>, StreamError>(error)
                    &&& final(self)@ == old(self)@.observed()
                },
                None => {
                    &&& reply matches Ok(data)
                    &&& bytes_of(data) == read_exact_reply(old(self)@.buffer, count as nat)
                    &&& final(self)@ == old(self)@.observed().with_buffer(
                        read_exact_rest(old(self)@.buffer, count as nat),
                    )
                },
            },
    {
        match self.alive(Operation::ReadExact) {
            Err(error) => {
                return Err(error);
            },
            Ok(()) => {},
        }
        if count <= self.buffer.len() {
            Ok(Some(self.buffer.drain_front(count)))
        } else {
            Ok(None)
        }
    }
}

/// Writes `data` over `target` from `offset` on.
fn write_at(target: &mut [u8], offset: usize, data: &Vec<u8>)
    requires
        offset + data@.len() <= old(target)@.len(),
    ensures
        final(target)@ == overwrite(old(target)@, offset as int, data@),
{
    let target_len: usize = target.len();
    let mut written: usize = 0;
    while written < data.len()
        invariant
            written <= data@.len(),
            target_len == target@.len(),
            offset + data@.len() <= target@.len(),
            target@ == overwrite(old(target)@, offset as int, data@.take(written as int)),
        decreases data@.len() - written,
    {
        target[offset + written] = data[written];
        written += 1;
        assert(target@ =~= overwrite(old(target)@, offset as int, data@.take(written as int)));
    }
    assert(data@.take(written as int) =~= data@);
}

impl Stream {
    /// Reads into `target` from `offset` on: after the liveness check, moves as
    /// many of the oldest bytes as are buffered and fit behind `offset`, and
    /// returns how many; returns nothing when nothing is buffered. An offset
    /// at or past the end of the target is an error, and nothing is consumed.
    pub fn readbytes(&mut self, target: &mut [u8], offset: usize) -> (reply: Result<
        Option<usize>,
        StreamError,
    >)
        ensures
            final(self)@.within_capacity(),
            match old(self)@.verdict(Operation::ReadBytes) {
                Some(error) => {
                    &&& reply == Err::<Option<usize>, StreamError>(error)
                    &&& final(self)@ == old(self)@.observed()
                    &&& final(target)@ == old(target)@
                },
                None => if offset >= old(target)@.len() {
                    &&& reply == Err::<Option<usize>, StreamError>(
                        StreamError::OffsetOutOfRange { offset, target_len: old(target)@.len() as usize },
                    )
                    &&& final(self)@ == old(self)@.observed()
                    &&& final(target)@ == old(target)@
                } else if old(self)@.buffer.len() == 0 {
                    &&& reply == Ok::<Option<usize>, StreamError>(None)
                    &&& final(self)@ == old(self)@.observed()
                    &&& final(target)@ == old(target)@
                } else {
                    let moved = readbytes_count(
                        old(self)@.buffer,
                        old(target)@.len(),
                        offset as nat,
                    );
                    &&& reply == Ok::<Option<usize>, StreamError>(Some(moved as usize))
                    &&& final(self)@ == old(self)@.observed().with_buffer(
                        old(self)@.buffer.skip(moved as int),
                    )
                    &&& final(target)@ == overwrite(
                        old(target)@,
                        offset as int,
                        old(self)@.buffer.take(moved as int),
                    )
                },
            },
    {
        match self.alive(Operation::ReadBytes) {
            Err(error) => {
                return Err(error);
            },
            Ok(()) => {},
        }
        let target_len: usize = target.len();
        match Self::check_offset(offset, target_len) {
            Err(error) => {
                return Err(error);
            },
            Ok(()) => {},
        }
        if self.buffer.is_empty() {
            return Ok(None);
        }
        let space_left: usize = target_len - offset;
        let buffered: usize = self.buffer.len();
        let moved: usize = if buffered <= space_left {
            buffered
        } else {
            space_left
        };
        let data = self.buffer.drain_front(moved);
        write_at(target, offset, &data);
        Ok(Some(moved))
    }

    /// Reads exactly `count` bytes into `target` from `offset` on. After the
    /// liveness check, a target that cannot hold `count` bytes behind `offset`
    /// is an error, whatever is buffered, and nothing is consumed. Where they
    /// fit: with nothing buffered the answer is `Empty`; with fewer than
    /// `count` bytes buffered it is `Short` with the number that are; in both
    /// cases nothing is consumed. With enough buffered, the `count` oldest
    /// bytes are moved and the answer is `Filled`.
    pub fn readbytes_exact(&mut self, count: usize, target: &mut [u8], offset: usize) -> (reply:
        Result<ExactFill, StreamError>)
        ensures
            final(self)@.within_capacity(),
            match old(self)@.verdict(Operation::ReadBytesExact) {
                Some(error) => {
                    &&& reply == Err::<ExactFill, StreamError>(error)
                    &&& final(self)@ == old(self)@.observed()
                    &&& final(target)@ == old(target)@
                },
                None => if offset + count > old(target)@.len() {
                    &&& reply == Err::<ExactFill, StreamError>(
                        StreamError::TargetTooSmall {
                            offset,
                            count,
                            target_len: old(target)@.len() as usize,
                        },
                    )
                    &&& final(self)@ == old(self)@.observed()
                    &&& final(target)@ == old(target)@
                } else if old(self)@.buffer.len() == 0 {
                    &&& reply == Ok::<ExactFill, StreamError>(ExactFill::Empty)
                    &&& final(self)@ == old(self)@.observed()
                    &&& final(target)@ == old(target)@
                } else if old(self)@.buffer.len() < count {
                    &&& reply == Ok::<ExactFill, StreamError>(
                        ExactFill::Short { available: old(self)@.buffer.len() as usize },
                    )
                    &&& final(self)@ == old(self)@.observed()
                    &&& final(target)@ == old(target)@
                } else {
                    &&& reply == Ok::<ExactFill, StreamError>(ExactFill::Filled)
                    &&& final(self)@ == old(self)@.observed().with_buffer(
                        old(self)@.buffer.skip(count as int),
                    )
                    &&& final(target)@ == overwrite(
                        old(target)@,
                        offset as int,
                        old(self)@.buffer.take(count as int),
                    )
                },
            },
    {
        match self.alive(Operation::ReadBytesExact) {
            Err(error) => {
                return Err(error);
            },
            Ok(()) => {},
        }
        match Self::check_fit(offset, count, target.len()) {
            Err(error) => {
                return Err(error);
            },
            Ok(()) => {},
        }
        let buffered: usize = self.buffer.len();
        if buffered == 0 {
            Ok(ExactFill::Empty)
        } else if buffered < count {
            Ok(ExactFill::Short { available: buffered })
        } else {
            let data = self.buffer.drain_front(count);
            write_at(target, offset, &data);
            Ok(ExactFill::Filled)
        }
    }
}

/// The answer of a delimiter read with its bytes as a sequence.
pub open spec fn sought_bytes(answer: Sought<Vec<u8>>) -> Sought<Seq<u8>> {
    match answer {
        Sought::Done(data) => Sought::Done(bytes_of(data)),
        Sought::Wait => Sought::Wait,
    }
}

/// The answer of a pull with its bytes as a sequence.
pub open spec fn pulled_bytes(answer: Pulled<Vec<u8>>) -> Pulled<Seq<u8>> {
    match answer {
        Pulled::Item(data) => Pulled::Item(data@),
        Pulled::End => Pulled::End,
        Pulled::Wait => Pulled::Wait,
    }
}

impl Stream {
    /// One attempt to read up to a delimiter. After the liveness check, the
    /// buffer is searched for the first occurrence of `term`. On a match the
    /// bytes up to its end are removed, and returned without the match unless
    /// `inclusive`. Without a match, a caller whose time is up gets everything
    /// buffered if it allows a partial result and nothing if not; a caller
    /// with time left is told to wait. An empty `term` matches everything
    /// buffered once the producer has stopped.
    pub fn read_to(
        &mut self,
        term: &[u8],
        inclusive: bool,
        allow_partial: bool,
        timed_out: bool,
    ) -> (reply: Result<Sought<Vec<u8>>, StreamError>)
        ensures
            final(self)@.within_capacity(),
            match old(self)@.verdict(Operation::ReadTo) {
                Some(error) => {
                    &&& reply == Err::<Sought<Vec<u8>>, StreamError>(error)
                    &&& final(self)@ == old(self)@.observed()
                },
                None => {
                    &&& reply matches Ok(answer)
                    &&& sought_bytes(answer) == read_to_reply(
                        old(self)@.buffer,
                        term@,
                        inclusive,
                        allow_partial,
                        timed_out,
                        old(self)@.still_reading,
                    )
                    &&& final(self)@ == old(self)@.observed().with_buffer(
                        read_to_rest(
                            old(self)@.buffer,
                            term@,
                            inclusive,
                            allow_partial,
                            timed_out,
                            old(self)@.still_reading,
                        ),
                    )
                },
            },
    {
        match self.alive(Operation::ReadTo) {
            Err(error) => {
                return Err(error);
            },
            Ok(()) => {},
        }
        let ghost buffer = self.buffer@;
        let buffered: usize = self.buffer.len();
        let cut: Option<(usize, usize)> = if buffered == 0 || buffered < term.len() {
            None
        } else if term.len() == 0 {
            if self.still_reading {
                None
            } else {
                Some((buffered, buffered))
            }
        } else {
            match self.buffer.find(term) {
                Some(at) => {
                    proof {
                        lemma_first_match_sound(buffer, term@);
                    }
                    let end: usize = at + term.len();
                    Some((end, if inclusive { end } else { at }))
                },
                None => None,
            }
        };
        assert(match cut {
            Some((end, keep)) => read_to_cut(buffer, term@, inclusive, self.still_reading) == Some(
                (end as int, keep as int),
            ) && keep <= end <= buffer.len(),
            None => read_to_cut(buffer, term@, inclusive, self.still_reading) is None,
        });
        match cut {
            Some((end, keep)) => {
                let mut data = self.buffer.drain_front(end);
                data.truncate(keep);
                assert(data@ =~= buffer.take(keep as int));
                Ok(Sought::Done(Some(data)))
            },
            None => {
                if !timed_out {
                    Ok(Sought::Wait)
                } else if allow_partial {
                    Ok(Sought::Done(Some(self.buffer.drain_all())))
                } else {
                    Ok(Sought::Done(None))
                }
            },
        }
    }

    /// Opens the line iterator: the liveness check alone, so a stream that is
    /// dead and empty opens no iterator. The lines are then pulled with
    /// `next_line`.
    pub fn lines(&mut self) -> (checked: Result<(), StreamError>)
        ensures
            final(self)@ == old(self)@.observed(),
            final(self)@.within_capacity(),
            match old(self)@.verdict(Operation::Lines) {
                Some(error) => checked == Err::<(), StreamError>(error),
                None => checked is Ok,
            },
    {
        self.alive(Operation::Lines)
    }

    /// One pull of the line iterator. With a line feed buffered, the bytes up
    /// to and with the first one are removed, and those before it returned,
    /// less one carriage return at their end. Without one, nothing is removed:
    /// the sequence ends once the producer has stopped or the caller's time
    /// is up, and else the caller is told to wait.
    pub fn next_line(&mut self, timed_out: bool) -> (answer: Pulled<Vec<u8>>)
        ensures
            pulled_bytes(answer) == next_line_reply(
                old(self)@.buffer,
                old(self)@.still_reading,
                timed_out,
            ),
            final(self)@ == old(self)@.with_buffer(next_line_rest(old(self)@.buffer)),
            final(self)@.within_capacity(),
    {
        proof {
            use_type_invariant(&self.buffer);
        }
        let ghost buffer = self.buffer@;
        let buffered: usize = self.buffer.len();
        match self.buffer.find_byte(LINE_FEED) {
            Some(at) => {
                proof {
                    lemma_first_match_sound(buffer, seq![LINE_FEED]);
                }
                assert(at < buffered);
                let mut line = self.buffer.drain_front(at + 1);
                line.truncate(at);
                assert(line@ =~= buffer.take(at as int));
                if at > 0 && line[at - 1] == CARRIAGE_RETURN {
                    line.truncate(at - 1);
                    assert(line@ =~= buffer.take(at as int).drop_last());
                }
                Pulled::Item(line)
            },
            None => {
                assert(self.buffer@ =~= buffer);
                if !self.still_reading || timed_out {
                    Pulled::End
                } else {
                    Pulled::Wait
                }
            },
        }
    }

    /// Opens the chunk iterator: the liveness check alone, so a stream that is
    /// dead and empty opens no iterator. The chunks are then pulled with
    /// `next_chunk`.
    pub fn iter(&mut self) -> (checked: Result<(), StreamError>)
        ensures
            final(self)@ == old(self)@.observed(),
            final(self)@.within_capacity(),
            match old(self)@.verdict(Operation::Iter) {
                Some(error) => checked == Err::<(), StreamError>(error),
                None => checked is Ok,
            },
    {
        self.alive(Operation::Iter)
    }

    /// One pull of the chunk iterator. Whatever is buffered is removed and
    /// returned. With nothing buffered, the sequence ends once the producer
    /// has stopped or the caller's time is up, and else the caller is told to
    /// wait.
    pub fn next_chunk(&mut self, timed_out: bool) -> (answer: Pulled<Vec<u8>>)
        ensures
            pulled_bytes(answer) == next_chunk_reply(
                old(self)@.buffer,
                old(self)@.still_reading,
                timed_out,
            ),
            final(self)@ == old(self)@.with_buffer(
                if old(self)@.buffer.len() > 0 {
                    Seq::empty()
                } else {
                    old(self)@.buffer
                },
            ),
            final(self)@.within_capacity(),
    {
        proof {
            use_type_invariant(&self.buffer);
        }
        if !self.buffer.is_empty() {
            Pulled::Item(self.buffer.drain_all())
        } else if !self.still_reading || timed_out {
            Pulled::End
        } else {
            Pulled::Wait
        }
    }

    /// Whether the time of a caller that waits for results is up: never
    /// without a timeout, and with one as soon as that much time has passed.
    pub fn timed_out(timeout_nanos: Option<u64>, elapsed_nanos: u64) -> (up: bool)
        ensures
            up == deadline_passed(timeout_nanos, elapsed_nanos),
    {
        match timeout_nanos {
            Some(limit) => elapsed_nanos >= limit,
            None => false,
        }
    }

    /// For how long a read sleeps before it looks at the buffer, in
    /// nanoseconds. A caller that named a duration gets that duration, and so
    /// no sleep for zero. One that named none sleeps only if the stream has
    /// just started, and then for a fixed short time.
    pub fn sleep_if_needed(duration: Option<u64>, age_nanos: u64) -> (nap_nanos: u64)
        ensures
            nap_nanos == planned_nap(duration, age_nanos),
    {
        match duration {
            Some(nanos) => nanos,
            None => if age_nanos < STARTUP_WINDOW_NANOS {
                STARTUP_NAP_NANOS
            } else {
                0
            },
        }
    }
}

/// Whether a caller that has waited for `elapsed_nanos` has used up its
/// time: one that named no timeout never has, one that named a timeout has as
/// soon as it has waited that long.
pub open spec fn deadline_passed(timeout_nanos: Option<u64>, elapsed_nanos: u64) -> bool {
    match timeout_nanos {
        Some(limit) => elapsed_nanos >= limit,
        None => false,
    }
}

/// For how long a read sleeps before it looks at the buffer: the duration that
/// the caller named; or, if it named none, the startup nap while the stream is
/// younger than the startup window, and nothing after.
pub open spec fn planned_nap(duration: Option<u64>, age_nanos: u64) -> u64 {
    match duration {
        Some(nanos) => nanos,
        None => if age_nanos < STARTUP_WINDOW_NANOS {
            STARTUP_NAP_NANOS
        } else {
            0
        },
    }
}

} // verus!
