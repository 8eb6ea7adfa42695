//! What holds of the stream whatever the producer feeds and the readers ask.

use crate::model::{
    next_chunk_reply, next_line_reply, next_line_rest, read_exact_reply, read_exact_rest,
    read_to_cut, read_to_reply, read_to_rest, strip_carriage_return, Pulled, Sought,
    CARRIAGE_RETURN, LINE_FEED,
};
use crate::policy::{evict, evicted, lemma_evict_bounded, TruncateSide};
use crate::search::{first_match, lemma_first_match_sound, occurs_at};
use crate::stream::{Operation, StreamError, StreamView};
use vstd::prelude::*;

verus! {

/// The chunks laid end to end, first chunk first.
pub open spec fn concat(chunks: Seq<Seq<u8>>) -> Seq<u8>
    decreases chunks.len(),
{
    if chunks.len() == 0 {
        Seq::empty()
    } else {
        concat(chunks.drop_last()) + chunks.last()
    }
}

/// The stream after the producer has handed in these chunks, one read each and
/// in this order.
pub open spec fn fed_chunks(stream: StreamView, chunks: Seq<Seq<u8>>) -> StreamView
    decreases chunks.len(),
{
    if chunks.len() == 0 {
        stream
    } else {
        fed_chunks(stream, chunks.drop_last()).fed(Ok(chunks.last()))
    }
}

/// What comes out when a buffer is emptied by reads of exactly one byte, in
/// the order in which it comes out.
pub open spec fn drained_by_ones(buffer: Seq<u8>) -> Seq<u8>
    decreases buffer.len(),
{
    match read_exact_reply(buffer, 1) {
        Some(byte) => byte + drained_by_ones(read_exact_rest(buffer, 1)),
        None => Seq::empty(),
    }
}

/// One append never leaves more than the capacity buffered, and it drops from
/// one side only: under `Front` the dropped bytes are the oldest of the bytes
/// held before the eviction, under `Back` the newest.
pub proof fn lemma_append_respects_capacity(
    buffer: Seq<u8>,
    chunk: Seq<u8>,
    capacity: nat,
    side: TruncateSide,
)
    ensures
        evict(buffer + chunk, capacity, side).len() <= capacity,
        side == TruncateSide::Front ==> buffer + chunk == evicted(buffer + chunk, capacity, side)
            + evict(buffer + chunk, capacity, side),
        side == TruncateSide::Back ==> buffer + chunk == evict(buffer + chunk, capacity, side)
            + evicted(buffer + chunk, capacity, side),
{
    lemma_evict_bounded(buffer + chunk, capacity, side);
}

/// Whatever the producer hands in, a stream that held no more than its
/// capacity holds no more than its capacity afterwards.
pub proof fn lemma_fed_within_capacity(stream: StreamView, read: Result<Seq<u8>, String>)
    requires
        stream.within_capacity(),
    ensures
        stream.fed(read).within_capacity(),
        stream.fed(read).capacity == stream.capacity,
        stream.fed(read).truncate_side == stream.truncate_side,
{
    match read {
        Ok(chunk) => {
            lemma_evict_bounded(stream.buffer + chunk, stream.capacity, stream.truncate_side);
        },
        Err(_) => {},
    }
}

/// The capacity invariant: after each of any sequence of appends the stream
/// holds no more than its capacity.
pub proof fn lemma_capacity_invariant(stream: StreamView, chunks: Seq<Seq<u8>>)
    requires
        stream.within_capacity(),
    ensures
        forall|done: int|
            0 <= done <= chunks.len() ==> (#[trigger] fed_chunks(
                stream,
                chunks.take(done),
            )).within_capacity(),
{
    assert forall|done: int| 0 <= done <= chunks.len() implies (#[trigger] fed_chunks(
        stream,
        chunks.take(done),
    )).within_capacity() by {
        lemma_fed_chunks_within_capacity(stream, chunks.take(done));
    }
}

/// After any sequence of appends the stream holds no more than its capacity.
proof fn lemma_fed_chunks_within_capacity(stream: StreamView, chunks: Seq<Seq<u8>>)
    requires
        stream.within_capacity(),
    ensures
        fed_chunks(stream, chunks).within_capacity(),
        fed_chunks(stream, chunks).capacity == stream.capacity,
    decreases chunks.len(),
{
    if chunks.len() > 0 {
        lemma_fed_chunks_within_capacity(stream, chunks.drop_last());
        lemma_fed_within_capacity(fed_chunks(stream, chunks.drop_last()), Ok(chunks.last()));
    }
}

/// Exactness: a read of exactly `count` bytes either hands out `count` bytes,
/// which together with what it leaves are the buffer as it was, or hands out
/// nothing and leaves the buffer as it was.
pub proof fn lemma_read_exact_all_or_nothing(buffer: Seq<u8>, count: nat)
    ensures
        match read_exact_reply(buffer, count) {
            Some(bytes) => {
                &&& bytes.len() == count
                &&& read_exact_rest(buffer, count).len() == buffer.len() - count
                &&& bytes + read_exact_rest(buffer, count) == buffer
            },
            None => read_exact_rest(buffer, count) == buffer,
        },
{
    if count <= buffer.len() {
        assert(buffer.take(count as int) + buffer.skip(count as int) =~= buffer);
    }
}

/// A read that hands out no data leaves the buffer byte for byte as it was:
/// the exact read that finds too little, the delimiter read that gives up or
/// asks to wait, and the line pull that finds no line feed.
pub proof fn lemma_no_data_consumes_nothing(
    buffer: Seq<u8>,
    count: nat,
    term: Seq<u8>,
    inclusive: bool,
    allow_partial: bool,
    timed_out: bool,
    still_reading: bool,
)
    ensures
        read_exact_reply(buffer, count) is None ==> read_exact_rest(buffer, count) == buffer,
        read_to_reply(buffer, term, inclusive, allow_partial, timed_out, still_reading)
            == Sought::<Seq<u8>>::Done(None) ==> read_to_rest(
            buffer,
            term,
            inclusive,
            allow_partial,
            timed_out,
            still_reading,
        ) == buffer,
        read_to_reply(buffer, term, inclusive, allow_partial, timed_out, still_reading)
            == Sought::<Seq<u8>>::Wait ==> read_to_rest(
            buffer,
            term,
            inclusive,
            allow_partial,
            timed_out,
            still_reading,
        ) == buffer,
        !(next_line_reply(buffer, still_reading, timed_out) is Item) ==> next_line_rest(buffer)
            == buffer,
{
}

/// A delimiter read that finds its term loses nothing but, unless it is
/// inclusive, the term itself: what it hands out, the term where that was left
/// out, and what stays buffered are the buffer as it was. The term stands
/// nowhere before the place where the read cut.
pub proof fn lemma_read_to_loses_only_the_term(
    buffer: Seq<u8>,
    term: Seq<u8>,
    inclusive: bool,
    allow_partial: bool,
    timed_out: bool,
    still_reading: bool,
)
    requires
        term.len() > 0,
        read_to_cut(buffer, term, inclusive, still_reading) is Some,
    ensures
        ({
            let (cut, keep) = read_to_cut(buffer, term, inclusive, still_reading).unwrap();
            let rest = read_to_rest(
                buffer,
                term,
                inclusive,
                allow_partial,
                timed_out,
                still_reading,
            );
            &&& read_to_reply(buffer, term, inclusive, allow_partial, timed_out, still_reading)
                == Sought::Done(Some(buffer.take(keep)))
            &&& inclusive ==> buffer.take(keep) + rest == buffer
            &&& !inclusive ==> buffer.take(keep) + term + rest == buffer
            &&& forall|shorter: int|
                0 <= shorter < cut - term.len() ==> !#[trigger] occurs_at(buffer, term, shorter)
        }),
{
    lemma_first_match_sound(buffer, term);
    let (cut, keep) = read_to_cut(buffer, term, inclusive, still_reading).unwrap();
    let at = cut - term.len();
    assert(occurs_at(buffer, term, at));
    assert(buffer.take(cut) =~= buffer.take(at) + buffer.subrange(at, cut));
    assert(buffer.take(cut) + buffer.skip(cut) =~= buffer);
}

/// A line pull that hands out a line loses nothing but the line feed and one
/// carriage return before it: the line, the carriage return if one was
/// stripped, the line feed and what stays buffered are the buffer as it was,
/// and the line holds no line feed.
pub proof fn lemma_next_line_loses_only_the_ending(
    buffer: Seq<u8>,
    still_reading: bool,
    timed_out: bool,
)
    requires
        next_line_reply(buffer, still_reading, timed_out) is Item,
    ensures
        ({
            let line = next_line_reply(buffer, still_reading, timed_out)->Item_0;
            let rest = next_line_rest(buffer);
            &&& line + seq![LINE_FEED] + rest == buffer || line + seq![
                CARRIAGE_RETURN,
                LINE_FEED,
            ] + rest == buffer
            &&& forall|i: int| 0 <= i < line.len() ==> line[i] != LINE_FEED
        }),
{
    let term = seq![LINE_FEED];
    lemma_first_match_sound(buffer, term);
    let at = first_match(buffer, term).unwrap();
    let whole = buffer.take(at);
    let line = strip_carriage_return(whole);
    let rest = buffer.skip(at + 1);
    assert(occurs_at(buffer, term, at));
    assert(buffer.subrange(at, at + 1)[0] == buffer[at]);
    assert(term[0] == LINE_FEED);
    if whole.len() > 0 && whole.last() == CARRIAGE_RETURN {
        assert(line + seq![CARRIAGE_RETURN, LINE_FEED] + rest =~= buffer);
    } else {
        assert(line + seq![LINE_FEED] + rest =~= buffer);
    }
    assert forall|i: int| 0 <= i < line.len() implies line[i] != LINE_FEED by {
        assert(!occurs_at(buffer, term, i));
        assert(buffer.subrange(i, i + 1) =~= seq![buffer[i]]);
        assert(line[i] == buffer[i]);
    }
}

/// A liveness check that raises an error changes nothing but that a failure
/// of the producer has been reported: the buffered bytes stay as they were.
pub proof fn lemma_error_consumes_nothing(stream: StreamView)
    ensures
        stream.observed().buffer == stream.buffer,
        stream.observed().still_reading == stream.still_reading,
        stream.observed().capacity == stream.capacity,
{
}

/// Emptying a buffer byte by byte hands the bytes out in the order in which
/// they were buffered.
pub proof fn lemma_drained_in_order(buffer: Seq<u8>)
    ensures
        drained_by_ones(buffer) == buffer,
    decreases buffer.len(),
{
    if buffer.len() > 0 {
        lemma_drained_in_order(buffer.skip(1));
        assert(buffer.take(1) + buffer.skip(1) =~= buffer);
    } else {
        assert(buffer =~= Seq::<u8>::empty());
    }
}

/// A failure of the producer is reported once: after a liveness check,
/// passed or failed, no later check reports a failure. What a later check
/// reports is that the stream is dead and empty, if and only if it is.
pub proof fn lemma_failure_reported_once(stream: StreamView, later: Operation)
    ensures
        stream.observed().failure is None,
        stream.observed().observed() == stream.observed(),
        stream.observed().dead_and_empty() ==> stream.observed().verdict(later) == Some(
            StreamError::DeadAndEmpty { operation: later },
        ),
        !stream.observed().dead_and_empty() ==> stream.observed().verdict(later) is None,
{
}

/// First in, first out: where the capacity is large enough that nothing is
/// evicted, the bytes that the producer fed into an empty stream, chunk after
/// chunk, are what the stream holds, and emptying it byte by byte hands them
/// out in the order in which they were fed.
pub proof fn lemma_fifo(stream: StreamView, chunks: Seq<Seq<u8>>)
    requires
        stream.still_reading,
        stream.buffer.len() == 0,
        forall|i: int| 0 <= i < chunks.len() ==> (#[trigger] chunks[i]).len() > 0,
        concat(chunks).len() <= stream.capacity,
    ensures
        fed_chunks(stream, chunks).buffer == concat(chunks),
        drained_by_ones(fed_chunks(stream, chunks).buffer) == concat(chunks),
{
    lemma_fed_chunks_keep_all(stream, chunks);
    lemma_drained_in_order(concat(chunks));
}

/// While everything fits, feeding chunks into an empty stream buffers them end to end.
proof fn lemma_fed_chunks_keep_all(stream: StreamView, chunks: Seq<Seq<u8>>)
    requires
        stream.still_reading,
        stream.buffer.len() == 0,
        forall|i: int| 0 <= i < chunks.len() ==> (#[trigger] chunks[i]).len() > 0,
        concat(chunks).len() <= stream.capacity,
    ensures
        fed_chunks(stream, chunks) == stream.with_buffer(concat(chunks)),
    decreases chunks.len(),
{
    if chunks.len() == 0 {
        assert(stream.buffer =~= Seq::<u8>::empty());
    } else {
        let before = chunks.drop_last();
        assert forall|i: int| 0 <= i < before.len() implies (#[trigger] before[i]).len() > 0 by {
            assert(before[i] == chunks[i]);
        }
        lemma_fed_chunks_keep_all(stream, before);
        lemma_evict_bounded(concat(chunks), stream.capacity, stream.truncate_side);
        assert(chunks.last() == chunks[chunks.len() - 1]);
    }
}

/// Dead-empty detection: every liveness check of a stream that is dead and
/// empty raises an error, however many checks came before. The error is the
/// dead-and-empty one, unless a failure of the producer is still to be
/// reported, which then comes first and once.
pub proof fn lemma_dead_and_empty_reported(
    stream: StreamView,
    operation: Operation,
    later: Operation,
)
    requires
        stream.dead_and_empty(),
    ensures
        stream.verdict(operation) is Some,
        stream.failure is None ==> stream.verdict(operation) == Some(
            StreamError::DeadAndEmpty { operation },
        ),
        stream.observed().dead_and_empty(),
        stream.observed().verdict(later) == Some(StreamError::DeadAndEmpty { operation: later }),
{
}

/// Dead and empty is final: neither the producer nor a liveness check nor a
/// pull of an iterator brings a stream back from it.
pub proof fn lemma_dead_and_empty_is_final(stream: StreamView, read: Result<Seq<u8>, String>)
    requires
        stream.dead_and_empty(),
    ensures
        stream.fed(read) == stream,
        stream.observed().dead_and_empty(),
        stream.with_buffer(next_line_rest(stream.buffer)).dead_and_empty(),
{
    lemma_first_match_sound(stream.buffer, seq![LINE_FEED]);
}

/// A stream whose producer has stopped becomes dead and empty as soon as it
/// is drained, whether the end of the source came before the last bytes were
/// read or after: the order does not matter.
pub proof fn lemma_drained_dead_stream_is_dead_and_empty(stream: StreamView)
    requires
        !stream.still_reading,
    ensures
        stream.observed().with_buffer(Seq::empty()).dead_and_empty(),
        stream.with_buffer(Seq::empty()).ended().dead_and_empty(),
        forall|operation: Operation|
            #![trigger stream.observed().with_buffer(Seq::empty()).verdict(operation)]
            stream.observed().with_buffer(Seq::empty()).verdict(operation) == Some(
                StreamError::DeadAndEmpty { operation },
            ),
{
}

/// Once the producer has stopped and nothing is buffered, neither iterator
/// asks its caller to wait: both end.
pub proof fn lemma_dead_and_empty_ends_iteration(stream: StreamView, timed_out: bool)
    requires
        !stream.still_reading,
        stream.buffer.len() == 0,
    ensures
        next_line_reply(stream.buffer, stream.still_reading, timed_out) == Pulled::<Seq<u8>>::End,
        next_chunk_reply(stream.buffer, stream.still_reading, timed_out) == Pulled::<
            Seq<u8>,
        >::End,
{
    lemma_first_match_sound(stream.buffer, seq![LINE_FEED]);
}

/// Neither iterator ends early: a caller with time left is told that the
/// sequence has ended only once the producer has stopped and, for lines, no
/// line feed is buffered, or, for chunks, nothing is buffered at all. While
/// the producer runs, such a caller is told to wait instead.
pub proof fn lemma_end_of_sequence_means_dead(buffer: Seq<u8>, still_reading: bool)
    ensures
        next_line_reply(buffer, still_reading, false) == Pulled::<Seq<u8>>::End <==> (
        !still_reading && first_match(buffer, seq![LINE_FEED]) is None),
        next_chunk_reply(buffer, still_reading, false) == Pulled::<Seq<u8>>::End <==> (
        !still_reading && buffer.len() == 0),
        still_reading && first_match(buffer, seq![LINE_FEED]) is None ==> next_line_reply(
            buffer,
            still_reading,
            false,
        ) == Pulled::<Seq<u8>>::Wait,
        still_reading && buffer.len() == 0 ==> next_chunk_reply(buffer, still_reading, false)
            == Pulled::<Seq<u8>>::Wait,
{
}

/// A producer that stops clears the liveness flag and leaves its failure, if
/// it stopped on one, to be reported, and a stopped producer changes nothing
/// any more.
pub proof fn lemma_producer_stops_once(
    stream: StreamView,
    message: String,
    later: Result<Seq<u8>, String>,
)
    requires
        stream.still_reading,
    ensures
        stream.fed(Ok(Seq::empty())) == stream.ended(),
        stream.fed(Err(message)) == stream.failed(message),
        stream.fed(Ok(Seq::empty())).fed(later) == stream.fed(Ok(Seq::empty())),
        stream.fed(Err(message)).fed(later) == stream.fed(Err(message)),
{
}

} // verus!
