//! What each read takes from the buffered bytes and what it leaves, as
//! functions on sequences. The executable reads are specified by these.

use crate::search::first_match;
use vstd::prelude::*;

verus! {

/// The line feed that ends a line.
pub const LINE_FEED: u8 = 10;

/// The carriage return that may precede a line feed.
pub const CARRIAGE_RETURN: u8 = 13;

/// The smaller of two lengths.
pub open spec fn shorter(a: int, b: int) -> int {
    if a <= b {
        a
    } else {
        b
    }
}

/// `target` with the bytes of `data` written over it from `offset` on.
pub open spec fn overwrite(target: Seq<u8>, offset: int, data: Seq<u8>) -> Seq<u8> {
    Seq::new(
        target.len(),
        |i: int|
            if offset <= i < offset + data.len() {
                data[i - offset]
            } else {
                target[i]
            },
    )
}

/// What a read of everything returns: the buffered bytes, or nothing when
/// none are buffered.
pub open spec fn read_reply(buffer: Seq<u8>) -> Option<Seq<u8>> {
    if buffer.len() == 0 {
        None
    } else {
        Some(buffer)
    }
}

/// What a read of exactly `count` bytes returns: the `count` oldest bytes, or
/// nothing when fewer are buffered.
pub open spec fn read_exact_reply(buffer: Seq<u8>, count: nat) -> Option<Seq<u8>> {
    if count <= buffer.len() {
        Some(buffer.take(count as int))
    } else {
        None
    }
}

/// What a read of exactly `count` bytes leaves buffered.
pub open spec fn read_exact_rest(buffer: Seq<u8>, count: nat) -> Seq<u8> {
    if count <= buffer.len() {
        buffer.skip(count as int)
    } else {
        buffer
    }
}

/// How many bytes a read into a target of `target_len` bytes moves when it
/// writes from `offset` on: as many as are buffered and fit.
pub open spec fn readbytes_count(buffer: Seq<u8>, target_len: nat, offset: nat) -> nat {
    shorter(buffer.len() as int, target_len - offset) as nat
}

/// The outcome of a read of exactly `count` bytes into a target.
#[derive(Clone, Copy, Debug, PartialEq, Eq)]
pub enum ExactFill {
    /// `count` bytes were written and consumed.
    Filled,
    /// Nothing is buffered; nothing was consumed.
    Empty,
    /// Fewer than `count` bytes are buffered; nothing was consumed.
    Short { available: usize },
}

/// How far into `buffer` a search for `term` cuts, and how much of that it
/// hands out: the end of the first match, and either the same or the start of
/// the match. An empty term matches the whole buffer once the producer has
/// stopped. An empty buffer, or one shorter than the term, holds no match.
pub open spec fn read_to_cut(
    buffer: Seq<u8>,
    term: Seq<u8>,
    inclusive: bool,
    still_reading: bool,
) -> Option<(int, int)> {
    if buffer.len() == 0 || buffer.len() < term.len() {
        None
    } else if term.len() == 0 {
        if still_reading {
            None
        } else {
            Some((buffer.len() as int, buffer.len() as int))
        }
    } else {
        match first_match(buffer, term) {
            Some(at) => Some(
                (
                    at + term.len(),
                    if inclusive {
                        at + term.len()
                    } else {
                        at
                    },
                ),
            ),
            None => None,
        }
    }
}

/// What one attempt of a delimiter read answers.
#[derive(Debug, PartialEq, Eq)]
pub enum Sought<T> {
    /// The read is over, with these bytes or with none.
    Done(Option<T>),
    /// No match yet and time is left: wait for the producer and try again.
    Wait,
}

/// What one attempt of a delimiter read answers: the bytes before the first
/// match (with the match when `inclusive`); without a match, once the time is
/// up, everything buffered when `allow_partial` and nothing otherwise; and
/// else the request to wait.
pub open spec fn read_to_reply(
    buffer: Seq<u8>,
    term: Seq<u8>,
    inclusive: bool,
    allow_partial: bool,
    timed_out: bool,
    still_reading: bool,
) -> Sought<Seq<u8>> {
    match read_to_cut(buffer, term, inclusive, still_reading) {
        Some((cut, keep)) => Sought::Done(Some(buffer.take(keep))),
        None => if timed_out {
            if allow_partial {
                Sought::Done(Some(buffer))
            } else {
                Sought::Done(None)
            }
        } else {
            Sought::Wait
        },
    }
}

/// What one attempt of a delimiter read leaves buffered.
pub open spec fn read_to_rest(
    buffer: Seq<u8>,
    term: Seq<u8>,
    inclusive: bool,
    allow_partial: bool,
    timed_out: bool,
    still_reading: bool,
) -> Seq<u8> {
    match read_to_cut(buffer, term, inclusive, still_reading) {
        Some((cut, keep)) => buffer.skip(cut),
        None => if timed_out && allow_partial {
            Seq::empty()
        } else {
            buffer
        },
    }
}

/// `line` without one carriage return at its end, if it has one there.
pub open spec fn strip_carriage_return(line: Seq<u8>) -> Seq<u8> {
    if line.len() > 0 && line.last() == CARRIAGE_RETURN {
        line.drop_last()
    } else {
        line
    }
}

/// What one pull of an iterator over the stream answers.
#[derive(Debug, PartialEq, Eq)]
pub enum Pulled<T> {
    /// The next item.
    Item(T),
    /// The sequence has ended.
    End,
    /// Nothing to hand out yet: wait for the producer and pull again.
    Wait,
}

/// What one pull of the line iterator answers: the bytes before the first line
/// feed, less one trailing carriage return; without a line feed, the end once
/// the producer has stopped or the time is up, and else the request to wait.
pub open spec fn next_line_reply(buffer: Seq<u8>, still_reading: bool, timed_out: bool) -> Pulled<
    Seq<u8>,
> {
    match first_match(buffer, seq![LINE_FEED]) {
        Some(at) => Pulled::Item(strip_carriage_return(buffer.take(at))),
        None => if !still_reading || timed_out {
            Pulled::End
        } else {
            Pulled::Wait
        },
    }
}

/// What one pull of the line iterator leaves buffered: what follows the first
/// line feed, or everything when there is none.
pub open spec fn next_line_rest(buffer: Seq<u8>) -> Seq<u8> {
    match first_match(buffer, seq![LINE_FEED]) {
        Some(at) => buffer.skip(at + 1),
        None => buffer,
    }
}

/// What one pull of the chunk iterator answers: everything buffered; with
/// nothing buffered, the end once the producer has stopped or the time is up,
/// and else the request to wait.
pub open spec fn next_chunk_reply(buffer: Seq<u8>, still_reading: bool, timed_out: bool) -> Pulled<
    Seq<u8>,
> {
    if buffer.len() > 0 {
        Pulled::Item(buffer)
    } else if !still_reading || timed_out {
        Pulled::End
    } else {
        Pulled::Wait
    }
}

} // verus!
