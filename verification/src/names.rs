//! The words by which errors name the operation that raised them.

use crate::stream::{Operation, StreamType};
use vstd::prelude::*;

verus! {

/// The name of an operation as error messages give it: the output it was
/// called on, the operation, and its parameters.
pub open spec fn operation_text(stream_type: StreamType, operation: Operation) -> Seq<char> {
    match stream_type {
        StreamType::Stdout => match operation {
            Operation::Read => "ChildProcess.stdout:read(duration: number?)"@,
            Operation::ReadExact => "ChildProcess.stdout:read_exact(count: number, duration: number?)"@,
            Operation::ReadTo => "ChildProcess.stdout:read_to(term: string, inclusive: boolean?, timeout: number?, allow_partial: boolean?)"@,
            Operation::ReadBytes => "ChildProcess.stdout:readbytes(target: buffer, offset: number?, duration: number?)"@,
            Operation::ReadBytesExact => "ChildProcess.stdout:readbytes_exact(count: number, target: buffer, offset: number?, duration: number?)"@,
            Operation::Lines => "ChildProcess.stdout:lines()"@,
            Operation::Iter => "ChildProcess.stdout:__iter()"@,
            Operation::Size => "ChildProcess.stdout:size()"@,
        },
        StreamType::Stderr => match operation {
            Operation::Read => "ChildProcess.stderr:read(duration: number?)"@,
            Operation::ReadExact => "ChildProcess.stderr:read_exact(count: number, duration: number?)"@,
            Operation::ReadTo => "ChildProcess.stderr:read_to(term: string, inclusive: boolean?, timeout: number?, allow_partial: boolean?)"@,
            Operation::ReadBytes => "ChildProcess.stderr:readbytes(target: buffer, offset: number?, duration: number?)"@,
            Operation::ReadBytesExact => "ChildProcess.stderr:readbytes_exact(count: number, target: buffer, offset: number?, duration: number?)"@,
            Operation::Lines => "ChildProcess.stderr:lines()"@,
            Operation::Iter => "ChildProcess.stderr:__iter()"@,
            Operation::Size => "ChildProcess.stderr:size()"@,
        },
    }
}

/// The name of an operation as error messages give it.
pub fn operation_name(stream_type: StreamType, operation: Operation) -> (name: &'static str)
    ensures
        name@ == operation_text(stream_type, operation),
{
    match stream_type {
        StreamType::Stdout => match operation {
            Operation::Read => "ChildProcess.stdout:read(duration: number?)",
            Operation::ReadExact => "ChildProcess.stdout:read_exact(count: number, duration: number?)",
            Operation::ReadTo => "ChildProcess.stdout:read_to(term: string, inclusive: boolean?, timeout: number?, allow_partial: boolean?)",
            Operation::ReadBytes => "ChildProcess.stdout:readbytes(target: buffer, offset: number?, duration: number?)",
            Operation::ReadBytesExact => "ChildProcess.stdout:readbytes_exact(count: number, target: buffer, offset: number?, duration: number?)",
            Operation::Lines => "ChildProcess.stdout:lines()",
            Operation::Iter => "ChildProcess.stdout:__iter()",
            Operation::Size => "ChildProcess.stdout:size()",
        },
        StreamType::Stderr => match operation {
            Operation::Read => "ChildProcess.stderr:read(duration: number?)",
            Operation::ReadExact => "ChildProcess.stderr:read_exact(count: number, duration: number?)",
            Operation::ReadTo => "ChildProcess.stderr:read_to(term: string, inclusive: boolean?, timeout: number?, allow_partial: boolean?)",
            Operation::ReadBytes => "ChildProcess.stderr:readbytes(target: buffer, offset: number?, duration: number?)",
            Operation::ReadBytesExact => "ChildProcess.stderr:readbytes_exact(count: number, target: buffer, offset: number?, duration: number?)",
            Operation::Lines => "ChildProcess.stderr:lines()",
            Operation::Iter => "ChildProcess.stderr:__iter()",
            Operation::Size => "ChildProcess.stderr:size()",
        },
    }
}

} // verus!
