//! What each request on a file asks of it, and what its caller is told.

use crate::generic::{given, Action, FileOp, GenericFile, Request, Step};
use vstd::prelude::*;

verus! {

/// A read and a write first go to the position that was asked for, and then do their work. The
/// other requests are one call.
pub proof fn requests_make_their_calls(pos: u64, len: usize, size: u64)
    ensures
        (Request::Pread { pos }).seeks(),
        (Request::Pread { pos }).due(false) == (Action::Seek { pos }),
        (Request::Pread { pos }).due(true) == Action::Read,
        (Request::Pwrite { pos, len }).seeks(),
        (Request::Pwrite { pos, len }).due(false) == (Action::Seek { pos }),
        (Request::Pwrite { pos, len }).due(true) == Action::WriteAll,
        !Request::Sync.seeks(),
        Request::Sync.due(true) == Action::SyncAll,
        !(Request::Truncate { size }).seeks(),
        (Request::Truncate { size }).due(true) == (Action::SetLen { len: size }),
        !Request::Size.seeks(),
        Request::Size.due(true) == Action::Metadata,
{
}

/// A request that was just made begins with the call that was asked for: a read and a write with
/// the one that goes to their position.
pub proof fn requests_begin_with_their_position(
    file: GenericFile,
    pos: u64,
    len: usize,
    read: FileOp,
    write: FileOp,
    first_of_read: Action,
    first_of_write: Action,
)
    requires
        call_ensures(GenericFile::pread, (&file, pos), read),
        call_ensures(GenericFile::pwrite, (&file, pos, len), write),
        call_ensures(FileOp::action, (&read,), first_of_read),
        call_ensures(FileOp::action, (&write,), first_of_write),
    ensures
        first_of_read == (Action::Seek { pos }),
        first_of_write == (Action::Seek { pos }),
{
}

/// The requests that are one call begin with it.
pub proof fn other_requests_are_one_call(
    file: GenericFile,
    len: u64,
    sync: FileOp,
    truncate: FileOp,
    size: FileOp,
    call_of_sync: Action,
    call_of_truncate: Action,
    call_of_size: Action,
)
    requires
        call_ensures(GenericFile::sync, (&file,), sync),
        call_ensures(GenericFile::truncate, (&file, len), truncate),
        call_ensures(GenericFile::size, (&file,), size),
        call_ensures(FileOp::action, (&sync,), call_of_sync),
        call_ensures(FileOp::action, (&truncate,), call_of_truncate),
        call_ensures(FileOp::action, (&size,), call_of_size),
    ensures
        call_of_sync == Action::SyncAll,
        call_of_truncate == (Action::SetLen { len }),
        call_of_size == Action::Metadata,
{
}

/// A call that fails ends any request. One that succeeds is followed by the work if it went to the
/// position, and otherwise ends the request: a read tells the count that the call gave and a write
/// the length of its buffer, each cut to the width of a result; a sync and a truncation tell zero;
/// and the size is told as it is.
pub proof fn requests_tell_their_result(
    request: Request,
    ready: bool,
    value: u64,
    pos: u64,
    len: usize,
    size: u64,
)
    ensures
        request.step(ready, None) == Step::Failed,
        request.step(false, Some(value)) == Step::Next,
        ({
            &&& (Request::Pread { pos }).step(true, Some(value)) matches Step::Complete(result)
            &&& (value - result) % 0x1_0000_0000 == 0
            &&& value <= i32::MAX ==> result == value
        }),
        ({
            &&& (Request::Pwrite { pos, len }).step(true, Some(value)) matches Step::Complete(
                result,
            )
            &&& (len - result) % 0x1_0000_0000 == 0
            &&& len <= i32::MAX ==> result == len
        }),
        Request::Sync.step(true, Some(value)) == Step::Complete(0),
        (Request::Truncate { size }).step(true, Some(value)) == Step::Complete(0),
        Request::Size.step(true, Some(value)) == Step::Length(value),
{
    assert((value - (value as i32)) % 0x1_0000_0000 == 0) by (bit_vector);
    let long = len as u64;
    assert((long - (long as i32)) % 0x1_0000_0000 == 0) by (bit_vector);
    assert(long as i32 == len as i32);
}

/// Errors call an operation by its own name, wherever in the file it was to work.
pub proof fn operations_have_their_names(pos: u64, len: usize, size: u64)
    ensures
        (Request::Pread { pos }).name() == "pread"@,
        (Request::Pwrite { pos, len }).name() == "pwrite"@,
        Request::Sync.name() == "sync"@,
        (Request::Truncate { size }).name() == "truncate"@,
        Request::Size.name() == "metadata"@,
{
}

/// A call gives its number exactly if it succeeds.
pub proof fn calls_give_their_number<E>(outcome: Result<u64, E>)
    ensures
        match outcome {
            Ok(value) => given(outcome) == Some(value),
            Err(_) => given(outcome) is None,
        },
{
}

} // verus!
