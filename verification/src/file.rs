//! What becomes of a file on which requests are carried out, as far as the calls on it do what the
//! standard library says of them, and nobody else changes the file meanwhile.

use crate::generic::{Action, Request, Step};
use vstd::prelude::*;

verus! {

/// What an open file is: its contents, and where the next call reads or writes.
pub struct FileView {
    pub bytes: Seq<u8>,
    pub cursor: nat,
}

/// A request with the caller's buffer: what a write writes, how long the buffer is that a read
/// fills, and the bytes that the read put at its beginning.
pub struct Call {
    pub request: Request,
    pub data: Seq<u8>,
    pub room: nat,
    pub got: Seq<u8>,
}

/// `after` has the bytes of `before` from `from` to `to`.
pub open spec fn same_bytes(before: FileView, after: FileView, from: int, to: int) -> bool {
    &&& to <= before.bytes.len() && to <= after.bytes.len()
    &&& forall|i: int| from <= i < to ==> before.bytes[i] == #[trigger] after.bytes[i]
}

impl Action {
    /// What one call on the file can do, where `outcome` is the number that it gave, or nothing if
    /// it failed.
    ///
    /// Only a seek that succeeds tells where the next call reads or writes. A write that fails may
    /// have written a part, and one that begins beyond the end leaves a gap of which nothing is
    /// said. Nothing is said of a file whose length could not be set.
    pub open spec fn does(
        self,
        call: Call,
        before: FileView,
        outcome: Option<u64>,
        after: FileView,
    ) -> bool {
        let end = before.cursor + call.data.len();
        match self {
            Action::Seek { pos } => {
                &&& after.bytes == before.bytes
                &&& outcome is Some ==> after.cursor == pos
            },
            Action::Read => {
                &&& after.bytes == before.bytes
                &&& outcome matches Some(n) ==> {
                    &&& n == call.got.len() <= call.room
                    &&& n == 0 ==> call.room == 0 || before.cursor >= before.bytes.len()
                    &&& n > 0 ==> {
                        &&& before.cursor + n <= before.bytes.len()
                        &&& call.got == before.bytes.subrange(
                            before.cursor as int,
                            before.cursor + n,
                        )
                    }
                }
            },
            Action::WriteAll => {
                &&& after.bytes.len() >= before.bytes.len()
                &&& forall|i: int|
                    0 <= i < before.bytes.len() && !(before.cursor <= i < end)
                        ==> #[trigger] after.bytes[i] == before.bytes[i]
                &&& outcome is Some && call.data.len() > 0 ==> {
                    &&& after.bytes.len() == if end > before.bytes.len() {
                        end
                    } else {
                        before.bytes.len()
                    }
                    &&& after.bytes.subrange(before.cursor as int, end as int) == call.data
                }
                &&& call.data.len() == 0 ==> after.bytes == before.bytes
            },
            Action::SyncAll => after.bytes == before.bytes,
            Action::SetLen { len } => outcome is Some ==> {
                &&& after.bytes.len() == len
                &&& forall|i: int|
                    0 <= i < len ==> #[trigger] after.bytes[i] == if i < before.bytes.len() {
                        before.bytes[i]
                    } else {
                        0
                    }
            },
            Action::Metadata => {
                &&& after.bytes == before.bytes
                &&& outcome matches Some(n) ==> n == before.bytes.len()
            },
        }
    }
}

impl Call {
    /// Making the calls that are due, one after the other, can lead from `before` to `after` and
    /// end the request with `end`.
    pub open spec fn runs(self, ready: bool, before: FileView, after: FileView, end: Step) -> bool
        decreases
                if ready {
                    0int
                } else {
                    1int
                },
    {
        exists|outcome: Option<u64>, between: FileView|
            {
                &&& #[trigger] self.request.due(ready).does(self, before, outcome, between)
                &&& match self.request.step(ready, outcome) {
                    Step::Next => self.runs(true, between, after, end),
                    last => after == between && end == last,
                }
            }
    }

    /// Carrying the request out can lead from `before` to `after` and end it with `end`. A write is
    /// requested with the length of its buffer.
    pub open spec fn served(self, before: FileView, after: FileView, end: Step) -> bool {
        &&& self.request matches Request::Pwrite { len, .. } ==> len == self.data.len()
        &&& self.runs(!self.request.seeks(), before, after, end)
    }

    /// The request has nothing to do with what stands from `from` to `to`: it is no truncation, and
    /// if it is a write, it writes elsewhere.
    pub open spec fn spares(self, from: int, to: int) -> bool {
        match self.request {
            Request::Pwrite { pos, len } => pos + len <= from || to <= pos,
            Request::Truncate { .. } => false,
            _ => true,
        }
    }
}

/// Carrying out `calls` in turn can lead from `before` to `after`, however each of them ends.
pub open spec fn all_served(calls: Seq<Call>, before: FileView, after: FileView) -> bool
    decreases calls.len(),
{
    if calls.len() == 0 {
        after == before
    } else {
        exists|between: FileView, end: Step|
            {
                &&& all_served(calls.drop_last(), before, between)
                &&& #[trigger] calls.last().served(between, after, end)
            }
    }
}

} // verus!
