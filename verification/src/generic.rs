//! I/O by plain blocking calls on files: what is asked of the file, in which order, and what the
//! caller is told.

use crate::error::{io_error, IoError, LimboError};
use vstd::prelude::*;

verus! {

/// How a caller wants a file opened.
pub struct OpenFlags {
    /// Create the file if it does not exist.
    pub create: bool,
    /// Open the file for reading only.
    pub read_only: bool,
}

/// How a file is opened.
#[derive(Debug, PartialEq, Eq)]
pub struct OpenOptions {
    pub read: bool,
    pub write: bool,
    pub create: bool,
}

/// The I/O backend of plain blocking calls.
pub struct GenericIO {}

impl GenericIO {
    pub fn new() -> (res: Result<Self, LimboError>)
        ensures
            res is Ok,
    {
        Ok(Self {  })
    }

    /// How a file is opened for `flags`: always for reading, and for writing too unless it is to be
    /// read only. A file that is read only is never created. This backend has no direct I/O.
    pub fn open_options(&self, flags: OpenFlags, _direct: bool) -> (res: OpenOptions)
        ensures
            res.read,
            res.write == !flags.read_only,
            res.create == (flags.create && !flags.read_only),
    {
        let mut options = OpenOptions { read: true, write: false, create: false };
        if !flags.read_only {
            options.write = true;
            options.create = flags.create;
        }
        options
    }

    /// Blocking calls are done when they return, so there is nothing to advance.
    pub fn step(&self) -> (res: Result<(), LimboError>)
        ensures
            res is Ok,
    {
        Ok(())
    }
}

/// What a caller asks of an open file.
#[derive(Clone, Copy, Debug, PartialEq, Eq)]
pub enum Request {
    /// Read into a buffer from `pos` on.
    Pread { pos: u64 },
    /// Write a buffer of `len` bytes from `pos` on.
    Pwrite { pos: u64, len: usize },
    /// Bring everything to the disk.
    Sync,
    /// Cut or extend the file to `size` bytes.
    Truncate { size: u64 },
    /// Tell the size of the file.
    Size,
}

/// One call on a file.
#[derive(Debug, PartialEq, Eq)]
pub enum Action {
    Seek { pos: u64 },
    Read,
    WriteAll,
    SyncAll,
    SetLen { len: u64 },
    Metadata,
}

/// How a request stands after a call on the file.
pub enum Step {
    /// Another call is due.
    Next,
    /// Done. The completion gets this result.
    Complete(i32),
    /// Done. The file has this many bytes.
    Length(u64),
    /// Failed.
    Failed,
}

/// The number that a call gave, unless it failed.
pub open spec fn given<E>(outcome: Result<u64, E>) -> Option<u64> {
    match outcome {
        Ok(value) => Some(value),
        Err(_) => None,
    }
}

impl Request {
    /// Whether the file is positioned before the call that does the work.
    pub open spec fn seeks(self) -> bool {
        self is Pread || self is Pwrite
    }

    /// The call that does the work.
    pub open spec fn work(self) -> Action {
        match self {
            Request::Pread { .. } => Action::Read,
            Request::Pwrite { .. } => Action::WriteAll,
            Request::Sync => Action::SyncAll,
            Request::Truncate { size } => Action::SetLen { len: size },
            Request::Size => Action::Metadata,
        }
    }

    /// Where the file is positioned.
    pub open spec fn position(self) -> u64 {
        match self {
            Request::Pread { pos } => pos,
            Request::Pwrite { pos, .. } => pos,
            _ => 0,
        }
    }

    /// What the completion of the request tells, where the call that did the work gave `value`: how
    /// many bytes were read or written, zero where none are, and nothing for the size of the file,
    /// which the caller is told instead.
    pub open spec fn result(self, value: u64) -> Option<i32> {
        match self {
            Request::Pread { .. } => Some(value as i32),
            Request::Pwrite { len, .. } => Some(len as i32),
            Request::Sync => Some(0),
            Request::Truncate { .. } => Some(0),
            Request::Size => None,
        }
    }

    /// The call that is due, where `ready` tells that the file is positioned or need not be.
    pub open spec fn due(self, ready: bool) -> Action {
        if ready {
            self.work()
        } else {
            Action::Seek { pos: self.position() }
        }
    }

    /// How the request stands after that call, which gave `outcome`.
    pub open spec fn step(self, ready: bool, outcome: Option<u64>) -> Step {
        match outcome {
            None => Step::Failed,
            Some(value) => if !ready {
                Step::Next
            } else {
                match self.result(value) {
                    Some(result) => Step::Complete(result),
                    None => Step::Length(value),
                }
            },
        }
    }

    /// What errors call the operation.
    pub open spec fn name(self) -> Seq<char> {
        match self {
            Request::Pread { .. } => "pread"@,
            Request::Pwrite { .. } => "pwrite"@,
            Request::Sync => "sync"@,
            Request::Truncate { .. } => "truncate"@,
            Request::Size => "metadata"@,
        }
    }
}

/// A request on its way: one call on the file is due.
#[derive(Debug)]
pub struct FileOp {
    request: Request,
    positioned: bool,
}

/// How a request stands after a call on the file.
#[derive(Debug)]
pub enum Progress<E> {
    /// Another call is due.
    Next(FileOp),
    /// Done. The completion gets this result.
    Complete(i32),
    /// Done. The file has this many bytes.
    Length(u64),
    /// Failed. The completion gets no result.
    Failed(IoError<E>),
}

impl FileOp {
    pub closed spec fn request(&self) -> Request {
        self.request
    }

    /// Whether the call that does the work is due, and not the one that positions the file.
    pub closed spec fn ready(&self) -> bool {
        self.positioned || !self.request.seeks()
    }

    fn start(request: Request) -> (res: FileOp)
        ensures
            res.request() == request,
            res.ready() == !request.seeks(),
    {
        FileOp { request, positioned: false }
    }

    /// The call that is due.
    pub fn action(&self) -> (res: Action)
        ensures
            res == self.request().due(self.ready()),
    {
        match self.request {
            Request::Pread { pos } => if self.positioned {
                Action::Read
            } else {
                Action::Seek { pos }
            },
            Request::Pwrite { pos, .. } => if self.positioned {
                Action::WriteAll
            } else {
                Action::Seek { pos }
            },
            Request::Sync => Action::SyncAll,
            Request::Truncate { size } => Action::SetLen { len: size },
            Request::Size => Action::Metadata,
        }
    }

    /// Goes on with `outcome`, which the call that was due gave: the number of bytes for
    /// `Action::Read`, the size of the file for `Action::Metadata`, any number for the others. A
    /// failure ends the request, and is told with the name of the operation.
    pub fn next<E>(self, outcome: Result<u64, E>) -> (res: Progress<E>)
        ensures
            match self.request().step(self.ready(), given(outcome)) {
                Step::Next => {
                    &&& res matches Progress::Next(op)
                    &&& op.request() == self.request()
                    &&& op.ready()
                },
                Step::Complete(result) => res == Progress::<E>::Complete(result),
                Step::Length(len) => res == Progress::<E>::Length(len),
                Step::Failed => {
                    &&& res matches Progress::Failed(error)
                    &&& outcome == Err::<u64, E>(error.source)
                    &&& error.op@ == self.request().name()
                },
            },
    {
        let value: u64 = match outcome {
            Ok(value) => value,
            Err(source) => {
                let op = match self.request {
                    Request::Pread { .. } => "pread",
                    Request::Pwrite { .. } => "pwrite",
                    Request::Sync => "sync",
                    Request::Truncate { .. } => "truncate",
                    Request::Size => "metadata",
                };
                return Progress::Failed(io_error(source, op));
            },
        };
        let seeks = match self.request {
            Request::Pread { .. } | Request::Pwrite { .. } => true,
            _ => false,
        };
        if seeks && !self.positioned {
            return Progress::Next(FileOp { request: self.request, positioned: true });
        }
        match self.request {
            Request::Pread { .. } => Progress::Complete(value as i32),
            Request::Pwrite { len, .. } => Progress::Complete(len as i32),
            Request::Sync => Progress::Complete(0),
            Request::Truncate { .. } => Progress::Complete(0),
            Request::Size => Progress::Length(value),
        }
    }
}

/// A file of this backend, as far as it is the same for all of them.
pub struct GenericFile {}

impl GenericFile {
    /// This backend does not lock files.
    pub fn lock_file(&self, _exclusive: bool) -> (res: Result<(), LimboError>)
        ensures
            res is Ok,
    {
        Ok(())
    }

    pub fn unlock_file(&self) -> (res: Result<(), LimboError>)
        ensures
            res is Ok,
    {
        Ok(())
    }

    /// Reads from `pos` on. The result is the number of bytes.
    pub fn pread(&self, pos: u64) -> (res: FileOp)
        ensures
            res.request() == (Request::Pread { pos }),
            !res.ready(),
    {
        FileOp::start(Request::Pread { pos })
    }

    /// Writes a buffer of `len` bytes from `pos` on. The result is `len`.
    pub fn pwrite(&self, pos: u64, len: usize) -> (res: FileOp)
        ensures
            res.request() == (Request::Pwrite { pos, len }),
            !res.ready(),
    {
        FileOp::start(Request::Pwrite { pos, len })
    }

    /// Brings everything to the disk. The result is zero.
    pub fn sync(&self) -> (res: FileOp)
        ensures
            res.request() == Request::Sync,
            res.ready(),
    {
        FileOp::start(Request::Sync)
    }

    /// Cuts or extends the file to `len` bytes. The result is zero.
    pub fn truncate(&self, len: u64) -> (res: FileOp)
        ensures
            res.request() == (Request::Truncate { size: len }),
            res.ready(),
    {
        FileOp::start(Request::Truncate { size: len })
    }

    /// Tells the size of the file.
    pub fn size(&self) -> (res: FileOp)
        ensures
            res.request() == Request::Size,
            res.ready(),
    {
        FileOp::start(Request::Size)
    }
}

} // verus!
