//! The backend of plain blocking calls.

use buffer_pool::error::io_error;
use buffer_pool::generic::{
    Action, FileOp, GenericFile, GenericIO, OpenFlags, OpenOptions, Progress,
};

/// Runs `op` on a file that gives `outcomes` in turn. Returns the calls that were made, and how
/// the request ended.
fn run(op: FileOp, outcomes: Vec<Result<u64, i32>>) -> (Vec<Action>, Progress<i32>) {
    let mut calls = Vec::new();
    let mut op = op;
    for outcome in outcomes {
        calls.push(op.action());
        match op.next(outcome) {
            Progress::Next(more) => op = more,
            end => return (calls, end),
        }
    }
    panic!("more calls than expected")
}

fn completed(end: Progress<i32>) -> i32 {
    match end {
        Progress::Complete(result) => result,
        other => panic!("not completed: {:?}", other),
    }
}

fn failed(end: Progress<i32>) -> (i32, &'static str) {
    match end {
        Progress::Failed(error) => (error.source, error.op),
        other => panic!("not failed: {:?}", other),
    }
}

/// A file in memory.
struct MemoryFile {
    bytes: Vec<u8>,
    cursor: usize,
    /// How many bytes one call reads at most.
    at_once: usize,
    /// Whether the next write stops after its first byte and fails.
    broken: bool,
}

impl MemoryFile {
    fn new() -> MemoryFile {
        MemoryFile { bytes: Vec::new(), cursor: 0, at_once: usize::MAX, broken: false }
    }

    fn write(&mut self, data: &[u8]) {
        for byte in data {
            if self.bytes.len() <= self.cursor {
                self.bytes.resize(self.cursor + 1, 0);
            }
            self.bytes[self.cursor] = *byte;
            self.cursor += 1;
        }
    }

    /// Carries `op` out, where `data` is what a write writes and `room` is what a read fills.
    fn serve(&mut self, op: FileOp, data: &[u8], room: &mut [u8]) -> Progress<i32> {
        let mut op = op;
        loop {
            let outcome = match op.action() {
                Action::Seek { pos } => {
                    self.cursor = pos as usize;
                    Ok(pos)
                }
                Action::Read => {
                    let from = self.cursor.min(self.bytes.len());
                    let n = room.len().min(self.bytes.len() - from).min(self.at_once);
                    room[..n].copy_from_slice(&self.bytes[from..from + n]);
                    self.cursor += n;
                    Ok(n as u64)
                }
                Action::WriteAll if self.broken => {
                    self.broken = false;
                    self.write(&data[..1]);
                    Err(28)
                }
                Action::WriteAll => {
                    self.write(data);
                    Ok(0)
                }
                Action::SyncAll => Ok(0),
                Action::SetLen { len } => {
                    self.bytes.resize(len as usize, 0);
                    Ok(0)
                }
                Action::Metadata => Ok(self.bytes.len() as u64),
            };
            match op.next(outcome) {
                Progress::Next(more) => op = more,
                end => return end,
            }
        }
    }
}

#[test]
fn written_bytes_are_read_back() {
    let rules = GenericFile {};
    let mut file = MemoryFile::new();
    let data = [1u8, 2, 3, 4, 5];
    assert_eq!(completed(file.serve(rules.pwrite(10, 5), &data, &mut [])), 5);
    // Requests that have nothing to do with these bytes
    assert_eq!(completed(file.serve(rules.pwrite(15, 2), &[8, 9], &mut [])), 2);
    assert_eq!(completed(file.serve(rules.pwrite(7, 3), &[6, 6, 6], &mut [])), 3);
    file.broken = true;
    assert_eq!(failed(file.serve(rules.pwrite(0, 3), &[7, 7, 7], &mut [])), (28, "pwrite"));
    let mut other = [0u8; 2];
    assert_eq!(completed(file.serve(rules.pread(0), &[], &mut other)), 2);
    assert_eq!(other, [7, 0]);
    assert_eq!(completed(file.serve(rules.sync(), &[], &mut [])), 0);
    match file.serve(rules.size(), &[], &mut []) {
        Progress::Length(len) => assert_eq!(len, 17),
        other => panic!("no length: {:?}", other),
    }
    let mut back = [0u8; 5];
    assert_eq!(completed(file.serve(rules.pread(10), &[], &mut back)), 5);
    assert_eq!(back, data);
    // A read may give fewer bytes: they are the first ones
    file.at_once = 2;
    let mut back = [0u8; 5];
    assert_eq!(completed(file.serve(rules.pread(10), &[], &mut back)), 2);
    assert_eq!(back, [1, 2, 0, 0, 0]);
}

#[test]
fn truncated_file_has_the_size() {
    let rules = GenericFile {};
    let mut file = MemoryFile::new();
    assert_eq!(completed(file.serve(rules.pwrite(0, 3), &[1, 2, 3], &mut [])), 3);
    for (size, bytes) in [(2, vec![1u8, 2]), (4, vec![1, 2, 0, 0])] {
        assert_eq!(completed(file.serve(rules.truncate(size), &[], &mut [])), 0);
        match file.serve(rules.size(), &[], &mut []) {
            Progress::Length(len) => assert_eq!(len, size),
            other => panic!("no length: {:?}", other),
        }
        let mut back = vec![9u8; size as usize];
        assert_eq!(completed(file.serve(rules.pread(0), &[], &mut back)), size as i32);
        assert_eq!(back, bytes);
    }
}

#[test]
fn options_for_flags() {
    let io = GenericIO::new().unwrap();
    for direct in [false, true] {
        for (create, read_only, write, made) in [
            (false, false, true, false),
            (true, false, true, true),
            (false, true, false, false),
            (true, true, false, false),
        ] {
            assert_eq!(
                io.open_options(OpenFlags { create, read_only }, direct),
                OpenOptions { read: true, write, create: made }
            );
        }
    }
}

#[test]
fn nothing_to_advance_and_no_locks() {
    let io = GenericIO::new().unwrap();
    assert!(io.step().is_ok());
    let file = GenericFile {};
    assert!(file.lock_file(true).is_ok());
    assert!(file.lock_file(false).is_ok());
    assert!(file.unlock_file().is_ok());
}

#[test]
fn pread_seeks_then_reads() {
    let file = GenericFile {};
    let (calls, end) = run(file.pread(4096), vec![Ok(4096), Ok(17)]);
    assert_eq!(calls, vec![Action::Seek { pos: 4096 }, Action::Read]);
    assert_eq!(completed(end), 17);
    let (calls, end) = run(file.pread(1), vec![Err(5)]);
    assert_eq!(calls, vec![Action::Seek { pos: 1 }]);
    assert_eq!(failed(end), (5, "pread"));
    let (calls, end) = run(file.pread(1), vec![Ok(1), Err(6)]);
    assert_eq!(calls, vec![Action::Seek { pos: 1 }, Action::Read]);
    assert_eq!(failed(end), (6, "pread"));
}

#[test]
fn pwrite_seeks_then_writes_all() {
    let file = GenericFile {};
    let (calls, end) = run(file.pwrite(u64::MAX, 4120), vec![Ok(0), Ok(0)]);
    assert_eq!(calls, vec![Action::Seek { pos: u64::MAX }, Action::WriteAll]);
    assert_eq!(completed(end), 4120);
    assert_eq!(failed(run(file.pwrite(0, 1), vec![Err(5)]).1), (5, "pwrite"));
    assert_eq!(failed(run(file.pwrite(0, 1), vec![Ok(0), Err(6)]).1), (6, "pwrite"));
}

#[test]
fn sync_and_truncate_complete_with_zero() {
    let file = GenericFile {};
    let (calls, end) = run(file.sync(), vec![Ok(9)]);
    assert_eq!(calls, vec![Action::SyncAll]);
    assert_eq!(completed(end), 0);
    assert_eq!(failed(run(file.sync(), vec![Err(7)]).1), (7, "sync"));
    let (calls, end) = run(file.truncate(123), vec![Ok(9)]);
    assert_eq!(calls, vec![Action::SetLen { len: 123 }]);
    assert_eq!(completed(end), 0);
    assert_eq!(failed(run(file.truncate(123), vec![Err(8)]).1), (8, "truncate"));
}

#[test]
fn size_tells_the_length() {
    let file = GenericFile {};
    let (calls, end) = run(file.size(), vec![Ok(1 << 40)]);
    assert_eq!(calls, vec![Action::Metadata]);
    match end {
        Progress::Length(len) => assert_eq!(len, 1 << 40),
        other => panic!("no length: {:?}", other),
    }
    assert_eq!(failed(run(file.size(), vec![Err(9)]).1), (9, "metadata"));
}

#[test]
fn counts_that_fit_are_told_as_they_are() {
    let file = GenericFile {};
    let max = i32::MAX as u64;
    assert_eq!(completed(run(file.pread(0), vec![Ok(0), Ok(max)]).1), i32::MAX);
    assert_eq!(completed(run(file.pwrite(0, max as usize), vec![Ok(0), Ok(0)]).1), i32::MAX);
    // A count that does not fit loses its upper bits
    assert_eq!(completed(run(file.pread(0), vec![Ok(0), Ok((1 << 32) + 5)]).1), 5);
    assert_eq!(completed(run(file.pread(0), vec![Ok(0), Ok(max + 1)]).1), i32::MIN);
}

#[test]
fn errors_name_the_operation() {
    let error = io_error("denied", "open");
    assert_eq!(error.source, "denied");
    assert_eq!(error.op, "open");
}
