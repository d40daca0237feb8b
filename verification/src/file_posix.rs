//! Async file I/O backed by a blocking runner.

use vstd::prelude::*;
use crate::blocking::{FileRequest, FileTask, Host, Transfer};

verus! {

/// Async file I/O backed by a blocking runner.
///
/// Regular files do not support readiness notification, so a `FilePosix` hands
/// all blocking work to a caller-supplied runner, and each result goes back to
/// the I/O runner that was current at call time.
///
/// All methods **must be called from the I/O thread**, where there is a current
/// I/O runner. The callback always belongs to that same runner, so it is safe
/// to chain further operations from inside a callback.
///
/// Each call opens and closes the file independently. To serialise concurrent
/// access to the same file, pass a sequenced runner.
pub struct FilePosix<H: Host> {
    path: Vec<u8>,
    blocking_runner: H::BlockingRunner,
}

/// A task and the blocking runner to post it to.
pub struct Posting<'a, H: Host> {
    pub runner: &'a H::BlockingRunner,
    pub task: FileTask<H>,
}

impl<H: Host> FilePosix<H> {
    /// The bytes of the file's path.
    pub closed spec fn path(&self) -> Seq<u8> {
        self.path@
    }

    /// The runner that gets the blocking work.
    pub closed spec fn blocking_runner(&self) -> H::BlockingRunner {
        self.blocking_runner
    }

    /// `posting` sends `request` to this file's blocking runner, with the reply
    /// to go to `io`.
    pub open spec fn posts(
        &self,
        io: H::IoRunner,
        request: FileRequest<H>,
        posting: Posting<H>,
    ) -> bool {
        &&& *posting.runner == self.blocking_runner()
        &&& posting.task.path@ == self.path()
        &&& posting.task.io == io
        &&& posting.task.request == request
    }

    /// The file at `path`, with its blocking work to be done by
    /// `blocking_runner`.
    pub fn new(path: Vec<u8>, blocking_runner: H::BlockingRunner) -> (file: Self)
        ensures
            file.path() == path@,
            file.blocking_runner() == blocking_runner,
    {
        FilePosix { path, blocking_runner }
    }

    /// Read `len` bytes starting at `offset`: fewer only where the file ends
    /// before. `io` is the current I/O runner; the callback belongs to it.
    pub fn read(&self, offset: u64, len: usize, io: Option<H::IoRunner>, cb: H::ReadCallback) -> (
        posting: Posting<'_, H>)
        requires
            io is Some,
        ensures
            self.posts(
                io->0,
                FileRequest::Transfer(Transfer::Read { offset, len, cb }),
                posting,
            ),
    {
        self.post(io, FileRequest::Transfer(Transfer::Read { offset, len, cb }))
    }

    /// Read the entire file. `io` is the current I/O runner; the callback
    /// belongs to it.
    pub fn read_all(&self, io: Option<H::IoRunner>, cb: H::ReadCallback) -> (posting: Posting<
        '_,
        H,
    >)
        requires
            io is Some,
        ensures
            self.posts(io->0, FileRequest::ReadAll { cb }, posting),
    {
        self.post(io, FileRequest::ReadAll { cb })
    }

    /// Write `data` at `offset` without truncating the rest of the file.
    /// Creates the file if it does not exist. The callback receives the number
    /// of bytes written and belongs to `io`, the current I/O runner.
    pub fn write(
        &self,
        offset: u64,
        data: Vec<u8>,
        io: Option<H::IoRunner>,
        cb: H::WriteCallback,
    ) -> (posting: Posting<'_, H>)
        requires
            io is Some,
        ensures
            self.posts(
                io->0,
                FileRequest::Transfer(Transfer::Write { offset, data, cb }),
                posting,
            ),
    {
        self.post(io, FileRequest::Transfer(Transfer::Write { offset, data, cb }))
    }

    /// Create or truncate the file and write `data` from byte 0. The callback
    /// belongs to `io`, the current I/O runner.
    pub fn write_all(&self, data: Vec<u8>, io: Option<H::IoRunner>, cb: H::DoneCallback) -> (
        posting: Posting<'_, H>)
        requires
            io is Some,
        ensures
            self.posts(io->0, FileRequest::WriteAll { data, cb }, posting),
    {
        self.post(io, FileRequest::WriteAll { data, cb })
    }

    /// Append `data` to the end of the file; creates it if it does not exist.
    /// The callback receives the number of bytes written and belongs to `io`,
    /// the current I/O runner.
    pub fn append(&self, data: Vec<u8>, io: Option<H::IoRunner>, cb: H::WriteCallback) -> (
        posting: Posting<'_, H>)
        requires
            io is Some,
        ensures
            self.posts(io->0, FileRequest::Transfer(Transfer::Append { data, cb }), posting),
    {
        self.post(io, FileRequest::Transfer(Transfer::Append { data, cb }))
    }

    fn post(&self, io: Option<H::IoRunner>, request: FileRequest<H>) -> (posting: Posting<'_, H>)
        requires
            io is Some,
        ensures
            self.posts(io->0, request, posting),
    {
        let path: Vec<u8> = self.path.clone();
        assert(path@ =~= self.path@);
        Posting {
            runner: &self.blocking_runner,
            task: FileTask { path, io: io.unwrap(), request },
        }
    }
}

} // verus!
