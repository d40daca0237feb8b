//! The part of a file request that runs on a blocking thread: which system
//! calls it makes, in which order, and what it makes of their results.
//!
//! A request is driven from outside. [`FileTask::start`] gives the first
//! [`FileStep`]; each step names one call to make and holds a continuation,
//! which takes the call's result and gives the next step. The last step is
//! [`FileStep::Post`], with the reply and the I/O runner it belongs to.

use vstd::prelude::*;

verus! {

/// The types that a request carries along without looking inside: runners,
/// callbacks and the operating system's errors.
pub trait Host {
    /// Runs blocking work.
    type BlockingRunner;

    /// Runs callbacks on the I/O thread it stands for.
    type IoRunner;

    /// Receives the bytes read, or an error.
    type ReadCallback;

    /// Receives the number of bytes written, or an error.
    type WriteCallback;

    /// Receives success, or an error.
    type DoneCallback;

    /// An error of the operating system.
    type Error;
}

/// Why a request failed.
#[derive(Debug)]
pub enum FileError<E> {
    /// The request itself is malformed.
    InvalidInput(&'static str),
    /// A call failed.
    Io(E),
}

/// What a path with a NUL byte in it is answered.
pub open spec fn is_nul_path_error<E>(error: FileError<E>) -> bool {
    error matches FileError::InvalidInput(message) && message@ == "path contains null byte"@
}

/// What a file is opened for.
#[derive(Clone, Copy, Debug, PartialEq, Eq, Structural)]
pub enum Access {
    ReadOnly,
    WriteOnly,
}

/// How a file is opened.
#[derive(Clone, Copy, Debug, PartialEq, Eq, Structural)]
pub struct OpenFlags {
    pub access: Access,
    /// Create the file if it does not exist.
    pub create: bool,
    /// Every write goes to the end of the file.
    pub append: bool,
    /// Close the descriptor when another program is executed.
    pub close_on_exec: bool,
}

/// A transfer between memory and a file, through a descriptor that is opened
/// and closed for it.
#[allow(inconsistent_fields)]
pub enum Transfer<H: Host> {
    /// Read `len` bytes starting at `offset`: fewer only where the file ends
    /// before.
    Read { offset: u64, len: usize, cb: H::ReadCallback },
    /// Write `data` at `offset` without truncating the rest of the file.
    Write { offset: u64, data: Vec<u8>, cb: H::WriteCallback },
    /// Write `data` at the end of the file.
    Append { data: Vec<u8>, cb: H::WriteCallback },
}

/// What is asked of a file.
#[allow(inconsistent_fields)]
pub enum FileRequest<H: Host> {
    Transfer(Transfer<H>),
    /// Read the entire file.
    ReadAll { cb: H::ReadCallback },
    /// Create or truncate the file and write `data`.
    WriteAll { data: Vec<u8>, cb: H::DoneCallback },
}

/// A request on its way to a blocking thread.
pub struct FileTask<H: Host> {
    pub path: Vec<u8>,
    /// Where the reply belongs.
    pub io: H::IoRunner,
    pub request: FileRequest<H>,
}

/// A callback and what it is to be called with.
#[allow(inconsistent_fields)]
pub enum Reply<H: Host> {
    Read { cb: H::ReadCallback, result: Result<Vec<u8>, FileError<H::Error>> },
    Write { cb: H::WriteCallback, result: Result<usize, FileError<H::Error>> },
    Done { cb: H::DoneCallback, result: Result<(), FileError<H::Error>> },
}

/// What to do next for a request.
#[allow(inconsistent_fields)]
pub enum FileStep<H: Host> {
    /// Open the file that the NUL-terminated `path` names; pass `mode` if there
    /// is one.
    Open { path: Vec<u8>, flags: OpenFlags, mode: Option<u32>, resume: AfterOpen<H> },
    /// Read at `offset` into `buf`, from index `start` to its end.
    Pread { fd: i32, buf: Vec<u8>, start: usize, offset: i64, resume: AfterPread<H> },
    /// Write `data` at `offset`.
    Pwrite { fd: i32, data: Vec<u8>, offset: i64, resume: AfterWrite<H> },
    /// Write `data`.
    Write { fd: i32, data: Vec<u8>, resume: AfterWrite<H> },
    /// Close the descriptor.
    Close { fd: i32, resume: AfterClose<H> },
    /// Read the entire file at `path`.
    ReadFile { path: Vec<u8>, resume: AfterReadFile<H> },
    /// Create or truncate the file at `path` and write `data` into it.
    WriteFile { path: Vec<u8>, data: Vec<u8>, resume: AfterWriteFile<H> },
    /// Post the reply to `io`. The request is complete.
    Post { io: H::IoRunner, reply: Reply<H> },
}

/// Goes on once the file has been opened.
pub struct AfterOpen<H: Host> {
    pub io: H::IoRunner,
    pub transfer: Transfer<H>,
}

/// Goes on once bytes have been read: with the rest if some are missing.
pub struct AfterPread<H: Host> {
    pub io: H::IoRunner,
    pub fd: i32,
    pub cb: H::ReadCallback,
    /// Where the request starts in the file.
    pub offset: u64,
    /// How many bytes the request is for.
    pub len: usize,
    /// How many bytes had been read before.
    pub start: usize,
}

/// Goes on once bytes have been written.
pub struct AfterWrite<H: Host> {
    pub io: H::IoRunner,
    pub fd: i32,
    pub cb: H::WriteCallback,
}

/// What a transfer came to.
#[allow(inconsistent_fields)]
pub enum Transferred<H: Host> {
    /// The bytes read, or nothing if a call failed.
    Read { bytes: Option<Vec<u8>>, cb: H::ReadCallback },
    /// What the call returned.
    Write { n: isize, cb: H::WriteCallback },
}

/// Goes on once the descriptor has been closed.
pub struct AfterClose<H: Host> {
    pub io: H::IoRunner,
    pub transferred: Transferred<H>,
}

/// Goes on once an entire file has been read.
pub struct AfterReadFile<H: Host> {
    pub io: H::IoRunner,
    pub cb: H::ReadCallback,
}

/// Goes on once an entire file has been written.
pub struct AfterWriteFile<H: Host> {
    pub io: H::IoRunner,
    pub cb: H::DoneCallback,
}

// ── Paths and offsets ────────────────────────────────────────────────────────

/// The NUL-terminated form of `path`, or an error if `path` has a NUL byte of
/// its own.
pub fn to_cpath<E>(path: &Vec<u8>) -> (cpath: Result<Vec<u8>, FileError<E>>)
    ensures
        match cpath {
            Ok(bytes) => !path@.contains(0u8) && bytes@ == path@.push(0u8),
            Err(error) => path@.contains(0u8) && is_nul_path_error(error),
        },
{
    let mut cpath: Vec<u8> = Vec::new();
    let mut i: usize = 0;
    while i < path.len()
        invariant
            i <= path.len(),
            cpath@ == path@.take(i as int),
            forall|j: int| 0 <= j < i ==> path@[j] != 0,
        decreases path.len() - i,
    {
        let byte: u8 = path[i];
        if byte == 0 {
            assert(path@[i as int] == 0);
            return Err(FileError::InvalidInput("path contains null byte"));
        }
        cpath.push(byte);
        i += 1;
    }
    cpath.push(0);
    Ok(cpath)
}

/// `offset` as the signed number that the system calls take: the two agree
/// modulo two to the sixty-fourth.
pub open spec fn file_offset(offset: u64) -> i64 {
    if offset <= i64::MAX {
        offset as i64
    } else {
        (offset - 0x1_0000_0000_0000_0000) as i64
    }
}

fn to_file_offset(offset: u64) -> (off: i64)
    ensures
        off == file_offset(offset),
{
    let off: i64 = #[verifier::truncate] (offset as i64);
    assert(offset as i64 == if offset < 0x8000_0000_0000_0000u64 {
        offset as int
    } else {
        offset - 0x1_0000_0000_0000_0000
    }) by (bit_vector);
    off
}

/// The place in the file of the byte `done` behind `offset`, as the system calls
/// take it.
pub open spec fn read_position(offset: u64, done: usize) -> i64 {
    file_offset(((offset + done) % 0x1_0000_0000_0000_0000) as u64)
}

// ── What each step must be ───────────────────────────────────────────────────

/// The file permission bits of a file that a request creates, before the
/// process's mask.
pub const CREATE_MODE: u32 = 0o666;

/// How a file is opened for a read.
pub open spec fn read_flags() -> OpenFlags {
    OpenFlags { access: Access::ReadOnly, create: false, append: false, close_on_exec: true }
}

/// How a file is opened for a write at an offset.
pub open spec fn write_flags() -> OpenFlags {
    OpenFlags { access: Access::WriteOnly, create: true, append: false, close_on_exec: true }
}

/// How a file is opened for a write at its end.
pub open spec fn append_flags() -> OpenFlags {
    OpenFlags { access: Access::WriteOnly, create: true, append: true, close_on_exec: true }
}

impl<H: Host> Transfer<H> {
    /// How the file is opened for this transfer.
    pub open spec fn flags(self) -> OpenFlags {
        match self {
            Transfer::Read { .. } => read_flags(),
            Transfer::Write { .. } => write_flags(),
            Transfer::Append { .. } => append_flags(),
        }
    }

    /// The permission bits that opening the file for this transfer takes.
    pub open spec fn mode(self) -> Option<u32> {
        match self {
            Transfer::Read { .. } => None,
            Transfer::Write { .. } => Some(CREATE_MODE),
            Transfer::Append { .. } => Some(CREATE_MODE),
        }
    }

    /// The reply that reports `error` to the transfer's callback.
    pub open spec fn failure(self, error: FileError<H::Error>) -> Reply<H> {
        match self {
            Transfer::Read { cb, .. } => Reply::Read { cb, result: Err(error) },
            Transfer::Write { cb, .. } => Reply::Write { cb, result: Err(error) },
            Transfer::Append { cb, .. } => Reply::Write { cb, result: Err(error) },
        }
    }

    /// `step` begins this transfer on the file at `path`: it opens the file, or
    /// reports at once that the path cannot be passed on.
    pub open spec fn begins(self, path: Seq<u8>, io: H::IoRunner, step: FileStep<H>) -> bool {
        if path.contains(0u8) {
            exists|error: FileError<H::Error>|
                is_nul_path_error(error) && step == (FileStep::<H>::Post {
                    io,
                    reply: #[trigger] self.failure(error),
                })
        } else {
            step matches FileStep::Open { path: cpath, flags, mode, resume } && {
                &&& cpath@ == path.push(0u8)
                &&& flags == self.flags()
                &&& mode == self.mode()
                &&& resume == AfterOpen::<H> { io, transfer: self }
            }
        }
    }
}

impl<H: Host> FileTask<H> {
    /// The request begins with `step`.
    pub open spec fn begins(self, step: FileStep<H>) -> bool {
        match self.request {
            FileRequest::Transfer(transfer) => transfer.begins(self.path@, self.io, step),
            FileRequest::ReadAll { cb } => step == (FileStep::<H>::ReadFile {
                path: self.path,
                resume: AfterReadFile::<H> { io: self.io, cb },
            }),
            FileRequest::WriteAll { data, cb } => step == (FileStep::<H>::WriteFile {
                path: self.path,
                data,
                resume: AfterWriteFile::<H> { io: self.io, cb },
            }),
        }
    }
}

impl<H: Host> AfterOpen<H> {
    /// `step` comes after `open` has returned `fd`; `error` is the error of the
    /// operating system at that time.
    pub open spec fn goes_on(self, fd: i32, error: H::Error, step: FileStep<H>) -> bool {
        if fd < 0 {
            step == (FileStep::<H>::Post {
                io: self.io,
                reply: self.transfer.failure(FileError::Io(error)),
            })
        } else {
            match self.transfer {
                Transfer::Read { offset, len, cb } => {
                    step matches FileStep::Pread { fd: file, buf, start, offset: at, resume } && {
                        &&& file == fd
                        &&& buf@ == Seq::new(len as nat, |i: int| 0u8)
                        &&& start == 0
                        &&& at == file_offset(offset)
                        &&& resume == AfterPread::<H> {
                            io: self.io,
                            fd,
                            cb,
                            offset,
                            len,
                            start: 0,
                        }
                    }
                },
                Transfer::Write { offset, data, cb } => step == (FileStep::<H>::Pwrite {
                    fd,
                    data,
                    offset: file_offset(offset),
                    resume: AfterWrite::<H> { io: self.io, fd, cb },
                }),
                Transfer::Append { data, cb } => step == (FileStep::<H>::Write {
                    fd,
                    data,
                    resume: AfterWrite::<H> { io: self.io, fd, cb },
                }),
            }
        }
    }

    /// A buffer for the bytes to be read can exist.
    pub open spec fn can_allocate(self) -> bool {
        self.transfer matches Transfer::Read { len, .. } ==> len <= isize::MAX
    }
}

/// The first `n` bytes of `bytes`, or all of them if there are fewer.
pub open spec fn at_most(bytes: Seq<u8>, n: int) -> Seq<u8> {
    if n <= bytes.len() {
        bytes.take(n)
    } else {
        bytes
    }
}

impl<H: Host> AfterPread<H> {
    /// How many bytes have been read once `pread` has returned `n`.
    pub open spec fn total(self, n: int) -> int {
        if self.start + n < self.len {
            self.start + n
        } else {
            self.len as int
        }
    }

    /// `step` comes after `pread` has returned `n` and left `buf`: another read
    /// if bytes have come and some are still missing, else the close.
    pub open spec fn goes_on(self, n: isize, buf: Vec<u8>, step: FileStep<H>) -> bool {
        let total = self.total(n as int);
        if n > 0 && total < self.len {
            step == (FileStep::<H>::Pread {
                fd: self.fd,
                buf,
                start: total as usize,
                offset: read_position(self.offset, total as usize),
                resume: AfterPread::<H> { start: total as usize, ..self },
            })
        } else {
            step matches FileStep::Close {
                fd,
                resume: AfterClose { io, transferred: Transferred::Read { bytes, cb } },
            } && {
                &&& fd == self.fd
                &&& io == self.io
                &&& cb == self.cb
                &&& match bytes {
                    Some(bytes) => n >= 0 && bytes@ == at_most(buf@, total),
                    None => n < 0,
                }
            }
        }
    }
}

impl<H: Host> AfterWrite<H> {
    /// The step after the write has returned `n`.
    pub open spec fn next(self, n: isize) -> FileStep<H> {
        FileStep::Close {
            fd: self.fd,
            resume: AfterClose::<H> {
                io: self.io,
                transferred: Transferred::Write { n, cb: self.cb },
            },
        }
    }
}

impl<H: Host> AfterClose<H> {
    /// `step` comes after `close` has returned; `error` is the error of the
    /// operating system at that time.
    pub open spec fn goes_on(self, error: H::Error, step: FileStep<H>) -> bool {
        match self.transferred {
            Transferred::Read { bytes, cb } => step == (FileStep::<H>::Post {
                io: self.io,
                reply: Reply::Read {
                    cb,
                    result: match bytes {
                        Some(bytes) => Ok(bytes),
                        None => Err(FileError::Io(error)),
                    },
                },
            }),
            Transferred::Write { n, cb } => step == (FileStep::<H>::Post {
                io: self.io,
                reply: Reply::Write {
                    cb,
                    result: if n < 0 {
                        Err(FileError::Io(error))
                    } else {
                        Ok(n as usize)
                    },
                },
            }),
        }
    }
}

impl<H: Host> AfterReadFile<H> {
    /// The step after the file has been read with this result.
    pub open spec fn next(self, result: Result<Vec<u8>, H::Error>) -> FileStep<H> {
        FileStep::Post {
            io: self.io,
            reply: Reply::Read {
                cb: self.cb,
                result: match result {
                    Ok(bytes) => Ok(bytes),
                    Err(error) => Err(FileError::Io(error)),
                },
            },
        }
    }
}

impl<H: Host> AfterWriteFile<H> {
    /// The step after the file has been written with this result.
    pub open spec fn next(self, result: Result<(), H::Error>) -> FileStep<H> {
        FileStep::Post {
            io: self.io,
            reply: Reply::Done {
                cb: self.cb,
                result: match result {
                    Ok(_) => Ok(()),
                    Err(error) => Err(FileError::Io(error)),
                },
            },
        }
    }
}

// ── The steps ────────────────────────────────────────────────────────────────

impl<H: Host> FileTask<H> {
    /// Begins the task on the blocking thread.
    pub fn start(self) -> (step: FileStep<H>)
        ensures
            self.begins(step),
    {
        let path = self.path;
        let io = self.io;
        match self.request {
            FileRequest::Transfer(Transfer::Read { offset, len, cb }) => {
                blocking_pread(&path, offset, len, io, cb)
            },
            FileRequest::Transfer(Transfer::Write { offset, data, cb }) => {
                blocking_pwrite(&path, offset, data, io, cb)
            },
            FileRequest::Transfer(Transfer::Append { data, cb }) => {
                blocking_append(&path, data, io, cb)
            },
            FileRequest::ReadAll { cb } => {
                FileStep::ReadFile { path, resume: AfterReadFile { io, cb } }
            },
            FileRequest::WriteAll { data, cb } => {
                FileStep::WriteFile { path, data, resume: AfterWriteFile { io, cb } }
            },
        }
    }
}

/// Begins to read `len` bytes at `offset`.
pub fn blocking_pread<H: Host>(
    path: &Vec<u8>,
    offset: u64,
    len: usize,
    io: H::IoRunner,
    cb: H::ReadCallback,
) -> (step: FileStep<H>)
    ensures
        (Transfer::<H>::Read { offset, len, cb }).begins(path@, io, step),
{
    let ghost transfer = Transfer::<H>::Read { offset, len, cb };
    match to_cpath(path) {
        Ok(path) => FileStep::Open {
            path,
            flags: OpenFlags {
                access: Access::ReadOnly,
                create: false,
                append: false,
                close_on_exec: true,
            },
            mode: None,
            resume: AfterOpen { io, transfer: Transfer::Read { offset, len, cb } },
        },
        Err(error) => {
            let reply = Reply::Read { cb, result: Err(error) };
            assert(reply == transfer.failure(error));
            FileStep::Post { io, reply }
        },
    }
}

/// Begins to write `data` at `offset`, leaving the rest of the file as it is.
pub fn blocking_pwrite<H: Host>(
    path: &Vec<u8>,
    offset: u64,
    data: Vec<u8>,
    io: H::IoRunner,
    cb: H::WriteCallback,
) -> (step: FileStep<H>)
    ensures
        (Transfer::<H>::Write { offset, data, cb }).begins(path@, io, step),
{
    let ghost transfer = Transfer::<H>::Write { offset, data, cb };
    match to_cpath(path) {
        Ok(path) => FileStep::Open {
            path,
            flags: OpenFlags {
                access: Access::WriteOnly,
                create: true,
                append: false,
                close_on_exec: true,
            },
            mode: Some(CREATE_MODE),
            resume: AfterOpen { io, transfer: Transfer::Write { offset, data, cb } },
        },
        Err(error) => {
            let reply = Reply::Write { cb, result: Err(error) };
            assert(reply == transfer.failure(error));
            FileStep::Post { io, reply }
        },
    }
}

/// Begins to write `data` at the end of the file.
pub fn blocking_append<H: Host>(
    path: &Vec<u8>,
    data: Vec<u8>,
    io: H::IoRunner,
    cb: H::WriteCallback,
) -> (step: FileStep<H>)
    ensures
        (Transfer::<H>::Append { data, cb }).begins(path@, io, step),
{
    let ghost transfer = Transfer::<H>::Append { data, cb };
    match to_cpath(path) {
        Ok(path) => FileStep::Open {
            path,
            flags: OpenFlags {
                access: Access::WriteOnly,
                create: true,
                append: true,
                close_on_exec: true,
            },
            mode: Some(CREATE_MODE),
            resume: AfterOpen { io, transfer: Transfer::Append { data, cb } },
        },
        Err(error) => {
            let reply = Reply::Write { cb, result: Err(error) };
            assert(reply == transfer.failure(error));
            FileStep::Post { io, reply }
        },
    }
}

impl<H: Host> AfterOpen<H> {
    /// Takes what `open` returned. A negative descriptor ends the request with
    /// `error`, the error of the operating system at that time.
    pub fn opened(self, fd: i32, error: H::Error) -> (step: FileStep<H>)
        requires
            fd >= 0 ==> self.can_allocate(),
        ensures
            self.goes_on(fd, error, step),
    {
        let io = self.io;
        if fd < 0 {
            let error = FileError::Io(error);
            let reply = match self.transfer {
                Transfer::Read { cb, .. } => Reply::Read { cb, result: Err(error) },
                Transfer::Write { cb, .. } => Reply::Write { cb, result: Err(error) },
                Transfer::Append { cb, .. } => Reply::Write { cb, result: Err(error) },
            };
            return FileStep::Post { io, reply };
        }
        match self.transfer {
            Transfer::Read { offset, len, cb } => {
                let buf: Vec<u8> = vec![0u8; len];
                assert(buf@ =~= Seq::new(len as nat, |i: int| 0u8));
                FileStep::Pread {
                    fd,
                    buf,
                    start: 0,
                    offset: to_file_offset(offset),
                    resume: AfterPread { io, fd, cb, offset, len, start: 0 },
                }
            },
            Transfer::Write { offset, data, cb } => FileStep::Pwrite {
                fd,
                data,
                offset: to_file_offset(offset),
                resume: AfterWrite { io, fd, cb },
            },
            Transfer::Append { data, cb } => FileStep::Write {
                fd,
                data,
                resume: AfterWrite { io, fd, cb },
            },
        }
    }
}

impl<H: Host> AfterPread<H> {
    /// Takes what `pread` returned, and the buffer it was given. Reads on as
    /// long as bytes come and some are missing.
    pub fn transferred(self, n: isize, buf: Vec<u8>) -> (step: FileStep<H>)
        ensures
            self.goes_on(n, buf, step),
    {
        if n < 0 {
            return FileStep::Close {
                fd: self.fd,
                resume: AfterClose {
                    io: self.io,
                    transferred: Transferred::Read { bytes: None, cb: self.cb },
                },
            };
        }
        let count: usize = n as usize;
        let total: usize = if self.start < self.len && count < self.len - self.start {
            self.start + count
        } else {
            self.len
        };
        if n > 0 && total < self.len {
            let offset: i64 = to_file_offset(self.offset.wrapping_add(total as u64));
            return FileStep::Pread {
                fd: self.fd,
                buf,
                start: total,
                offset,
                resume: AfterPread {
                    io: self.io,
                    fd: self.fd,
                    cb: self.cb,
                    offset: self.offset,
                    len: self.len,
                    start: total,
                },
            };
        }
        let mut bytes: Vec<u8> = buf;
        bytes.truncate(total);
        FileStep::Close {
            fd: self.fd,
            resume: AfterClose {
                io: self.io,
                transferred: Transferred::Read { bytes: Some(bytes), cb: self.cb },
            },
        }
    }
}

impl<H: Host> AfterWrite<H> {
    /// Takes what `pwrite` or `write` returned.
    pub fn transferred(self, n: isize) -> (step: FileStep<H>)
        ensures
            step == self.next(n),
    {
        FileStep::Close {
            fd: self.fd,
            resume: AfterClose {
                io: self.io,
                transferred: Transferred::Write { n, cb: self.cb },
            },
        }
    }
}

impl<H: Host> AfterClose<H> {
    /// Ends the request once the descriptor is closed. If the transfer had
    /// failed, the reply is `error`, the error of the operating system now.
    pub fn closed(self, error: H::Error) -> (step: FileStep<H>)
        ensures
            self.goes_on(error, step),
    {
        let io = self.io;
        match self.transferred {
            Transferred::Read { bytes, cb } => {
                let result = match bytes {
                    Some(bytes) => Ok(bytes),
                    None => Err(FileError::Io(error)),
                };
                FileStep::Post { io, reply: Reply::Read { cb, result } }
            },
            Transferred::Write { n, cb } => {
                if n < 0 {
                    return FileStep::Post {
                        io,
                        reply: Reply::Write { cb, result: Err(FileError::Io(error)) },
                    };
                }
                FileStep::Post { io, reply: Reply::Write { cb, result: Ok(n as usize) } }
            },
        }
    }
}

impl<H: Host> AfterReadFile<H> {
    /// Ends the request with the contents of the file, or the error.
    pub fn finished(self, result: Result<Vec<u8>, H::Error>) -> (step: FileStep<H>)
        ensures
            step == self.next(result),
    {
        let result = match result {
            Ok(bytes) => Ok(bytes),
            Err(error) => Err(FileError::Io(error)),
        };
        FileStep::Post { io: self.io, reply: Reply::Read { cb: self.cb, result } }
    }
}

impl<H: Host> AfterWriteFile<H> {
    /// Ends the request with success, or the error.
    pub fn finished(self, result: Result<(), H::Error>) -> (step: FileStep<H>)
        ensures
            step == self.next(result),
    {
        let result = match result {
            Ok(_) => Ok(()),
            Err(error) => Err(FileError::Io(error)),
        };
        FileStep::Post { io: self.io, reply: Reply::Done { cb: self.cb, result } }
    }
}

} // verus!
