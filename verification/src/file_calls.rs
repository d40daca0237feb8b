//! Which calls a file request makes, argument by argument, and what its reply
//! says of their results.

use vstd::prelude::*;
use crate::blocking::{
    blocking_append, blocking_pread, blocking_pwrite, file_offset, read_position, to_cpath, Access,
    AfterClose, AfterOpen, AfterPread, AfterReadFile, AfterWrite, AfterWriteFile, FileError,
    FileRequest, FileStep, FileTask, Host, Reply, Transfer,
};
use crate::file_runs::{advances, lemma_advances, lemma_shape, lemma_transfer_step, CallResult, Run};

verus! {

// ── The functions take the steps of a run ────────────────────────────────────

/// Starting a task gives a run of it.
pub proof fn law_start_begins_a_run<H: Host>(task: FileTask<H>, step: FileStep<H>)
    requires
        call_ensures(FileTask::<H>::start, (task,), step),
    ensures
        (Run::<H> { task, steps: seq![step], results: Seq::empty() }).underway(),
{
}

/// The functions that begin a transfer give the first step of a task with that
/// transfer.
pub proof fn law_blocking_functions_begin_a_run<H: Host>(
    task: FileTask<H>,
    transfer: Transfer<H>,
    step: FileStep<H>,
)
    requires
        task.request == FileRequest::Transfer(transfer),
        match transfer {
            Transfer::Read { offset, len, cb } => call_ensures(
                blocking_pread::<H>,
                (&task.path, offset, len, task.io, cb),
                step,
            ),
            Transfer::Write { offset, data, cb } => call_ensures(
                blocking_pwrite::<H>,
                (&task.path, offset, data, task.io, cb),
                step,
            ),
            Transfer::Append { data, cb } => call_ensures(
                blocking_append::<H>,
                (&task.path, data, task.io, cb),
                step,
            ),
        },
    ensures
        (Run::<H> { task, steps: seq![step], results: Seq::empty() }).underway(),
{
}

/// What a continuation gives, handed the result of the call that its step asks
/// for.
pub open spec fn resumed<H: Host>(
    step: FileStep<H>,
    result: CallResult<H>,
    next: FileStep<H>,
) -> bool {
    match (step, result) {
        (FileStep::Open { resume, .. }, CallResult::Open { fd, error }) => call_ensures(
            AfterOpen::<H>::opened,
            (resume, fd, error),
            next,
        ),
        (FileStep::Pread { resume, .. }, CallResult::Pread { n, buf }) => call_ensures(
            AfterPread::<H>::transferred,
            (resume, n, buf),
            next,
        ),
        (FileStep::Pwrite { resume, .. }, CallResult::Write { n }) => call_ensures(
            AfterWrite::<H>::transferred,
            (resume, n),
            next,
        ),
        (FileStep::Write { resume, .. }, CallResult::Write { n }) => call_ensures(
            AfterWrite::<H>::transferred,
            (resume, n),
            next,
        ),
        (FileStep::Close { resume, .. }, CallResult::Close { error }) => call_ensures(
            AfterClose::<H>::closed,
            (resume, error),
            next,
        ),
        (FileStep::ReadFile { resume, .. }, CallResult::ReadFile { result }) => call_ensures(
            AfterReadFile::<H>::finished,
            (resume, result),
            next,
        ),
        (FileStep::WriteFile { resume, .. }, CallResult::WriteFile { result }) => call_ensures(
            AfterWriteFile::<H>::finished,
            (resume, result),
            next,
        ),
        _ => false,
    }
}

/// The buffer that goes with `result` can exist, if a file was opened for a read.
pub open spec fn buffer_fits<H: Host>(step: FileStep<H>, result: CallResult<H>) -> bool {
    match (step, result) {
        (FileStep::Open { resume, .. }, CallResult::Open { fd, .. }) => {
            resume.transfer matches Transfer::Read { len, .. } ==> fd >= 0 ==> len <= isize::MAX
        },
        _ => true,
    }
}

/// A continuation that is handed the result of its call takes the run one step
/// further.
pub proof fn law_continuations_extend_a_run<H: Host>(
    run: Run<H>,
    result: CallResult<H>,
    next: FileStep<H>,
)
    requires
        run.underway(),
        buffer_fits(run.steps.last(), result),
        resumed(run.steps.last(), result, next),
    ensures
        (Run::<H> {
            task: run.task,
            steps: run.steps.push(next),
            results: run.results.push(result),
        }).underway(),
{
    let longer = Run::<H> {
        task: run.task,
        steps: run.steps.push(next),
        results: run.results.push(result),
    };
    assert forall|i: int| 0 <= i < longer.results.len() implies advances(
        longer.steps[i],
        #[trigger] longer.results[i],
        longer.steps[i + 1],
    ) by {
        if i < run.results.len() {
            lemma_advances(run, i);
        }
    }
}

/// An opened file can be gone on with, whatever the transfer, as long as a
/// buffer for a read can exist; a file that could not be opened in any case.
pub proof fn law_opened_is_for_every_transfer<H: Host>(
    resume: AfterOpen<H>,
    fd: i32,
    error: H::Error,
)
    requires
        fd < 0 || (resume.transfer matches Transfer::Read { len, .. } ==> len <= isize::MAX),
    ensures
        call_requires(AfterOpen::<H>::opened, (resume, fd, error)),
{
}

/// Every task can be started, and every other continuation goes on from whatever
/// its call has returned.
pub proof fn law_steps_are_for_every_result<H: Host>(
    task: FileTask<H>,
    pread: AfterPread<H>,
    write: AfterWrite<H>,
    close: AfterClose<H>,
    read_file: AfterReadFile<H>,
    write_file: AfterWriteFile<H>,
    n: isize,
    buf: Vec<u8>,
    error: H::Error,
    read: Result<Vec<u8>, H::Error>,
    written: Result<(), H::Error>,
)
    ensures
        call_requires(FileTask::<H>::start, (task,)),
        call_requires(AfterPread::<H>::transferred, (pread, n, buf)),
        call_requires(AfterWrite::<H>::transferred, (write, n)),
        call_requires(AfterClose::<H>::closed, (close, error)),
        call_requires(AfterReadFile::<H>::finished, (read_file, read)),
        call_requires(AfterWriteFile::<H>::finished, (write_file, written)),
{
}

/// A path has a NUL-terminated form exactly if it has no NUL byte of its own:
/// its bytes and one NUL byte.
pub proof fn law_cpath<E>(path: Vec<u8>, cpath: Result<Vec<u8>, FileError<E>>)
    requires
        call_ensures(to_cpath::<E>, (&path,), cpath),
    ensures
        cpath is Ok <==> (forall|i: int| 0 <= i < path@.len() ==> path@[i] != 0),
        cpath matches Ok(bytes) ==> bytes@ == path@ + seq![0u8],
        cpath matches Err(error) ==> (error matches FileError::InvalidInput(message) && message@
            == "path contains null byte"@),
{
    if path@.contains(0u8) {
        let i = choose|i: int| 0 <= i < path@.len() && path@[i] == 0u8;
        assert(path@[i] == 0);
    } else {
        assert forall|i: int| 0 <= i < path@.len() implies path@[i] != 0 by {
            assert(path@.contains(path@[i]));
        }
    }
}

// ── The calls ────────────────────────────────────────────────────────────────

/// An offset is passed on as it is where the system calls can take it, and as a
/// negative number, two to the sixty-fourth less, where they cannot. The bytes
/// behind it are looked for right behind it, modulo two to the sixty-fourth.
pub proof fn law_offset_is_passed_on(offset: u64, done: usize)
    ensures
        offset <= i64::MAX ==> file_offset(offset) as int == offset as int,
        offset > i64::MAX ==> file_offset(offset) as int == offset - 0x1_0000_0000_0000_0000,
        offset + done <= i64::MAX ==> read_position(offset, done) as int == offset + done,
        (offset + done - read_position(offset, done)) % 0x1_0000_0000_0000_0000 == 0,
{
}

/// A transfer first opens the file at its path, unless the path has a NUL byte.
/// The file is opened for what the transfer does, and never kept open across the
/// execution of another program. Writes and appends, and only they, create it,
/// readable and writable by all before the process's mask.
pub proof fn law_open_call<H: Host>(run: Run<H>, transfer: Transfer<H>)
    requires
        run.underway(),
        run.task.request == FileRequest::Transfer(transfer),
        forall|i: int| 0 <= i < run.task.path@.len() ==> run.task.path@[i] != 0,
    ensures
        run.steps[0] matches FileStep::Open { path, flags, mode, .. } && {
            &&& path@ == run.task.path@ + seq![0u8]
            &&& flags.access == Access::ReadOnly <==> transfer is Read
            &&& flags.access == Access::WriteOnly <==> !(transfer is Read)
            &&& flags.create <==> !(transfer is Read)
            &&& flags.append <==> transfer is Append
            &&& flags.close_on_exec
            &&& mode == if transfer is Read {
                None
            } else {
                Some(0o666u32)
            }
        },
{
    assert(!run.task.path@.contains(0u8));
    assert(run.task.path@.push(0u8) =~= run.task.path@ + seq![0u8]);
}

/// Once the file is open, the transfer is asked for in full: a read with an
/// empty buffer for all of its bytes, a write and an append with all of their
/// data; and at the offset of the request.
pub proof fn law_transfer_call<H: Host>(run: Run<H>, transfer: Transfer<H>, fd: i32)
    requires
        run.underway(),
        run.task.request == FileRequest::Transfer(transfer),
        run.opened_as(fd),
    ensures
        match transfer {
            Transfer::Read { offset, len, .. } => {
                run.steps[1] matches FileStep::Pread { fd: file, buf, start, offset: at, .. } && {
                    &&& file == fd
                    &&& buf@.len() == len
                    &&& forall|i: int| 0 <= i < len ==> buf@[i] == 0
                    &&& start == 0
                    &&& at as int == if offset <= i64::MAX {
                        offset as int
                    } else {
                        offset - 0x1_0000_0000_0000_0000
                    }
                }
            },
            Transfer::Write { offset, data, .. } => {
                run.steps[1] matches FileStep::Pwrite { fd: file, data: given, offset: at, .. } && {
                    &&& file == fd
                    &&& given@ == data@
                    &&& at as int == if offset <= i64::MAX {
                        offset as int
                    } else {
                        offset - 0x1_0000_0000_0000_0000
                    }
                }
            },
            Transfer::Append { data, .. } => {
                run.steps[1] matches FileStep::Write { fd: file, data: given, .. } && {
                    &&& file == fd
                    &&& given@ == data@
                }
            },
        },
{
    lemma_advances(run, 0);
    lemma_transfer_step(run, fd, 1);
}

/// After a call of a read that has brought bytes, but not yet all, the rest is
/// asked for: through the same descriptor, into the same buffer behind what is
/// there, from the place in the file behind what has been read. After any other
/// call the file is closed.
pub proof fn law_read_goes_on<H: Host>(run: Run<H>, offset: u64, len: usize, fd: i32, i: int)
    requires
        run.underway(),
        run.task.request.is_read(offset, len),
        run.opened_as(fd),
        1 <= i < run.results.len(),
        run.steps[i] is Pread,
    ensures
        run.results[i] matches CallResult::Pread { n, buf } && {
            let start = run.steps[i]->start;
            if n > 0 && start + n < len {
                run.steps[i + 1] matches FileStep::Pread {
                    fd: file,
                    buf: next,
                    start: from,
                    offset: at,
                    ..
                } && {
                    &&& file == fd
                    &&& next == buf
                    &&& from == start + n
                    &&& offset + from <= i64::MAX ==> at as int == offset + from
                    &&& (offset + from - at) % 0x1_0000_0000_0000_0000 == 0
                }
            } else {
                run.steps[i + 1] matches FileStep::Close { fd: file, .. } && file == fd
            }
        },
{
    lemma_advances(run, i);
    lemma_transfer_step(run, fd, i);
    lemma_transfer_step(run, fd, i + 1);
    if run.steps[i + 1] is Pread {
        law_offset_is_passed_on(offset, run.steps[i + 1]->start);
    }
}

/// A whole-file request makes the one call for the whole file at its path, and a
/// write hands it all of the data.
pub proof fn law_whole_file_call<H: Host>(run: Run<H>)
    requires
        run.underway(),
    ensures
        run.task.request is ReadAll ==> (run.steps[0] matches FileStep::ReadFile { path, .. } && path@
            == run.task.path@),
        run.task.request matches FileRequest::WriteAll { data, .. } ==> (
        run.steps[0] matches FileStep::WriteFile { path, data: given, .. } && path@
            == run.task.path@ && given@ == data@),
{
}

// ── The reply ────────────────────────────────────────────────────────────────

/// `reply` reports exactly `error`.
pub open spec fn reports_error<H: Host>(reply: Reply<H>, error: FileError<H::Error>) -> bool {
    match reply {
        Reply::Read { result, .. } => result matches Err(e) && e == error,
        Reply::Write { result, .. } => result matches Err(e) && e == error,
        Reply::Done { result, .. } => result matches Err(e) && e == error,
    }
}

/// A transfer on a path with a NUL byte is answered, without any call, that the
/// path contains a null byte.
pub proof fn law_nul_path_reply<H: Host>(run: Run<H>, i: int)
    requires
        run.complete(),
        run.task.request is Transfer,
        0 <= i < run.task.path@.len(),
        run.task.path@[i] == 0,
    ensures
        run.results.len() == 0,
        exists|message: &'static str| #[trigger]
            reports_error(run.reply(), FileError::InvalidInput(message)) && message@
                == "path contains null byte"@,
{
    lemma_shape(run);
    assert(run.task.path@.contains(0u8));
    let message = match run.reply() {
        Reply::Read { result: Err(FileError::InvalidInput(message)), .. } => message,
        Reply::Write { result: Err(FileError::InvalidInput(message)), .. } => message,
        _ => "",
    };
    assert(reports_error(run.reply(), FileError::InvalidInput(message)));
}

/// A file that cannot be opened is answered with the error of the system at that
/// time.
pub proof fn law_open_error_reply<H: Host>(run: Run<H>, fd: i32, error: H::Error)
    requires
        run.complete(),
        run.task.request is Transfer,
        run.results.len() > 0,
        run.results[0] == (CallResult::<H>::Open { fd, error }),
        fd < 0,
    ensures
        run.results.len() == 1,
        reports_error(run.reply(), FileError::Io(error)),
{
    lemma_shape(run);
    lemma_advances(run, 0);
}

/// The reply to a transfer whose file was opened: what the last transfer came
/// to, and the error of the system after the close if it failed. A read delivers
/// its buffer up to where it has been filled, which is never more than was asked
/// for; a write and an append report the count that the call returned.
pub proof fn law_transfer_reply<H: Host>(run: Run<H>, fd: i32)
    requires
        run.complete(),
        run.opened_as(fd),
    ensures
        run.results.len() >= 3,
        ({
            let last = run.results.len() - 2;
            run.results[last + 1] matches CallResult::Close { error } && match run.results[last] {
                CallResult::Pread { n, buf } => {
                    let start = run.steps[last]->start;
                    if n < 0 {
                        reports_error(run.reply(), FileError::Io(error))
                    } else {
                        &&& run.task.request matches FileRequest::Transfer(
                            Transfer::Read { len, .. },
                        )
                        &&& run.reply() matches Reply::Read { result: Ok(bytes), .. }
                        &&& bytes@.len() <= start + n
                        &&& bytes@.len() <= len
                        &&& bytes@.len() <= buf@.len()
                        &&& bytes@.len() == start + n || bytes@.len() == len || bytes@.len()
                            == buf@.len()
                        &&& forall|k: int| 0 <= k < bytes@.len() ==> #[trigger] bytes@[k] == buf@[k]
                    }
                },
                CallResult::Write { n } => {
                    if n < 0 {
                        reports_error(run.reply(), FileError::Io(error))
                    } else {
                        run.reply() matches Reply::Write { result: Ok(count), .. } && count == n
                    }
                },
                _ => false,
            }
        }),
{
    lemma_advances(run, 0);
    lemma_shape(run);
    let calls = run.results.len() as int;
    lemma_advances(run, calls - 1);
    lemma_advances(run, calls - 2);
    lemma_transfer_step(run, fd, calls - 2);
}

/// The reply to a whole-file request is what its call returned: the very bytes,
/// the success, or the very error.
pub proof fn law_whole_file_reply<H: Host>(run: Run<H>)
    requires
        run.complete(),
        !(run.task.request is Transfer),
    ensures
        run.results.len() == 1,
        run.task.request is ReadAll ==> (run.results[0] matches CallResult::ReadFile { result }
            && match result {
            Ok(bytes) => run.reply() matches Reply::Read { result: Ok(b), .. } && b == bytes,
            Err(error) => run.reply() is Read && reports_error(run.reply(), FileError::Io(error)),
        }),
        run.task.request is WriteAll ==> (run.results[0] matches CallResult::WriteFile { result }
            && match result {
            Ok(_) => run.reply() matches Reply::Done { result: Ok(_), .. },
            Err(error) => run.reply() is Done && reports_error(run.reply(), FileError::Io(error)),
        }),
{
    lemma_shape(run);
    lemma_advances(run, 0);
}

} // verus!
