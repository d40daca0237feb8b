//! What the operations of a [`FilePosix`](crate::file_posix::FilePosix) do, from
//! the call to the callback and the file.
//!
//! Each law follows one call through: the file made with `path` and `runner`,
//! the call on it, the task that the call has posted, and a run of that task.

use vstd::prelude::*;
use crate::blocking::{FileError, FileRequest, FileStep, Host, Reply, Transfer};
use crate::file_calls::{law_whole_file_call, law_whole_file_reply};
use crate::file_posix::{FilePosix, Posting};
use crate::file_runs::{lemma_shape, CallResult, Run};
use crate::file_system::{
    law_append, law_other_files_are_untouched, law_read, law_read_all, law_reliable_append,
    law_reliable_read, law_reliable_whole_file, law_reliable_write,
    law_unrepresentable_offset_fails, law_write, law_write_all, reliable, served, FileSystem,
};

verus! {

/// A file is made of any path and any runner, and every operation can be called
/// on it wherever there is a current I/O runner.
pub proof fn law_operations_are_for_every_argument<H: Host>(
    path: Vec<u8>,
    runner: H::BlockingRunner,
    file: FilePosix<H>,
    io: H::IoRunner,
    offset: u64,
    len: usize,
    data: Vec<u8>,
    read_cb: H::ReadCallback,
    write_cb: H::WriteCallback,
    done_cb: H::DoneCallback,
)
    ensures
        call_requires(FilePosix::<H>::new, (path, runner)),
        call_requires(FilePosix::<H>::read, (&file, offset, len, Some(io), read_cb)),
        call_requires(FilePosix::<H>::read_all, (&file, Some(io), read_cb)),
        call_requires(FilePosix::<H>::write, (&file, offset, data, Some(io), write_cb)),
        call_requires(FilePosix::<H>::write_all, (&file, data, Some(io), done_cb)),
        call_requires(FilePosix::<H>::append, (&file, data, Some(io), write_cb)),
{
}

// ── What a call posts ────────────────────────────────────────────────────────
//
// In each of these laws the task goes to the runner that the file was made with,
// concerns the path that the file was made with, and has its reply sent to the
// I/O runner of the call.

/// A call of `read` posts a read of exactly what it was asked for.
pub proof fn law_read_posts<'a, H: Host>(
    path: Vec<u8>,
    runner: H::BlockingRunner,
    file: &'a FilePosix<H>,
    offset: u64,
    len: usize,
    io: H::IoRunner,
    cb: H::ReadCallback,
    posting: Posting<'a, H>,
)
    requires
        call_ensures(FilePosix::<H>::new, (path, runner), *file),
        call_ensures(FilePosix::<H>::read, (file, offset, len, Some(io), cb), posting),
    ensures
        *posting.runner == runner,
        posting.task.path@ == path@,
        posting.task.io == io,
        posting.task.request == FileRequest::Transfer(Transfer::<H>::Read { offset, len, cb }),
{
}

/// A call of `read_all` posts a read of the whole file.
pub proof fn law_read_all_posts<'a, H: Host>(
    path: Vec<u8>,
    runner: H::BlockingRunner,
    file: &'a FilePosix<H>,
    io: H::IoRunner,
    cb: H::ReadCallback,
    posting: Posting<'a, H>,
)
    requires
        call_ensures(FilePosix::<H>::new, (path, runner), *file),
        call_ensures(FilePosix::<H>::read_all, (file, Some(io), cb), posting),
    ensures
        *posting.runner == runner,
        posting.task.path@ == path@,
        posting.task.io == io,
        posting.task.request == (FileRequest::<H>::ReadAll { cb }),
{
}

/// A call of `write` posts a write of exactly what it was asked for.
pub proof fn law_write_posts<'a, H: Host>(
    path: Vec<u8>,
    runner: H::BlockingRunner,
    file: &'a FilePosix<H>,
    offset: u64,
    data: Vec<u8>,
    io: H::IoRunner,
    cb: H::WriteCallback,
    posting: Posting<'a, H>,
)
    requires
        call_ensures(FilePosix::<H>::new, (path, runner), *file),
        call_ensures(FilePosix::<H>::write, (file, offset, data, Some(io), cb), posting),
    ensures
        *posting.runner == runner,
        posting.task.path@ == path@,
        posting.task.io == io,
        posting.task.request == FileRequest::Transfer(Transfer::<H>::Write { offset, data, cb }),
{
}

/// A call of `write_all` posts a write of exactly the data it was given.
pub proof fn law_write_all_posts<'a, H: Host>(
    path: Vec<u8>,
    runner: H::BlockingRunner,
    file: &'a FilePosix<H>,
    data: Vec<u8>,
    io: H::IoRunner,
    cb: H::DoneCallback,
    posting: Posting<'a, H>,
)
    requires
        call_ensures(FilePosix::<H>::new, (path, runner), *file),
        call_ensures(FilePosix::<H>::write_all, (file, data, Some(io), cb), posting),
    ensures
        *posting.runner == runner,
        posting.task.path@ == path@,
        posting.task.io == io,
        posting.task.request == (FileRequest::<H>::WriteAll { data, cb }),
{
}

/// A call of `append` posts an append of exactly the data it was given.
pub proof fn law_append_posts<'a, H: Host>(
    path: Vec<u8>,
    runner: H::BlockingRunner,
    file: &'a FilePosix<H>,
    data: Vec<u8>,
    io: H::IoRunner,
    cb: H::WriteCallback,
    posting: Posting<'a, H>,
)
    requires
        call_ensures(FilePosix::<H>::new, (path, runner), *file),
        call_ensures(FilePosix::<H>::append, (file, data, Some(io), cb), posting),
    ensures
        *posting.runner == runner,
        posting.task.path@ == path@,
        posting.task.io == io,
        posting.task.request == FileRequest::Transfer(Transfer::<H>::Append { data, cb }),
{
}

// ── What a call does ─────────────────────────────────────────────────────────

/// Some byte of `path` is NUL.
pub open spec fn has_nul(path: Seq<u8>) -> bool {
    exists|i: int| 0 <= i < path.len() && #[trigger] path[i] == 0
}

proof fn lemma_has_nul(path: Seq<u8>)
    ensures
        has_nul(path) == path.contains(0u8),
{
    if path.contains(0u8) {
        let i = choose|i: int| 0 <= i < path.len() && path[i] == 0u8;
        assert(path[i] == 0);
    }
    if has_nul(path) {
        let i = choose|i: int| 0 <= i < path.len() && #[trigger] path[i] == 0;
        assert(path[i] == 0u8);
    }
}

/// `read` reads `len` bytes at `offset`. The callback, on the I/O runner of the
/// call, gets the bytes of the file from there on: `len` of them, or as many as
/// there are. Nothing changes. On a system that does what it can, it gets an
/// error only for a path with a NUL byte, a file that does not exist or an
/// offset that cannot be represented.
pub proof fn law_read_operation<'a, H: Host>(
    path: Vec<u8>,
    runner: H::BlockingRunner,
    file: &'a FilePosix<H>,
    offset: u64,
    len: usize,
    io: H::IoRunner,
    cb: H::ReadCallback,
    posting: Posting<'a, H>,
    run: Run<H>,
    systems: Seq<FileSystem>,
)
    requires
        call_ensures(FilePosix::<H>::new, (path, runner), *file),
        call_ensures(FilePosix::<H>::read, (file, offset, len, Some(io), cb), posting),
        run.task == posting.task,
        served(run, systems),
    ensures
        systems.last() == systems[0],
        run.reply_io() == io,
        run.reply() matches Reply::Read { cb: callback, result } && {
            &&& callback == cb
            &&& result matches Ok(bytes) ==> {
                let contents = systems[0].files[path@];
                let rest = contents.len() - offset;
                &&& systems[0].files.contains_key(path@)
                &&& rest >= len ==> bytes@.len() == len
                &&& 0 <= rest < len ==> bytes@.len() == rest
                &&& rest < 0 ==> bytes@.len() == 0
                &&& forall|k: int|
                    0 <= k < bytes@.len() ==> #[trigger] bytes@[k] == contents[offset + k]
            }
            &&& reliable(run, systems) && systems[0].contents(path@).len() <= i64::MAX ==> (
            result is Ok <==> (!has_nul(path@) && systems[0].files.contains_key(path@) && offset
                <= i64::MAX))
        },
{
    lemma_has_nul(path@);
    lemma_shape(run);
    law_read(run, systems, offset, len);
    if offset > i64::MAX {
        law_unrepresentable_offset_fails(run, systems, offset, len, Seq::empty());
    }
    if reliable(run, systems) && !has_nul(path@) && systems[0].files.contains_key(path@)
        && systems[0].contents(path@).len() <= i64::MAX && offset <= i64::MAX {
        law_reliable_read(run, systems, offset, len);
    }
}

/// `read_all` reads the whole file. The callback, on the I/O runner of the call,
/// gets its contents, and nothing changes. On a system that does what it can, it
/// gets an error only if the file does not exist.
pub proof fn law_read_all_operation<'a, H: Host>(
    path: Vec<u8>,
    runner: H::BlockingRunner,
    file: &'a FilePosix<H>,
    io: H::IoRunner,
    cb: H::ReadCallback,
    posting: Posting<'a, H>,
    run: Run<H>,
    systems: Seq<FileSystem>,
)
    requires
        call_ensures(FilePosix::<H>::new, (path, runner), *file),
        call_ensures(FilePosix::<H>::read_all, (file, Some(io), cb), posting),
        run.task == posting.task,
        served(run, systems),
    ensures
        systems.last() == systems[0],
        run.reply_io() == io,
        run.reply() matches Reply::Read { cb: callback, result } && {
            &&& callback == cb
            &&& result matches Ok(bytes) ==> systems[0].files.contains_key(path@) && bytes@
                == systems[0].files[path@]
            &&& reliable(run, systems) ==> (result is Ok <==> systems[0].files.contains_key(path@))
        },
{
    lemma_shape(run);
    let bytes = match run.reply() {
        Reply::Read { result: Ok(bytes), .. } => bytes@,
        _ => Seq::empty(),
    };
    law_read_all(run, systems, bytes);
    if reliable(run, systems) {
        law_reliable_whole_file(run, systems);
    }
}

/// `read_all` makes one call, whatever that returns: the one that reads the
/// entire file at the path that the file was made with. The callback gets the
/// bytes that the call returned, or its error.
pub proof fn law_read_all_makes_one_call<'a, H: Host>(
    path: Vec<u8>,
    runner: H::BlockingRunner,
    file: &'a FilePosix<H>,
    io: H::IoRunner,
    cb: H::ReadCallback,
    posting: Posting<'a, H>,
    run: Run<H>,
)
    requires
        call_ensures(FilePosix::<H>::new, (path, runner), *file),
        call_ensures(FilePosix::<H>::read_all, (file, Some(io), cb), posting),
        run.task == posting.task,
        run.complete(),
    ensures
        run.results.len() == 1,
        run.steps[0] matches FileStep::ReadFile { path: p, .. } && p@ == path@,
        run.reply() matches Reply::Read { cb: callback, result: given } && callback == cb && (
        run.results[0] matches CallResult::ReadFile { result } && match result {
            Ok(bytes) => given matches Ok(b) && b@ == bytes@,
            Err(error) => given matches Err(FileError::Io(e)) && e == error,
        }),
{
    law_whole_file_call(run);
    law_whole_file_reply(run);
    lemma_shape(run);
}

/// `write_all` makes one call, whatever that returns: the one that writes all of
/// `data` into the file at the path that the file was made with. The callback
/// gets the success of the call, or its error.
pub proof fn law_write_all_makes_one_call<'a, H: Host>(
    path: Vec<u8>,
    runner: H::BlockingRunner,
    file: &'a FilePosix<H>,
    data: Vec<u8>,
    io: H::IoRunner,
    cb: H::DoneCallback,
    posting: Posting<'a, H>,
    run: Run<H>,
)
    requires
        call_ensures(FilePosix::<H>::new, (path, runner), *file),
        call_ensures(FilePosix::<H>::write_all, (file, data, Some(io), cb), posting),
        run.task == posting.task,
        run.complete(),
    ensures
        run.results.len() == 1,
        run.steps[0] matches FileStep::WriteFile { path: p, data: given, .. } && p@ == path@
            && given@ == data@,
        run.reply() matches Reply::Done { cb: callback, result: given } && callback == cb && (
        run.results[0] matches CallResult::WriteFile { result } && match result {
            Ok(_) => given is Ok,
            Err(error) => given matches Err(FileError::Io(e)) && e == error,
        }),
{
    law_whole_file_call(run);
    law_whole_file_reply(run);
    lemma_shape(run);
}

/// The contents of a file after `n` bytes of `data` were written at `offset`:
/// those bytes are there, every other byte is what it was, and a gap between the
/// old end and `offset` is filled with zeros.
pub open spec fn is_overwritten(
    before: Seq<u8>,
    after: Seq<u8>,
    offset: int,
    data: Seq<u8>,
    n: int,
) -> bool {
    &&& n == 0 ==> after == before
    &&& n > 0 && offset + n > before.len() ==> after.len() == offset + n
    &&& n > 0 && offset + n <= before.len() ==> after.len() == before.len()
    &&& forall|k: int| 0 <= k < n ==> after[offset + k] == #[trigger] data[k]
    &&& forall|i: int|
        0 <= i < before.len() && (i < offset || offset + n <= i) ==> #[trigger] after[i] == before[i]
    &&& forall|i: int| n > 0 && before.len() <= i < offset ==> #[trigger] after[i] == 0
}

/// No path but `path` names another file, or other bytes, than before.
pub open spec fn others_unchanged(path: Seq<u8>, before: FileSystem, after: FileSystem) -> bool {
    forall|other: Seq<u8>|
        other != path ==> {
            &&& after.files.contains_key(other) == #[trigger] before.files.contains_key(other)
            &&& before.files.contains_key(other) ==> after.files[other] == before.files[other]
        }
}

proof fn lemma_others_unchanged<H: Host>(run: Run<H>, systems: Seq<FileSystem>)
    requires
        served(run, systems),
    ensures
        others_unchanged(run.task.path@, systems[0], systems.last()),
{
    assert forall|other: Seq<u8>| other != run.task.path@ implies {
        &&& systems.last().files.contains_key(other) == #[trigger] systems[0].files.contains_key(
            other,
        )
        &&& systems[0].files.contains_key(other) ==> systems.last().files[other]
            == systems[0].files[other]
    } by {
        law_other_files_are_untouched(run, systems, other);
    }
}

/// `write` writes `data` at `offset`, into a file that need not exist. The
/// callback, on the I/O runner of the call, gets the number of bytes written,
/// and exactly those are overwritten in the file; or an error, and no byte is.
/// On a system that does what it can, all of `data` is written, but for a path
/// with a NUL byte or an offset that cannot be represented.
pub proof fn law_write_operation<'a, H: Host>(
    path: Vec<u8>,
    runner: H::BlockingRunner,
    file: &'a FilePosix<H>,
    offset: u64,
    data: Vec<u8>,
    io: H::IoRunner,
    cb: H::WriteCallback,
    posting: Posting<'a, H>,
    run: Run<H>,
    systems: Seq<FileSystem>,
)
    requires
        call_ensures(FilePosix::<H>::new, (path, runner), *file),
        call_ensures(FilePosix::<H>::write, (file, offset, data, Some(io), cb), posting),
        run.task == posting.task,
        served(run, systems),
    ensures
        others_unchanged(path@, systems[0], systems.last()),
        run.reply_io() == io,
        run.reply() matches Reply::Write { cb: callback, result } && {
            let before = systems[0].contents(path@);
            let after = systems.last().contents(path@);
            &&& callback == cb
            &&& match result {
                Ok(n) => {
                    &&& n <= data@.len()
                    &&& systems.last().files.contains_key(path@)
                    &&& is_overwritten(before, after, offset as int, data@, n as int)
                },
                Err(_) => after == before,
            }
            &&& reliable(run, systems) ==> {
                &&& result is Ok <==> (!has_nul(path@) && offset <= i64::MAX)
                &&& result matches Ok(n) ==> n == data@.len()
            }
        },
{
    lemma_has_nul(path@);
    lemma_shape(run);
    lemma_others_unchanged(run, systems);
    let n: nat = match run.reply() {
        Reply::Write { result: Ok(n), .. } => n as nat,
        _ => 0,
    };
    law_write(run, systems, offset, data@, n);
    if run.reply().reports(n) {
        let part = data@.take(n as int);
        assert(forall|k: int| 0 <= k < n ==> part[k] == #[trigger] data@[k]);
    }
    if offset > i64::MAX {
        law_unrepresentable_offset_fails(run, systems, offset, 0, data@);
    } else if reliable(run, systems) && !has_nul(path@) {
        law_reliable_write(run, systems, offset, data@);
    }
}

/// `append` writes `data` at the end of the file, which need not exist. The
/// callback, on the I/O runner of the call, gets the number of bytes written,
/// and exactly those stand behind the old contents; or an error, and no byte has
/// changed. On a system that does what it can, all of `data` is written, but for
/// a path with a NUL byte.
pub proof fn law_append_operation<'a, H: Host>(
    path: Vec<u8>,
    runner: H::BlockingRunner,
    file: &'a FilePosix<H>,
    data: Vec<u8>,
    io: H::IoRunner,
    cb: H::WriteCallback,
    posting: Posting<'a, H>,
    run: Run<H>,
    systems: Seq<FileSystem>,
)
    requires
        call_ensures(FilePosix::<H>::new, (path, runner), *file),
        call_ensures(FilePosix::<H>::append, (file, data, Some(io), cb), posting),
        run.task == posting.task,
        served(run, systems),
    ensures
        others_unchanged(path@, systems[0], systems.last()),
        run.reply_io() == io,
        run.reply() matches Reply::Write { cb: callback, result } && {
            let before = systems[0].contents(path@);
            let after = systems.last().contents(path@);
            &&& callback == cb
            &&& match result {
                Ok(n) => {
                    &&& n <= data@.len()
                    &&& systems.last().files.contains_key(path@)
                    &&& after == before + data@.take(n as int)
                },
                Err(_) => after == before,
            }
            &&& reliable(run, systems) ==> {
                &&& result is Ok <==> !has_nul(path@)
                &&& result is Ok ==> after == before + data@
                &&& result matches Ok(n) ==> n == data@.len()
            }
        },
{
    lemma_has_nul(path@);
    lemma_shape(run);
    lemma_others_unchanged(run, systems);
    let n: nat = match run.reply() {
        Reply::Write { result: Ok(n), .. } => n as nat,
        _ => 0,
    };
    law_append(run, systems, data@, n);
    if reliable(run, systems) && !has_nul(path@) {
        law_reliable_append(run, systems, data@);
        assert(data@.take(n as int) =~= data@);
    }
}

/// `write_all` makes `data` the contents of the file, whatever was in it and
/// whether or not it existed, and the callback, on the I/O runner of the call,
/// gets success. No other file changes. On a system that does what it can, it
/// always succeeds.
pub proof fn law_write_all_operation<'a, H: Host>(
    path: Vec<u8>,
    runner: H::BlockingRunner,
    file: &'a FilePosix<H>,
    data: Vec<u8>,
    io: H::IoRunner,
    cb: H::DoneCallback,
    posting: Posting<'a, H>,
    run: Run<H>,
    systems: Seq<FileSystem>,
)
    requires
        call_ensures(FilePosix::<H>::new, (path, runner), *file),
        call_ensures(FilePosix::<H>::write_all, (file, data, Some(io), cb), posting),
        run.task == posting.task,
        served(run, systems),
    ensures
        others_unchanged(path@, systems[0], systems.last()),
        run.reply_io() == io,
        run.reply() matches Reply::Done { cb: callback, result } && {
            &&& callback == cb
            &&& result is Ok ==> systems.last().files.contains_key(path@)
                && systems.last().files[path@] == data@
            &&& reliable(run, systems) ==> result is Ok
        },
{
    lemma_shape(run);
    lemma_others_unchanged(run, systems);
    if run.reply().confirms() {
        law_write_all(run, systems, data@);
    }
    if reliable(run, systems) {
        law_reliable_whole_file(run, systems);
    }
}

} // verus!
