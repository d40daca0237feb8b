//! What file requests do to files, on a system whose calls behave as
//! [`serves`] describes.
//!
//! The description is of regular files under distinct names that nobody else
//! changes while a request runs. It leaves open when a call fails and how many
//! bytes a transfer moves, so the laws below hold for short transfers too.

use vstd::prelude::*;
use crate::blocking::{
    at_most, read_position, Access, FileRequest, FileStep, Host, OpenFlags, Reply, Transfer,
};
use crate::file_posix::{FilePosix, Posting};
use crate::file_runs::{
    advances, call_bound, law_bounded_calls, law_replies_keep_the_order_of_requests,
    law_reply_is_what_the_call_returned, law_transfer_succeeds_iff_calls_do, lemma_advances,
    lemma_shape, lemma_transfer_step, replies_posted, replies_to, steps_in_sequence, CallResult,
    Run,
};

verus! {

/// An open descriptor: the file it refers to and how it was opened.
pub struct OpenFile {
    pub path: Seq<u8>,
    pub flags: OpenFlags,
}

/// The files that exist, by name, and the descriptors that are open.
pub struct FileSystem {
    pub files: Map<Seq<u8>, Seq<u8>>,
    pub open: Map<i32, OpenFile>,
}

/// `contents` with `data` written at `offset`. What lies between the end of
/// `contents` and `offset` is filled with zeros; writing nothing changes
/// nothing.
pub open spec fn write_at(contents: Seq<u8>, offset: int, data: Seq<u8>) -> Seq<u8> {
    if data.len() == 0 {
        contents
    } else {
        let end = offset + data.len();
        Seq::new(
            if end > contents.len() {
                end as nat
            } else {
                contents.len()
            },
            |i: int|
                if offset <= i < end {
                    data[i - offset]
                } else if i < contents.len() {
                    contents[i]
                } else {
                    0u8
                },
        )
    }
}

impl FileSystem {
    /// The contents of the file at `path`, or no bytes if there is none.
    pub open spec fn contents(self, path: Seq<u8>) -> Seq<u8> {
        if self.files.contains_key(path) {
            self.files[path]
        } else {
            Seq::empty()
        }
    }

    /// The system with these contents for the file at `path`.
    pub open spec fn with_contents(self, path: Seq<u8>, contents: Seq<u8>) -> FileSystem {
        FileSystem { files: self.files.insert(path, contents), ..self }
    }

    /// The descriptor is open for reading, on a file that exists.
    pub open spec fn readable(self, fd: i32) -> bool {
        &&& self.open.contains_key(fd)
        &&& self.open[fd].flags.access == Access::ReadOnly
        &&& self.files.contains_key(self.open[fd].path)
    }

    /// The descriptor is open for writing, on a file that exists.
    pub open spec fn writable(self, fd: i32) -> bool {
        &&& self.open.contains_key(fd)
        &&& self.open[fd].flags.access == Access::WriteOnly
        &&& self.files.contains_key(self.open[fd].path)
    }

    /// The contents of the file that the descriptor refers to.
    pub open spec fn contents_of(self, fd: i32) -> Seq<u8> {
        self.files[self.open[fd].path]
    }
}

/// `open` of the NUL-terminated `cpath` returns `fd`. An open that fails changes
/// nothing; one that succeeds needs a file or the permission to create one, and
/// leaves the contents of a file that exists as they are.
pub open spec fn serves_open(
    before: FileSystem,
    cpath: Seq<u8>,
    flags: OpenFlags,
    fd: i32,
    after: FileSystem,
) -> bool {
    let path = cpath.drop_last();
    if fd < 0 {
        after == before
    } else {
        &&& !before.open.contains_key(fd)
        &&& before.files.contains_key(path) || flags.create
        &&& after == FileSystem {
            files: before.files.insert(path, before.contents(path)),
            open: before.open.insert(fd, OpenFile { path, flags }),
        }
    }
}

/// `pread` into `buf` from index `start` on returns `n` and leaves `filled`: the
/// first `n` bytes from there come from the file, none of them from behind its
/// end, and none at all come only at its end. What stands before `start` stays.
pub open spec fn serves_pread(
    before: FileSystem,
    fd: i32,
    buf: Seq<u8>,
    start: int,
    offset: int,
    n: int,
    filled: Seq<u8>,
    after: FileSystem,
) -> bool {
    &&& after == before
    &&& filled.len() == buf.len()
    &&& forall|i: int| 0 <= i < start ==> #[trigger] filled[i] == buf[i]
    &&& n >= 0 ==> {
        let contents = before.contents_of(fd);
        &&& before.readable(fd)
        &&& offset >= 0
        &&& start + n <= buf.len()
        &&& n > 0 ==> offset + n <= contents.len()
        &&& n == 0 ==> start == buf.len() || offset >= contents.len()
        &&& forall|i: int|
            start <= i < start + n ==> #[trigger] filled[i] == contents[offset + i - start]
    }
}

/// A write of `data` returns `n`. One that fails changes nothing; one that
/// succeeds writes the first `n` bytes: at the end of the file if the descriptor
/// appends, else at `offset`.
pub open spec fn serves_write(
    before: FileSystem,
    fd: i32,
    data: Seq<u8>,
    offset: int,
    n: int,
    after: FileSystem,
) -> bool {
    if n < 0 {
        after == before
    } else {
        let contents = before.contents_of(fd);
        let at = if before.open[fd].flags.append {
            contents.len() as int
        } else {
            offset
        };
        &&& before.writable(fd)
        &&& at >= 0
        &&& n <= data.len()
        &&& after == before.with_contents(
            before.open[fd].path,
            write_at(contents, at, data.take(n)),
        )
    }
}

/// The call that `step` asks for, made on `before`, may return `result` and
/// leave `after`.
pub open spec fn serves<H: Host>(
    before: FileSystem,
    step: FileStep<H>,
    result: CallResult<H>,
    after: FileSystem,
) -> bool {
    match (step, result) {
        (FileStep::Open { path, flags, .. }, CallResult::Open { fd, .. }) => serves_open(
            before,
            path@,
            flags,
            fd,
            after,
        ),
        (
            FileStep::Pread { fd, buf, start, offset, .. },
            CallResult::Pread { n, buf: filled },
        ) => serves_pread(
            before,
            fd,
            buf@,
            start as int,
            offset as int,
            n as int,
            filled@,
            after,
        ),
        (FileStep::Pwrite { fd, data, offset, .. }, CallResult::Write { n }) => serves_write(
            before,
            fd,
            data@,
            offset as int,
            n as int,
            after,
        ),
        (FileStep::Write { fd, data, .. }, CallResult::Write { n }) => serves_write(
            before,
            fd,
            data@,
            0,
            n as int,
            after,
        ),
        (FileStep::Close { fd, .. }, CallResult::Close { .. }) => after == (FileSystem {
            open: before.open.remove(fd),
            ..before
        }),
        (FileStep::ReadFile { path, .. }, CallResult::ReadFile { result }) => {
            &&& after == before
            &&& result matches Ok(bytes) ==> before.files.contains_key(path@) && bytes@
                == before.files[path@]
        },
        (FileStep::WriteFile { path, data, .. }, CallResult::WriteFile { result }) => {
            match result {
                Ok(_) => after == before.with_contents(path@, data@),
                // A write that fails half-way may leave anything in the file.
                Err(_) => {
                    &&& after.open == before.open
                    &&& after.files.remove(path@) == before.files.remove(path@)
                },
            }
        },
        _ => false,
    }
}

/// The calls of `run` take the system through `systems`, one after the other.
pub open spec fn served<H: Host>(run: Run<H>, systems: Seq<FileSystem>) -> bool {
    &&& run.complete()
    &&& systems.len() == run.steps.len()
    &&& forall|i: int|
        0 <= i < run.results.len() ==> serves(
            systems[i],
            run.steps[i],
            #[trigger] run.results[i],
            systems[i + 1],
        )
}

/// One call takes the system from one state to the next.
proof fn lemma_serves<H: Host>(run: Run<H>, systems: Seq<FileSystem>, i: int)
    requires
        served(run, systems),
        0 <= i < run.results.len(),
    ensures
        advances(run.steps[i], run.results[i], run.steps[i + 1]),
        serves(systems[i], run.steps[i], run.results[i], systems[i + 1]),
{
    lemma_advances(run, i);
}

/// What the calls of a run that is no read returned and did.
proof fn lemma_unfold<H: Host>(run: Run<H>, systems: Seq<FileSystem>)
    requires
        served(run, systems),
        call_bound(run.task.request) == 3,
    ensures
        run.results.len() <= 3,
        systems.last() == systems[run.results.len() as int],
        run.results.len() > 0 ==> {
            &&& advances(run.steps[0], run.results[0], run.steps[1])
            &&& serves(systems[0], run.steps[0], run.results[0], systems[1])
        },
        run.results.len() > 1 ==> {
            &&& advances(run.steps[1], run.results[1], run.steps[2])
            &&& serves(systems[1], run.steps[1], run.results[1], systems[2])
        },
        run.results.len() > 2 ==> {
            &&& advances(run.steps[2], run.results[2], run.steps[3])
            &&& serves(systems[2], run.steps[2], run.results[2], systems[3])
        },
{
    law_bounded_calls(run);
}

/// A read in progress: the system is as it was after the file was opened, and
/// what the buffer holds so far is what the file holds from the offset on.
proof fn lemma_reading<H: Host>(
    run: Run<H>,
    systems: Seq<FileSystem>,
    offset: u64,
    len: usize,
    fd: i32,
    i: int,
)
    requires
        served(run, systems),
        run.task.request.is_read(offset, len),
        run.opened_as(fd),
        1 <= i < run.steps.len(),
        run.steps[i] is Pread,
    ensures
        len <= isize::MAX,
        systems[i] == systems[1],
        systems[1].files == systems[0].files,
        systems[0].files.contains_key(run.task.path@),
        systems[1].open == systems[0].open.insert(fd, systems[1].open[fd]),
        !systems[0].open.contains_key(fd),
        systems[1].open[fd].path == run.task.path@,
        ({
            let contents = systems[0].contents(run.task.path@);
            let buf = run.steps[i]->buf@;
            let start = run.steps[i]->start;
            &&& buf.len() == len
            &&& start > 0 ==> offset + start <= contents.len() && offset <= i64::MAX
            &&& forall|k: int| 0 <= k < start ==> #[trigger] buf[k] == contents[offset + k]
        }),
    decreases i,
{
    let path = run.task.path@;
    let contents = systems[0].contents(path);
    lemma_transfer_step(run, fd, i);
    lemma_serves(run, systems, i - 1);
    if i == 1 {
        assert(path.push(0u8).drop_last() =~= path);
        assert(systems[1].files =~= systems[0].files);
    } else {
        lemma_transfer_step(run, fd, i - 1);
        lemma_reading(run, systems, offset, len, fd, i - 1);
        let earlier = run.steps[i - 1]->start;
        let before = run.steps[i - 1]->buf@;
        let buf = run.steps[i]->buf@;
        let start = run.steps[i]->start;
        assert(systems[i - 1].contents_of(fd) == contents);
        lemma_read_position(offset, earlier);
        assert forall|k: int| 0 <= k < start implies #[trigger] buf[k] == contents[offset + k] by {
            if k < earlier {
                assert(buf[k] == before[k]);
            } else {
                assert(buf[k] == contents[offset + earlier + k - earlier]);
            }
        }
    }
}

/// A position that is not negative is exactly where it should be.
proof fn lemma_read_position(offset: u64, done: usize)
    requires
        done <= isize::MAX,
    ensures
        read_position(offset, done) >= 0 && (done == 0 || offset <= i64::MAX) ==> read_position(
            offset,
            done,
        ) == offset + done,
{
    assert(isize::MAX <= i64::MAX);
}

/// How many bytes a read of `len` bytes at `offset` can find.
pub open spec fn available(contents: Seq<u8>, offset: u64, len: usize) -> int {
    if offset >= contents.len() {
        0
    } else if offset + len <= contents.len() {
        len as int
    } else {
        contents.len() - offset
    }
}

/// What a read of `len` bytes at `offset` is for: exactly `len` bytes inside the
/// file, what is left of it near the end, and nothing behind it.
pub open spec fn window(contents: Seq<u8>, offset: u64, len: usize) -> Seq<u8> {
    let n = available(contents, offset, len);
    if n == 0 {
        Seq::empty()
    } else {
        contents.subrange(offset as int, offset + n)
    }
}

/// A read that succeeds delivers all the bytes that it is for, however few of
/// them each call transfers: exactly `len` of them if the file holds as many
/// from the offset on. A read changes nothing.
pub proof fn law_read<H: Host>(run: Run<H>, systems: Seq<FileSystem>, offset: u64, len: usize)
    requires
        served(run, systems),
        run.task.request.is_read(offset, len),
    ensures
        systems.last() == systems[0],
        !run.reply().is_failure() ==> {
            let contents = systems[0].contents(run.task.path@);
            &&& systems[0].files.contains_key(run.task.path@)
            &&& run.reply().delivers(window(contents, offset, len))
            &&& offset + len <= contents.len() ==> run.reply().delivers(
                contents.subrange(offset as int, offset + len),
            )
        },
{
    lemma_shape(run);
    let calls = run.results.len() as int;
    if calls == 1 {
        lemma_serves(run, systems, 0);
    } else if calls > 1 {
        let fd = run.results[0]->fd;
        let last = calls - 2;
        let contents = systems[0].contents(run.task.path@);
        lemma_transfer_step(run, fd, last);
        lemma_reading(run, systems, offset, len, fd, last);
        lemma_serves(run, systems, last);
        lemma_serves(run, systems, last + 1);
        assert(systems.last().open =~= systems[0].open);
        if !run.reply().is_failure() {
            law_reply_is_what_the_call_returned(run);
            let start = run.steps[last]->start;
            let n = run.results[last]->Pread_n;
            let buf = run.results[last]->Pread_buf@;
            lemma_read_position(offset, start);
            let total = available(contents, offset, len);
            assert(systems[last].contents_of(fd) == contents);
            assert(start + n == total);
            assert forall|k: int| 0 <= k < total implies #[trigger] buf[k] == contents[offset
                + k] by {
                if k < start {
                    assert(buf[k] == run.steps[last]->buf@[k]);
                } else {
                    assert(buf[k] == contents[offset + start + k - start]);
                }
            }
            assert(at_most(buf, total) =~= window(contents, offset, len));
            if offset + len <= contents.len() {
                assert(window(contents, offset, len) =~= contents.subrange(
                    offset as int,
                    offset + len,
                ));
            }
        }
    }
}

/// A request leaves open exactly the descriptors that were open before.
pub proof fn law_descriptors_are_restored<H: Host>(run: Run<H>, systems: Seq<FileSystem>)
    requires
        served(run, systems),
    ensures
        systems.last().open == systems[0].open,
{
    match run.task.request {
        FileRequest::Transfer(Transfer::Read { offset, len, .. }) => {
            law_read(run, systems, offset, len);
        },
        _ => {
            lemma_shape(run);
            lemma_unfold(run, systems);
            if run.results.len() == 3 {
                let fd = run.results[0]->fd;
                assert(systems[3].open == systems[0].open.insert(
                    fd,
                    systems[1].open[fd],
                ).remove(fd));
                assert(systems[3].open =~= systems[0].open);
            }
        },
    }
}

/// A request changes no file but its own.
pub proof fn law_other_files_are_untouched<H: Host>(
    run: Run<H>,
    systems: Seq<FileSystem>,
    path: Seq<u8>,
)
    requires
        served(run, systems),
        path != run.task.path@,
    ensures
        systems.last().files.contains_key(path) == systems[0].files.contains_key(path),
        systems.last().contents(path) == systems[0].contents(path),
{
    let own = run.task.path@;
    lemma_shape(run);
    match run.task.request {
        FileRequest::Transfer(Transfer::Read { offset, len, .. }) => {
            law_read(run, systems, offset, len);
        },
        FileRequest::WriteAll { .. } => {
            lemma_unfold(run, systems);
            let after = systems.last().files;
            let before = systems[0].files;
            if run.results[0]->WriteFile_result is Err {
                assert(after.remove(own).contains_key(path) == before.remove(own).contains_key(
                    path,
                ));
                if before.contains_key(path) {
                    assert(after.remove(own)[path] == before.remove(own)[path]);
                }
            }
        },
        _ => {
            lemma_unfold(run, systems);
            assert(own.push(0u8).drop_last() =~= own);
        },
    }
}

/// The file at `path` has the bytes it had, and only came into existence if it
/// did not exist.
pub open spec fn unchanged_but_created(path: Seq<u8>, systems: Seq<FileSystem>) -> bool {
    let before = systems[0];
    let after = systems.last();
    &&& after.contents(path) == before.contents(path)
    &&& before.files.contains_key(path) ==> after.files == before.files
}

/// A write that succeeds reports how many of its bytes were written. Those are
/// in the file at the offset, and every other byte of the file is what it was.
/// A write that fails leaves the file's bytes as they were, though the file may
/// have come into existence.
pub proof fn law_write<H: Host>(
    run: Run<H>,
    systems: Seq<FileSystem>,
    offset: u64,
    data: Seq<u8>,
    n: nat,
)
    requires
        served(run, systems),
        run.task.request.is_write(offset, data),
    ensures
        run.reply().reports(n) ==> {
            let path = run.task.path@;
            &&& n <= data.len()
            &&& systems.last().files == systems[0].files.insert(
                path,
                write_at(systems[0].contents(path), offset as int, data.take(n as int)),
            )
        },
        run.reply().is_failure() ==> unchanged_but_created(run.task.path@, systems),
{
    lemma_shape(run);
    lemma_unfold(run, systems);
    let path = run.task.path@;
    if run.results.len() == 3 {
        assert(path.push(0u8).drop_last() =~= path);
        if run.reply().reports(n) {
            assert(systems.last().files =~= systems[0].files.insert(
                path,
                write_at(systems[0].contents(path), offset as int, data.take(n as int)),
            ));
        }
        if run.reply().is_failure() && systems[0].files.contains_key(path) {
            assert(systems.last().files =~= systems[0].files);
        }
    }
}

/// A write, whatever comes of it, never shortens the file and changes no byte
/// outside the range it was asked to write.
pub proof fn law_write_keeps_the_rest<H: Host>(
    run: Run<H>,
    systems: Seq<FileSystem>,
    offset: u64,
    data: Seq<u8>,
)
    requires
        served(run, systems),
        run.task.request.is_write(offset, data),
    ensures
        ({
            let before = systems[0].contents(run.task.path@);
            let after = systems.last().contents(run.task.path@);
            &&& before.len() <= after.len()
            &&& forall|i: int|
                0 <= i < before.len() && (i < offset || offset + data.len() <= i) ==> after[i]
                    == before[i]
        }),
{
    lemma_shape(run);
    let n: nat = match run.reply() {
        Reply::Write { result: Ok(n), .. } => n as nat,
        _ => 0,
    };
    law_write(run, systems, offset, data, n);
}

/// An append that succeeds reports how many of its bytes were written, and
/// those are at the end of the file, behind what was in it before. An append
/// that fails leaves the file's bytes as they were, though the file may have
/// come into existence.
pub proof fn law_append<H: Host>(run: Run<H>, systems: Seq<FileSystem>, data: Seq<u8>, n: nat)
    requires
        served(run, systems),
        run.task.request.is_append(data),
    ensures
        run.reply().reports(n) ==> {
            let path = run.task.path@;
            &&& n <= data.len()
            &&& systems.last().files == systems[0].files.insert(
                path,
                systems[0].contents(path) + data.take(n as int),
            )
        },
        run.reply().is_failure() ==> unchanged_but_created(run.task.path@, systems),
{
    lemma_shape(run);
    lemma_unfold(run, systems);
    let path = run.task.path@;
    if run.results.len() == 3 {
        assert(path.push(0u8).drop_last() =~= path);
        if run.reply().reports(n) {
            let contents = systems[0].contents(path);
            assert(write_at(contents, contents.len() as int, data.take(n as int)) =~= contents
                + data.take(n as int));
            assert(systems.last().files =~= systems[0].files.insert(
                path,
                contents + data.take(n as int),
            ));
        }
        if run.reply().is_failure() && systems[0].files.contains_key(path) {
            assert(systems.last().files =~= systems[0].files);
        }
    }
}

/// Reading a whole file delivers its contents and changes nothing.
pub proof fn law_read_all<H: Host>(run: Run<H>, systems: Seq<FileSystem>, bytes: Seq<u8>)
    requires
        served(run, systems),
        run.task.request is ReadAll,
    ensures
        systems.last() == systems[0],
        run.reply().delivers(bytes) ==> {
            &&& systems[0].files.contains_key(run.task.path@)
            &&& bytes == systems[0].files[run.task.path@]
        },
{
    lemma_shape(run);
    lemma_unfold(run, systems);
}

/// Writing a whole file leaves exactly the data in it, whatever was in it
/// before.
pub proof fn law_write_all<H: Host>(run: Run<H>, systems: Seq<FileSystem>, data: Seq<u8>)
    requires
        served(run, systems),
        run.task.request.is_write_all(data),
        run.reply().confirms(),
    ensures
        systems.last() == systems[0].with_contents(run.task.path@, data),
{
    lemma_shape(run);
    lemma_unfold(run, systems);
}

/// A file that does not exist cannot be read: the reply is an error, and the
/// file still does not exist.
pub proof fn law_missing_file_is_not_read<H: Host>(
    run: Run<H>,
    systems: Seq<FileSystem>,
    offset: u64,
    len: usize,
)
    requires
        served(run, systems),
        run.task.request is ReadAll || run.task.request.is_read(offset, len),
        !systems[0].files.contains_key(run.task.path@),
    ensures
        run.reply().is_failure(),
        systems.last().files == systems[0].files,
{
    lemma_shape(run);
    if run.task.request is ReadAll {
        let bytes = match run.reply() {
            Reply::Read { result: Ok(bytes), .. } => bytes@,
            _ => Seq::empty(),
        };
        law_read_all(run, systems, bytes);
    } else {
        law_read(run, systems, offset, len);
    }
}

/// An offset that the operating system cannot represent is answered with an
/// error.
pub proof fn law_unrepresentable_offset_fails<H: Host>(
    run: Run<H>,
    systems: Seq<FileSystem>,
    offset: u64,
    len: usize,
    data: Seq<u8>,
)
    requires
        served(run, systems),
        run.task.request.is_read(offset, len) || run.task.request.is_write(offset, data),
        offset > i64::MAX,
    ensures
        run.reply().is_failure(),
{
    lemma_shape(run);
    if run.results.len() > 1 {
        let fd = run.results[0]->fd;
        lemma_transfer_step(run, fd, 1);
        lemma_serves(run, systems, 0);
        lemma_serves(run, systems, 1);
        lemma_serves(run, systems, 2);
        lemma_transfer_step(run, fd, 3);
        law_transfer_succeeds_iff_calls_do(run);
    }
}

// ── Systems that do what they can ────────────────────────────────────────────

/// The call that `step` asks for, made on `before`, has done what can be done:
/// it failed only where it had to, and nothing was written in part.
pub open spec fn obliges<H: Host>(
    before: FileSystem,
    step: FileStep<H>,
    result: CallResult<H>,
) -> bool {
    match (step, result) {
        (FileStep::Open { path, flags, .. }, CallResult::Open { fd, .. }) => {
            before.files.contains_key(path@.drop_last()) || flags.create ==> fd >= 0
        },
        (FileStep::Pread { fd, offset, .. }, CallResult::Pread { n, .. }) => {
            before.readable(fd) && offset >= 0 ==> n >= 0
        },
        (FileStep::Pwrite { fd, data, offset, .. }, CallResult::Write { n }) => {
            before.writable(fd) && offset >= 0 ==> n == data@.len()
        },
        (FileStep::Write { fd, data, .. }, CallResult::Write { n }) => {
            before.writable(fd) ==> n == data@.len()
        },
        (FileStep::ReadFile { path, .. }, CallResult::ReadFile { result }) => {
            before.files.contains_key(path@) ==> result is Ok
        },
        (FileStep::WriteFile { .. }, CallResult::WriteFile { result }) => result is Ok,
        _ => true,
    }
}

/// Every call of `run` has done what could be done. A read may still transfer
/// fewer bytes at a time than were asked for.
pub open spec fn reliable<H: Host>(run: Run<H>, systems: Seq<FileSystem>) -> bool {
    &&& served(run, systems)
    &&& forall|i: int|
        0 <= i < run.results.len() ==> obliges(systems[i], run.steps[i], #[trigger] run.results[i])
}

/// On a system that does what it can, a read at any offset that the system can
/// represent succeeds on a file that exists.
pub proof fn law_reliable_read<H: Host>(
    run: Run<H>,
    systems: Seq<FileSystem>,
    offset: u64,
    len: usize,
)
    requires
        reliable(run, systems),
        run.task.request.is_read(offset, len),
        !run.task.path@.contains(0u8),
        systems[0].files.contains_key(run.task.path@),
        systems[0].files[run.task.path@].len() <= i64::MAX,
        offset <= i64::MAX,
    ensures
        !run.reply().is_failure(),
{
    let path = run.task.path@;
    lemma_shape(run);
    law_transfer_succeeds_iff_calls_do(run);
    assert(path.push(0u8).drop_last() =~= path);
    lemma_serves(run, systems, 0);
    assert(obliges(systems[0], run.steps[0], run.results[0]));
    let fd = run.results[0]->fd;
    let last = run.results.len() - 2;
    lemma_transfer_step(run, fd, last);
    lemma_reading(run, systems, offset, len, fd, last);
    lemma_serves(run, systems, last);
    lemma_position_in_range(offset, run.steps[last]->start);
    assert(obliges(systems[last], run.steps[last], run.results[last]));
}

/// A place that the system can represent is where it should be.
proof fn lemma_position_in_range(offset: u64, done: usize)
    ensures
        offset + done <= i64::MAX ==> read_position(offset, done) == offset + done,
{
}

/// On a system that does what it can, a write at any offset that the system can
/// represent succeeds, with all of its data.
pub proof fn law_reliable_write<H: Host>(
    run: Run<H>,
    systems: Seq<FileSystem>,
    offset: u64,
    data: Seq<u8>,
)
    requires
        reliable(run, systems),
        run.task.request.is_write(offset, data),
        !run.task.path@.contains(0u8),
        offset <= i64::MAX,
    ensures
        run.reply().reports(data.len()),
{
    lemma_shape(run);
    lemma_unfold(run, systems);
    assert(obliges(systems[0], run.steps[0], run.results[0]));
    lemma_transfer_step(run, run.results[0]->fd, 1);
    assert(obliges(systems[1], run.steps[1], run.results[1]));
}

/// On a system that does what it can, an append succeeds, with all of its data.
pub proof fn law_reliable_append<H: Host>(run: Run<H>, systems: Seq<FileSystem>, data: Seq<u8>)
    requires
        reliable(run, systems),
        run.task.request.is_append(data),
        !run.task.path@.contains(0u8),
    ensures
        run.reply().reports(data.len()),
{
    lemma_shape(run);
    lemma_unfold(run, systems);
    assert(obliges(systems[0], run.steps[0], run.results[0]));
    lemma_transfer_step(run, run.results[0]->fd, 1);
    assert(obliges(systems[1], run.steps[1], run.results[1]));
}

/// On a system that does what it can, a file that exists is read as a whole, and
/// any file is written as a whole.
pub proof fn law_reliable_whole_file<H: Host>(run: Run<H>, systems: Seq<FileSystem>)
    requires
        reliable(run, systems),
    ensures
        run.task.request is ReadAll && systems[0].files.contains_key(run.task.path@)
            ==> run.reply().delivers(systems[0].files[run.task.path@]),
        run.task.request is WriteAll ==> run.reply().confirms(),
{
    if !(run.task.request is Transfer) {
        lemma_shape(run);
        lemma_unfold(run, systems);
        assert(obliges(systems[0], run.steps[0], run.results[0]));
    }
}

// ── Requests one after the other ─────────────────────────────────────────────

/// `second` is made on the same file as `first`, on the system that `first`
/// left.
pub open spec fn follows<H: Host>(
    first: Run<H>,
    first_systems: Seq<FileSystem>,
    second: Run<H>,
    second_systems: Seq<FileSystem>,
) -> bool {
    &&& served(first, first_systems)
    &&& served(second, second_systems)
    &&& second.task.path@ == first.task.path@
    &&& second_systems[0] == first_systems.last()
}

/// A read at the offset of a write gives back what was written, as far as it is
/// asked for: all of it, if it asks for as many bytes as were written or more.
pub proof fn law_read_gives_back_write<H: Host>(
    write: Run<H>,
    written: Seq<FileSystem>,
    read: Run<H>,
    systems: Seq<FileSystem>,
    offset: u64,
    data: Seq<u8>,
    n: nat,
    len: usize,
    bytes: Seq<u8>,
)
    requires
        follows(write, written, read, systems),
        write.task.request.is_write(offset, data),
        write.reply().reports(n),
        read.task.request.is_read(offset, len),
        read.reply().delivers(bytes),
    ensures
        n <= data.len(),
        len >= n ==> bytes.len() >= n && bytes.take(n as int) == data.take(n as int),
        len <= n ==> bytes == data.take(len as int),
{
    law_write(write, written, offset, data, n);
    law_read(read, systems, offset, len);
    let contents = systems[0].contents(read.task.path@);
    assert(bytes == window(contents, offset, len));
    if len >= n {
        assert(bytes.take(n as int) =~= data.take(n as int));
    }
    if len <= n {
        assert(bytes =~= data.take(len as int));
    }
}

/// Reading the whole of a file that was written as a whole gives back exactly
/// what was written.
pub proof fn law_read_all_gives_back_write_all<H: Host>(
    write: Run<H>,
    written: Seq<FileSystem>,
    read: Run<H>,
    systems: Seq<FileSystem>,
    data: Seq<u8>,
    bytes: Seq<u8>,
)
    requires
        follows(write, written, read, systems),
        write.task.request.is_write_all(data),
        write.reply().confirms(),
        read.task.request is ReadAll,
        read.reply().delivers(bytes),
    ensures
        bytes == data,
{
    law_write_all(write, written, data);
    law_read_all(read, systems, bytes);
}

/// A file is written as a whole and then read as a whole, without waiting for
/// the first reply, and its blocking runner is sequenced: it carries the two
/// requests out one at a time, in the order of the calls. The read gives back
/// exactly what was written, and the reply to the write is posted before the
/// reply to the read, both to the I/O runner that the calls were made from.
pub proof fn law_sequenced_write_all_and_read_all<H: Host>(
    file: FilePosix<H>,
    io: H::IoRunner,
    data: Vec<u8>,
    write_cb: H::DoneCallback,
    write_posting: Posting<H>,
    read_cb: H::ReadCallback,
    read_posting: Posting<H>,
    write: Run<H>,
    written: Seq<FileSystem>,
    read: Run<H>,
    systems: Seq<FileSystem>,
)
    requires
        file.posts(io, FileRequest::WriteAll { data, cb: write_cb }, write_posting),
        file.posts(io, FileRequest::ReadAll { cb: read_cb }, read_posting),
        write.task == write_posting.task,
        read.task == read_posting.task,
        served(write, written),
        served(read, systems),
        systems[0] == written.last(),
        write.reply().confirms(),
    ensures
        !read.reply().is_failure() ==> read.reply().delivers(data@),
        replies_posted(write.steps + read.steps) == seq![(io, write.reply()), (io, read.reply())],
        replies_to(write_posting.task.request, write.reply()),
        replies_to(read_posting.task.request, read.reply()),
{
    lemma_shape(write);
    lemma_shape(read);
    if let Reply::Read { result: Ok(bytes), .. } = read.reply() {
        law_read_all_gives_back_write_all(write, written, read, systems, data@, bytes@);
    }
    let runs = seq![write, read];
    assert(runs.drop_last() =~= seq![write]);
    assert(runs.drop_last().drop_last() =~= Seq::empty());
    assert(steps_in_sequence(runs.drop_last().drop_last()) =~= Seq::empty());
    assert(steps_in_sequence(runs.drop_last()) =~= write.steps);
    assert(steps_in_sequence(runs) =~= write.steps + read.steps);
    law_replies_keep_the_order_of_requests(runs);
    assert(replies_posted(write.steps + read.steps) =~= seq![
        (io, write.reply()),
        (io, read.reply()),
    ]);
}

/// Two appends, the second after the first, leave the bytes that they wrote at
/// the end of the file, in that order.
pub proof fn law_appends_accumulate<H: Host>(
    first: Run<H>,
    first_systems: Seq<FileSystem>,
    second: Run<H>,
    second_systems: Seq<FileSystem>,
    data1: Seq<u8>,
    n1: nat,
    data2: Seq<u8>,
    n2: nat,
)
    requires
        follows(first, first_systems, second, second_systems),
        first.task.request.is_append(data1),
        first.reply().reports(n1),
        second.task.request.is_append(data2),
        second.reply().reports(n2),
    ensures
        second_systems.last().contents(first.task.path@) == first_systems[0].contents(
            first.task.path@,
        ) + data1.take(n1 as int) + data2.take(n2 as int),
{
    law_append(first, first_systems, data1, n1);
    law_append(second, second_systems, data2, n2);
}

} // verus!
