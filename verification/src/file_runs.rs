//! What holds of a file request from its first step to its reply, whatever the
//! system calls return.

use vstd::prelude::*;
use crate::blocking::{
    at_most, is_nul_path_error, read_position, AfterPread, AfterWrite, FileError, FileRequest,
    FileStep, FileTask, Host, Reply, Transfer, Transferred,
};
use crate::file_posix::{FilePosix, Posting};

verus! {

/// What the call that a step asks for has returned.
#[allow(inconsistent_fields)]
pub enum CallResult<H: Host> {
    Open { fd: i32, error: H::Error },
    Pread { n: isize, buf: Vec<u8> },
    Write { n: isize },
    Close { error: H::Error },
    ReadFile { result: Result<Vec<u8>, H::Error> },
    WriteFile { result: Result<(), H::Error> },
}

/// `next` comes after `step` if the call that `step` asks for has returned
/// `result`.
pub open spec fn advances<H: Host>(
    step: FileStep<H>,
    result: CallResult<H>,
    next: FileStep<H>,
) -> bool {
    match (step, result) {
        (FileStep::Open { resume, .. }, CallResult::Open { fd, error }) => {
            &&& fd >= 0 ==> resume.can_allocate()
            &&& resume.goes_on(fd, error, next)
        },
        (FileStep::Pread { resume, .. }, CallResult::Pread { n, buf }) => resume.goes_on(
            n,
            buf,
            next,
        ),
        (FileStep::Pwrite { resume, .. }, CallResult::Write { n }) => next == resume.next(n),
        (FileStep::Write { resume, .. }, CallResult::Write { n }) => next == resume.next(n),
        (FileStep::Close { resume, .. }, CallResult::Close { error }) => resume.goes_on(
            error,
            next,
        ),
        (FileStep::ReadFile { resume, .. }, CallResult::ReadFile { result }) => next
            == resume.next(result),
        (FileStep::WriteFile { resume, .. }, CallResult::WriteFile { result }) => next
            == resume.next(result),
        _ => false,
    }
}

/// A request as far as it has been carried out: its steps, and what the call of
/// each step but the last has returned.
pub struct Run<H: Host> {
    pub task: FileTask<H>,
    pub steps: Seq<FileStep<H>>,
    pub results: Seq<CallResult<H>>,
}

impl<H: Host> Run<H> {
    /// The steps are those of the task, from the first on.
    pub open spec fn underway(self) -> bool {
        &&& self.steps.len() == self.results.len() + 1
        &&& self.task.begins(self.steps[0])
        &&& forall|i: int|
            0 <= i < self.results.len() ==> advances(
                self.steps[i],
                #[trigger] self.results[i],
                self.steps[i + 1],
            )
    }

    /// The steps are those of the task, up to its reply.
    pub open spec fn complete(self) -> bool {
        &&& self.underway()
        &&& self.steps.last() is Post
    }

    /// The I/O runner that the reply is posted to.
    pub open spec fn reply_io(self) -> H::IoRunner {
        self.steps.last()->io
    }

    /// The reply.
    pub open spec fn reply(self) -> Reply<H> {
        self.steps.last()->reply
    }

    /// The request is a transfer and its file was opened as `fd`.
    pub open spec fn opened_as(self, fd: i32) -> bool {
        &&& fd >= 0
        &&& self.results.len() > 0
        &&& self.results[0] matches CallResult::Open { fd: file, .. } && file == fd
    }
}

impl<H: Host> FileRequest<H> {
    /// Read `len` bytes at `offset`.
    pub open spec fn is_read(self, offset: u64, len: usize) -> bool {
        self matches FileRequest::Transfer(Transfer::Read { offset: at, len: most, .. }) && at
            == offset && most == len
    }

    /// Write `data` at `offset`.
    pub open spec fn is_write(self, offset: u64, data: Seq<u8>) -> bool {
        self matches FileRequest::Transfer(Transfer::Write { offset: at, data: bytes, .. }) && at
            == offset && bytes@ == data
    }

    /// Write `data` at the end.
    pub open spec fn is_append(self, data: Seq<u8>) -> bool {
        self matches FileRequest::Transfer(Transfer::Append { data: bytes, .. }) && bytes@ == data
    }

    /// Create or truncate, and write `data`.
    pub open spec fn is_write_all(self, data: Seq<u8>) -> bool {
        self matches FileRequest::WriteAll { data: bytes, .. } && bytes@ == data
    }
}

impl<H: Host> Reply<H> {
    /// The reply delivers `bytes`.
    pub open spec fn delivers(self, bytes: Seq<u8>) -> bool {
        self matches Reply::Read { result: Ok(read), .. } && read@ == bytes
    }

    /// The reply reports that `n` bytes were written.
    pub open spec fn reports(self, n: nat) -> bool {
        self matches Reply::Write { result: Ok(written), .. } && written == n
    }

    /// The reply reports success and no more.
    pub open spec fn confirms(self) -> bool {
        self matches Reply::Done { result: Ok(_), .. }
    }

    /// The reply reports an error.
    pub open spec fn is_failure(self) -> bool {
        match self {
            Reply::Read { result, .. } => result is Err,
            Reply::Write { result, .. } => result is Err,
            Reply::Done { result, .. } => result is Err,
        }
    }
}

/// `reply` is for the callback of `request`.
pub open spec fn replies_to<H: Host>(request: FileRequest<H>, reply: Reply<H>) -> bool {
    match request {
        FileRequest::Transfer(Transfer::Read { cb, .. }) => {
            reply matches Reply::Read { cb: callback, .. } && callback == cb
        },
        FileRequest::Transfer(Transfer::Write { cb, .. }) => {
            reply matches Reply::Write { cb: callback, .. } && callback == cb
        },
        FileRequest::Transfer(Transfer::Append { cb, .. }) => {
            reply matches Reply::Write { cb: callback, .. } && callback == cb
        },
        FileRequest::ReadAll { cb } => {
            reply matches Reply::Read { cb: callback, .. } && callback == cb
        },
        FileRequest::WriteAll { cb, .. } => {
            reply matches Reply::Done { cb: callback, .. } && callback == cb
        },
    }
}

/// `step` transfers bytes through `fd`.
pub open spec fn transfers_through<H: Host>(step: FileStep<H>, fd: i32) -> bool {
    match step {
        FileStep::Pread { fd: file, .. } => file == fd,
        FileStep::Pwrite { fd: file, .. } => file == fd,
        FileStep::Write { fd: file, .. } => file == fd,
        _ => false,
    }
}

/// How many calls a request may take: three, but for a read one more for each
/// byte that it is for beyond the first.
pub open spec fn call_bound<H: Host>(request: FileRequest<H>) -> nat {
    match request {
        FileRequest::Transfer(Transfer::Read { len, .. }) if len > 1 => (len + 2) as nat,
        _ => 3,
    }
}

/// What step number `i` of a transfer can be, once its file has been opened as
/// `fd`.
pub open spec fn is_step_of_transfer<H: Host>(
    task: FileTask<H>,
    transfer: Transfer<H>,
    fd: i32,
    i: int,
    step: FileStep<H>,
) -> bool {
    let io = task.io;
    let bound = call_bound(task.request);
    match step {
        FileStep::Pread { fd: file, start, offset: at, resume, .. } => {
            transfer matches Transfer::Read { offset, len, cb } && {
                &&& file == fd
                &&& resume == AfterPread::<H> { io, fd, cb, offset, len, start }
                &&& at == read_position(offset, start)
                &&& i - 1 <= start
                &&& start < len || (start == 0 && i == 1)
                &&& i <= bound - 2
            }
        },
        FileStep::Pwrite { fd: file, resume, .. } => {
            transfer matches Transfer::Write { cb, .. } && i == 1 && file == fd && resume
                == AfterWrite::<H> { io, fd, cb }
        },
        FileStep::Write { fd: file, resume, .. } => {
            transfer matches Transfer::Append { cb, .. } && i == 1 && file == fd && resume
                == AfterWrite::<H> { io, fd, cb }
        },
        FileStep::Close { fd: file, resume } => {
            &&& file == fd
            &&& resume.io == io
            &&& 2 <= i <= bound - 1
            &&& match (transfer, resume.transferred) {
                (Transfer::Read { cb, .. }, Transferred::Read { cb: callback, .. }) => callback
                    == cb,
                (Transfer::Write { cb, .. }, Transferred::Write { cb: callback, .. }) => callback
                    == cb,
                (Transfer::Append { cb, .. }, Transferred::Write { cb: callback, .. }) => callback
                    == cb,
                _ => false,
            }
        },
        FileStep::Post { io: runner, reply } => {
            &&& runner == io
            &&& replies_to(task.request, reply)
            &&& 3 <= i <= bound
        },
        _ => false,
    }
}

/// One step comes after the other.
pub(crate) proof fn lemma_advances<H: Host>(run: Run<H>, i: int)
    requires
        run.underway(),
        0 <= i < run.results.len(),
    ensures
        advances(run.steps[i], run.results[i], run.steps[i + 1]),
{
}

/// Once its file is open, a transfer consists of transfers through the
/// descriptor, its close and the reply, in this order.
pub(crate) proof fn lemma_transfer_step<H: Host>(run: Run<H>, fd: i32, i: int)
    requires
        run.underway(),
        run.opened_as(fd),
        1 <= i < run.steps.len(),
    ensures
        run.task.request matches FileRequest::Transfer(transfer) && is_step_of_transfer(
            run.task,
            transfer,
            fd,
            i,
            run.steps[i],
        ),
        transfers_through(run.steps[i], fd) <==> (run.steps[i] is Pread || run.steps[i] is Pwrite
            || run.steps[i] is Write),
        run.steps[i] is Pread && i > 1 ==> run.steps[i - 1] is Pread,
        run.steps[i] is Close ==> i > 1 && transfers_through(run.steps[i - 1], fd),
        run.steps[i] is Post ==> i > 1 && run.steps[i - 1] is Close && i == run.results.len(),
    decreases i,
{
    lemma_advances(run, i - 1);
    if i > 1 {
        lemma_transfer_step(run, fd, i - 1);
    }
    if i < run.results.len() {
        lemma_advances(run, i);
    }
}

/// The shape of a run: nothing but the reply if the path has a NUL byte; one
/// call for a whole-file request or a file that cannot be opened; and open, some
/// transfers and close otherwise.
pub proof fn lemma_shape<H: Host>(run: Run<H>)
    requires
        run.complete(),
    ensures
        run.task.request is Transfer ==> {
            let nul = run.task.path@.contains(0u8);
            let fd = run.results[0]->fd;
            let calls = run.results.len();
            &&& nul ==> calls == 0
            &&& !nul ==> {
                &&& run.steps[0] is Open
                &&& calls > 0 && run.results[0] is Open
                &&& fd < 0 ==> calls == 1
                &&& fd >= 0 ==> {
                    &&& run.opened_as(fd)
                    &&& 3 <= calls <= call_bound(run.task.request)
                    &&& transfers_through(run.steps[calls - 2], fd)
                    &&& run.steps[calls - 1] matches FileStep::Close { fd: file, .. } && file == fd
                }
            }
        },
        !(run.task.request is Transfer) ==> run.results.len() == 1,
        run.reply_io() == run.task.io,
        replies_to(run.task.request, run.reply()),
{
    let calls = run.results.len() as int;
    if calls > 0 {
        lemma_advances(run, 0);
        if run.opened_as(run.results[0]->fd) {
            lemma_transfer_step(run, run.results[0]->fd, calls);
            lemma_transfer_step(run, run.results[0]->fd, calls - 1);
        } else if calls > 1 {
            lemma_advances(run, 1);
        }
    }
}

/// Every request is answered after a bounded number of calls: no chain of steps
/// is longer, and a chain of that length ends in the reply.
pub proof fn law_bounded_calls<H: Host>(run: Run<H>)
    requires
        run.underway(),
    ensures
        run.results.len() <= call_bound(run.task.request),
        run.results.len() == call_bound(run.task.request) ==> run.steps.last() is Post,
{
    let calls = run.results.len() as int;
    if calls > 0 {
        lemma_advances(run, 0);
        if run.opened_as(run.results[0]->fd) {
            lemma_transfer_step(run, run.results[0]->fd, calls);
        } else if calls > 1 {
            lemma_advances(run, 1);
        }
    }
}

/// The reply to a request on a file goes to the I/O runner that was current when
/// the request was made, and to the callback that the request was made with.
pub proof fn law_reply_returns_to_caller<H: Host>(
    file: FilePosix<H>,
    io: H::IoRunner,
    request: FileRequest<H>,
    posting: Posting<H>,
    run: Run<H>,
)
    requires
        file.posts(io, request, posting),
        run.complete(),
        run.task == posting.task,
    ensures
        run.reply_io() == io,
        replies_to(request, run.reply()),
{
    lemma_shape(run);
}

/// The reply is the last thing that happens: no earlier step posts one.
pub proof fn law_one_reply<H: Host>(run: Run<H>, i: int)
    requires
        run.complete(),
        0 <= i < run.steps.len(),
    ensures
        run.steps[i] is Post <==> i == run.steps.len() - 1,
{
    if i < run.results.len() {
        lemma_advances(run, i);
    }
}

/// A file that was opened is closed exactly once: after everything that is
/// transferred through it, and before the reply.
pub proof fn law_opened_file_is_closed_once<H: Host>(run: Run<H>, fd: i32, i: int)
    requires
        run.complete(),
        run.opened_as(fd),
        0 <= i < run.steps.len(),
    ensures
        run.results.len() >= 3,
        run.steps[i] is Close <==> i == run.results.len() - 1,
        run.steps[i] is Close ==> run.steps[i]->Close_fd == fd,
        0 < i < run.results.len() - 1 ==> transfers_through(run.steps[i], fd),
{
    lemma_advances(run, 0);
    lemma_shape(run);
    if i > 0 {
        lemma_transfer_step(run, fd, i);
        if i < run.results.len() {
            lemma_transfer_step(run, fd, i + 1);
            lemma_advances(run, i);
        }
    }
}

/// Nothing is closed that was not opened.
pub proof fn law_nothing_else_is_closed<H: Host>(run: Run<H>, i: int)
    requires
        run.complete(),
        0 <= i < run.steps.len(),
        run.steps[i] is Close,
    ensures
        run.opened_as(run.steps[i]->Close_fd),
{
    lemma_shape(run);
    if run.results.len() > 0 {
        lemma_advances(run, 0);
        if run.opened_as(run.results[0]->fd) && i > 0 {
            lemma_transfer_step(run, run.results[0]->fd, i);
        }
    }
}

/// A path with a NUL byte is answered with an error before any call is made.
pub proof fn law_nul_path_is_refused<H: Host>(run: Run<H>, transfer: Transfer<H>)
    requires
        run.complete(),
        run.task.request == FileRequest::Transfer(transfer),
        run.task.path@.contains(0u8),
    ensures
        run.results.len() == 0,
        exists|error: FileError<H::Error>|
            is_nul_path_error(error) && run.reply() == #[trigger] transfer.failure(error),
{
    lemma_shape(run);
}

/// A file that cannot be opened is answered with the error of that call, and no
/// other call is made.
pub proof fn law_open_failure_is_reported<H: Host>(
    run: Run<H>,
    transfer: Transfer<H>,
    fd: i32,
    error: H::Error,
)
    requires
        run.complete(),
        run.task.request == FileRequest::Transfer(transfer),
        run.results.len() > 0,
        run.results[0] == (CallResult::<H>::Open { fd, error }),
        fd < 0,
    ensures
        run.results.len() == 1,
        run.reply() == transfer.failure(FileError::Io(error)),
{
    lemma_shape(run);
    lemma_advances(run, 0);
}

/// What a transfer's call has returned: the number of bytes, or a negative
/// number.
pub open spec fn transferred<H: Host>(result: CallResult<H>) -> int {
    match result {
        CallResult::Pread { n, .. } => n as int,
        CallResult::Write { n } => n as int,
        _ => -1,
    }
}

/// A transfer succeeds exactly if its path can be passed on, its file was opened
/// and the last call that transferred bytes did not fail; closing the file has
/// no say in it.
pub proof fn law_transfer_succeeds_iff_calls_do<H: Host>(run: Run<H>)
    requires
        run.complete(),
        run.task.request is Transfer,
    ensures
        !run.reply().is_failure() <==> {
            &&& !run.task.path@.contains(0u8)
            &&& run.opened_as(run.results[0]->fd)
            &&& transferred(run.results[run.results.len() - 2]) >= 0
        },
{
    lemma_shape(run);
    let calls = run.results.len() as int;
    if calls >= 3 {
        lemma_advances(run, calls - 1);
        lemma_advances(run, calls - 2);
    } else if calls == 1 {
        lemma_advances(run, 0);
    }
}

/// A whole-file request succeeds exactly if its call does.
pub proof fn law_whole_file_request_succeeds_iff_call_does<H: Host>(run: Run<H>)
    requires
        run.complete(),
        !(run.task.request is Transfer),
    ensures
        !run.reply().is_failure() <==> match run.results[0] {
            CallResult::ReadFile { result } => result is Ok,
            CallResult::WriteFile { result } => result is Ok,
            _ => false,
        },
{
    lemma_shape(run);
    lemma_advances(run, 0);
}

/// A read that succeeds delivers what its buffer holds after the last call, up
/// to where that call has filled it; a write or an append that succeeds reports
/// the count that its call has returned.
pub proof fn law_reply_is_what_the_call_returned<H: Host>(run: Run<H>)
    requires
        run.complete(),
        run.task.request is Transfer,
        !run.reply().is_failure(),
    ensures
        ({
            let last = run.results.len() - 2;
            match (run.steps[last], run.results[last]) {
                (FileStep::Pread { resume, .. }, CallResult::Pread { n, buf }) => {
                    run.reply().delivers(at_most(buf@, resume.total(n as int)))
                },
                (FileStep::Pwrite { .. }, CallResult::Write { n }) => run.reply().reports(n as nat),
                (FileStep::Write { .. }, CallResult::Write { n }) => run.reply().reports(n as nat),
                _ => false,
            }
        }),
{
    lemma_shape(run);
    law_transfer_succeeds_iff_calls_do(run);
    let calls = run.results.len() as int;
    lemma_advances(run, calls - 1);
    lemma_advances(run, calls - 2);
}

// ── Requests on a sequenced runner ───────────────────────────────────────────

/// The steps of requests that are carried out one at a time, in this order.
pub open spec fn steps_in_sequence<H: Host>(runs: Seq<Run<H>>) -> Seq<FileStep<H>>
    decreases runs.len(),
{
    if runs.len() == 0 {
        Seq::empty()
    } else {
        steps_in_sequence(runs.drop_last()) + runs.last().steps
    }
}

/// The replies that `steps` post, in the order in which they post them, each
/// with the I/O runner it is posted to.
pub open spec fn replies_posted<H: Host>(steps: Seq<FileStep<H>>) -> Seq<(H::IoRunner, Reply<H>)>
    decreases steps.len(),
{
    if steps.len() == 0 {
        Seq::empty()
    } else {
        let earlier = replies_posted(steps.drop_last());
        match steps.last() {
            FileStep::Post { io, reply } => earlier.push((io, reply)),
            _ => earlier,
        }
    }
}

/// What is posted by some steps and then others is what the former post and
/// then what the latter post.
proof fn lemma_replies_posted_concat<H: Host>(a: Seq<FileStep<H>>, b: Seq<FileStep<H>>)
    ensures
        replies_posted(a + b) == replies_posted(a) + replies_posted(b),
    decreases b.len(),
{
    if b.len() == 0 {
        assert(a + b =~= a);
        assert(replies_posted(a) + replies_posted(b) =~= replies_posted(a));
    } else {
        lemma_replies_posted_concat(a, b.drop_last());
        assert((a + b).drop_last() =~= a + b.drop_last());
        assert((a + b).last() == b.last());
        assert(replies_posted(a + b) =~= replies_posted(a) + replies_posted(b));
    }
}

/// Steps of which none is a reply post nothing.
proof fn lemma_nothing_posted<H: Host>(steps: Seq<FileStep<H>>)
    requires
        forall|i: int| 0 <= i < steps.len() ==> !(#[trigger] steps[i] is Post),
    ensures
        replies_posted(steps).len() == 0,
    decreases steps.len(),
{
    if steps.len() > 0 {
        let earlier = steps.drop_last();
        assert forall|i: int| 0 <= i < earlier.len() implies !(#[trigger] earlier[i] is Post) by {
            assert(earlier[i] == steps[i]);
        }
        lemma_nothing_posted(earlier);
    }
}

/// A request that has been carried out has posted its own reply and nothing
/// else.
pub proof fn law_run_posts_its_reply<H: Host>(run: Run<H>)
    requires
        run.complete(),
    ensures
        replies_posted(run.steps) == seq![(run.reply_io(), run.reply())],
{
    let earlier = run.steps.drop_last();
    assert forall|i: int| 0 <= i < earlier.len() implies !(#[trigger] earlier[i] is Post) by {
        law_one_reply(run, i);
    }
    lemma_nothing_posted(earlier);
    assert(replies_posted(run.steps) =~= seq![(run.reply_io(), run.reply())]);
}

/// Requests that are carried out one at a time post their replies in the same
/// order, one each.
pub proof fn law_replies_keep_the_order_of_requests<H: Host>(runs: Seq<Run<H>>)
    requires
        forall|i: int| 0 <= i < runs.len() ==> (#[trigger] runs[i]).complete(),
    ensures
        replies_posted(steps_in_sequence(runs)) == Seq::new(
            runs.len(),
            |i: int| (runs[i].reply_io(), runs[i].reply()),
        ),
    decreases runs.len(),
{
    if runs.len() > 0 {
        let earlier = runs.drop_last();
        assert forall|i: int| 0 <= i < earlier.len() implies (#[trigger] earlier[i]).complete() by {
            assert(earlier[i] == runs[i]);
        }
        law_replies_keep_the_order_of_requests(earlier);
        assert(runs.last() == runs[runs.len() - 1]);
        law_run_posts_its_reply(runs.last());
        lemma_replies_posted_concat(steps_in_sequence(earlier), runs.last().steps);
    }
    assert(replies_posted(steps_in_sequence(runs)) =~= Seq::new(
        runs.len(),
        |i: int| (runs[i].reply_io(), runs[i].reply()),
    ));
}

/// Of two requests carried out one after the other, the first posts its reply at
/// its own end, before the second has made any call, and the second posts its
/// reply at the very end.
pub proof fn law_first_reply_before_second<H: Host>(first: Run<H>, second: Run<H>, i: int)
    requires
        first.complete(),
        second.complete(),
        0 <= i < first.steps.len() + second.steps.len(),
    ensures
        (first.steps + second.steps)[i] is Post <==> (i == first.steps.len() - 1 || i
            == first.steps.len() + second.steps.len() - 1),
        (first.steps + second.steps)[first.steps.len() - 1] == first.steps.last(),
        (first.steps + second.steps).last() == second.steps.last(),
{
    if i < first.steps.len() {
        law_one_reply(first, i);
    } else {
        law_one_reply(second, i - first.steps.len());
    }
}

} // verus!
